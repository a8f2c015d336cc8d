//! Triple DES: three DES passes under two or three keys, in the
//! encrypt-decrypt-encrypt (EDE) or encrypt-encrypt-encrypt (EEE) arrangement.
use vstd::prelude::*;

use crate::block::{BlockCipher, BlockInverse};
use crate::Error;
use crate::bytes::{
    lemma_u64_be_of_bytes, lemma_u64_bytes_of_be, u64_from_be, u64_from_be_bytes, u64_to_be,
};
use crate::des::{
    block_to_u64, des_decrypt, des_encrypt, key_schedule, lemma_des_inverse, u64_to_block, Des,
};

verus! {

/// Triple DES, EDE3: encryption is E(k3, D(k2, E(k1, x))).
#[derive(Clone)]
pub struct TdesEde3 {
    d1: Des,
    d2: Des,
    d3: Des,
}

impl TdesEde3 {
    /// The round keys of DES pass key 1.
    pub closed spec fn keys1(&self) -> Seq<u64> {
        self.d1.round_keys()
    }

    /// The round keys of DES pass key 2.
    pub closed spec fn keys2(&self) -> Seq<u64> {
        self.d2.round_keys()
    }

    /// The round keys of DES pass key 3.
    pub closed spec fn keys3(&self) -> Seq<u64> {
        self.d3.round_keys()
    }

    /// Builds the cipher from a 24-byte key, split into eight-byte DES keys, first key first.
    pub fn new(key: &[u8; 24]) -> (r: Self)
        ensures
            r.keys1() == key_schedule(u64_from_be(key@.subrange(0, 8))),
            r.keys2() == key_schedule(u64_from_be(key@.subrange(8, 16))),
            r.keys3() == key_schedule(u64_from_be(key@.subrange(16, 24))),
            r.wf_keys(),
    {
        Self::with_key(key)
    }

    /// Builds the cipher from a key given as a slice, which must hold 24 bytes.
    pub fn new_from_slice(key: &[u8]) -> (r: Result<Self, Error>)
        ensures
            match r {
                Ok(c) => key@.len() == 24
                    && c.wf_keys()
                    && c.keys1() == key_schedule(u64_from_be(key@.subrange(0, 8)))
                    && c.keys2() == key_schedule(u64_from_be(key@.subrange(8, 16)))
                    && c.keys3() == key_schedule(u64_from_be(key@.subrange(16, 24))),
                Err(e) => key@.len() != 24 && e == Error::InvalidKeyLength,
            },
    {
        if key.len() != 24 {
            return Err(Error::InvalidKeyLength);
        }
        Ok(Self::with_key(key))
    }

    fn with_key(key: &[u8]) -> (r: Self)
        requires
            key@.len() == 24,
        ensures
            r.keys1() == key_schedule(u64_from_be(key@.subrange(0, 8))),
            r.keys2() == key_schedule(u64_from_be(key@.subrange(8, 16))),
            r.keys3() == key_schedule(u64_from_be(key@.subrange(16, 24))),
            r.wf_keys(),
    {
        let d1 = Des::from_u64(u64_from_be_bytes(key, 0));
        let d2 = Des::from_u64(u64_from_be_bytes(key, 8));
        let d3 = Des::from_u64(u64_from_be_bytes(key, 16));
        Self { d1, d2, d3 }
    }

    pub open spec fn wf_keys(&self) -> bool {
        self.keys1().len() == 16 && self.keys2().len() == 16 && self.keys3().len() == 16
    }

    /// Encryption of a block given as a 64-bit integer.
    pub open spec fn encrypt_u64(&self, x: u64) -> u64 {
        des_encrypt(self.keys3(), des_decrypt(self.keys2(), des_encrypt(self.keys1(), x)))
    }

    /// Decryption of a block given as a 64-bit integer.
    pub open spec fn decrypt_u64(&self, x: u64) -> u64 {
        des_decrypt(self.keys1(), des_encrypt(self.keys2(), des_decrypt(self.keys3(), x)))
    }

    pub fn encrypt_block_inout(&self, x: u64) -> (r: u64)
        requires
            self.wf_keys(),
        ensures
            r == self.encrypt_u64(x),
    {
        let x = self.d1.encrypt(x);
        let x = self.d2.decrypt(x);
        let x = self.d3.encrypt(x);
        x
    }

    pub fn decrypt_block_inout(&self, x: u64) -> (r: u64)
        requires
            self.wf_keys(),
        ensures
            r == self.decrypt_u64(x),
    {
        let x = self.d3.decrypt(x);
        let x = self.d2.encrypt(x);
        let x = self.d1.decrypt(x);
        x
    }
}

impl BlockCipher for TdesEde3 {
    open spec fn spec_block_size() -> nat {
        8
    }

    open spec fn wf(&self) -> bool {
        self.wf_keys()
    }

    open spec fn encrypt_spec(&self, b: Seq<u8>) -> Seq<u8> {
        u64_to_be(self.encrypt_u64(u64_from_be(b)))
    }

    open spec fn decrypt_spec(&self, b: Seq<u8>) -> Seq<u8> {
        u64_to_be(self.decrypt_u64(u64_from_be(b)))
    }

    proof fn lemma_block_len(&self, b: Seq<u8>) {
    }

    fn block_size(&self) -> (r: usize) {
        8
    }

    fn encrypt_block(&self, block: &mut Vec<u8>) {
        let x = block_to_u64(block);
        *block = u64_to_block(self.encrypt_block_inout(x));
    }

    fn decrypt_block(&self, block: &mut Vec<u8>) {
        let x = block_to_u64(block);
        *block = u64_to_block(self.decrypt_block_inout(x));
    }
}

impl BlockInverse for TdesEde3 {
    proof fn lemma_decrypt_encrypt(&self, b: Seq<u8>) {
        let x0 = u64_from_be(b);
        let x1 = des_encrypt(self.keys1(), x0);
        let x2 = des_decrypt(self.keys2(), x1);
        let x3 = des_encrypt(self.keys3(), x2);
        lemma_des_inverse(self.keys1(), x0);
        lemma_des_inverse(self.keys2(), x0);
        lemma_des_inverse(self.keys3(), x0);
        lemma_des_inverse(self.keys1(), x1);
        lemma_des_inverse(self.keys2(), x1);
        lemma_des_inverse(self.keys3(), x1);
        lemma_des_inverse(self.keys1(), x2);
        lemma_des_inverse(self.keys2(), x2);
        lemma_des_inverse(self.keys3(), x2);
        lemma_des_inverse(self.keys1(), x3);
        lemma_des_inverse(self.keys2(), x3);
        lemma_des_inverse(self.keys3(), x3);
        lemma_u64_be_of_bytes(x3);
        lemma_u64_bytes_of_be(b);
    }

    proof fn lemma_encrypt_decrypt(&self, b: Seq<u8>) {
        let x0 = u64_from_be(b);
        let x1 = des_decrypt(self.keys3(), x0);
        let x2 = des_encrypt(self.keys2(), x1);
        let x3 = des_decrypt(self.keys1(), x2);
        lemma_des_inverse(self.keys1(), x0);
        lemma_des_inverse(self.keys2(), x0);
        lemma_des_inverse(self.keys3(), x0);
        lemma_des_inverse(self.keys1(), x1);
        lemma_des_inverse(self.keys2(), x1);
        lemma_des_inverse(self.keys3(), x1);
        lemma_des_inverse(self.keys1(), x2);
        lemma_des_inverse(self.keys2(), x2);
        lemma_des_inverse(self.keys3(), x2);
        lemma_des_inverse(self.keys1(), x3);
        lemma_des_inverse(self.keys2(), x3);
        lemma_des_inverse(self.keys3(), x3);
        lemma_u64_be_of_bytes(x3);
        lemma_u64_bytes_of_be(b);
    }
}

/// Triple DES, EEE3: encryption is E(k3, E(k2, E(k1, x))).
#[derive(Clone)]
pub struct TdesEee3 {
    d1: Des,
    d2: Des,
    d3: Des,
}

impl TdesEee3 {
    /// The round keys of DES pass key 1.
    pub closed spec fn keys1(&self) -> Seq<u64> {
        self.d1.round_keys()
    }

    /// The round keys of DES pass key 2.
    pub closed spec fn keys2(&self) -> Seq<u64> {
        self.d2.round_keys()
    }

    /// The round keys of DES pass key 3.
    pub closed spec fn keys3(&self) -> Seq<u64> {
        self.d3.round_keys()
    }

    /// Builds the cipher from a 24-byte key, split into eight-byte DES keys, first key first.
    pub fn new(key: &[u8; 24]) -> (r: Self)
        ensures
            r.keys1() == key_schedule(u64_from_be(key@.subrange(0, 8))),
            r.keys2() == key_schedule(u64_from_be(key@.subrange(8, 16))),
            r.keys3() == key_schedule(u64_from_be(key@.subrange(16, 24))),
            r.wf_keys(),
    {
        Self::with_key(key)
    }

    /// Builds the cipher from a key given as a slice, which must hold 24 bytes.
    pub fn new_from_slice(key: &[u8]) -> (r: Result<Self, Error>)
        ensures
            match r {
                Ok(c) => key@.len() == 24
                    && c.wf_keys()
                    && c.keys1() == key_schedule(u64_from_be(key@.subrange(0, 8)))
                    && c.keys2() == key_schedule(u64_from_be(key@.subrange(8, 16)))
                    && c.keys3() == key_schedule(u64_from_be(key@.subrange(16, 24))),
                Err(e) => key@.len() != 24 && e == Error::InvalidKeyLength,
            },
    {
        if key.len() != 24 {
            return Err(Error::InvalidKeyLength);
        }
        Ok(Self::with_key(key))
    }

    fn with_key(key: &[u8]) -> (r: Self)
        requires
            key@.len() == 24,
        ensures
            r.keys1() == key_schedule(u64_from_be(key@.subrange(0, 8))),
            r.keys2() == key_schedule(u64_from_be(key@.subrange(8, 16))),
            r.keys3() == key_schedule(u64_from_be(key@.subrange(16, 24))),
            r.wf_keys(),
    {
        let d1 = Des::from_u64(u64_from_be_bytes(key, 0));
        let d2 = Des::from_u64(u64_from_be_bytes(key, 8));
        let d3 = Des::from_u64(u64_from_be_bytes(key, 16));
        Self { d1, d2, d3 }
    }

    pub open spec fn wf_keys(&self) -> bool {
        self.keys1().len() == 16 && self.keys2().len() == 16 && self.keys3().len() == 16
    }

    /// Encryption of a block given as a 64-bit integer.
    pub open spec fn encrypt_u64(&self, x: u64) -> u64 {
        des_encrypt(self.keys3(), des_encrypt(self.keys2(), des_encrypt(self.keys1(), x)))
    }

    /// Decryption of a block given as a 64-bit integer.
    pub open spec fn decrypt_u64(&self, x: u64) -> u64 {
        des_decrypt(self.keys1(), des_decrypt(self.keys2(), des_decrypt(self.keys3(), x)))
    }

    pub fn encrypt_block_inout(&self, x: u64) -> (r: u64)
        requires
            self.wf_keys(),
        ensures
            r == self.encrypt_u64(x),
    {
        let x = self.d1.encrypt(x);
        let x = self.d2.encrypt(x);
        let x = self.d3.encrypt(x);
        x
    }

    pub fn decrypt_block_inout(&self, x: u64) -> (r: u64)
        requires
            self.wf_keys(),
        ensures
            r == self.decrypt_u64(x),
    {
        let x = self.d3.decrypt(x);
        let x = self.d2.decrypt(x);
        let x = self.d1.decrypt(x);
        x
    }
}

impl BlockCipher for TdesEee3 {
    open spec fn spec_block_size() -> nat {
        8
    }

    open spec fn wf(&self) -> bool {
        self.wf_keys()
    }

    open spec fn encrypt_spec(&self, b: Seq<u8>) -> Seq<u8> {
        u64_to_be(self.encrypt_u64(u64_from_be(b)))
    }

    open spec fn decrypt_spec(&self, b: Seq<u8>) -> Seq<u8> {
        u64_to_be(self.decrypt_u64(u64_from_be(b)))
    }

    proof fn lemma_block_len(&self, b: Seq<u8>) {
    }

    fn block_size(&self) -> (r: usize) {
        8
    }

    fn encrypt_block(&self, block: &mut Vec<u8>) {
        let x = block_to_u64(block);
        *block = u64_to_block(self.encrypt_block_inout(x));
    }

    fn decrypt_block(&self, block: &mut Vec<u8>) {
        let x = block_to_u64(block);
        *block = u64_to_block(self.decrypt_block_inout(x));
    }
}

impl BlockInverse for TdesEee3 {
    proof fn lemma_decrypt_encrypt(&self, b: Seq<u8>) {
        let x0 = u64_from_be(b);
        let x1 = des_encrypt(self.keys1(), x0);
        let x2 = des_encrypt(self.keys2(), x1);
        let x3 = des_encrypt(self.keys3(), x2);
        lemma_des_inverse(self.keys1(), x0);
        lemma_des_inverse(self.keys2(), x0);
        lemma_des_inverse(self.keys3(), x0);
        lemma_des_inverse(self.keys1(), x1);
        lemma_des_inverse(self.keys2(), x1);
        lemma_des_inverse(self.keys3(), x1);
        lemma_des_inverse(self.keys1(), x2);
        lemma_des_inverse(self.keys2(), x2);
        lemma_des_inverse(self.keys3(), x2);
        lemma_des_inverse(self.keys1(), x3);
        lemma_des_inverse(self.keys2(), x3);
        lemma_des_inverse(self.keys3(), x3);
        lemma_u64_be_of_bytes(x3);
        lemma_u64_bytes_of_be(b);
    }

    proof fn lemma_encrypt_decrypt(&self, b: Seq<u8>) {
        let x0 = u64_from_be(b);
        let x1 = des_decrypt(self.keys3(), x0);
        let x2 = des_decrypt(self.keys2(), x1);
        let x3 = des_decrypt(self.keys1(), x2);
        lemma_des_inverse(self.keys1(), x0);
        lemma_des_inverse(self.keys2(), x0);
        lemma_des_inverse(self.keys3(), x0);
        lemma_des_inverse(self.keys1(), x1);
        lemma_des_inverse(self.keys2(), x1);
        lemma_des_inverse(self.keys3(), x1);
        lemma_des_inverse(self.keys1(), x2);
        lemma_des_inverse(self.keys2(), x2);
        lemma_des_inverse(self.keys3(), x2);
        lemma_des_inverse(self.keys1(), x3);
        lemma_des_inverse(self.keys2(), x3);
        lemma_des_inverse(self.keys3(), x3);
        lemma_u64_be_of_bytes(x3);
        lemma_u64_bytes_of_be(b);
    }
}

/// Triple DES, EDE2: encryption is E(k1, D(k2, E(k1, x))).
#[derive(Clone)]
pub struct TdesEde2 {
    d1: Des,
    d2: Des,
}

impl TdesEde2 {
    /// The round keys of DES pass key 1.
    pub closed spec fn keys1(&self) -> Seq<u64> {
        self.d1.round_keys()
    }

    /// The round keys of DES pass key 2.
    pub closed spec fn keys2(&self) -> Seq<u64> {
        self.d2.round_keys()
    }

    /// Builds the cipher from a 16-byte key, split into eight-byte DES keys, first key first.
    pub fn new(key: &[u8; 16]) -> (r: Self)
        ensures
            r.keys1() == key_schedule(u64_from_be(key@.subrange(0, 8))),
            r.keys2() == key_schedule(u64_from_be(key@.subrange(8, 16))),
            r.wf_keys(),
    {
        Self::with_key(key)
    }

    /// Builds the cipher from a key given as a slice, which must hold 16 bytes.
    pub fn new_from_slice(key: &[u8]) -> (r: Result<Self, Error>)
        ensures
            match r {
                Ok(c) => key@.len() == 16
                    && c.wf_keys()
                    && c.keys1() == key_schedule(u64_from_be(key@.subrange(0, 8)))
                    && c.keys2() == key_schedule(u64_from_be(key@.subrange(8, 16))),
                Err(e) => key@.len() != 16 && e == Error::InvalidKeyLength,
            },
    {
        if key.len() != 16 {
            return Err(Error::InvalidKeyLength);
        }
        Ok(Self::with_key(key))
    }

    fn with_key(key: &[u8]) -> (r: Self)
        requires
            key@.len() == 16,
        ensures
            r.keys1() == key_schedule(u64_from_be(key@.subrange(0, 8))),
            r.keys2() == key_schedule(u64_from_be(key@.subrange(8, 16))),
            r.wf_keys(),
    {
        let d1 = Des::from_u64(u64_from_be_bytes(key, 0));
        let d2 = Des::from_u64(u64_from_be_bytes(key, 8));
        Self { d1, d2 }
    }

    pub open spec fn wf_keys(&self) -> bool {
        self.keys1().len() == 16 && self.keys2().len() == 16
    }

    /// Encryption of a block given as a 64-bit integer.
    pub open spec fn encrypt_u64(&self, x: u64) -> u64 {
        des_encrypt(self.keys1(), des_decrypt(self.keys2(), des_encrypt(self.keys1(), x)))
    }

    /// Decryption of a block given as a 64-bit integer.
    pub open spec fn decrypt_u64(&self, x: u64) -> u64 {
        des_decrypt(self.keys1(), des_encrypt(self.keys2(), des_decrypt(self.keys1(), x)))
    }

    pub fn encrypt_block_inout(&self, x: u64) -> (r: u64)
        requires
            self.wf_keys(),
        ensures
            r == self.encrypt_u64(x),
    {
        let x = self.d1.encrypt(x);
        let x = self.d2.decrypt(x);
        let x = self.d1.encrypt(x);
        x
    }

    pub fn decrypt_block_inout(&self, x: u64) -> (r: u64)
        requires
            self.wf_keys(),
        ensures
            r == self.decrypt_u64(x),
    {
        let x = self.d1.decrypt(x);
        let x = self.d2.encrypt(x);
        let x = self.d1.decrypt(x);
        x
    }
}

impl BlockCipher for TdesEde2 {
    open spec fn spec_block_size() -> nat {
        8
    }

    open spec fn wf(&self) -> bool {
        self.wf_keys()
    }

    open spec fn encrypt_spec(&self, b: Seq<u8>) -> Seq<u8> {
        u64_to_be(self.encrypt_u64(u64_from_be(b)))
    }

    open spec fn decrypt_spec(&self, b: Seq<u8>) -> Seq<u8> {
        u64_to_be(self.decrypt_u64(u64_from_be(b)))
    }

    proof fn lemma_block_len(&self, b: Seq<u8>) {
    }

    fn block_size(&self) -> (r: usize) {
        8
    }

    fn encrypt_block(&self, block: &mut Vec<u8>) {
        let x = block_to_u64(block);
        *block = u64_to_block(self.encrypt_block_inout(x));
    }

    fn decrypt_block(&self, block: &mut Vec<u8>) {
        let x = block_to_u64(block);
        *block = u64_to_block(self.decrypt_block_inout(x));
    }
}

impl BlockInverse for TdesEde2 {
    proof fn lemma_decrypt_encrypt(&self, b: Seq<u8>) {
        let x0 = u64_from_be(b);
        let x1 = des_encrypt(self.keys1(), x0);
        let x2 = des_decrypt(self.keys2(), x1);
        let x3 = des_encrypt(self.keys1(), x2);
        lemma_des_inverse(self.keys1(), x0);
        lemma_des_inverse(self.keys2(), x0);
        lemma_des_inverse(self.keys1(), x1);
        lemma_des_inverse(self.keys2(), x1);
        lemma_des_inverse(self.keys1(), x2);
        lemma_des_inverse(self.keys2(), x2);
        lemma_des_inverse(self.keys1(), x3);
        lemma_des_inverse(self.keys2(), x3);
        lemma_u64_be_of_bytes(x3);
        lemma_u64_bytes_of_be(b);
    }

    proof fn lemma_encrypt_decrypt(&self, b: Seq<u8>) {
        let x0 = u64_from_be(b);
        let x1 = des_decrypt(self.keys1(), x0);
        let x2 = des_encrypt(self.keys2(), x1);
        let x3 = des_decrypt(self.keys1(), x2);
        lemma_des_inverse(self.keys1(), x0);
        lemma_des_inverse(self.keys2(), x0);
        lemma_des_inverse(self.keys1(), x1);
        lemma_des_inverse(self.keys2(), x1);
        lemma_des_inverse(self.keys1(), x2);
        lemma_des_inverse(self.keys2(), x2);
        lemma_des_inverse(self.keys1(), x3);
        lemma_des_inverse(self.keys2(), x3);
        lemma_u64_be_of_bytes(x3);
        lemma_u64_bytes_of_be(b);
    }
}

/// Triple DES, EEE2: encryption is E(k1, E(k2, E(k1, x))).
#[derive(Clone)]
pub struct TdesEee2 {
    d1: Des,
    d2: Des,
}

impl TdesEee2 {
    /// The round keys of DES pass key 1.
    pub closed spec fn keys1(&self) -> Seq<u64> {
        self.d1.round_keys()
    }

    /// The round keys of DES pass key 2.
    pub closed spec fn keys2(&self) -> Seq<u64> {
        self.d2.round_keys()
    }

    /// Builds the cipher from a 16-byte key, split into eight-byte DES keys, first key first.
    pub fn new(key: &[u8; 16]) -> (r: Self)
        ensures
            r.keys1() == key_schedule(u64_from_be(key@.subrange(0, 8))),
            r.keys2() == key_schedule(u64_from_be(key@.subrange(8, 16))),
            r.wf_keys(),
    {
        Self::with_key(key)
    }

    /// Builds the cipher from a key given as a slice, which must hold 16 bytes.
    pub fn new_from_slice(key: &[u8]) -> (r: Result<Self, Error>)
        ensures
            match r {
                Ok(c) => key@.len() == 16
                    && c.wf_keys()
                    && c.keys1() == key_schedule(u64_from_be(key@.subrange(0, 8)))
                    && c.keys2() == key_schedule(u64_from_be(key@.subrange(8, 16))),
                Err(e) => key@.len() != 16 && e == Error::InvalidKeyLength,
            },
    {
        if key.len() != 16 {
            return Err(Error::InvalidKeyLength);
        }
        Ok(Self::with_key(key))
    }

    fn with_key(key: &[u8]) -> (r: Self)
        requires
            key@.len() == 16,
        ensures
            r.keys1() == key_schedule(u64_from_be(key@.subrange(0, 8))),
            r.keys2() == key_schedule(u64_from_be(key@.subrange(8, 16))),
            r.wf_keys(),
    {
        let d1 = Des::from_u64(u64_from_be_bytes(key, 0));
        let d2 = Des::from_u64(u64_from_be_bytes(key, 8));
        Self { d1, d2 }
    }

    pub open spec fn wf_keys(&self) -> bool {
        self.keys1().len() == 16 && self.keys2().len() == 16
    }

    /// Encryption of a block given as a 64-bit integer.
    pub open spec fn encrypt_u64(&self, x: u64) -> u64 {
        des_encrypt(self.keys1(), des_encrypt(self.keys2(), des_encrypt(self.keys1(), x)))
    }

    /// Decryption of a block given as a 64-bit integer.
    pub open spec fn decrypt_u64(&self, x: u64) -> u64 {
        des_decrypt(self.keys1(), des_decrypt(self.keys2(), des_decrypt(self.keys1(), x)))
    }

    pub fn encrypt_block_inout(&self, x: u64) -> (r: u64)
        requires
            self.wf_keys(),
        ensures
            r == self.encrypt_u64(x),
    {
        let x = self.d1.encrypt(x);
        let x = self.d2.encrypt(x);
        let x = self.d1.encrypt(x);
        x
    }

    pub fn decrypt_block_inout(&self, x: u64) -> (r: u64)
        requires
            self.wf_keys(),
        ensures
            r == self.decrypt_u64(x),
    {
        let x = self.d1.decrypt(x);
        let x = self.d2.decrypt(x);
        let x = self.d1.decrypt(x);
        x
    }
}

impl BlockCipher for TdesEee2 {
    open spec fn spec_block_size() -> nat {
        8
    }

    open spec fn wf(&self) -> bool {
        self.wf_keys()
    }

    open spec fn encrypt_spec(&self, b: Seq<u8>) -> Seq<u8> {
        u64_to_be(self.encrypt_u64(u64_from_be(b)))
    }

    open spec fn decrypt_spec(&self, b: Seq<u8>) -> Seq<u8> {
        u64_to_be(self.decrypt_u64(u64_from_be(b)))
    }

    proof fn lemma_block_len(&self, b: Seq<u8>) {
    }

    fn block_size(&self) -> (r: usize) {
        8
    }

    fn encrypt_block(&self, block: &mut Vec<u8>) {
        let x = block_to_u64(block);
        *block = u64_to_block(self.encrypt_block_inout(x));
    }

    fn decrypt_block(&self, block: &mut Vec<u8>) {
        let x = block_to_u64(block);
        *block = u64_to_block(self.decrypt_block_inout(x));
    }
}

impl BlockInverse for TdesEee2 {
    proof fn lemma_decrypt_encrypt(&self, b: Seq<u8>) {
        let x0 = u64_from_be(b);
        let x1 = des_encrypt(self.keys1(), x0);
        let x2 = des_encrypt(self.keys2(), x1);
        let x3 = des_encrypt(self.keys1(), x2);
        lemma_des_inverse(self.keys1(), x0);
        lemma_des_inverse(self.keys2(), x0);
        lemma_des_inverse(self.keys1(), x1);
        lemma_des_inverse(self.keys2(), x1);
        lemma_des_inverse(self.keys1(), x2);
        lemma_des_inverse(self.keys2(), x2);
        lemma_des_inverse(self.keys1(), x3);
        lemma_des_inverse(self.keys2(), x3);
        lemma_u64_be_of_bytes(x3);
        lemma_u64_bytes_of_be(b);
    }

    proof fn lemma_encrypt_decrypt(&self, b: Seq<u8>) {
        let x0 = u64_from_be(b);
        let x1 = des_decrypt(self.keys1(), x0);
        let x2 = des_decrypt(self.keys2(), x1);
        let x3 = des_decrypt(self.keys1(), x2);
        lemma_des_inverse(self.keys1(), x0);
        lemma_des_inverse(self.keys2(), x0);
        lemma_des_inverse(self.keys1(), x1);
        lemma_des_inverse(self.keys2(), x1);
        lemma_des_inverse(self.keys1(), x2);
        lemma_des_inverse(self.keys2(), x2);
        lemma_des_inverse(self.keys1(), x3);
        lemma_des_inverse(self.keys2(), x3);
        lemma_u64_be_of_bytes(x3);
        lemma_u64_bytes_of_be(b);
    }
}

} // verus!
