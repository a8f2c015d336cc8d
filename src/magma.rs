//! The Magma block cipher (GOST R 34.12-2015): a 32-round Feistel network on
//! 64-bit blocks with a 256-bit key.
use vstd::prelude::*;

use crate::block::{BlockCipher, BlockInverse};
use crate::bytes::{
    lemma_u64_be_of_bytes, lemma_u64_bytes_of_be, u32_from_be, u32_from_be_bytes, u64_from_be,
    u64_to_be,
};
use crate::des::{block_to_u64, u64_to_block};
use crate::feistel::{
    high_half, lemma_network_inverse, low_half, network_backward, network_forward, rounds_backward,
    rounds_forward, RoundFn,
};

verus! {

/// The substitutions Pi'_0 to Pi'_7; Pi'_i acts on bits `4i .. 4i + 3`.
pub const PI: [[u8; 16]; 8] = [
    [12, 4, 6, 2, 10, 5, 11, 9, 14, 8, 13, 7, 0, 3, 15, 1],
    [6, 8, 2, 3, 9, 10, 5, 12, 1, 14, 4, 7, 11, 13, 0, 15],
    [11, 3, 5, 8, 2, 15, 10, 13, 14, 1, 7, 4, 12, 9, 6, 0],
    [12, 8, 2, 1, 13, 4, 15, 6, 7, 0, 10, 5, 3, 14, 9, 11],
    [7, 15, 5, 10, 8, 1, 6, 13, 0, 9, 3, 14, 11, 4, 2, 12],
    [5, 13, 15, 6, 9, 2, 12, 10, 11, 7, 8, 1, 4, 3, 14, 0],
    [8, 14, 2, 5, 6, 9, 1, 12, 15, 4, 11, 0, 13, 10, 3, 7],
    [1, 7, 14, 13, 0, 5, 8, 3, 4, 15, 10, 6, 9, 12, 11, 2],
];

/// The substitution t applied to the `n` lowest nibbles of `a`.
pub open spec fn substitute_nibbles(a: u32, n: nat) -> u32
    decreases n,
{
    if n == 0 {
        0
    } else {
        let i = (n - 1) as nat;
        let v = PI@[i as int]@[((a >> ((4 * i) as u32)) & 15) as int];
        substitute_nibbles(a, i) | ((v as u32) << ((4 * i) as u32))
    }
}

/// The round function g[k](a): substitute the nibbles of `a + k` (mod 2^32),
/// then rotate left by 11.
pub open spec fn magma_g(k: u32, a: u32) -> u32 {
    let x = substitute_nibbles(a.wrapping_add(k), 8);
    (x << 11u32) | (x >> 21u32)
}

pub open spec fn magma_round() -> RoundFn {
    |a: u32, k: u64| magma_g(k as u32, a)
}

/// The 32 round keys: the eight key words three times in order, then once in reverse.
pub open spec fn magma_key_schedule(key: Seq<u8>) -> Seq<u64> {
    Seq::new(
        32,
        |i: int|
            {
                let j = if i < 24 {
                    i % 8
                } else {
                    31 - i
                };
                u32_from_be(key.subrange(4 * j, 4 * j + 4)) as u64
            },
    )
}

fn magma_g_exec(k: u32, a: u32) -> (r: u32)
    ensures
        r == magma_g(k, a),
{
    let x = a.wrapping_add(k);
    let mut acc: u32 = 0;
    let mut i: u32 = 0;
    while i < 8
        invariant
            i <= 8,
            x == a.wrapping_add(k),
            acc == substitute_nibbles(x, i as nat),
        decreases 8 - i,
    {
        let nib = (x >> (4 * i)) & 15;
        assert(nib < 16) by (bit_vector)
            requires
                nib == (x >> (4 * i)) & 15,
        ;
        let v = PI[i as usize][nib as usize];
        acc = acc | ((v as u32) << (4 * i));
        i += 1;
    }
    (acc << 11) | (acc >> 21)
}

/// The Magma block cipher, holding its 32 round keys.
#[derive(Clone)]
pub struct Magma {
    keys: Vec<u64>,
}

impl Magma {
    pub closed spec fn round_keys(&self) -> Seq<u64> {
        self.keys@
    }

    /// Builds the cipher from a 32-byte key, read as eight big-endian words.
    pub fn new(key: &[u8; 32]) -> (r: Self)
        ensures
            r.round_keys() == magma_key_schedule(key@),
    {
        let mut keys: Vec<u64> = Vec::with_capacity(32);
        let mut i: usize = 0;
        while i < 32
            invariant
                i <= 32,
                key@.len() == 32,
                keys@.len() == i,
                forall|m: int| 0 <= m < i ==> keys@[m] == #[trigger] magma_key_schedule(key@)[m],
            decreases 32 - i,
        {
            let j = if i < 24 {
                i % 8
            } else {
                31 - i
            };
            keys.push(u32_from_be_bytes(key, 4 * j) as u64);
            i += 1;
        }
        assert(keys@ =~= magma_key_schedule(key@));
        Magma { keys }
    }

    /// Encrypts a block given as a 64-bit integer.
    pub fn encrypt(&self, x: u64) -> (r: u64)
        requires
            self.round_keys().len() == 32,
        ensures
            r == network_forward(magma_round(), self.round_keys(), x),
    {
        let mut l: u32 = (x >> 32) as u32;
        let mut r: u32 = x as u32;
        let mut i: usize = 0;
        while i < 32
            invariant
                self.keys@.len() == 32,
                i <= 32,
                (l, r) == rounds_forward(
                    magma_round(),
                    self.keys@.subrange(0, i as int),
                    high_half(x),
                    low_half(x),
                ),
            decreases 32 - i,
        {
            let t = l ^ magma_g_exec(self.keys[i] as u32, r);
            assert(self.keys@.subrange(0, i + 1).drop_last() =~= self.keys@.subrange(0, i as int));
            l = r;
            r = t;
            i += 1;
        }
        assert(self.keys@.subrange(0, 32) =~= self.keys@);
        ((r as u64) << 32) | (l as u64)
    }

    /// Decrypts a block given as a 64-bit integer.
    pub fn decrypt(&self, x: u64) -> (r: u64)
        requires
            self.round_keys().len() == 32,
        ensures
            r == network_backward(magma_round(), self.round_keys(), x),
    {
        let mut l: u32 = (x >> 32) as u32;
        let mut r: u32 = x as u32;
        let mut i: usize = 32;
        assert(self.keys@.subrange(0, 32) =~= self.keys@);
        while i > 0
            invariant
                self.keys@.len() == 32,
                i <= 32,
                rounds_backward(magma_round(), self.keys@, high_half(x), low_half(x))
                    == rounds_backward(
                    magma_round(),
                    self.keys@.subrange(0, i as int),
                    l,
                    r,
                ),
            decreases i,
        {
            let t = l ^ magma_g_exec(self.keys[i - 1] as u32, r);
            assert(self.keys@.subrange(0, i as int).drop_last() =~= self.keys@.subrange(
                0,
                i - 1,
            ));
            l = r;
            r = t;
            i -= 1;
        }
        ((r as u64) << 32) | (l as u64)
    }
}

impl BlockCipher for Magma {
    open spec fn spec_block_size() -> nat {
        8
    }

    open spec fn wf(&self) -> bool {
        self.round_keys().len() == 32
    }

    open spec fn encrypt_spec(&self, b: Seq<u8>) -> Seq<u8> {
        u64_to_be(network_forward(magma_round(), self.round_keys(), u64_from_be(b)))
    }

    open spec fn decrypt_spec(&self, b: Seq<u8>) -> Seq<u8> {
        u64_to_be(network_backward(magma_round(), self.round_keys(), u64_from_be(b)))
    }

    proof fn lemma_block_len(&self, b: Seq<u8>) {
    }

    fn block_size(&self) -> (r: usize) {
        8
    }

    fn encrypt_block(&self, block: &mut Vec<u8>) {
        let x = block_to_u64(block);
        *block = u64_to_block(self.encrypt(x));
    }

    fn decrypt_block(&self, block: &mut Vec<u8>) {
        let x = block_to_u64(block);
        *block = u64_to_block(self.decrypt(x));
    }
}

impl BlockInverse for Magma {
    proof fn lemma_decrypt_encrypt(&self, b: Seq<u8>) {
        let x = u64_from_be(b);
        lemma_network_inverse(magma_round(), self.round_keys(), x);
        lemma_u64_be_of_bytes(network_forward(magma_round(), self.round_keys(), x));
        lemma_u64_bytes_of_be(b);
    }

    proof fn lemma_encrypt_decrypt(&self, b: Seq<u8>) {
        let x = u64_from_be(b);
        lemma_network_inverse(magma_round(), self.round_keys(), x);
        lemma_u64_be_of_bytes(network_backward(magma_round(), self.round_keys(), x));
        lemma_u64_bytes_of_be(b);
    }
}

} // verus!
