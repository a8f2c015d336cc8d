//! Cipher block chaining (CBC) with an IV of `z` blocks, as generalised by
//! GOST R 34.13-2015; with `z = 1` it is the standard mode.
use vstd::prelude::*;

use crate::block::{
    lemma_xor_twice, run, BlockInverse, all_len, blocks_view, chunks, split_iv, xor, xor_seq, BlockCipher, ModeDecrypt,
    ModeEncrypt, ModeState,
};
use crate::padding::{iso7816_pad, iso7816_unpad, lemma_unpad_pad, pad_blocks, unpad_blocks};
use crate::Error;

verus! {

/// A ring of feedback blocks and the index of the one used next.
pub type Ring = (Seq<Seq<u8>>, nat);

/// A ring of 1 to 255 blocks of `bs` bytes, with its index in range.
pub open spec fn ring_wf(r: Ring, bs: nat) -> bool {
    1 <= r.0.len() <= 255 && r.1 < r.0.len() && all_len(r.0, bs)
}

/// One CBC encryption step: the plaintext block is XORed with the current ring
/// block and encrypted; the result is output and replaces that ring block.
pub open spec fn cbc_encrypt_step<C: BlockCipher>(c: C, r: Ring, p: Seq<u8>) -> (Ring, Seq<u8>) {
    let out = c.encrypt_spec(xor_seq(p, r.0[r.1 as int]));
    ((r.0.update(r.1 as int, out), (r.1 + 1) % r.0.len()), out)
}

/// One CBC decryption step: the ciphertext block is decrypted and XORed with the
/// current ring block, which it then replaces.
pub open spec fn cbc_decrypt_step<C: BlockCipher>(c: C, r: Ring, b: Seq<u8>) -> (Ring, Seq<u8>) {
    let out = xor_seq(c.decrypt_spec(b), r.0[r.1 as int]);
    ((r.0.update(r.1 as int, b), (r.1 + 1) % r.0.len()), out)
}

pub open spec fn cbc_encrypt_fn<C: BlockCipher>(c: C) -> spec_fn(Ring, Seq<u8>) -> (Ring, Seq<u8>) {
    |r: Ring, p: Seq<u8>| cbc_encrypt_step(c, r, p)
}

pub open spec fn cbc_decrypt_fn<C: BlockCipher>(c: C) -> spec_fn(Ring, Seq<u8>) -> (Ring, Seq<u8>) {
    |r: Ring, b: Seq<u8>| cbc_decrypt_step(c, r, b)
}

/// What setting up a CBC mode with `z` IV blocks on `iv` gives: the ring holds
/// the IV cut into blocks, and the index is 0.
pub open spec fn cbc_init_ok<C: BlockCipher>(z: usize, iv: Seq<u8>) -> bool {
    1 <= z <= 255 && iv.len() == z * C::spec_block_size()
}

/// Checks the parameters of a CBC mode and cuts the IV into its ring.
fn init_ring<C: BlockCipher>(cipher: &C, z: usize, iv: &Vec<u8>) -> (r: Result<Vec<Vec<u8>>, Error>)
    ensures
        match r {
            Ok(v) => cbc_init_ok::<C>(z, iv@) && blocks_view(v@) == chunks(iv@, C::spec_block_size())
                && blocks_view(v@).len() == z && all_len(blocks_view(v@), C::spec_block_size()),
            Err(e) => if !(1 <= z <= 255) {
                e == Error::InvalidParameter
            } else {
                e == Error::InvalidIvLength && iv@.len() != z * C::spec_block_size()
            },
        },
{
    if z == 0 || z > 255 {
        return Err(Error::InvalidParameter);
    }
    match split_iv(iv, z, cipher.block_size()) {
        Some(v) => Ok(v),
        None => Err(Error::InvalidIvLength),
    }
}

/// CBC encryptor: a block cipher and a ring of `z` feedback blocks.
#[derive(Clone)]
pub struct CbcEncrypt<C: BlockCipher> {
    cipher: C,
    state: Vec<Vec<u8>>,
    pos: usize,
}

impl<C: BlockCipher> CbcEncrypt<C> {
    pub closed spec fn cipher(&self) -> C {
        self.cipher
    }

    /// The feedback ring and the index of the block used next.
    pub closed spec fn ring(&self) -> Ring {
        (blocks_view(self.state@), self.pos as nat)
    }

    pub open spec fn wf(&self) -> bool {
        self.cipher().wf() && ring_wf(self.ring(), C::spec_block_size())
    }

    /// Sets up the mode with `z` IV blocks; `iv` must hold `z` blocks exactly.
    pub fn inner_iv_init(cipher: C, z: usize, iv: &Vec<u8>) -> (r: Result<Self, Error>)
        requires
            cipher.wf(),
        ensures
            match r {
                Ok(m) => cbc_init_ok::<C>(z, iv@) && m.wf() && m.cipher() == cipher && m.ring() == (
                    chunks(iv@, C::spec_block_size()),
                    0nat,
                ),
                Err(e) => !cbc_init_ok::<C>(z, iv@) && if !(1 <= z <= 255) {
                    e == Error::InvalidParameter
                } else {
                    e == Error::InvalidIvLength
                },
            },
    {
        match init_ring(&cipher, z, iv) {
            Ok(state) => Ok(CbcEncrypt { cipher, state, pos: 0 }),
            Err(e) => Err(e),
        }
    }

    /// Encrypts one block in place.
    pub fn encrypt_block_inout_mut(&mut self, block: &mut Vec<u8>)
        requires
            old(self).wf(),
            old(block)@.len() == C::spec_block_size(),
        ensures
            final(self).wf(),
            final(self).cipher() == old(self).cipher(),
            (final(self).ring(), final(block)@) == cbc_encrypt_step(
                old(self).cipher(),
                old(self).ring(),
                old(block)@,
            ),
    {
        let pos = self.pos;
        assert(self.ring().0[pos as int].len() == C::spec_block_size());
        xor(block, &self.state[pos]);
        self.cipher.encrypt_block(block);
        let out = block.clone();
        self.state.set(pos, out);
        self.pos = (pos + 1) % self.state.len();
        assert(blocks_view(self.state@) =~= old(self).ring().0.update(pos as int, block@));
    }

    /// Encrypts a sequence of blocks in place, in order.
    pub fn encrypt_blocks(&mut self, blocks: &mut Vec<Vec<u8>>)
        requires
            old(self).wf(),
            all_len(blocks_view(old(blocks)@), C::spec_block_size()),
        ensures
            final(self).wf(),
            final(self).cipher() == old(self).cipher(),
            (final(self).ring(), blocks_view(final(blocks)@)) == crate::block::run(
                cbc_encrypt_fn(old(self).cipher()),
                old(self).ring(),
                blocks_view(old(blocks)@),
            ),
    {
        crate::block::encrypt_blocks(self, blocks);
    }

    /// Pads a message of any length and encrypts it into whole blocks.
    pub fn encrypt_padded(&mut self, msg: &Vec<u8>) -> (r: Vec<Vec<u8>>)
        requires
            old(self).wf(),
        ensures
            final(self).wf(),
            final(self).cipher() == old(self).cipher(),
            (final(self).ring(), blocks_view(r@)) == run(
                cbc_encrypt_fn(old(self).cipher()),
                old(self).ring(),
                chunks(iso7816_pad(msg@, C::spec_block_size()), C::spec_block_size()),
            ),
    {
        let mut blocks = pad_blocks(msg, self.cipher.block_size());
        self.encrypt_blocks(&mut blocks);
        blocks
    }
}

impl<C: BlockCipher> ModeState for CbcEncrypt<C> {
    type Model = Ring;

    type Config = C;

    open spec fn config(&self) -> C {
        self.cipher()
    }

    open spec fn model(&self) -> Ring {
        self.ring()
    }

    open spec fn inv(&self) -> bool {
        self.wf()
    }

    open spec fn unit_len(&self) -> nat {
        C::spec_block_size()
    }
}

impl<C: BlockCipher> ModeEncrypt for CbcEncrypt<C> {
    open spec fn encrypt_step(&self) -> spec_fn(Ring, Seq<u8>) -> (Ring, Seq<u8>) {
        cbc_encrypt_fn(self.cipher())
    }

    fn encrypt_block_mut(&mut self, block: &mut Vec<u8>) {
        self.encrypt_block_inout_mut(block);
    }
}

/// CBC decryptor: a block cipher and a ring of `z` feedback blocks.
#[derive(Clone)]
pub struct CbcDecrypt<C: BlockCipher> {
    cipher: C,
    state: Vec<Vec<u8>>,
    pos: usize,
}

impl<C: BlockCipher> CbcDecrypt<C> {
    pub closed spec fn cipher(&self) -> C {
        self.cipher
    }

    /// The feedback ring and the index of the block used next.
    pub closed spec fn ring(&self) -> Ring {
        (blocks_view(self.state@), self.pos as nat)
    }

    pub open spec fn wf(&self) -> bool {
        self.cipher().wf() && ring_wf(self.ring(), C::spec_block_size())
    }

    /// Sets up the mode with `z` IV blocks; `iv` must hold `z` blocks exactly.
    pub fn inner_iv_init(cipher: C, z: usize, iv: &Vec<u8>) -> (r: Result<Self, Error>)
        requires
            cipher.wf(),
        ensures
            match r {
                Ok(m) => cbc_init_ok::<C>(z, iv@) && m.wf() && m.cipher() == cipher && m.ring() == (
                    chunks(iv@, C::spec_block_size()),
                    0nat,
                ),
                Err(e) => !cbc_init_ok::<C>(z, iv@) && if !(1 <= z <= 255) {
                    e == Error::InvalidParameter
                } else {
                    e == Error::InvalidIvLength
                },
            },
    {
        match init_ring(&cipher, z, iv) {
            Ok(state) => Ok(CbcDecrypt { cipher, state, pos: 0 }),
            Err(e) => Err(e),
        }
    }

    /// Decrypts one block in place.
    pub fn decrypt_block_inout_mut(&mut self, block: &mut Vec<u8>)
        requires
            old(self).wf(),
            old(block)@.len() == C::spec_block_size(),
        ensures
            final(self).wf(),
            final(self).cipher() == old(self).cipher(),
            (final(self).ring(), final(block)@) == cbc_decrypt_step(
                old(self).cipher(),
                old(self).ring(),
                old(block)@,
            ),
    {
        let pos = self.pos;
        let input = block.clone();
        self.cipher.decrypt_block(block);
        assert(self.ring().0[pos as int].len() == C::spec_block_size());
        xor(block, &self.state[pos]);
        self.state.set(pos, input);
        self.pos = (pos + 1) % self.state.len();
        assert(blocks_view(self.state@) =~= old(self).ring().0.update(pos as int, old(block)@));
    }

    /// Decrypts a sequence of blocks in place, in order.
    pub fn decrypt_blocks(&mut self, blocks: &mut Vec<Vec<u8>>)
        requires
            old(self).wf(),
            all_len(blocks_view(old(blocks)@), C::spec_block_size()),
        ensures
            final(self).wf(),
            final(self).cipher() == old(self).cipher(),
            (final(self).ring(), blocks_view(final(blocks)@)) == crate::block::run(
                cbc_decrypt_fn(old(self).cipher()),
                old(self).ring(),
                blocks_view(old(blocks)@),
            ),
    {
        crate::block::decrypt_blocks(self, blocks);
    }

    /// Decrypts whole blocks and strips the padding from the last one.
    pub fn decrypt_padded(&mut self, blocks: &Vec<Vec<u8>>) -> (r: Result<Vec<u8>, Error>)
        requires
            old(self).wf(),
            all_len(blocks_view(blocks@), C::spec_block_size()),
        ensures
            final(self).wf(),
            final(self).cipher() == old(self).cipher(),
            ({
                let (ring, plain) = run(
                    cbc_decrypt_fn(old(self).cipher()),
                    old(self).ring(),
                    blocks_view(blocks@),
                );
                &&& final(self).ring() == ring
                &&& match r {
                    Ok(m) => iso7816_unpad(plain) == Some(m@),
                    Err(e) => e == Error::BadPadding && iso7816_unpad(plain) is None,
                }
            }),
    {
        let mut data: Vec<Vec<u8>> = Vec::with_capacity(blocks.len());
        let mut j: usize = 0;
        while j < blocks.len()
            invariant
                j <= blocks@.len(),
                data@.len() == j,
                forall|i: int| 0 <= i < j ==> (#[trigger] data@[i])@ == blocks@[i]@,
            decreases blocks@.len() - j,
        {
            let b = &blocks[j];
            let c = crate::block::copy_range(b, 0, b.len());
            assert(c@ =~= b@);
            data.push(c);
            j += 1;
        }
        assert(blocks_view(data@) =~= blocks_view(blocks@));
        self.decrypt_blocks(&mut data);
        match unpad_blocks(&data) {
            Some(m) => Ok(m),
            None => Err(Error::BadPadding),
        }
    }
}

impl<C: BlockCipher> ModeState for CbcDecrypt<C> {
    type Model = Ring;

    type Config = C;

    open spec fn config(&self) -> C {
        self.cipher()
    }

    open spec fn model(&self) -> Ring {
        self.ring()
    }

    open spec fn inv(&self) -> bool {
        self.wf()
    }

    open spec fn unit_len(&self) -> nat {
        C::spec_block_size()
    }
}

impl<C: BlockCipher> ModeDecrypt for CbcDecrypt<C> {
    open spec fn decrypt_step(&self) -> spec_fn(Ring, Seq<u8>) -> (Ring, Seq<u8>) {
        cbc_decrypt_fn(self.cipher())
    }

    fn decrypt_block_mut(&mut self, block: &mut Vec<u8>) {
        self.decrypt_block_inout_mut(block);
    }
}


/// Textbook CBC encryption with a one-block IV: each ciphertext block is the
/// encryption of the plaintext block XORed with the previous ciphertext block,
/// the IV standing before the first.
pub open spec fn cbc_standard_encrypt<C: BlockCipher>(c: C, iv: Seq<u8>, msg: Seq<Seq<u8>>) -> Seq<
    Seq<u8>,
>
    decreases msg.len(),
{
    if msg.len() == 0 {
        Seq::empty()
    } else {
        let o = c.encrypt_spec(xor_seq(msg[0], iv));
        seq![o] + cbc_standard_encrypt(c, o, msg.drop_first())
    }
}

/// Textbook CBC decryption: each plaintext block is the decryption of the
/// ciphertext block XORed with the previous ciphertext block (the IV at first).
pub open spec fn cbc_standard_decrypt<C: BlockCipher>(c: C, iv: Seq<u8>, msg: Seq<Seq<u8>>) -> Seq<
    Seq<u8>,
>
    decreases msg.len(),
{
    if msg.len() == 0 {
        Seq::empty()
    } else {
        seq![xor_seq(c.decrypt_spec(msg[0]), iv)] + cbc_standard_decrypt(c, msg[0], msg.drop_first())
    }
}

/// Decrypting what CBC encryption gave, from the same ring, gives the
/// plaintext back and leaves the same ring as the encryption did.
pub proof fn lemma_cbc_round_trip<C: BlockInverse>(c: C, r: Ring, msg: Seq<Seq<u8>>)
    requires
        c.wf(),
        ring_wf(r, C::spec_block_size()),
        all_len(msg, C::spec_block_size()),
    ensures
        run(cbc_decrypt_fn(c), r, run(cbc_encrypt_fn(c), r, msg).1) == (
            run(cbc_encrypt_fn(c), r, msg).0,
            msg,
        ),
    decreases msg.len(),
{
    if msg.len() > 0 {
        let bs = C::spec_block_size();
        let p = msg[0];
        let k = r.0[r.1 as int];
        let x = xor_seq(p, k);
        c.lemma_block_len(x);
        c.lemma_decrypt_encrypt(x);
        lemma_xor_twice(p, k);
        let (r1, o) = cbc_encrypt_step(c, r, p);
        assert(all_len(r1.0, bs));
        assert(all_len(msg.drop_first(), bs));
        lemma_cbc_round_trip(c, r1, msg.drop_first());
        let rest = run(cbc_encrypt_fn(c), r1, msg.drop_first());
        let enc = run(cbc_encrypt_fn(c), r, msg);
        assert(enc.1 == seq![o] + rest.1);
        assert(enc.1.drop_first() =~= rest.1);
        assert(msg =~= seq![p] + msg.drop_first());
    }
}

proof fn lemma_cbc_z1_encrypt<C: BlockCipher>(c: C, iv: Seq<u8>, msg: Seq<Seq<u8>>)
    requires
        iv.len() == C::spec_block_size(),
        all_len(msg, C::spec_block_size()),
    ensures
        run(cbc_encrypt_fn(c), (seq![iv], 0nat), msg).1 == cbc_standard_encrypt(c, iv, msg),
    decreases msg.len(),
{
    if msg.len() > 0 {
        let x = xor_seq(msg[0], iv);
        let o = c.encrypt_spec(x);
        c.lemma_block_len(x);
        assert(seq![iv].update(0, o) =~= seq![o]);
        assert(all_len(msg.drop_first(), C::spec_block_size()));
        lemma_cbc_z1_encrypt(c, o, msg.drop_first());
    }
}

proof fn lemma_cbc_z1_decrypt<C: BlockCipher>(c: C, iv: Seq<u8>, msg: Seq<Seq<u8>>)
    requires
        iv.len() == C::spec_block_size(),
        all_len(msg, C::spec_block_size()),
    ensures
        run(cbc_decrypt_fn(c), (seq![iv], 0nat), msg).1 == cbc_standard_decrypt(c, iv, msg),
    decreases msg.len(),
{
    if msg.len() > 0 {
        assert(seq![iv].update(0, msg[0]) =~= seq![msg[0]]);
        assert(all_len(msg.drop_first(), C::spec_block_size()));
        lemma_cbc_z1_decrypt(c, msg[0], msg.drop_first());
    }
}

/// With a one-block IV, the generalised CBC is textbook CBC, in both directions.
pub proof fn lemma_cbc_single_block_iv<C: BlockCipher>(c: C, iv: Seq<u8>, msg: Seq<Seq<u8>>)
    requires
        iv.len() == C::spec_block_size(),
        all_len(msg, C::spec_block_size()),
    ensures
        run(cbc_encrypt_fn(c), (seq![iv], 0nat), msg).1 == cbc_standard_encrypt(c, iv, msg),
        run(cbc_decrypt_fn(c), (seq![iv], 0nat), msg).1 == cbc_standard_decrypt(c, iv, msg),
{
    lemma_cbc_z1_encrypt(c, iv, msg);
    lemma_cbc_z1_decrypt(c, iv, msg);
}


proof fn lemma_chunks_all_len(s: Seq<u8>, bs: nat)
    requires
        bs > 0,
        s.len() % bs == 0,
    ensures
        all_len(chunks(s, bs), bs),
{
    let n = s.len() / bs;
    vstd::arithmetic::div_mod::lemma_fundamental_div_mod(s.len() as int, bs as int);
    assert forall|j: int| 0 <= j < n implies (#[trigger] chunks(s, bs)[j]).len() == bs by {
        assert(j * bs + bs <= s.len()) by (nonlinear_arith)
            requires
                0 <= j < n,
                s.len() == bs * n + 0,
        ;
    }
}

/// Messages of any length survive padded CBC: decrypting and unpadding what
/// padding and encrypting gave, from the same ring, gives the message back.
pub proof fn lemma_cbc_padded_round_trip<C: BlockInverse>(c: C, r: Ring, m: Seq<u8>)
    requires
        c.wf(),
        C::spec_block_size() > 0,
        ring_wf(r, C::spec_block_size()),
    ensures
        iso7816_unpad(
            run(
                cbc_decrypt_fn(c),
                r,
                run(cbc_encrypt_fn(c), r, chunks(iso7816_pad(m, C::spec_block_size()), C::spec_block_size())).1,
            ).1,
        ) == Some(m),
{
    let bs = C::spec_block_size();
    let p = iso7816_pad(m, bs);
    crate::padding::lemma_pad_len_multiple(m.len(), bs);
    lemma_chunks_all_len(p, bs);
    lemma_cbc_round_trip(c, r, chunks(p, bs));
    lemma_unpad_pad(m, bs);
}

} // verus!
