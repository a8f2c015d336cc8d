//! Cipher feedback (CFB) mode with full-block feedback.
use vstd::prelude::*;

use crate::block::{
    all_len, copy_range, lemma_xor_twice, run, xor, xor_seq, BlockCipher, ModeDecrypt,
    ModeEncrypt, ModeState,
};
use crate::Error;

verus! {

/// One CFB encryption step: the register is encrypted, XORed with the plaintext
/// block, and the result is both the output and the new register.
pub open spec fn cfb_encrypt_step<C: BlockCipher>(c: C, iv: Seq<u8>, p: Seq<u8>) -> (Seq<u8>, Seq<u8>) {
    let out = xor_seq(p, c.encrypt_spec(iv));
    (out, out)
}

/// One CFB decryption step: the register is encrypted and XORed with the
/// ciphertext block, which becomes the new register.
pub open spec fn cfb_decrypt_step<C: BlockCipher>(c: C, iv: Seq<u8>, b: Seq<u8>) -> (Seq<u8>, Seq<u8>) {
    (b, xor_seq(b, c.encrypt_spec(iv)))
}

pub open spec fn cfb_encrypt_fn<C: BlockCipher>(c: C) -> spec_fn(Seq<u8>, Seq<u8>) -> (Seq<u8>, Seq<u8>) {
    |iv: Seq<u8>, p: Seq<u8>| cfb_encrypt_step(c, iv, p)
}

pub open spec fn cfb_decrypt_fn<C: BlockCipher>(c: C) -> spec_fn(Seq<u8>, Seq<u8>) -> (Seq<u8>, Seq<u8>) {
    |iv: Seq<u8>, b: Seq<u8>| cfb_decrypt_step(c, iv, b)
}

/// CFB mode: a block cipher and a one-block feedback register.
#[derive(Clone)]
pub struct Cfb<C: BlockCipher> {
    cipher: C,
    iv: Vec<u8>,
}

impl<C: BlockCipher> Cfb<C> {
    pub closed spec fn cipher(&self) -> C {
        self.cipher
    }

    /// The feedback register: the last ciphertext block, the IV at first.
    pub closed spec fn register(&self) -> Seq<u8> {
        self.iv@
    }

    pub open spec fn wf(&self) -> bool {
        self.cipher().wf() && self.register().len() == C::spec_block_size()
    }

    /// Sets up the mode; the IV must be one block long.
    pub fn inner_iv_init(cipher: C, iv: &Vec<u8>) -> (r: Result<Self, Error>)
        requires
            cipher.wf(),
        ensures
            match r {
                Ok(m) => iv@.len() == C::spec_block_size() && m.wf() && m.cipher() == cipher
                    && m.register() == iv@,
                Err(e) => iv@.len() != C::spec_block_size() && e == Error::InvalidIvLength,
            },
    {
        if iv.len() != cipher.block_size() {
            return Err(Error::InvalidIvLength);
        }
        let reg = copy_range(iv, 0, iv.len());
        assert(reg@ =~= iv@);
        Ok(Cfb { cipher, iv: reg })
    }

    /// The current register, from which a fresh instance would continue the stream.
    pub fn iv_state(&self) -> (r: Vec<u8>)
        ensures
            r@ == self.register(),
    {
        copy_range(&self.iv, 0, self.iv.len())
    }

    /// Encrypts one block in place.
    pub fn encrypt_block_inout_mut(&mut self, block: &mut Vec<u8>)
        requires
            old(self).wf(),
            old(block)@.len() == C::spec_block_size(),
        ensures
            final(self).wf(),
            final(self).cipher() == old(self).cipher(),
            (final(self).register(), final(block)@) == cfb_encrypt_step(
                old(self).cipher(),
                old(self).register(),
                old(block)@,
            ),
    {
        self.cipher.encrypt_block(&mut self.iv);
        xor(block, &self.iv);
        self.iv = copy_range(block, 0, block.len());
        assert(self.iv@ =~= block@);
    }

    /// Decrypts one block in place.
    pub fn decrypt_block_inout_mut(&mut self, block: &mut Vec<u8>)
        requires
            old(self).wf(),
            old(block)@.len() == C::spec_block_size(),
        ensures
            final(self).wf(),
            final(self).cipher() == old(self).cipher(),
            (final(self).register(), final(block)@) == cfb_decrypt_step(
                old(self).cipher(),
                old(self).register(),
                old(block)@,
            ),
    {
        let mut t = copy_range(&self.iv, 0, self.iv.len());
        assert(t@ =~= self.iv@);
        self.cipher.encrypt_block(&mut t);
        self.iv = copy_range(block, 0, block.len());
        assert(self.iv@ =~= old(block)@);
        xor(block, &t);
    }

    /// Encrypts the last, possibly shorter, block of a message (at most one
    /// block): it is XORed with the leading bytes of the encrypted register.
    /// Nothing can follow it.
    pub fn encrypt_tail(self, block: &mut Vec<u8>)
        requires
            self.wf(),
            old(block)@.len() <= C::spec_block_size(),
        ensures
            final(block)@ == xor_seq(old(block)@, self.cipher().encrypt_spec(self.register())),
    {
        let mut t = copy_range(&self.iv, 0, self.iv.len());
        assert(t@ =~= self.iv@);
        self.cipher.encrypt_block(&mut t);
        xor(block, &t);
    }

    /// Decrypts the last, possibly shorter, block of a message: the same XOR.
    pub fn decrypt_tail(self, block: &mut Vec<u8>)
        requires
            self.wf(),
            old(block)@.len() <= C::spec_block_size(),
        ensures
            final(block)@ == xor_seq(old(block)@, self.cipher().encrypt_spec(self.register())),
    {
        self.encrypt_tail(block);
    }

    /// Decrypts a sequence of blocks in place, in order; an empty sequence
    /// leaves the register as it was.
    pub fn decrypt_blocks_with_pre_mut(&mut self, blocks: &mut Vec<Vec<u8>>)
        requires
            old(self).wf(),
            all_len(crate::block::blocks_view(old(blocks)@), C::spec_block_size()),
        ensures
            final(self).wf(),
            final(self).cipher() == old(self).cipher(),
            (final(self).register(), crate::block::blocks_view(final(blocks)@)) == run(
                cfb_decrypt_fn(old(self).cipher()),
                old(self).register(),
                crate::block::blocks_view(old(blocks)@),
            ),
    {
        crate::block::decrypt_blocks(self, blocks);
    }

    /// Encrypts a sequence of blocks in place, in order.
    pub fn encrypt_blocks(&mut self, blocks: &mut Vec<Vec<u8>>)
        requires
            old(self).wf(),
            all_len(crate::block::blocks_view(old(blocks)@), C::spec_block_size()),
        ensures
            final(self).wf(),
            final(self).cipher() == old(self).cipher(),
            (final(self).register(), crate::block::blocks_view(final(blocks)@)) == run(
                cfb_encrypt_fn(old(self).cipher()),
                old(self).register(),
                crate::block::blocks_view(old(blocks)@),
            ),
    {
        crate::block::encrypt_blocks(self, blocks);
    }
}

impl<C: BlockCipher> ModeState for Cfb<C> {
    type Model = Seq<u8>;

    type Config = C;

    open spec fn config(&self) -> C {
        self.cipher()
    }

    open spec fn model(&self) -> Seq<u8> {
        self.register()
    }

    open spec fn inv(&self) -> bool {
        self.wf()
    }

    open spec fn unit_len(&self) -> nat {
        C::spec_block_size()
    }
}

impl<C: BlockCipher> ModeEncrypt for Cfb<C> {
    open spec fn encrypt_step(&self) -> spec_fn(Seq<u8>, Seq<u8>) -> (Seq<u8>, Seq<u8>) {
        cfb_encrypt_fn(self.cipher())
    }

    fn encrypt_block_mut(&mut self, block: &mut Vec<u8>) {
        self.encrypt_block_inout_mut(block);
    }
}

impl<C: BlockCipher> ModeDecrypt for Cfb<C> {
    open spec fn decrypt_step(&self) -> spec_fn(Seq<u8>, Seq<u8>) -> (Seq<u8>, Seq<u8>) {
        cfb_decrypt_fn(self.cipher())
    }

    fn decrypt_block_mut(&mut self, block: &mut Vec<u8>) {
        self.decrypt_block_inout_mut(block);
    }
}

/// Decrypting what CFB encryption gave, from the same register, gives the
/// plaintext back and the same final register.
pub proof fn lemma_cfb_round_trip<C: BlockCipher>(c: C, iv: Seq<u8>, msg: Seq<Seq<u8>>)
    requires
        iv.len() == C::spec_block_size(),
        all_len(msg, C::spec_block_size()),
    ensures
        run(cfb_decrypt_fn(c), iv, run(cfb_encrypt_fn(c), iv, msg).1) == (
            run(cfb_encrypt_fn(c), iv, msg).0,
            msg,
        ),
    decreases msg.len(),
{
    if msg.len() > 0 {
        let t = c.encrypt_spec(iv);
        c.lemma_block_len(iv);
        lemma_xor_twice(msg[0], t);
        let o = xor_seq(msg[0], t);
        assert(all_len(msg.drop_first(), C::spec_block_size()));
        lemma_cfb_round_trip(c, o, msg.drop_first());
        let rest = run(cfb_encrypt_fn(c), o, msg.drop_first());
        assert((seq![o] + rest.1).drop_first() =~= rest.1);
        assert(msg =~= seq![msg[0]] + msg.drop_first());
    }
}


proof fn lemma_cfb_register_len<C: BlockCipher>(c: C, iv: Seq<u8>, msg: Seq<Seq<u8>>)
    requires
        iv.len() == C::spec_block_size(),
        all_len(msg, C::spec_block_size()),
    ensures
        run(cfb_encrypt_fn(c), iv, msg).0.len() == C::spec_block_size(),
    decreases msg.len(),
{
    if msg.len() > 0 {
        c.lemma_block_len(iv);
        assert(all_len(msg.drop_first(), C::spec_block_size()));
        lemma_cfb_register_len(c, xor_seq(msg[0], c.encrypt_spec(iv)), msg.drop_first());
    }
}

/// Messages of any length survive CFB: whole blocks, then a shorter last block
/// encrypted from the register they leave, decrypt back to the plaintext.
pub proof fn lemma_cfb_round_trip_with_tail<C: BlockCipher>(
    c: C,
    iv: Seq<u8>,
    msg: Seq<Seq<u8>>,
    tail: Seq<u8>,
)
    requires
        iv.len() == C::spec_block_size(),
        all_len(msg, C::spec_block_size()),
        tail.len() <= C::spec_block_size(),
    ensures
        ({
            let (reg, ct) = run(cfb_encrypt_fn(c), iv, msg);
            let (reg2, pt) = run(cfb_decrypt_fn(c), iv, ct);
            &&& pt == msg
            &&& xor_seq(xor_seq(tail, c.encrypt_spec(reg)), c.encrypt_spec(reg2)) == tail
        }),
{
    lemma_cfb_round_trip(c, iv, msg);
    lemma_cfb_register_len(c, iv, msg);
    let reg = run(cfb_encrypt_fn(c), iv, msg).0;
    c.lemma_block_len(reg);
    lemma_xor_twice(tail, c.encrypt_spec(reg));
}

} // verus!
