//! Cipher feedback (CFB) mode as generalised by GOST R 34.13-2015: an `m`-byte
//! shift register (`m` at least the block size) and `s` bytes of output per
//! cipher call (`1 <= s <=` block size).
use vstd::prelude::*;

use crate::block::{
    all_len, append_bytes, blocks_view, copy_range, lemma_xor_twice, run, xor, xor_seq,
    BlockCipher, ModeDecrypt, ModeEncrypt, ModeState,
};
use crate::cfb_mode::{cfb_decrypt_fn, cfb_encrypt_fn};
use crate::Error;

verus! {

/// The keystream of one step: the encryption of the leading block of the register.
pub open spec fn register_keystream<C: BlockCipher>(c: C, reg: Seq<u8>) -> Seq<u8> {
    c.encrypt_spec(reg.subrange(0, C::spec_block_size() as int))
}

/// One encryption step: the `s`-byte plaintext is XORed with the keystream; the
/// register drops its leading `s` bytes and takes the ciphertext at its end.
pub open spec fn gost_cfb_encrypt_step<C: BlockCipher>(c: C, s: nat, reg: Seq<u8>, p: Seq<u8>) -> (
    Seq<u8>,
    Seq<u8>,
) {
    let out = xor_seq(p, register_keystream(c, reg));
    (reg.subrange(s as int, reg.len() as int) + out, out)
}

/// One decryption step: the register takes the ciphertext, as in encryption.
pub open spec fn gost_cfb_decrypt_step<C: BlockCipher>(c: C, s: nat, reg: Seq<u8>, b: Seq<u8>) -> (
    Seq<u8>,
    Seq<u8>,
) {
    (reg.subrange(s as int, reg.len() as int) + b, xor_seq(b, register_keystream(c, reg)))
}

pub open spec fn gost_cfb_encrypt_fn<C: BlockCipher>(c: C, s: nat) -> spec_fn(Seq<u8>, Seq<u8>) -> (
    Seq<u8>,
    Seq<u8>,
) {
    |reg: Seq<u8>, p: Seq<u8>| gost_cfb_encrypt_step(c, s, reg, p)
}

pub open spec fn gost_cfb_decrypt_fn<C: BlockCipher>(c: C, s: nat) -> spec_fn(Seq<u8>, Seq<u8>) -> (
    Seq<u8>,
    Seq<u8>,
) {
    |reg: Seq<u8>, b: Seq<u8>| gost_cfb_decrypt_step(c, s, reg, b)
}

/// The parameters are in range: `1 <= s <=` block size `<= m`.
pub open spec fn gost_cfb_params_ok<C: BlockCipher>(s: nat, m: nat) -> bool {
    1 <= s <= C::spec_block_size() <= m
}

/// GOST CFB mode: a block cipher, an `m`-byte register and the output width `s`.
#[derive(Clone)]
pub struct Cfb<C: BlockCipher> {
    cipher: C,
    iv: Vec<u8>,
    s: usize,
}

impl<C: BlockCipher> Cfb<C> {
    pub closed spec fn cipher(&self) -> C {
        self.cipher
    }

    /// The shift register.
    pub closed spec fn register(&self) -> Seq<u8> {
        self.iv@
    }

    /// Bytes of output per cipher call.
    pub closed spec fn width(&self) -> nat {
        self.s as nat
    }

    pub open spec fn wf(&self) -> bool {
        self.cipher().wf() && gost_cfb_params_ok::<C>(self.width(), self.register().len())
    }

    /// Sets up the mode with output width `s`; the register length `m` is the IV's.
    pub fn inner_iv_init(cipher: C, s: usize, iv: &Vec<u8>) -> (r: Result<Self, Error>)
        requires
            cipher.wf(),
        ensures
            match r {
                Ok(m) => gost_cfb_params_ok::<C>(s as nat, iv@.len()) && m.wf() && m.cipher()
                    == cipher && m.width() == s && m.register() == iv@,
                Err(e) => !gost_cfb_params_ok::<C>(s as nat, iv@.len()) && if !(1 <= s
                    <= C::spec_block_size()) {
                    e == Error::InvalidParameter
                } else {
                    e == Error::InvalidIvLength
                },
            },
    {
        let bs = cipher.block_size();
        if s == 0 || s > bs {
            return Err(Error::InvalidParameter);
        }
        if iv.len() < bs {
            return Err(Error::InvalidIvLength);
        }
        let reg = copy_range(iv, 0, iv.len());
        assert(reg@ =~= iv@);
        Ok(Cfb { cipher, iv: reg, s })
    }

    /// The current register, from which a fresh instance would continue the stream.
    pub fn iv_state(&self) -> (r: Vec<u8>)
        ensures
            r@ == self.register(),
    {
        copy_range(&self.iv, 0, self.iv.len())
    }

    fn keystream(&self) -> (t: Vec<u8>)
        requires
            self.wf(),
        ensures
            t@ == register_keystream(self.cipher(), self.register()),
            t@.len() == C::spec_block_size(),
    {
        let bs = self.cipher.block_size();
        let mut t = copy_range(&self.iv, 0, bs);
        self.cipher.encrypt_block(&mut t);
        t
    }

    /// Encrypts one `s`-byte block in place.
    pub fn encrypt_block_inout_mut(&mut self, block: &mut Vec<u8>)
        requires
            old(self).wf(),
            old(block)@.len() == old(self).width(),
        ensures
            final(self).wf(),
            final(self).cipher() == old(self).cipher(),
            final(self).width() == old(self).width(),
            (final(self).register(), final(block)@) == gost_cfb_encrypt_step(
                old(self).cipher(),
                old(self).width(),
                old(self).register(),
                old(block)@,
            ),
    {
        let t = self.keystream();
        xor(block, &t);
        let mut reg = copy_range(&self.iv, self.s, self.iv.len() - self.s);
        append_bytes(&mut reg, block);
        self.iv = reg;
    }

    /// Decrypts one `s`-byte block in place.
    pub fn decrypt_block_inout_mut(&mut self, block: &mut Vec<u8>)
        requires
            old(self).wf(),
            old(block)@.len() == old(self).width(),
        ensures
            final(self).wf(),
            final(self).cipher() == old(self).cipher(),
            final(self).width() == old(self).width(),
            (final(self).register(), final(block)@) == gost_cfb_decrypt_step(
                old(self).cipher(),
                old(self).width(),
                old(self).register(),
                old(block)@,
            ),
    {
        let t = self.keystream();
        let mut reg = copy_range(&self.iv, self.s, self.iv.len() - self.s);
        append_bytes(&mut reg, block);
        self.iv = reg;
        xor(block, &t);
    }

    /// Encrypts the last, possibly shorter, block of a message (at most `s`
    /// bytes): it is XORed with the leading bytes of the keystream. Nothing can
    /// follow it.
    pub fn encrypt_tail(self, block: &mut Vec<u8>)
        requires
            self.wf(),
            old(block)@.len() <= self.width(),
        ensures
            final(block)@ == xor_seq(old(block)@, register_keystream(self.cipher(), self.register())),
    {
        let t = self.keystream();
        xor(block, &t);
    }

    /// Decrypts the last, possibly shorter, block of a message: the same XOR.
    pub fn decrypt_tail(self, block: &mut Vec<u8>)
        requires
            self.wf(),
            old(block)@.len() <= self.width(),
        ensures
            final(block)@ == xor_seq(old(block)@, register_keystream(self.cipher(), self.register())),
    {
        self.encrypt_tail(block);
    }

    /// Encrypts a sequence of `s`-byte blocks in place, in order.
    pub fn encrypt_blocks(&mut self, blocks: &mut Vec<Vec<u8>>)
        requires
            old(self).wf(),
            all_len(blocks_view(old(blocks)@), old(self).width()),
        ensures
            final(self).wf(),
            final(self).cipher() == old(self).cipher(),
            final(self).width() == old(self).width(),
            (final(self).register(), blocks_view(final(blocks)@)) == run(
                gost_cfb_encrypt_fn(old(self).cipher(), old(self).width()),
                old(self).register(),
                blocks_view(old(blocks)@),
            ),
    {
        crate::block::encrypt_blocks(self, blocks);
    }

    /// Decrypts a sequence of `s`-byte blocks in place, in order.
    pub fn decrypt_blocks(&mut self, blocks: &mut Vec<Vec<u8>>)
        requires
            old(self).wf(),
            all_len(blocks_view(old(blocks)@), old(self).width()),
        ensures
            final(self).wf(),
            final(self).cipher() == old(self).cipher(),
            final(self).width() == old(self).width(),
            (final(self).register(), blocks_view(final(blocks)@)) == run(
                gost_cfb_decrypt_fn(old(self).cipher(), old(self).width()),
                old(self).register(),
                blocks_view(old(blocks)@),
            ),
    {
        crate::block::decrypt_blocks(self, blocks);
    }
}

impl<C: BlockCipher> ModeState for Cfb<C> {
    type Model = Seq<u8>;

    type Config = (C, nat);

    open spec fn config(&self) -> (C, nat) {
        (self.cipher(), self.width())
    }

    open spec fn model(&self) -> Seq<u8> {
        self.register()
    }

    open spec fn inv(&self) -> bool {
        self.wf()
    }

    open spec fn unit_len(&self) -> nat {
        self.width()
    }
}

impl<C: BlockCipher> ModeEncrypt for Cfb<C> {
    open spec fn encrypt_step(&self) -> spec_fn(Seq<u8>, Seq<u8>) -> (Seq<u8>, Seq<u8>) {
        gost_cfb_encrypt_fn(self.cipher(), self.width())
    }

    fn encrypt_block_mut(&mut self, block: &mut Vec<u8>) {
        self.encrypt_block_inout_mut(block);
    }
}

impl<C: BlockCipher> ModeDecrypt for Cfb<C> {
    open spec fn decrypt_step(&self) -> spec_fn(Seq<u8>, Seq<u8>) -> (Seq<u8>, Seq<u8>) {
        gost_cfb_decrypt_fn(self.cipher(), self.width())
    }

    fn decrypt_block_mut(&mut self, block: &mut Vec<u8>) {
        self.decrypt_block_inout_mut(block);
    }
}

/// Decrypting what GOST CFB encryption gave, from the same register, gives the
/// plaintext back and the same final register.
pub proof fn lemma_gost_cfb_round_trip<C: BlockCipher>(
    c: C,
    s: nat,
    reg: Seq<u8>,
    msg: Seq<Seq<u8>>,
)
    requires
        gost_cfb_params_ok::<C>(s, reg.len()),
        all_len(msg, s),
    ensures
        run(gost_cfb_decrypt_fn(c, s), reg, run(gost_cfb_encrypt_fn(c, s), reg, msg).1) == (
            run(gost_cfb_encrypt_fn(c, s), reg, msg).0,
            msg,
        ),
    decreases msg.len(),
{
    if msg.len() > 0 {
        let t = register_keystream(c, reg);
        c.lemma_block_len(reg.subrange(0, C::spec_block_size() as int));
        lemma_xor_twice(msg[0], t);
        let (reg1, o) = gost_cfb_encrypt_step(c, s, reg, msg[0]);
        assert(all_len(msg.drop_first(), s));
        lemma_gost_cfb_round_trip(c, s, reg1, msg.drop_first());
        let rest = run(gost_cfb_encrypt_fn(c, s), reg1, msg.drop_first());
        assert((seq![o] + rest.1).drop_first() =~= rest.1);
        assert(msg =~= seq![msg[0]] + msg.drop_first());
    }
}

proof fn lemma_gost_cfb_register_len<C: BlockCipher>(c: C, s: nat, reg: Seq<u8>, msg: Seq<Seq<u8>>)
    requires
        gost_cfb_params_ok::<C>(s, reg.len()),
        all_len(msg, s),
    ensures
        run(gost_cfb_encrypt_fn(c, s), reg, msg).0.len() == reg.len(),
    decreases msg.len(),
{
    if msg.len() > 0 {
        let (reg1, _) = gost_cfb_encrypt_step(c, s, reg, msg[0]);
        assert(all_len(msg.drop_first(), s));
        lemma_gost_cfb_register_len(c, s, reg1, msg.drop_first());
    }
}

/// Messages of any length survive GOST CFB: `s`-byte blocks, then a shorter
/// last block encrypted with the keystream of the register they leave, decrypt
/// back to the plaintext.
pub proof fn lemma_gost_cfb_round_trip_with_tail<C: BlockCipher>(
    c: C,
    s: nat,
    reg: Seq<u8>,
    msg: Seq<Seq<u8>>,
    tail: Seq<u8>,
)
    requires
        gost_cfb_params_ok::<C>(s, reg.len()),
        all_len(msg, s),
        tail.len() <= s,
    ensures
        ({
            let (r1, ct) = run(gost_cfb_encrypt_fn(c, s), reg, msg);
            let (r2, pt) = run(gost_cfb_decrypt_fn(c, s), reg, ct);
            &&& pt == msg
            &&& xor_seq(xor_seq(tail, register_keystream(c, r1)), register_keystream(c, r2)) == tail
        }),
{
    lemma_gost_cfb_round_trip(c, s, reg, msg);
    lemma_gost_cfb_register_len(c, s, reg, msg);
    let r1 = run(gost_cfb_encrypt_fn(c, s), reg, msg).0;
    c.lemma_block_len(r1.subrange(0, C::spec_block_size() as int));
    lemma_xor_twice(tail, register_keystream(c, r1));
}

/// With a one-block register and full-block output, GOST CFB is standard CFB,
/// in both directions.
pub proof fn lemma_gost_cfb_full_block<C: BlockCipher>(c: C, iv: Seq<u8>, msg: Seq<Seq<u8>>)
    requires
        iv.len() == C::spec_block_size(),
        all_len(msg, C::spec_block_size()),
    ensures
        run(gost_cfb_encrypt_fn(c, C::spec_block_size()), iv, msg) == run(cfb_encrypt_fn(c), iv, msg),
        run(gost_cfb_decrypt_fn(c, C::spec_block_size()), iv, msg) == run(cfb_decrypt_fn(c), iv, msg),
    decreases msg.len(),
{
    if msg.len() > 0 {
        let bs = C::spec_block_size();
        assert(iv.subrange(0, bs as int) =~= iv);
        let o = xor_seq(msg[0], c.encrypt_spec(iv));
        assert(iv.subrange(bs as int, bs as int) + o =~= o);
        assert(iv.subrange(bs as int, bs as int) + msg[0] =~= msg[0]);
        assert(all_len(msg.drop_first(), bs));
        lemma_gost_cfb_full_block(c, o, msg.drop_first());
        lemma_gost_cfb_full_block(c, msg[0], msg.drop_first());
    }
}

} // verus!
