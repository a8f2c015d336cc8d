//! Counter (CTR) mode for 128-bit block ciphers as defined in GOST R 34.13-2015:
//! the counter block is a 8-byte nonce followed by a 8-byte big-endian
//! counter, and `s` bytes of each keystream block are used.
use vstd::prelude::*;

use crate::block::{
    all_len_at_most, all_len, blocks_view, lemma_run_append, lemma_xor_twice, run, xor, xor_seq,
    BlockCipher, ModeEncrypt, ModeState,
};
use crate::bytes::{u64_from_be, u64_from_be_bytes, u64_push_be_bytes, u64_to_be};
use crate::Error;

verus! {

/// The counter after `ctr`, wrapping to 0 after the largest value.
pub open spec fn ctr128_next(ctr: u64) -> u64 {
    if ctr == u64::MAX {
        0
    } else {
        (ctr + 1) as u64
    }
}

/// The keystream block for counter value `ctr`.
pub open spec fn ctr128_keystream<C: BlockCipher>(c: C, nonce: u64, ctr: u64) -> Seq<u8> {
    c.encrypt_spec(u64_to_be(nonce) + u64_to_be(ctr))
}

/// One CTR step: the data block is XORed with the leading bytes of the
/// keystream block for the current counter, and the counter moves on.
pub open spec fn ctr128_step<C: BlockCipher>(c: C, nonce: u64, ctr: u64, p: Seq<u8>) -> (u64, Seq<u8>) {
    (ctr128_next(ctr), xor_seq(p, ctr128_keystream(c, nonce, ctr)))
}

pub open spec fn ctr128_fn<C: BlockCipher>(c: C, nonce: u64) -> spec_fn(u64, Seq<u8>) -> (u64, Seq<u8>) {
    |ctr: u64, p: Seq<u8>| ctr128_step(c, nonce, ctr, p)
}

/// CTR mode for 128-bit blocks: a block cipher, a nonce, a counter and the output width `s`.
#[derive(Clone)]
pub struct Ctr128Core<C: BlockCipher> {
    cipher: C,
    nonce: u64,
    ctr: u64,
    s: usize,
}

impl<C: BlockCipher> Ctr128Core<C> {
    pub closed spec fn cipher(&self) -> C {
        self.cipher
    }

    /// The nonce, the leading half of every counter block.
    pub closed spec fn nonce(&self) -> u64 {
        self.nonce
    }

    /// The counter value of the next block.
    pub closed spec fn counter(&self) -> u64 {
        self.ctr
    }

    /// Bytes of output per cipher call.
    pub closed spec fn width(&self) -> nat {
        self.s as nat
    }

    pub open spec fn wf(&self) -> bool {
        &&& self.cipher().wf()
        &&& C::spec_block_size() == 16
        &&& 1 <= self.width() <= 16
    }

    /// Sets up the mode with output width `s` and a 8-byte nonce; the counter starts at 0.
    pub fn inner_iv_init(cipher: C, s: usize, iv: &Vec<u8>) -> (r: Result<Self, Error>)
        requires
            cipher.wf(),
            C::spec_block_size() == 16,
        ensures
            match r {
                Ok(m) => 1 <= s <= 16 && iv@.len() == 8 && m.wf() && m.cipher() == cipher
                    && m.width() == s && m.nonce() == u64_from_be(iv@) && m.counter() == 0,
                Err(e) => if !(1 <= s <= 16) {
                    e == Error::InvalidParameter
                } else {
                    iv@.len() != 8 && e == Error::InvalidIvLength
                },
            },
    {
        if s == 0 || s > 16 {
            return Err(Error::InvalidParameter);
        }
        if iv.len() != 8 {
            return Err(Error::InvalidIvLength);
        }
        let nonce = u64_from_be_bytes(iv.as_slice(), 0);
        assert(iv@.subrange(0, 8) =~= iv@);
        Ok(Ctr128Core { cipher, nonce, ctr: 0, s })
    }

    /// XORs the keystream block for the current counter into a block of at most
    /// `s` bytes (a shorter one ends a message) and advances the counter,
    /// wrapping after its largest value.
    pub fn xor_block(&mut self, block: &mut Vec<u8>)
        requires
            old(self).wf(),
            old(block)@.len() <= old(self).width(),
        ensures
            final(self).wf(),
            final(self).cipher() == old(self).cipher(),
            final(self).width() == old(self).width(),
            final(self).nonce() == old(self).nonce(),
            (final(self).counter(), final(block)@) == ctr128_step(
                old(self).cipher(),
                old(self).nonce(),
                old(self).counter(),
                old(block)@,
            ),
    {
        let mut b: Vec<u8> = Vec::with_capacity(16);
        u64_push_be_bytes(&mut b, self.nonce);
        u64_push_be_bytes(&mut b, self.ctr);
        assert(b@ =~= u64_to_be(self.nonce) + u64_to_be(self.ctr));
        self.cipher.encrypt_block(&mut b);
        self.ctr = self.ctr.wrapping_add(1);
        xor(block, &b);
    }

    pub fn encrypt_block_inout_mut(&mut self, block: &mut Vec<u8>)
        requires
            old(self).wf(),
            old(block)@.len() <= old(self).width(),
        ensures
            final(self).wf(),
            final(self).cipher() == old(self).cipher(),
            final(self).width() == old(self).width(),
            final(self).nonce() == old(self).nonce(),
            (final(self).counter(), final(block)@) == ctr128_step(
                old(self).cipher(),
                old(self).nonce(),
                old(self).counter(),
                old(block)@,
            ),
    {
        self.xor_block(block);
    }

    /// Decryption is the same operation as encryption.
    pub fn decrypt_block_inout_mut(&mut self, block: &mut Vec<u8>)
        requires
            old(self).wf(),
            old(block)@.len() <= old(self).width(),
        ensures
            final(self).wf(),
            final(self).cipher() == old(self).cipher(),
            final(self).width() == old(self).width(),
            final(self).nonce() == old(self).nonce(),
            (final(self).counter(), final(block)@) == ctr128_step(
                old(self).cipher(),
                old(self).nonce(),
                old(self).counter(),
                old(block)@,
            ),
    {
        self.xor_block(block);
    }

    /// How many more blocks the counter allows before it would wrap.
    pub fn remaining_blocks(&self) -> (r: Option<usize>)
        ensures
            r == (if u64::MAX - self.counter() <= usize::MAX {
                Some((u64::MAX - self.counter()) as usize)
            } else {
                None::<usize>
            }),
    {
        let rem = u64::MAX - self.ctr;
        if rem as u64 <= usize::MAX as u64 {
            Some(rem as usize)
        } else {
            None
        }
    }

    /// XORs the keystream into a sequence of `s`-byte blocks, in order; the
    /// counter wraps after its largest value.
    pub fn apply_keystream_blocks(&mut self, blocks: &mut Vec<Vec<u8>>)
        requires
            old(self).wf(),
            all_len(blocks_view(old(blocks)@), old(self).width()),
        ensures
            final(self).wf(),
            final(self).cipher() == old(self).cipher(),
            final(self).width() == old(self).width(),
            final(self).nonce() == old(self).nonce(),
            (final(self).counter(), blocks_view(final(blocks)@)) == run(
                ctr128_fn(old(self).cipher(), old(self).nonce()),
                old(self).counter(),
                blocks_view(old(blocks)@),
            ),
    {
        crate::block::encrypt_blocks(self, blocks);
    }

    /// Like `apply_keystream_blocks`, but refuses, before touching anything, a
    /// sequence longer than the blocks the counter has left.
    pub fn apply_keystream(&mut self, blocks: &mut Vec<Vec<u8>>) -> (r: Result<(), Error>)
        requires
            old(self).wf(),
            all_len(blocks_view(old(blocks)@), old(self).width()),
        ensures
            final(self).wf(),
            final(self).cipher() == old(self).cipher(),
            final(self).width() == old(self).width(),
            final(self).nonce() == old(self).nonce(),
            match r {
                Ok(()) => old(blocks)@.len() <= u64::MAX - old(self).counter() && (
                    final(self).counter(),
                    blocks_view(final(blocks)@),
                ) == run(
                    ctr128_fn(old(self).cipher(), old(self).nonce()),
                    old(self).counter(),
                    blocks_view(old(blocks)@),
                ),
                Err(e) => e == Error::CounterOverflow && old(blocks)@.len() > u64::MAX
                    - old(self).counter() && final(self).counter() == old(self).counter()
                    && final(blocks)@ == old(blocks)@,
            },
    {
        if blocks.len() as u128 > (u64::MAX - self.ctr) as u128 {
            return Err(Error::CounterOverflow);
        }
        crate::block::encrypt_blocks(self, blocks);
        Ok(())
    }

    /// The counter value of the next block.
    pub fn get_block_pos(&self) -> (r: u64)
        ensures
            r == self.counter(),
    {
        self.ctr
    }

    /// Moves to block `pos` of the keystream.
    pub fn set_block_pos(&mut self, pos: u64)
        ensures
            final(self).counter() == pos,
            final(self).cipher() == old(self).cipher(),
            final(self).width() == old(self).width(),
            final(self).nonce() == old(self).nonce(),
    {
        self.ctr = pos;
    }
}

impl<C: BlockCipher> ModeState for Ctr128Core<C> {
    type Model = u64;

    type Config = (C, nat, u64);

    open spec fn config(&self) -> (C, nat, u64) {
        (self.cipher(), self.width(), self.nonce())
    }

    open spec fn model(&self) -> u64 {
        self.counter()
    }

    open spec fn inv(&self) -> bool {
        self.wf()
    }

    open spec fn unit_len(&self) -> nat {
        self.width()
    }
}

impl<C: BlockCipher> ModeEncrypt for Ctr128Core<C> {
    open spec fn encrypt_step(&self) -> spec_fn(u64, Seq<u8>) -> (u64, Seq<u8>) {
        ctr128_fn(self.cipher(), self.nonce())
    }

    fn encrypt_block_mut(&mut self, block: &mut Vec<u8>) {
        self.xor_block(block);
    }
}

/// Applying the keystream twice from the same counter gives the data back, for
/// blocks of at most `s` bytes: messages of any length.
pub proof fn lemma_ctr128_twice<C: BlockCipher>(c: C, nonce: u64, ctr: u64, s: nat, msg: Seq<Seq<u8>>)
    requires
        C::spec_block_size() == 16,
        s <= 16,
        all_len_at_most(msg, s),
    ensures
        run(ctr128_fn(c, nonce), ctr, run(ctr128_fn(c, nonce), ctr, msg).1) == (
            run(ctr128_fn(c, nonce), ctr, msg).0,
            msg,
        ),
    decreases msg.len(),
{
    if msg.len() > 0 {
        let k = ctr128_keystream(c, nonce, ctr);
        c.lemma_block_len(u64_to_be(nonce) + u64_to_be(ctr));
        lemma_xor_twice(msg[0], k);
        let o = xor_seq(msg[0], k);
        assert(all_len_at_most(msg.drop_first(), s));
        lemma_ctr128_twice(c, nonce, ctr128_next(ctr), s, msg.drop_first());
        let rest = run(ctr128_fn(c, nonce), ctr128_next(ctr), msg.drop_first());
        assert((seq![o] + rest.1).drop_first() =~= rest.1);
        assert(msg =~= seq![msg[0]] + msg.drop_first());
    }
}

/// Without wrapping, `n` blocks advance the counter by `n`.
pub proof fn lemma_ctr128_advance<C: BlockCipher>(c: C, nonce: u64, ctr: u64, msg: Seq<Seq<u8>>)
    requires
        ctr + msg.len() <= u64::MAX,
    ensures
        run(ctr128_fn(c, nonce), ctr, msg).0 == ctr + msg.len(),
    decreases msg.len(),
{
    if msg.len() > 0 {
        lemma_ctr128_advance(c, nonce, (ctr + 1) as u64, msg.drop_first());
    }
}

/// Seeking: starting at block `n` gives what starting at block 0 gives on `n`
/// blocks more, past those `n` blocks.
pub proof fn lemma_ctr128_seek<C: BlockCipher>(c: C, nonce: u64, skipped: Seq<Seq<u8>>, msg: Seq<Seq<u8>>)
    requires
        skipped.len() <= u64::MAX,
    ensures
        run(ctr128_fn(c, nonce), skipped.len() as u64, msg).1 == run(ctr128_fn(c, nonce), 0, skipped + msg).1.subrange(
            skipped.len() as int,
            (skipped.len() + msg.len()) as int,
        ),
{
    lemma_run_append(ctr128_fn(c, nonce), 0, skipped, msg);
    lemma_ctr128_advance(c, nonce, 0, skipped);
    crate::block::lemma_run_len(ctr128_fn(c, nonce), 0, skipped);
    crate::block::lemma_run_len(ctr128_fn(c, nonce), skipped.len() as u64, msg);
    let (sa, oa) = run(ctr128_fn(c, nonce), 0, skipped);
    let ob = run(ctr128_fn(c, nonce), sa, msg).1;
    assert((oa + ob).subrange(skipped.len() as int, (skipped.len() + msg.len()) as int) =~= ob);
}

} // verus!
