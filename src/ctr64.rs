//! Counter (CTR) mode for 64-bit block ciphers as defined in GOST R 34.13-2015:
//! the counter block is a 4-byte nonce followed by a 4-byte big-endian
//! counter, and `s` bytes of each keystream block are used.
use vstd::prelude::*;

use crate::block::{
    all_len_at_most, all_len, blocks_view, lemma_run_append, lemma_xor_twice, run, xor, xor_seq,
    BlockCipher, ModeEncrypt, ModeState,
};
use crate::bytes::{u32_from_be, u32_from_be_bytes, u32_push_be_bytes, u32_to_be};
use crate::Error;

verus! {

/// The counter after `ctr`, wrapping to 0 after the largest value.
pub open spec fn ctr64_next(ctr: u32) -> u32 {
    if ctr == u32::MAX {
        0
    } else {
        (ctr + 1) as u32
    }
}

/// The keystream block for counter value `ctr`.
pub open spec fn ctr64_keystream<C: BlockCipher>(c: C, nonce: u32, ctr: u32) -> Seq<u8> {
    c.encrypt_spec(u32_to_be(nonce) + u32_to_be(ctr))
}

/// One CTR step: the data block is XORed with the leading bytes of the
/// keystream block for the current counter, and the counter moves on.
pub open spec fn ctr64_step<C: BlockCipher>(c: C, nonce: u32, ctr: u32, p: Seq<u8>) -> (u32, Seq<u8>) {
    (ctr64_next(ctr), xor_seq(p, ctr64_keystream(c, nonce, ctr)))
}

pub open spec fn ctr64_fn<C: BlockCipher>(c: C, nonce: u32) -> spec_fn(u32, Seq<u8>) -> (u32, Seq<u8>) {
    |ctr: u32, p: Seq<u8>| ctr64_step(c, nonce, ctr, p)
}

/// CTR mode for 64-bit blocks: a block cipher, a nonce, a counter and the output width `s`.
#[derive(Clone)]
pub struct Ctr64Core<C: BlockCipher> {
    cipher: C,
    nonce: u32,
    ctr: u32,
    s: usize,
}

impl<C: BlockCipher> Ctr64Core<C> {
    pub closed spec fn cipher(&self) -> C {
        self.cipher
    }

    /// The nonce, the leading half of every counter block.
    pub closed spec fn nonce(&self) -> u32 {
        self.nonce
    }

    /// The counter value of the next block.
    pub closed spec fn counter(&self) -> u32 {
        self.ctr
    }

    /// Bytes of output per cipher call.
    pub closed spec fn width(&self) -> nat {
        self.s as nat
    }

    pub open spec fn wf(&self) -> bool {
        &&& self.cipher().wf()
        &&& C::spec_block_size() == 8
        &&& 1 <= self.width() <= 8
    }

    /// Sets up the mode with output width `s` and a 4-byte nonce; the counter starts at 0.
    pub fn inner_iv_init(cipher: C, s: usize, iv: &Vec<u8>) -> (r: Result<Self, Error>)
        requires
            cipher.wf(),
            C::spec_block_size() == 8,
        ensures
            match r {
                Ok(m) => 1 <= s <= 8 && iv@.len() == 4 && m.wf() && m.cipher() == cipher
                    && m.width() == s && m.nonce() == u32_from_be(iv@) && m.counter() == 0,
                Err(e) => if !(1 <= s <= 8) {
                    e == Error::InvalidParameter
                } else {
                    iv@.len() != 4 && e == Error::InvalidIvLength
                },
            },
    {
        if s == 0 || s > 8 {
            return Err(Error::InvalidParameter);
        }
        if iv.len() != 4 {
            return Err(Error::InvalidIvLength);
        }
        let nonce = u32_from_be_bytes(iv.as_slice(), 0);
        assert(iv@.subrange(0, 4) =~= iv@);
        Ok(Ctr64Core { cipher, nonce, ctr: 0, s })
    }

    /// XORs the keystream block for the current counter into a block of at most
    /// `s` bytes (a shorter one ends a message) and advances the counter,
    /// wrapping after its largest value.
    pub fn xor_block(&mut self, block: &mut Vec<u8>)
        requires
            old(self).wf(),
            old(block)@.len() <= old(self).width(),
        ensures
            final(self).wf(),
            final(self).cipher() == old(self).cipher(),
            final(self).width() == old(self).width(),
            final(self).nonce() == old(self).nonce(),
            (final(self).counter(), final(block)@) == ctr64_step(
                old(self).cipher(),
                old(self).nonce(),
                old(self).counter(),
                old(block)@,
            ),
    {
        let mut b: Vec<u8> = Vec::with_capacity(8);
        u32_push_be_bytes(&mut b, self.nonce);
        u32_push_be_bytes(&mut b, self.ctr);
        assert(b@ =~= u32_to_be(self.nonce) + u32_to_be(self.ctr));
        self.cipher.encrypt_block(&mut b);
        self.ctr = self.ctr.wrapping_add(1);
        xor(block, &b);
    }

    pub fn encrypt_block_inout_mut(&mut self, block: &mut Vec<u8>)
        requires
            old(self).wf(),
            old(block)@.len() <= old(self).width(),
        ensures
            final(self).wf(),
            final(self).cipher() == old(self).cipher(),
            final(self).width() == old(self).width(),
            final(self).nonce() == old(self).nonce(),
            (final(self).counter(), final(block)@) == ctr64_step(
                old(self).cipher(),
                old(self).nonce(),
                old(self).counter(),
                old(block)@,
            ),
    {
        self.xor_block(block);
    }

    /// Decryption is the same operation as encryption.
    pub fn decrypt_block_inout_mut(&mut self, block: &mut Vec<u8>)
        requires
            old(self).wf(),
            old(block)@.len() <= old(self).width(),
        ensures
            final(self).wf(),
            final(self).cipher() == old(self).cipher(),
            final(self).width() == old(self).width(),
            final(self).nonce() == old(self).nonce(),
            (final(self).counter(), final(block)@) == ctr64_step(
                old(self).cipher(),
                old(self).nonce(),
                old(self).counter(),
                old(block)@,
            ),
    {
        self.xor_block(block);
    }

    /// How many more blocks the counter allows before it would wrap.
    pub fn remaining_blocks(&self) -> (r: Option<usize>)
        ensures
            r == (if u32::MAX - self.counter() <= usize::MAX {
                Some((u32::MAX - self.counter()) as usize)
            } else {
                None::<usize>
            }),
    {
        let rem = u32::MAX - self.ctr;
        if rem as u64 <= usize::MAX as u64 {
            Some(rem as usize)
        } else {
            None
        }
    }

    /// XORs the keystream into a sequence of `s`-byte blocks, in order; the
    /// counter wraps after its largest value.
    pub fn apply_keystream_blocks(&mut self, blocks: &mut Vec<Vec<u8>>)
        requires
            old(self).wf(),
            all_len(blocks_view(old(blocks)@), old(self).width()),
        ensures
            final(self).wf(),
            final(self).cipher() == old(self).cipher(),
            final(self).width() == old(self).width(),
            final(self).nonce() == old(self).nonce(),
            (final(self).counter(), blocks_view(final(blocks)@)) == run(
                ctr64_fn(old(self).cipher(), old(self).nonce()),
                old(self).counter(),
                blocks_view(old(blocks)@),
            ),
    {
        crate::block::encrypt_blocks(self, blocks);
    }

    /// Like `apply_keystream_blocks`, but refuses, before touching anything, a
    /// sequence longer than the blocks the counter has left.
    pub fn apply_keystream(&mut self, blocks: &mut Vec<Vec<u8>>) -> (r: Result<(), Error>)
        requires
            old(self).wf(),
            all_len(blocks_view(old(blocks)@), old(self).width()),
        ensures
            final(self).wf(),
            final(self).cipher() == old(self).cipher(),
            final(self).width() == old(self).width(),
            final(self).nonce() == old(self).nonce(),
            match r {
                Ok(()) => old(blocks)@.len() <= u32::MAX - old(self).counter() && (
                    final(self).counter(),
                    blocks_view(final(blocks)@),
                ) == run(
                    ctr64_fn(old(self).cipher(), old(self).nonce()),
                    old(self).counter(),
                    blocks_view(old(blocks)@),
                ),
                Err(e) => e == Error::CounterOverflow && old(blocks)@.len() > u32::MAX
                    - old(self).counter() && final(self).counter() == old(self).counter()
                    && final(blocks)@ == old(blocks)@,
            },
    {
        if blocks.len() as u128 > (u32::MAX - self.ctr) as u128 {
            return Err(Error::CounterOverflow);
        }
        crate::block::encrypt_blocks(self, blocks);
        Ok(())
    }

    /// The counter value of the next block.
    pub fn get_block_pos(&self) -> (r: u32)
        ensures
            r == self.counter(),
    {
        self.ctr
    }

    /// Moves to block `pos` of the keystream.
    pub fn set_block_pos(&mut self, pos: u32)
        ensures
            final(self).counter() == pos,
            final(self).cipher() == old(self).cipher(),
            final(self).width() == old(self).width(),
            final(self).nonce() == old(self).nonce(),
    {
        self.ctr = pos;
    }
}

impl<C: BlockCipher> ModeState for Ctr64Core<C> {
    type Model = u32;

    type Config = (C, nat, u32);

    open spec fn config(&self) -> (C, nat, u32) {
        (self.cipher(), self.width(), self.nonce())
    }

    open spec fn model(&self) -> u32 {
        self.counter()
    }

    open spec fn inv(&self) -> bool {
        self.wf()
    }

    open spec fn unit_len(&self) -> nat {
        self.width()
    }
}

impl<C: BlockCipher> ModeEncrypt for Ctr64Core<C> {
    open spec fn encrypt_step(&self) -> spec_fn(u32, Seq<u8>) -> (u32, Seq<u8>) {
        ctr64_fn(self.cipher(), self.nonce())
    }

    fn encrypt_block_mut(&mut self, block: &mut Vec<u8>) {
        self.xor_block(block);
    }
}

/// Applying the keystream twice from the same counter gives the data back, for
/// blocks of at most `s` bytes: messages of any length.
pub proof fn lemma_ctr64_twice<C: BlockCipher>(c: C, nonce: u32, ctr: u32, s: nat, msg: Seq<Seq<u8>>)
    requires
        C::spec_block_size() == 8,
        s <= 8,
        all_len_at_most(msg, s),
    ensures
        run(ctr64_fn(c, nonce), ctr, run(ctr64_fn(c, nonce), ctr, msg).1) == (
            run(ctr64_fn(c, nonce), ctr, msg).0,
            msg,
        ),
    decreases msg.len(),
{
    if msg.len() > 0 {
        let k = ctr64_keystream(c, nonce, ctr);
        c.lemma_block_len(u32_to_be(nonce) + u32_to_be(ctr));
        lemma_xor_twice(msg[0], k);
        let o = xor_seq(msg[0], k);
        assert(all_len_at_most(msg.drop_first(), s));
        lemma_ctr64_twice(c, nonce, ctr64_next(ctr), s, msg.drop_first());
        let rest = run(ctr64_fn(c, nonce), ctr64_next(ctr), msg.drop_first());
        assert((seq![o] + rest.1).drop_first() =~= rest.1);
        assert(msg =~= seq![msg[0]] + msg.drop_first());
    }
}

/// Without wrapping, `n` blocks advance the counter by `n`.
pub proof fn lemma_ctr64_advance<C: BlockCipher>(c: C, nonce: u32, ctr: u32, msg: Seq<Seq<u8>>)
    requires
        ctr + msg.len() <= u32::MAX,
    ensures
        run(ctr64_fn(c, nonce), ctr, msg).0 == ctr + msg.len(),
    decreases msg.len(),
{
    if msg.len() > 0 {
        lemma_ctr64_advance(c, nonce, (ctr + 1) as u32, msg.drop_first());
    }
}

/// Seeking: starting at block `n` gives what starting at block 0 gives on `n`
/// blocks more, past those `n` blocks.
pub proof fn lemma_ctr64_seek<C: BlockCipher>(c: C, nonce: u32, skipped: Seq<Seq<u8>>, msg: Seq<Seq<u8>>)
    requires
        skipped.len() <= u32::MAX,
    ensures
        run(ctr64_fn(c, nonce), skipped.len() as u32, msg).1 == run(ctr64_fn(c, nonce), 0, skipped + msg).1.subrange(
            skipped.len() as int,
            (skipped.len() + msg.len()) as int,
        ),
{
    lemma_run_append(ctr64_fn(c, nonce), 0, skipped, msg);
    lemma_ctr64_advance(c, nonce, 0, skipped);
    crate::block::lemma_run_len(ctr64_fn(c, nonce), 0, skipped);
    crate::block::lemma_run_len(ctr64_fn(c, nonce), skipped.len() as u32, msg);
    let (sa, oa) = run(ctr64_fn(c, nonce), 0, skipped);
    let ob = run(ctr64_fn(c, nonce), sa, msg).1;
    assert((oa + ob).subrange(skipped.len() as int, (skipped.len() + msg.len()) as int) =~= ob);
}

} // verus!
