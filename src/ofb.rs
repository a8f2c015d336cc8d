//! Output feedback (OFB) mode as generalised by GOST R 34.13-2015: a ring of `z`
//! feedback blocks and `s` bytes of output per cipher call.
use vstd::arithmetic::div_mod::{lemma_mod_sub_multiples_vanish, lemma_small_mod};
use vstd::prelude::*;

use crate::block::{
    all_len_at_most, lemma_chunks_concat, all_len, append_bytes, blocks_view, chunks, concat, copy_range, lemma_xor_twice, run, split_iv,
    xor, xor_seq, BlockCipher, ModeEncrypt, ModeState,
};
use crate::cbc::Ring;
use crate::Error;

verus! {

/// A ring of at least one block of `bs` bytes, with its index in range.
pub open spec fn ofb_ring_wf(r: Ring, bs: nat) -> bool {
    1 <= r.0.len() && r.1 < r.0.len() && all_len(r.0, bs)
}

/// One OFB step: the current ring block is replaced by its encryption, whose
/// leading bytes are XORed into the data; the index moves on.
pub open spec fn ofb_step<C: BlockCipher>(c: C, r: Ring, p: Seq<u8>) -> (Ring, Seq<u8>) {
    let k = c.encrypt_spec(r.0[r.1 as int]);
    ((r.0.update(r.1 as int, k), (r.1 + 1) % r.0.len()), xor_seq(p, k))
}

pub open spec fn ofb_fn<C: BlockCipher>(c: C) -> spec_fn(Ring, Seq<u8>) -> (Ring, Seq<u8>) {
    |r: Ring, p: Seq<u8>| ofb_step(c, r, p)
}

/// The ring read from the current index on: the IV a fresh instance needs to
/// continue the same keystream.
pub open spec fn rotate(r: Ring) -> Seq<Seq<u8>> {
    Seq::new(r.0.len(), |i: int| r.0[(r.1 + i) % (r.0.len() as int)])
}

pub open spec fn ofb_params_ok<C: BlockCipher>(z: usize, s: usize, iv: Seq<u8>) -> bool {
    1 <= z && 1 <= s <= C::spec_block_size() && iv.len() == z * C::spec_block_size()
}

/// OFB mode: a block cipher, a ring of `z` blocks and the output width `s`.
#[derive(Clone)]
pub struct OfbCore<C: BlockCipher> {
    cipher: C,
    state: Vec<Vec<u8>>,
    pos: usize,
    s: usize,
}

impl<C: BlockCipher> OfbCore<C> {
    pub closed spec fn cipher(&self) -> C {
        self.cipher
    }

    /// The feedback ring and the index of the block used next.
    pub closed spec fn ring(&self) -> Ring {
        (blocks_view(self.state@), self.pos as nat)
    }

    /// Bytes of output per cipher call.
    pub closed spec fn width(&self) -> nat {
        self.s as nat
    }

    pub open spec fn wf(&self) -> bool {
        &&& self.cipher().wf()
        &&& ofb_ring_wf(self.ring(), C::spec_block_size())
        &&& 1 <= self.width() <= C::spec_block_size()
    }

    /// Sets up the mode with `z` IV blocks and output width `s`.
    pub fn inner_iv_init(cipher: C, z: usize, s: usize, iv: &Vec<u8>) -> (r: Result<Self, Error>)
        requires
            cipher.wf(),
        ensures
            match r {
                Ok(m) => ofb_params_ok::<C>(z, s, iv@) && m.wf() && m.cipher() == cipher && m.width()
                    == s && m.ring() == (chunks(iv@, C::spec_block_size()), 0nat),
                Err(e) => !ofb_params_ok::<C>(z, s, iv@) && if !(1 <= z && 1 <= s
                    <= C::spec_block_size()) {
                    e == Error::InvalidParameter
                } else {
                    e == Error::InvalidIvLength
                },
            },
    {
        let bs = cipher.block_size();
        if z == 0 || s == 0 || s > bs {
            return Err(Error::InvalidParameter);
        }
        match split_iv(iv, z, bs) {
            Some(state) => Ok(OfbCore { cipher, state, pos: 0, s }),
            None => Err(Error::InvalidIvLength),
        }
    }

    /// OFB sets no limit on the length of the keystream.
    pub fn remaining_blocks(&self) -> (r: Option<usize>)
        ensures
            r is None,
    {
        None
    }

    /// XORs the next keystream block into a block of at most `s` bytes (a
    /// shorter one ends a message).
    pub fn encrypt_block_inout_mut(&mut self, block: &mut Vec<u8>)
        requires
            old(self).wf(),
            old(block)@.len() <= old(self).width(),
        ensures
            final(self).wf(),
            final(self).cipher() == old(self).cipher(),
            final(self).width() == old(self).width(),
            (final(self).ring(), final(block)@) == ofb_step(
                old(self).cipher(),
                old(self).ring(),
                old(block)@,
            ),
    {
        let pos = self.pos;
        let z = self.state.len();
        let bs = self.cipher.block_size();
        assert(self.ring().0[pos as int].len() == bs);
        let mut k = copy_range(&self.state[pos], 0, bs);
        assert(k@ =~= self.ring().0[pos as int]);
        self.cipher.encrypt_block(&mut k);
        xor(block, &k);
        self.state.set(pos, k);
        self.pos = (pos + 1) % z;
        assert(blocks_view(self.state@) =~= old(self).ring().0.update(
            pos as int,
            self.state@[pos as int]@,
        ));
    }

    /// Decryption is the same operation as encryption.
    pub fn decrypt_block_inout_mut(&mut self, block: &mut Vec<u8>)
        requires
            old(self).wf(),
            old(block)@.len() <= old(self).width(),
        ensures
            final(self).wf(),
            final(self).cipher() == old(self).cipher(),
            final(self).width() == old(self).width(),
            (final(self).ring(), final(block)@) == ofb_step(
                old(self).cipher(),
                old(self).ring(),
                old(block)@,
            ),
    {
        self.encrypt_block_inout_mut(block);
    }

    /// XORs the keystream into a sequence of `s`-byte blocks, in order.
    pub fn apply_keystream_blocks(&mut self, blocks: &mut Vec<Vec<u8>>)
        requires
            old(self).wf(),
            all_len(blocks_view(old(blocks)@), old(self).width()),
        ensures
            final(self).wf(),
            final(self).cipher() == old(self).cipher(),
            final(self).width() == old(self).width(),
            (final(self).ring(), blocks_view(final(blocks)@)) == run(
                ofb_fn(old(self).cipher()),
                old(self).ring(),
                blocks_view(old(blocks)@),
            ),
    {
        crate::block::encrypt_blocks(self, blocks);
    }

    /// The ring from the current index on, laid end to end.
    pub fn iv_state(&self) -> (r: Vec<u8>)
        requires
            self.wf(),
        ensures
            r@ == concat(rotate(self.ring())),
    {
        let z = self.state.len();
        let mut iv: Vec<u8> = Vec::new();
        let mut i: usize = 0;
        while i < z
            invariant
                self.wf(),
                z == self.ring().0.len(),
                i <= z,
                iv@ == concat(rotate(self.ring()).subrange(0, i as int)),
            decreases z - i,
        {
            let d = z - self.pos;
            let n = if i < d {
                self.pos + i
            } else {
                i - d
            };
            proof {
                if i < d {
                    lemma_small_mod((self.pos + i) as nat, z as nat);
                } else {
                    lemma_mod_sub_multiples_vanish(self.pos + i, z as int);
                    lemma_small_mod((self.pos + i - z) as nat, z as nat);
                }
            }
            append_bytes(&mut iv, &self.state[n]);
            assert(rotate(self.ring()).subrange(0, i + 1).drop_last() =~= rotate(
                self.ring(),
            ).subrange(0, i as int));
            i += 1;
        }
        assert(rotate(self.ring()).subrange(0, z as int) =~= rotate(self.ring()));
        iv
    }
}

impl<C: BlockCipher> ModeState for OfbCore<C> {
    type Model = Ring;

    type Config = (C, nat);

    open spec fn config(&self) -> (C, nat) {
        (self.cipher(), self.width())
    }

    open spec fn model(&self) -> Ring {
        self.ring()
    }

    open spec fn inv(&self) -> bool {
        self.wf()
    }

    open spec fn unit_len(&self) -> nat {
        self.width()
    }
}

impl<C: BlockCipher> ModeEncrypt for OfbCore<C> {
    open spec fn encrypt_step(&self) -> spec_fn(Ring, Seq<u8>) -> (Ring, Seq<u8>) {
        ofb_fn(self.cipher())
    }

    fn encrypt_block_mut(&mut self, block: &mut Vec<u8>) {
        self.encrypt_block_inout_mut(block);
    }
}

/// Applying the OFB keystream twice from the same ring gives the data back:
/// decryption is encryption, for blocks of at most `s` bytes, so for messages
/// of any length.
pub proof fn lemma_ofb_round_trip<C: BlockCipher>(c: C, r: Ring, msg: Seq<Seq<u8>>, s: nat)
    requires
        ofb_ring_wf(r, C::spec_block_size()),
        s <= C::spec_block_size(),
        all_len_at_most(msg, s),
    ensures
        run(ofb_fn(c), r, run(ofb_fn(c), r, msg).1) == (run(ofb_fn(c), r, msg).0, msg),
    decreases msg.len(),
{
    if msg.len() > 0 {
        let k = c.encrypt_spec(r.0[r.1 as int]);
        c.lemma_block_len(r.0[r.1 as int]);
        lemma_xor_twice(msg[0], k);
        let (r1, o) = ofb_step(c, r, msg[0]);
        assert(all_len(r1.0, C::spec_block_size()));
        assert(all_len_at_most(msg.drop_first(), s));
        lemma_ofb_round_trip(c, r1, msg.drop_first(), s);
        let rest = run(ofb_fn(c), r1, msg.drop_first());
        assert((seq![o] + rest.1).drop_first() =~= rest.1);
        assert(msg =~= seq![msg[0]] + msg.drop_first());
    }
}


/// One OFB step seen on the rotated ring: the leading block is encrypted, used,
/// and moved to the end.
proof fn lemma_rotate_step<C: BlockCipher>(c: C, r: Ring, p: Seq<u8>, bs: nat)
    requires
        ofb_ring_wf(r, bs),
    ensures
        ({
            let (r1, o) = ofb_step(c, r, p);
            let q = rotate(r);
            &&& o == xor_seq(p, c.encrypt_spec(q[0]))
            &&& rotate(r1) == q.drop_first().push(c.encrypt_spec(q[0]))
            &&& r1.0.len() == r.0.len()
            &&& r1.1 < r1.0.len()
        }),
{
    let z = r.0.len() as int;
    let pos = r.1 as int;
    let q = rotate(r);
    let k = c.encrypt_spec(r.0[pos]);
    let (r1, o) = ofb_step(c, r, p);
    lemma_small_mod(pos as nat, z as nat);
    assert(q[0] == r.0[pos]);
    let expect = q.drop_first().push(k);
    assert forall|i: int| 0 <= i < z implies #[trigger] rotate(r1)[i] == expect[i] by {
        let next_pos = (pos + 1) % z;
        vstd::arithmetic::div_mod::lemma_add_mod_noop(pos + 1, i, z);
        lemma_small_mod(i as nat, z as nat);
        vstd::arithmetic::div_mod::lemma_mod_twice(pos + 1, z);
        assert((next_pos + i) % z == (pos + 1 + i) % z) by {
            vstd::arithmetic::div_mod::lemma_add_mod_noop(pos + 1, i, z);
            vstd::arithmetic::div_mod::lemma_add_mod_noop(next_pos, i, z);
            lemma_small_mod(next_pos as nat, z as nat);
        }
        if pos + 1 + i < z {
            lemma_small_mod((pos + 1 + i) as nat, z as nat);
            lemma_small_mod((pos + (i + 1)) as nat, z as nat);
            assert(expect[i] == q[i + 1]);
        } else {
            lemma_mod_sub_multiples_vanish(pos + 1 + i, z);
            lemma_small_mod((pos + 1 + i - z) as nat, z as nat);
            if i < z - 1 {
                assert(expect[i] == q[i + 1]);
                lemma_mod_sub_multiples_vanish(pos + (i + 1), z);
                lemma_small_mod((pos + (i + 1) - z) as nat, z as nat);
            } else {
                assert(expect[i] == k);
            }
        }
    }
    assert(rotate(r1) =~= expect);
}

/// Two rings that read the same from their indices give the same keystream.
proof fn lemma_ofb_same_rotation<C: BlockCipher>(
    c: C,
    a: Ring,
    b: Ring,
    msg: Seq<Seq<u8>>,
    bs: nat,
)
    requires
        ofb_ring_wf(a, bs),
        ofb_ring_wf(b, bs),
        rotate(a) == rotate(b),
        C::spec_block_size() == bs,
    ensures
        run(ofb_fn(c), a, msg).1 == run(ofb_fn(c), b, msg).1,
        rotate(run(ofb_fn(c), a, msg).0) == rotate(run(ofb_fn(c), b, msg).0),
    decreases msg.len(),
{
    if msg.len() > 0 {
        lemma_rotate_step(c, a, msg[0], bs);
        lemma_rotate_step(c, b, msg[0], bs);
        let (a1, _) = ofb_step(c, a, msg[0]);
        let (b1, _) = ofb_step(c, b, msg[0]);
        c.lemma_block_len(a.0[a.1 as int]);
        c.lemma_block_len(b.0[b.1 as int]);
        assert(all_len(a1.0, bs));
        assert(all_len(b1.0, bs));
        lemma_ofb_same_rotation(c, a1, b1, msg.drop_first(), bs);
    }
}

/// Pausing and resuming: a fresh OFB set up with the exported state (the ring
/// read from the current index, laid end to end) continues with the same
/// keystream as the instance it was exported from.
pub proof fn lemma_ofb_export_resume<C: BlockCipher>(c: C, r: Ring, msg: Seq<Seq<u8>>)
    requires
        ofb_ring_wf(r, C::spec_block_size()),
        C::spec_block_size() > 0,
    ensures
        run(ofb_fn(c), (chunks(concat(rotate(r)), C::spec_block_size()), 0nat), msg).1 == run(
            ofb_fn(c),
            r,
            msg,
        ).1,
{
    let bs = C::spec_block_size();
    let q = rotate(r);
    let z = r.0.len() as int;
    assert forall|i: int| 0 <= i < z implies (#[trigger] q[i]).len() == bs by {
        vstd::arithmetic::div_mod::lemma_mod_bound(r.1 + i, z);
    }
    lemma_chunks_concat(q, bs);
    let fresh: Ring = (q, 0nat);
    assert forall|i: int| 0 <= i < z implies #[trigger] rotate(fresh)[i] == q[i] by {
        lemma_small_mod(i as nat, z as nat);
    }
    assert(rotate(fresh) =~= q);
    lemma_ofb_same_rotation(c, fresh, r, msg, bs);
}

} // verus!
