//! ISO/IEC 7816-4 padding (procedure 2 of GOST R 34.13-2015), which lets CBC
//! carry messages of any length: a 0x80 byte, then zeros up to a block boundary.
use vstd::arithmetic::div_mod::{lemma_fundamental_div_mod, lemma_mod_bound};
use vstd::prelude::*;

use crate::block::{
    all_len, blocks_view, chunks, concat, concat_blocks, copy_range, split_blocks,
};

verus! {

/// How many bytes padding adds to a message of `len` bytes: 1 to `bs`.
pub open spec fn pad_len(len: nat, bs: nat) -> nat {
    (bs - len % bs) as nat
}

/// The padded message: `m`, a 0x80 byte, and zeros up to a multiple of `bs`; a
/// message whose length is already a multiple gains a whole block.
pub open spec fn iso7816_pad(m: Seq<u8>, bs: nat) -> Seq<u8> {
    m + seq![0x80u8] + Seq::new((pad_len(m.len(), bs) - 1) as nat, |i: int| 0u8)
}

/// Where the padding starts among the first `n` bytes of block `b`: the last
/// byte that is not zero, which must be 0x80.
pub open spec fn pad_start(b: Seq<u8>, n: nat) -> Option<nat>
    decreases n,
{
    if n == 0 {
        None
    } else if b[n - 1] == 0 {
        pad_start(b, (n - 1) as nat)
    } else if b[n - 1] == 0x80 {
        Some((n - 1) as nat)
    } else {
        None
    }
}

/// The message held by a padded sequence of blocks, if its last block is well padded.
pub open spec fn iso7816_unpad(bl: Seq<Seq<u8>>) -> Option<Seq<u8>> {
    if bl.len() == 0 {
        None
    } else {
        match pad_start(bl.last(), bl.last().len()) {
            Some(k) => Some(concat(bl.drop_last()) + bl.last().subrange(0, k as int)),
            None => None,
        }
    }
}

/// The padded message fills whole blocks.
pub proof fn lemma_pad_len_multiple(len: nat, bs: nat)
    requires
        bs > 0,
    ensures
        (len + pad_len(len, bs)) % bs == 0,
        1 <= pad_len(len, bs) <= bs,
{
    lemma_padded_len(len, bs);
}

proof fn lemma_padded_len(len: nat, bs: nat)
    requires
        bs > 0,
    ensures
        1 <= pad_len(len, bs) <= bs,
        (len + pad_len(len, bs)) % bs == 0,
        len + pad_len(len, bs) == (len / bs + 1) * bs,
{
    lemma_fundamental_div_mod(len as int, bs as int);
    lemma_mod_bound(len as int, bs as int);
    let q = len / bs;
    let r = len % bs;
    assert(len + (bs - r) == (q + 1) * bs) by (nonlinear_arith)
        requires
            len == bs * q + r,
    ;
    vstd::arithmetic::div_mod::lemma_mod_multiples_basic((q + 1) as int, bs as int);
}

/// Pads `m` and cuts the result into blocks of `bs` bytes.
pub fn pad_blocks(m: &Vec<u8>, bs: usize) -> (r: Vec<Vec<u8>>)
    requires
        bs > 0,
    ensures
        blocks_view(r@) == chunks(iso7816_pad(m@, bs as nat), bs as nat),
        all_len(blocks_view(r@), bs as nat),
{
    proof {
        lemma_padded_len(m@.len(), bs as nat);
    }
    let mut p = copy_range(m, 0, m.len());
    assert(p@ =~= m@);
    p.push(0x80);
    let n = bs - m.len() % bs;
    let mut i: usize = 1;
    while i < n
        invariant
            1 <= i <= n,
            n == pad_len(m@.len(), bs as nat),
            p@ == m@ + seq![0x80u8] + Seq::new((i - 1) as nat, |j: int| 0u8),
        decreases n - i,
    {
        p.push(0);
        i += 1;
        assert(p@ =~= m@ + seq![0x80u8] + Seq::new((i - 1) as nat, |j: int| 0u8));
    }
    split_blocks(&p, bs)
}

/// Finds where the padding of block `b` starts.
fn find_pad_start(b: &Vec<u8>) -> (r: Option<usize>)
    ensures
        match r {
            Some(k) => pad_start(b@, b@.len()) == Some(k as nat) && k < b@.len(),
            None => pad_start(b@, b@.len()) is None,
        },
{
    let mut n = b.len();
    while n > 0 && b[n - 1] == 0
        invariant
            n <= b@.len(),
            pad_start(b@, b@.len()) == pad_start(b@, n as nat),
        decreases n,
    {
        n -= 1;
    }
    if n > 0 && b[n - 1] == 0x80 {
        Some(n - 1)
    } else {
        None
    }
}

/// The message held by padded blocks, or `None` where the last block is badly padded.
pub fn unpad_blocks(bl: &Vec<Vec<u8>>) -> (r: Option<Vec<u8>>)
    ensures
        match r {
            Some(m) => iso7816_unpad(blocks_view(bl@)) == Some(m@),
            None => iso7816_unpad(blocks_view(bl@)) is None,
        },
{
    let nb = bl.len();
    if nb == 0 {
        return None;
    }
    let last = &bl[nb - 1];
    match find_pad_start(last) {
        None => None,
        Some(k) => {
            let mut head: Vec<Vec<u8>> = Vec::with_capacity(nb - 1);
            let mut j: usize = 0;
            while j < nb - 1
                invariant
                    nb == bl@.len(),
                    j <= nb - 1,
                    head@.len() == j,
                    blocks_view(head@) == blocks_view(bl@).subrange(0, j as int),
                decreases nb - 1 - j,
            {
                let b = &bl[j];
                let c = copy_range(b, 0, b.len());
                assert(c@ =~= b@);
                let ghost prev = head@;
                head.push(c);
                proof {
                    assert forall|i: int| 0 <= i < j implies #[trigger] head@[i]@ == bl@[i]@ by {
                        assert(head@[i] == prev[i]);
                        assert(blocks_view(prev)[i] == blocks_view(bl@).subrange(0, j as int)[i]);
                    }
                }
                j += 1;
                assert(blocks_view(head@) =~= blocks_view(bl@).subrange(0, j as int));
            }
            let mut m = concat_blocks(&head);
            let tail = copy_range(last, 0, k);
            crate::block::append_bytes(&mut m, &tail);
            assert(blocks_view(bl@).drop_last() =~= blocks_view(bl@).subrange(0, nb - 1));
            Some(m)
        },
    }
}

proof fn lemma_pad_start_at(b: Seq<u8>, n: nat, r: nat)
    requires
        r < n <= b.len(),
        b[r as int] == 0x80,
        forall|j: int| r < j < n ==> b[j] == 0,
    ensures
        pad_start(b, n) == Some(r),
    decreases n,
{
    if n - 1 > r {
        lemma_pad_start_at(b, (n - 1) as nat, r);
    }
}

/// A string whose length is a multiple of `bs`, cut into blocks and laid end to
/// end again, is unchanged.
pub proof fn lemma_concat_chunks(s: Seq<u8>, bs: nat)
    requires
        bs > 0,
        s.len() % bs == 0,
    ensures
        concat(chunks(s, bs)) == s,
    decreases s.len(),
{
    let n = s.len() / bs;
    lemma_fundamental_div_mod(s.len() as int, bs as int);
    if n == 0 {
        assert(s.len() == 0) by (nonlinear_arith)
            requires
                s.len() == bs * n + 0,
                n == 0,
        ;
        assert(chunks(s, bs) =~= Seq::<Seq<u8>>::empty());
        assert(s =~= Seq::<u8>::empty());
    } else {
        assert(s.len() >= bs) by (nonlinear_arith)
            requires
                s.len() == bs * n + 0,
                n >= 1,
        ;
        let t = s.subrange(0, s.len() - bs);
        assert(t.len() == bs * (n - 1)) by (nonlinear_arith)
            requires
                s.len() == bs * n + 0,
                t.len() == s.len() - bs,
        ;
        vstd::arithmetic::div_mod::lemma_mod_multiples_basic((n - 1) as int, bs as int);
        assert(t.len() % bs == 0) by {
            assert(bs * (n - 1) == (n - 1) * bs) by (nonlinear_arith);
        }
        lemma_concat_chunks(t, bs);
        assert(t.len() / bs == n - 1) by (nonlinear_arith)
            requires
                t.len() == bs * (n - 1),
                bs > 0,
        ;
        assert forall|j: int| 0 <= j < n - 1 implies #[trigger] chunks(s, bs).drop_last()[j] == chunks(
            t,
            bs,
        )[j] by {
            assert(j * bs + bs <= (n - 1) * bs) by (nonlinear_arith)
                requires
                    0 <= j < n - 1,
            ;
            assert((n - 1) * bs == s.len() - bs) by (nonlinear_arith)
                requires
                    s.len() == bs * n + 0,
            ;
            assert(s.subrange(j * bs, j * bs + bs) =~= t.subrange(j * bs, j * bs + bs));
        }
        assert(chunks(s, bs).drop_last() =~= chunks(t, bs));
        assert((n - 1) * bs == s.len() - bs) by (nonlinear_arith)
            requires
                s.len() == bs * n + 0,
        ;
        assert(chunks(s, bs).last() =~= s.subrange(s.len() - bs, s.len() as int));
        assert(s =~= t + s.subrange(s.len() - bs, s.len() as int));
    }
}

/// Unpadding undoes padding, for every message.
pub proof fn lemma_unpad_pad(m: Seq<u8>, bs: nat)
    requires
        bs > 0,
    ensures
        iso7816_unpad(chunks(iso7816_pad(m, bs), bs)) == Some(m),
{
    lemma_padded_len(m.len(), bs);
    lemma_fundamental_div_mod(m.len() as int, bs as int);
    let p = iso7816_pad(m, bs);
    let q = m.len() / bs;
    let r = m.len() % bs;
    let bl = chunks(p, bs);
    assert(p.len() == (q + 1) * bs);
    assert(p.len() / bs == q + 1) by (nonlinear_arith)
        requires
            p.len() == (q + 1) * bs,
            bs > 0,
    ;
    assert(q * bs + bs == (q + 1) * bs) by (nonlinear_arith);
    assert(q * bs == bs * q) by (nonlinear_arith);
    let last = bl.last();
    assert(last =~= p.subrange((q * bs) as int, (q * bs + bs) as int));
    assert(last[r as int] == 0x80);
    assert forall|j: int| r < j < bs implies last[j] == 0 by {}
    lemma_pad_start_at(last, bs, r);
    let head = p.subrange(0, (q * bs) as int);
    assert(head.len() == q * bs);
    vstd::arithmetic::div_mod::lemma_mod_multiples_basic(q as int, bs as int);
    lemma_concat_chunks(head, bs);
    assert(head.len() / bs == q) by (nonlinear_arith)
        requires
            head.len() == q * bs,
            bs > 0,
    ;
    assert forall|j: int| 0 <= j < q implies #[trigger] bl.drop_last()[j] == chunks(head, bs)[j] by {
        assert(j * bs + bs <= q * bs) by (nonlinear_arith)
            requires
                0 <= j < q,
        ;
        assert(p.subrange(j * bs, j * bs + bs) =~= head.subrange(j * bs, j * bs + bs));
    }
    assert(bl.drop_last() =~= chunks(head, bs));
    assert(head + last.subrange(0, r as int) =~= m);
}

} // verus!
