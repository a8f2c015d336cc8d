//! Balanced Feistel networks on two 32-bit halves, and why running the rounds
//! with the keys in reverse order undoes them, whatever the round function.
use vstd::prelude::*;

verus! {

/// A round function: from a half block and a round key to the value XORed into the other half.
pub type RoundFn = spec_fn(u32, u64) -> u32;

/// Rounds with the keys `ks` in order: `(l, r)` becomes `(r, l ^ f(r, k))`.
pub open spec fn rounds_forward(f: RoundFn, ks: Seq<u64>, l: u32, r: u32) -> (u32, u32)
    decreases ks.len(),
{
    if ks.len() == 0 {
        (l, r)
    } else {
        let (a, b) = rounds_forward(f, ks.drop_last(), l, r);
        (b, a ^ f(b, ks.last()))
    }
}

/// Rounds with the keys `ks` in reverse order, the last key first.
pub open spec fn rounds_backward(f: RoundFn, ks: Seq<u64>, l: u32, r: u32) -> (u32, u32)
    decreases ks.len(),
{
    if ks.len() == 0 {
        (l, r)
    } else {
        rounds_backward(f, ks.drop_last(), r, l ^ f(r, ks.last()))
    }
}

pub open spec fn high_half(x: u64) -> u32 {
    (x >> 32u64) as u32
}

pub open spec fn low_half(x: u64) -> u32 {
    x as u32
}

pub open spec fn join_halves(h: u32, l: u32) -> u64 {
    ((h as u64) << 32u64) | (l as u64)
}

/// The network on a 64-bit block: the high half is `l`, and the halves are
/// exchanged at the end.
pub open spec fn network_forward(f: RoundFn, ks: Seq<u64>, x: u64) -> u64 {
    let (l, r) = rounds_forward(f, ks, high_half(x), low_half(x));
    join_halves(r, l)
}

/// The same network with the round keys in reverse order.
pub open spec fn network_backward(f: RoundFn, ks: Seq<u64>, x: u64) -> u64 {
    let (l, r) = rounds_backward(f, ks, high_half(x), low_half(x));
    join_halves(r, l)
}

pub proof fn lemma_halves(h: u32, l: u32, x: u64)
    ensures
        high_half(join_halves(h, l)) == h,
        low_half(join_halves(h, l)) == l,
        join_halves(high_half(x), low_half(x)) == x,
{
    assert(high_half(join_halves(h, l)) == h) by (bit_vector);
    assert(low_half(join_halves(h, l)) == l) by (bit_vector);
    assert(join_halves(high_half(x), low_half(x)) == x) by (bit_vector);
}

proof fn lemma_xor_cancel(a: u32, b: u32)
    ensures
        a ^ b ^ b == a,
{
    assert(a ^ b ^ b == a) by (bit_vector);
}

proof fn lemma_backward_forward(f: RoundFn, ks: Seq<u64>, l: u32, r: u32)
    ensures
        ({
            let (a, b) = rounds_forward(f, ks, l, r);
            rounds_backward(f, ks, b, a) == (r, l)
        }),
    decreases ks.len(),
{
    if ks.len() > 0 {
        let (a, b) = rounds_forward(f, ks.drop_last(), l, r);
        lemma_xor_cancel(a, f(b, ks.last()));
        lemma_backward_forward(f, ks.drop_last(), l, r);
    }
}

proof fn lemma_forward_backward(f: RoundFn, ks: Seq<u64>, l: u32, r: u32)
    ensures
        ({
            let (a, b) = rounds_backward(f, ks, l, r);
            rounds_forward(f, ks, b, a) == (r, l)
        }),
    decreases ks.len(),
{
    if ks.len() > 0 {
        let v = f(r, ks.last());
        lemma_forward_backward(f, ks.drop_last(), r, l ^ v);
        lemma_xor_cancel(l, v);
    }
}

/// The network run backward undoes the network run forward, and conversely.
pub proof fn lemma_network_inverse(f: RoundFn, ks: Seq<u64>, x: u64)
    ensures
        network_backward(f, ks, network_forward(f, ks, x)) == x,
        network_forward(f, ks, network_backward(f, ks, x)) == x,
{
    lemma_halves(0, 0, x);
    lemma_backward_forward(f, ks, high_half(x), low_half(x));
    lemma_forward_backward(f, ks, high_half(x), low_half(x));
    let (l, r) = rounds_forward(f, ks, high_half(x), low_half(x));
    lemma_halves(r, l, 0);
    let (l2, r2) = rounds_backward(f, ks, high_half(x), low_half(x));
    lemma_halves(r2, l2, 0);
}

} // verus!
