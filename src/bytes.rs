//! Big-endian conversions between integers and bytes.
use vstd::prelude::*;

verus! {

pub open spec fn u64_from_be(s: Seq<u8>) -> u64 {
    ((s[0] as u64) << 56)
        | ((s[1] as u64) << 48)
        | ((s[2] as u64) << 40)
        | ((s[3] as u64) << 32)
        | ((s[4] as u64) << 24)
        | ((s[5] as u64) << 16)
        | ((s[6] as u64) << 8)
        | (s[7] as u64)
}

pub open spec fn u64_to_be(x: u64) -> Seq<u8> {
    seq![(x >> 56) as u8, (x >> 48) as u8, (x >> 40) as u8, (x >> 32) as u8, (x >> 24) as u8, (x >> 16) as u8, (x >> 8) as u8, x as u8]
}

pub proof fn lemma_u64_be_of_bytes(x: u64)
    ensures
        u64_from_be(u64_to_be(x)) == x,
{
    let s = u64_to_be(x);
    let b0 = s[0];
    let b1 = s[1];
    let b2 = s[2];
    let b3 = s[3];
    let b4 = s[4];
    let b5 = s[5];
    let b6 = s[6];
    let b7 = s[7];
    assert(((b0 as u64) << 56) | ((b1 as u64) << 48) | ((b2 as u64) << 40) | ((b3 as u64) << 32) | ((b4 as u64) << 24) | ((b5 as u64) << 16) | ((b6 as u64) << 8) | (b7 as u64) == x) by (bit_vector)
        requires
            b0 == (x >> 56) as u8,
            b1 == (x >> 48) as u8,
            b2 == (x >> 40) as u8,
            b3 == (x >> 32) as u8,
            b4 == (x >> 24) as u8,
            b5 == (x >> 16) as u8,
            b6 == (x >> 8) as u8,
            b7 == x as u8,
    ;
}

pub proof fn lemma_u64_bytes_of_be(s: Seq<u8>)
    requires
        s.len() == 8,
    ensures
        u64_to_be(u64_from_be(s)) == s,
{
    let b0 = s[0];
    let b1 = s[1];
    let b2 = s[2];
    let b3 = s[3];
    let b4 = s[4];
    let b5 = s[5];
    let b6 = s[6];
    let b7 = s[7];
    let x = u64_from_be(s);
    assert((x >> 56) as u8 == b0
        && (x >> 48) as u8 == b1
        && (x >> 40) as u8 == b2
        && (x >> 32) as u8 == b3
        && (x >> 24) as u8 == b4
        && (x >> 16) as u8 == b5
        && (x >> 8) as u8 == b6
        && x as u8 == b7) by (bit_vector)
        requires
            x == ((b0 as u64) << 56) | ((b1 as u64) << 48) | ((b2 as u64) << 40) | ((b3 as u64) << 32) | ((b4 as u64) << 24) | ((b5 as u64) << 16) | ((b6 as u64) << 8) | (b7 as u64),
    ;
    assert(u64_to_be(x) =~= s);
}

/// Reads a big-endian integer from `b[start ..]`.
pub fn u64_from_be_bytes(b: &[u8], start: usize) -> (r: u64)
    requires
        start + 8 <= b@.len(),
    ensures
        r == u64_from_be(b@.subrange(start as int, start + 8)),
{
    let len = b.len();
    assert(start < len);
    ((b[start + 0] as u64) << 56)
        | ((b[start + 1] as u64) << 48)
        | ((b[start + 2] as u64) << 40)
        | ((b[start + 3] as u64) << 32)
        | ((b[start + 4] as u64) << 24)
        | ((b[start + 5] as u64) << 16)
        | ((b[start + 6] as u64) << 8)
        | (b[start + 7] as u64)
}

/// Appends the big-endian bytes of `x` to `out`.
pub fn u64_push_be_bytes(out: &mut Vec<u8>, x: u64)
    ensures
        final(out)@ == old(out)@ + u64_to_be(x),
{
    out.push((x >> 56) as u8);
    out.push((x >> 48) as u8);
    out.push((x >> 40) as u8);
    out.push((x >> 32) as u8);
    out.push((x >> 24) as u8);
    out.push((x >> 16) as u8);
    out.push((x >> 8) as u8);
    out.push(x as u8);
    assert(out@ =~= old(out)@ + u64_to_be(x));
}

pub open spec fn u32_from_be(s: Seq<u8>) -> u32 {
    ((s[0] as u32) << 24)
        | ((s[1] as u32) << 16)
        | ((s[2] as u32) << 8)
        | (s[3] as u32)
}

pub open spec fn u32_to_be(x: u32) -> Seq<u8> {
    seq![(x >> 24) as u8, (x >> 16) as u8, (x >> 8) as u8, x as u8]
}

pub proof fn lemma_u32_be_of_bytes(x: u32)
    ensures
        u32_from_be(u32_to_be(x)) == x,
{
    let s = u32_to_be(x);
    let b0 = s[0];
    let b1 = s[1];
    let b2 = s[2];
    let b3 = s[3];
    assert(((b0 as u32) << 24) | ((b1 as u32) << 16) | ((b2 as u32) << 8) | (b3 as u32) == x) by (bit_vector)
        requires
            b0 == (x >> 24) as u8,
            b1 == (x >> 16) as u8,
            b2 == (x >> 8) as u8,
            b3 == x as u8,
    ;
}

pub proof fn lemma_u32_bytes_of_be(s: Seq<u8>)
    requires
        s.len() == 4,
    ensures
        u32_to_be(u32_from_be(s)) == s,
{
    let b0 = s[0];
    let b1 = s[1];
    let b2 = s[2];
    let b3 = s[3];
    let x = u32_from_be(s);
    assert((x >> 24) as u8 == b0
        && (x >> 16) as u8 == b1
        && (x >> 8) as u8 == b2
        && x as u8 == b3) by (bit_vector)
        requires
            x == ((b0 as u32) << 24) | ((b1 as u32) << 16) | ((b2 as u32) << 8) | (b3 as u32),
    ;
    assert(u32_to_be(x) =~= s);
}

/// Reads a big-endian integer from `b[start ..]`.
pub fn u32_from_be_bytes(b: &[u8], start: usize) -> (r: u32)
    requires
        start + 4 <= b@.len(),
    ensures
        r == u32_from_be(b@.subrange(start as int, start + 4)),
{
    let len = b.len();
    assert(start < len);
    ((b[start + 0] as u32) << 24)
        | ((b[start + 1] as u32) << 16)
        | ((b[start + 2] as u32) << 8)
        | (b[start + 3] as u32)
}

/// Appends the big-endian bytes of `x` to `out`.
pub fn u32_push_be_bytes(out: &mut Vec<u8>, x: u32)
    ensures
        final(out)@ == old(out)@ + u32_to_be(x),
{
    out.push((x >> 24) as u8);
    out.push((x >> 16) as u8);
    out.push((x >> 8) as u8);
    out.push(x as u8);
    assert(out@ =~= old(out)@ + u32_to_be(x));
}

} // verus!
