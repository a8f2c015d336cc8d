//! AES (FIPS 197) with 128-, 192- and 256-bit keys, in portable constant-time
//! code: the S-box is computed as inversion in GF(2^8) followed by the affine
//! map, with no lookup tables and no branches on secret data.
use vstd::prelude::*;

use crate::block::{append_bytes, copy_range, xor, xor_seq, BlockCipher, BlockInverse};
use crate::Error;

verus! {

/// Multiplication by x in GF(2^8) modulo x^8 + x^4 + x^3 + x + 1: a shift,
/// and a reduction by 0x1b when the top bit falls out.
#[verifier::opaque]
pub open spec fn xtime(b: u8) -> u8 {
    ((b << 1u8) ^ (((b >> 7u8) & 1) * 0x1b) as u8) as u8
}

fn xtime_exec(b: u8) -> (r: u8)
    ensures
        r == xtime(b),
{
    let hi = (b >> 7) & 1;
    assert(hi <= 1) by (bit_vector)
        requires
            hi == (b >> 7u8) & 1,
    ;
    reveal(xtime);
    (b << 1) ^ (hi * 0x1b)
}

/// The product of `a` and the bits of `b` from bit `i` upwards, in GF(2^8);
/// `a` stands for the factor x^i.
pub open spec fn gf_mul_from(a: u8, b: u8, i: nat) -> u8
    decreases 8 - i,
{
    if i >= 8 {
        0
    } else {
        (a & (((b >> (i as u8)) & 1) * 0xff) as u8) ^ gf_mul_from(xtime(a), b, i + 1)
    }
}

/// The product of `a` and `b` in GF(2^8).
pub open spec fn gf_mul(a: u8, b: u8) -> u8 {
    gf_mul_from(a, b, 0)
}

fn gf_mul_exec(a: u8, b: u8) -> (r: u8)
    ensures
        r == gf_mul(a, b),
{
    let mut acc: u8 = 0;
    let mut x: u8 = a;
    let mut i: u8 = 0;
    let ghost g = gf_mul(a, b);
    assert(0u8 ^ g == g) by (bit_vector);
    while i < 8
        invariant
            i <= 8,
            gf_mul(a, b) == acc ^ gf_mul_from(x, b, i as nat),
        decreases 8 - i,
    {
        let bit = (b >> i) & 1;
        assert(bit <= 1) by (bit_vector)
            requires
                bit == (b >> i) & 1,
        ;
        let ghost rest = gf_mul_from(xtime(x), b, (i + 1) as nat);
        let next = acc ^ (x & (bit * 0xff));
        assert(next ^ rest == acc ^ ((x & ((bit * 0xff) as u8)) ^ rest)) by (bit_vector)
            requires
                next == acc ^ (x & ((bit * 0xff) as u8)),
        ;
        acc = next;
        x = xtime_exec(x);
        i += 1;
    }
    assert(gf_mul_from(x, b, 8) == 0);
    assert(acc ^ 0 == acc) by (bit_vector);
    acc
}

/// The multiplicative inverse in GF(2^8), as x^254 (0 maps to 0).
pub open spec fn gf_inv(x: u8) -> u8 {
    let x2 = gf_mul(x, x);
    let x3 = gf_mul(x2, x);
    let x6 = gf_mul(x3, x3);
    let x12 = gf_mul(x6, x6);
    let x15 = gf_mul(x12, x3);
    let x30 = gf_mul(x15, x15);
    let x60 = gf_mul(x30, x30);
    let x120 = gf_mul(x60, x60);
    let x240 = gf_mul(x120, x120);
    let x252 = gf_mul(x240, x12);
    gf_mul(x252, x2)
}

fn gf_inv_exec(x: u8) -> (r: u8)
    ensures
        r == gf_inv(x),
{
    let x2 = gf_mul_exec(x, x);
    let x3 = gf_mul_exec(x2, x);
    let x6 = gf_mul_exec(x3, x3);
    let x12 = gf_mul_exec(x6, x6);
    let x15 = gf_mul_exec(x12, x3);
    let x30 = gf_mul_exec(x15, x15);
    let x60 = gf_mul_exec(x30, x30);
    let x120 = gf_mul_exec(x60, x60);
    let x240 = gf_mul_exec(x120, x120);
    let x252 = gf_mul_exec(x240, x12);
    gf_mul_exec(x252, x2)
}

/// `xtime` written out on bits, in a form the bit-vector solver reads directly.
pub open spec fn xt(b: u8) -> u8 {
    ((b << 1u8) ^ (((b >> 7u8) & 1) * 0x1b) as u8) as u8
}

proof fn lemma_xtime_bits(b: u8)
    ensures
        xtime(b) == xt(b),
{
    reveal(xtime);
}

/// The product in GF(2^8) of `a0` and `b`, given `a1` to `a7` as `a0` times x to x^7.
pub open spec fn mul_terms(
    a0: u8,
    a1: u8,
    a2: u8,
    a3: u8,
    a4: u8,
    a5: u8,
    a6: u8,
    a7: u8,
    b: u8,
) -> u8 {
    (a0 & (((b >> 0u8) & 1) * 0xff) as u8) ^ ((a1 & (((b >> 1u8) & 1) * 0xff) as u8) ^ ((a2 & (((b
        >> 2u8) & 1) * 0xff) as u8) ^ ((a3 & (((b >> 3u8) & 1) * 0xff) as u8) ^ ((a4 & (((b >> 4u8)
        & 1) * 0xff) as u8) ^ ((a5 & (((b >> 5u8) & 1) * 0xff) as u8) ^ ((a6 & (((b >> 6u8) & 1)
        * 0xff) as u8) ^ ((a7 & (((b >> 7u8) & 1) * 0xff) as u8) ^ 0)))))))
}

proof fn lemma_gf_mul_unrolled(a: u8, b: u8)
    ensures
        gf_mul(a, b) == mul_terms(
            a,
            xtime(a),
            xtime(xtime(a)),
            xtime(xtime(xtime(a))),
            xtime(xtime(xtime(xtime(a)))),
            xtime(xtime(xtime(xtime(xtime(a))))),
            xtime(xtime(xtime(xtime(xtime(xtime(a)))))),
            xtime(xtime(xtime(xtime(xtime(xtime(xtime(a))))))),
            b,
        ),
{
    reveal_with_fuel(gf_mul_from, 9);
}

/// Inversion in GF(2^8) is an involution: the inverse of the inverse is the
/// element itself (0 included). Checked on the bits, every multiplication of
/// both exponentiation chains spelled out.
#[verifier::rlimit(100)]
pub proof fn lemma_gf_inv_involution(x: u8)
    ensures
        gf_inv(gf_inv(x)) == x,
{
    let x_t1 = xtime(x);
    lemma_xtime_bits(x);
    let x_t2 = xtime(x_t1);
    lemma_xtime_bits(x_t1);
    let x_t3 = xtime(x_t2);
    lemma_xtime_bits(x_t2);
    let x_t4 = xtime(x_t3);
    lemma_xtime_bits(x_t3);
    let x_t5 = xtime(x_t4);
    lemma_xtime_bits(x_t4);
    let x_t6 = xtime(x_t5);
    lemma_xtime_bits(x_t5);
    let x_t7 = xtime(x_t6);
    lemma_xtime_bits(x_t6);
    let p_x2 = gf_mul(x, x);
    lemma_gf_mul_unrolled(x, x);
    let p_x2_t1 = xtime(p_x2);
    lemma_xtime_bits(p_x2);
    let p_x2_t2 = xtime(p_x2_t1);
    lemma_xtime_bits(p_x2_t1);
    let p_x2_t3 = xtime(p_x2_t2);
    lemma_xtime_bits(p_x2_t2);
    let p_x2_t4 = xtime(p_x2_t3);
    lemma_xtime_bits(p_x2_t3);
    let p_x2_t5 = xtime(p_x2_t4);
    lemma_xtime_bits(p_x2_t4);
    let p_x2_t6 = xtime(p_x2_t5);
    lemma_xtime_bits(p_x2_t5);
    let p_x2_t7 = xtime(p_x2_t6);
    lemma_xtime_bits(p_x2_t6);
    let p_x3 = gf_mul(p_x2, x);
    lemma_gf_mul_unrolled(p_x2, x);
    let p_x3_t1 = xtime(p_x3);
    lemma_xtime_bits(p_x3);
    let p_x3_t2 = xtime(p_x3_t1);
    lemma_xtime_bits(p_x3_t1);
    let p_x3_t3 = xtime(p_x3_t2);
    lemma_xtime_bits(p_x3_t2);
    let p_x3_t4 = xtime(p_x3_t3);
    lemma_xtime_bits(p_x3_t3);
    let p_x3_t5 = xtime(p_x3_t4);
    lemma_xtime_bits(p_x3_t4);
    let p_x3_t6 = xtime(p_x3_t5);
    lemma_xtime_bits(p_x3_t5);
    let p_x3_t7 = xtime(p_x3_t6);
    lemma_xtime_bits(p_x3_t6);
    let p_x6 = gf_mul(p_x3, p_x3);
    lemma_gf_mul_unrolled(p_x3, p_x3);
    let p_x6_t1 = xtime(p_x6);
    lemma_xtime_bits(p_x6);
    let p_x6_t2 = xtime(p_x6_t1);
    lemma_xtime_bits(p_x6_t1);
    let p_x6_t3 = xtime(p_x6_t2);
    lemma_xtime_bits(p_x6_t2);
    let p_x6_t4 = xtime(p_x6_t3);
    lemma_xtime_bits(p_x6_t3);
    let p_x6_t5 = xtime(p_x6_t4);
    lemma_xtime_bits(p_x6_t4);
    let p_x6_t6 = xtime(p_x6_t5);
    lemma_xtime_bits(p_x6_t5);
    let p_x6_t7 = xtime(p_x6_t6);
    lemma_xtime_bits(p_x6_t6);
    let p_x12 = gf_mul(p_x6, p_x6);
    lemma_gf_mul_unrolled(p_x6, p_x6);
    let p_x12_t1 = xtime(p_x12);
    lemma_xtime_bits(p_x12);
    let p_x12_t2 = xtime(p_x12_t1);
    lemma_xtime_bits(p_x12_t1);
    let p_x12_t3 = xtime(p_x12_t2);
    lemma_xtime_bits(p_x12_t2);
    let p_x12_t4 = xtime(p_x12_t3);
    lemma_xtime_bits(p_x12_t3);
    let p_x12_t5 = xtime(p_x12_t4);
    lemma_xtime_bits(p_x12_t4);
    let p_x12_t6 = xtime(p_x12_t5);
    lemma_xtime_bits(p_x12_t5);
    let p_x12_t7 = xtime(p_x12_t6);
    lemma_xtime_bits(p_x12_t6);
    let p_x15 = gf_mul(p_x12, p_x3);
    lemma_gf_mul_unrolled(p_x12, p_x3);
    let p_x15_t1 = xtime(p_x15);
    lemma_xtime_bits(p_x15);
    let p_x15_t2 = xtime(p_x15_t1);
    lemma_xtime_bits(p_x15_t1);
    let p_x15_t3 = xtime(p_x15_t2);
    lemma_xtime_bits(p_x15_t2);
    let p_x15_t4 = xtime(p_x15_t3);
    lemma_xtime_bits(p_x15_t3);
    let p_x15_t5 = xtime(p_x15_t4);
    lemma_xtime_bits(p_x15_t4);
    let p_x15_t6 = xtime(p_x15_t5);
    lemma_xtime_bits(p_x15_t5);
    let p_x15_t7 = xtime(p_x15_t6);
    lemma_xtime_bits(p_x15_t6);
    let p_x30 = gf_mul(p_x15, p_x15);
    lemma_gf_mul_unrolled(p_x15, p_x15);
    let p_x30_t1 = xtime(p_x30);
    lemma_xtime_bits(p_x30);
    let p_x30_t2 = xtime(p_x30_t1);
    lemma_xtime_bits(p_x30_t1);
    let p_x30_t3 = xtime(p_x30_t2);
    lemma_xtime_bits(p_x30_t2);
    let p_x30_t4 = xtime(p_x30_t3);
    lemma_xtime_bits(p_x30_t3);
    let p_x30_t5 = xtime(p_x30_t4);
    lemma_xtime_bits(p_x30_t4);
    let p_x30_t6 = xtime(p_x30_t5);
    lemma_xtime_bits(p_x30_t5);
    let p_x30_t7 = xtime(p_x30_t6);
    lemma_xtime_bits(p_x30_t6);
    let p_x60 = gf_mul(p_x30, p_x30);
    lemma_gf_mul_unrolled(p_x30, p_x30);
    let p_x60_t1 = xtime(p_x60);
    lemma_xtime_bits(p_x60);
    let p_x60_t2 = xtime(p_x60_t1);
    lemma_xtime_bits(p_x60_t1);
    let p_x60_t3 = xtime(p_x60_t2);
    lemma_xtime_bits(p_x60_t2);
    let p_x60_t4 = xtime(p_x60_t3);
    lemma_xtime_bits(p_x60_t3);
    let p_x60_t5 = xtime(p_x60_t4);
    lemma_xtime_bits(p_x60_t4);
    let p_x60_t6 = xtime(p_x60_t5);
    lemma_xtime_bits(p_x60_t5);
    let p_x60_t7 = xtime(p_x60_t6);
    lemma_xtime_bits(p_x60_t6);
    let p_x120 = gf_mul(p_x60, p_x60);
    lemma_gf_mul_unrolled(p_x60, p_x60);
    let p_x120_t1 = xtime(p_x120);
    lemma_xtime_bits(p_x120);
    let p_x120_t2 = xtime(p_x120_t1);
    lemma_xtime_bits(p_x120_t1);
    let p_x120_t3 = xtime(p_x120_t2);
    lemma_xtime_bits(p_x120_t2);
    let p_x120_t4 = xtime(p_x120_t3);
    lemma_xtime_bits(p_x120_t3);
    let p_x120_t5 = xtime(p_x120_t4);
    lemma_xtime_bits(p_x120_t4);
    let p_x120_t6 = xtime(p_x120_t5);
    lemma_xtime_bits(p_x120_t5);
    let p_x120_t7 = xtime(p_x120_t6);
    lemma_xtime_bits(p_x120_t6);
    let p_x240 = gf_mul(p_x120, p_x120);
    lemma_gf_mul_unrolled(p_x120, p_x120);
    let p_x240_t1 = xtime(p_x240);
    lemma_xtime_bits(p_x240);
    let p_x240_t2 = xtime(p_x240_t1);
    lemma_xtime_bits(p_x240_t1);
    let p_x240_t3 = xtime(p_x240_t2);
    lemma_xtime_bits(p_x240_t2);
    let p_x240_t4 = xtime(p_x240_t3);
    lemma_xtime_bits(p_x240_t3);
    let p_x240_t5 = xtime(p_x240_t4);
    lemma_xtime_bits(p_x240_t4);
    let p_x240_t6 = xtime(p_x240_t5);
    lemma_xtime_bits(p_x240_t5);
    let p_x240_t7 = xtime(p_x240_t6);
    lemma_xtime_bits(p_x240_t6);
    let p_x252 = gf_mul(p_x240, p_x12);
    lemma_gf_mul_unrolled(p_x240, p_x12);
    let p_x252_t1 = xtime(p_x252);
    lemma_xtime_bits(p_x252);
    let p_x252_t2 = xtime(p_x252_t1);
    lemma_xtime_bits(p_x252_t1);
    let p_x252_t3 = xtime(p_x252_t2);
    lemma_xtime_bits(p_x252_t2);
    let p_x252_t4 = xtime(p_x252_t3);
    lemma_xtime_bits(p_x252_t3);
    let p_x252_t5 = xtime(p_x252_t4);
    lemma_xtime_bits(p_x252_t4);
    let p_x252_t6 = xtime(p_x252_t5);
    lemma_xtime_bits(p_x252_t5);
    let p_x252_t7 = xtime(p_x252_t6);
    lemma_xtime_bits(p_x252_t6);
    let p_r = gf_mul(p_x252, p_x2);
    lemma_gf_mul_unrolled(p_x252, p_x2);
    let p_r_t1 = xtime(p_r);
    lemma_xtime_bits(p_r);
    let p_r_t2 = xtime(p_r_t1);
    lemma_xtime_bits(p_r_t1);
    let p_r_t3 = xtime(p_r_t2);
    lemma_xtime_bits(p_r_t2);
    let p_r_t4 = xtime(p_r_t3);
    lemma_xtime_bits(p_r_t3);
    let p_r_t5 = xtime(p_r_t4);
    lemma_xtime_bits(p_r_t4);
    let p_r_t6 = xtime(p_r_t5);
    lemma_xtime_bits(p_r_t5);
    let p_r_t7 = xtime(p_r_t6);
    lemma_xtime_bits(p_r_t6);
    let q_x2 = gf_mul(p_r, p_r);
    lemma_gf_mul_unrolled(p_r, p_r);
    let q_x2_t1 = xtime(q_x2);
    lemma_xtime_bits(q_x2);
    let q_x2_t2 = xtime(q_x2_t1);
    lemma_xtime_bits(q_x2_t1);
    let q_x2_t3 = xtime(q_x2_t2);
    lemma_xtime_bits(q_x2_t2);
    let q_x2_t4 = xtime(q_x2_t3);
    lemma_xtime_bits(q_x2_t3);
    let q_x2_t5 = xtime(q_x2_t4);
    lemma_xtime_bits(q_x2_t4);
    let q_x2_t6 = xtime(q_x2_t5);
    lemma_xtime_bits(q_x2_t5);
    let q_x2_t7 = xtime(q_x2_t6);
    lemma_xtime_bits(q_x2_t6);
    let q_x3 = gf_mul(q_x2, p_r);
    lemma_gf_mul_unrolled(q_x2, p_r);
    let q_x3_t1 = xtime(q_x3);
    lemma_xtime_bits(q_x3);
    let q_x3_t2 = xtime(q_x3_t1);
    lemma_xtime_bits(q_x3_t1);
    let q_x3_t3 = xtime(q_x3_t2);
    lemma_xtime_bits(q_x3_t2);
    let q_x3_t4 = xtime(q_x3_t3);
    lemma_xtime_bits(q_x3_t3);
    let q_x3_t5 = xtime(q_x3_t4);
    lemma_xtime_bits(q_x3_t4);
    let q_x3_t6 = xtime(q_x3_t5);
    lemma_xtime_bits(q_x3_t5);
    let q_x3_t7 = xtime(q_x3_t6);
    lemma_xtime_bits(q_x3_t6);
    let q_x6 = gf_mul(q_x3, q_x3);
    lemma_gf_mul_unrolled(q_x3, q_x3);
    let q_x6_t1 = xtime(q_x6);
    lemma_xtime_bits(q_x6);
    let q_x6_t2 = xtime(q_x6_t1);
    lemma_xtime_bits(q_x6_t1);
    let q_x6_t3 = xtime(q_x6_t2);
    lemma_xtime_bits(q_x6_t2);
    let q_x6_t4 = xtime(q_x6_t3);
    lemma_xtime_bits(q_x6_t3);
    let q_x6_t5 = xtime(q_x6_t4);
    lemma_xtime_bits(q_x6_t4);
    let q_x6_t6 = xtime(q_x6_t5);
    lemma_xtime_bits(q_x6_t5);
    let q_x6_t7 = xtime(q_x6_t6);
    lemma_xtime_bits(q_x6_t6);
    let q_x12 = gf_mul(q_x6, q_x6);
    lemma_gf_mul_unrolled(q_x6, q_x6);
    let q_x12_t1 = xtime(q_x12);
    lemma_xtime_bits(q_x12);
    let q_x12_t2 = xtime(q_x12_t1);
    lemma_xtime_bits(q_x12_t1);
    let q_x12_t3 = xtime(q_x12_t2);
    lemma_xtime_bits(q_x12_t2);
    let q_x12_t4 = xtime(q_x12_t3);
    lemma_xtime_bits(q_x12_t3);
    let q_x12_t5 = xtime(q_x12_t4);
    lemma_xtime_bits(q_x12_t4);
    let q_x12_t6 = xtime(q_x12_t5);
    lemma_xtime_bits(q_x12_t5);
    let q_x12_t7 = xtime(q_x12_t6);
    lemma_xtime_bits(q_x12_t6);
    let q_x15 = gf_mul(q_x12, q_x3);
    lemma_gf_mul_unrolled(q_x12, q_x3);
    let q_x15_t1 = xtime(q_x15);
    lemma_xtime_bits(q_x15);
    let q_x15_t2 = xtime(q_x15_t1);
    lemma_xtime_bits(q_x15_t1);
    let q_x15_t3 = xtime(q_x15_t2);
    lemma_xtime_bits(q_x15_t2);
    let q_x15_t4 = xtime(q_x15_t3);
    lemma_xtime_bits(q_x15_t3);
    let q_x15_t5 = xtime(q_x15_t4);
    lemma_xtime_bits(q_x15_t4);
    let q_x15_t6 = xtime(q_x15_t5);
    lemma_xtime_bits(q_x15_t5);
    let q_x15_t7 = xtime(q_x15_t6);
    lemma_xtime_bits(q_x15_t6);
    let q_x30 = gf_mul(q_x15, q_x15);
    lemma_gf_mul_unrolled(q_x15, q_x15);
    let q_x30_t1 = xtime(q_x30);
    lemma_xtime_bits(q_x30);
    let q_x30_t2 = xtime(q_x30_t1);
    lemma_xtime_bits(q_x30_t1);
    let q_x30_t3 = xtime(q_x30_t2);
    lemma_xtime_bits(q_x30_t2);
    let q_x30_t4 = xtime(q_x30_t3);
    lemma_xtime_bits(q_x30_t3);
    let q_x30_t5 = xtime(q_x30_t4);
    lemma_xtime_bits(q_x30_t4);
    let q_x30_t6 = xtime(q_x30_t5);
    lemma_xtime_bits(q_x30_t5);
    let q_x30_t7 = xtime(q_x30_t6);
    lemma_xtime_bits(q_x30_t6);
    let q_x60 = gf_mul(q_x30, q_x30);
    lemma_gf_mul_unrolled(q_x30, q_x30);
    let q_x60_t1 = xtime(q_x60);
    lemma_xtime_bits(q_x60);
    let q_x60_t2 = xtime(q_x60_t1);
    lemma_xtime_bits(q_x60_t1);
    let q_x60_t3 = xtime(q_x60_t2);
    lemma_xtime_bits(q_x60_t2);
    let q_x60_t4 = xtime(q_x60_t3);
    lemma_xtime_bits(q_x60_t3);
    let q_x60_t5 = xtime(q_x60_t4);
    lemma_xtime_bits(q_x60_t4);
    let q_x60_t6 = xtime(q_x60_t5);
    lemma_xtime_bits(q_x60_t5);
    let q_x60_t7 = xtime(q_x60_t6);
    lemma_xtime_bits(q_x60_t6);
    let q_x120 = gf_mul(q_x60, q_x60);
    lemma_gf_mul_unrolled(q_x60, q_x60);
    let q_x120_t1 = xtime(q_x120);
    lemma_xtime_bits(q_x120);
    let q_x120_t2 = xtime(q_x120_t1);
    lemma_xtime_bits(q_x120_t1);
    let q_x120_t3 = xtime(q_x120_t2);
    lemma_xtime_bits(q_x120_t2);
    let q_x120_t4 = xtime(q_x120_t3);
    lemma_xtime_bits(q_x120_t3);
    let q_x120_t5 = xtime(q_x120_t4);
    lemma_xtime_bits(q_x120_t4);
    let q_x120_t6 = xtime(q_x120_t5);
    lemma_xtime_bits(q_x120_t5);
    let q_x120_t7 = xtime(q_x120_t6);
    lemma_xtime_bits(q_x120_t6);
    let q_x240 = gf_mul(q_x120, q_x120);
    lemma_gf_mul_unrolled(q_x120, q_x120);
    let q_x240_t1 = xtime(q_x240);
    lemma_xtime_bits(q_x240);
    let q_x240_t2 = xtime(q_x240_t1);
    lemma_xtime_bits(q_x240_t1);
    let q_x240_t3 = xtime(q_x240_t2);
    lemma_xtime_bits(q_x240_t2);
    let q_x240_t4 = xtime(q_x240_t3);
    lemma_xtime_bits(q_x240_t3);
    let q_x240_t5 = xtime(q_x240_t4);
    lemma_xtime_bits(q_x240_t4);
    let q_x240_t6 = xtime(q_x240_t5);
    lemma_xtime_bits(q_x240_t5);
    let q_x240_t7 = xtime(q_x240_t6);
    lemma_xtime_bits(q_x240_t6);
    let q_x252 = gf_mul(q_x240, q_x12);
    lemma_gf_mul_unrolled(q_x240, q_x12);
    let q_x252_t1 = xtime(q_x252);
    lemma_xtime_bits(q_x252);
    let q_x252_t2 = xtime(q_x252_t1);
    lemma_xtime_bits(q_x252_t1);
    let q_x252_t3 = xtime(q_x252_t2);
    lemma_xtime_bits(q_x252_t2);
    let q_x252_t4 = xtime(q_x252_t3);
    lemma_xtime_bits(q_x252_t3);
    let q_x252_t5 = xtime(q_x252_t4);
    lemma_xtime_bits(q_x252_t4);
    let q_x252_t6 = xtime(q_x252_t5);
    lemma_xtime_bits(q_x252_t5);
    let q_x252_t7 = xtime(q_x252_t6);
    lemma_xtime_bits(q_x252_t6);
    let q_r = gf_mul(q_x252, q_x2);
    lemma_gf_mul_unrolled(q_x252, q_x2);
    assert(p_r == gf_inv(x));
    assert(q_r == gf_inv(p_r));
    assert(q_r == x) by (bit_vector)
        requires
            x_t1 == xt(x),
            x_t2 == xt(x_t1),
            x_t3 == xt(x_t2),
            x_t4 == xt(x_t3),
            x_t5 == xt(x_t4),
            x_t6 == xt(x_t5),
            x_t7 == xt(x_t6),
            p_x2 == mul_terms(x, x_t1, x_t2, x_t3, x_t4, x_t5, x_t6, x_t7, x),
            p_x2_t1 == xt(p_x2),
            p_x2_t2 == xt(p_x2_t1),
            p_x2_t3 == xt(p_x2_t2),
            p_x2_t4 == xt(p_x2_t3),
            p_x2_t5 == xt(p_x2_t4),
            p_x2_t6 == xt(p_x2_t5),
            p_x2_t7 == xt(p_x2_t6),
            p_x3 == mul_terms(p_x2, p_x2_t1, p_x2_t2, p_x2_t3, p_x2_t4, p_x2_t5, p_x2_t6, p_x2_t7, x),
            p_x3_t1 == xt(p_x3),
            p_x3_t2 == xt(p_x3_t1),
            p_x3_t3 == xt(p_x3_t2),
            p_x3_t4 == xt(p_x3_t3),
            p_x3_t5 == xt(p_x3_t4),
            p_x3_t6 == xt(p_x3_t5),
            p_x3_t7 == xt(p_x3_t6),
            p_x6 == mul_terms(p_x3, p_x3_t1, p_x3_t2, p_x3_t3, p_x3_t4, p_x3_t5, p_x3_t6, p_x3_t7, p_x3),
            p_x6_t1 == xt(p_x6),
            p_x6_t2 == xt(p_x6_t1),
            p_x6_t3 == xt(p_x6_t2),
            p_x6_t4 == xt(p_x6_t3),
            p_x6_t5 == xt(p_x6_t4),
            p_x6_t6 == xt(p_x6_t5),
            p_x6_t7 == xt(p_x6_t6),
            p_x12 == mul_terms(p_x6, p_x6_t1, p_x6_t2, p_x6_t3, p_x6_t4, p_x6_t5, p_x6_t6, p_x6_t7, p_x6),
            p_x12_t1 == xt(p_x12),
            p_x12_t2 == xt(p_x12_t1),
            p_x12_t3 == xt(p_x12_t2),
            p_x12_t4 == xt(p_x12_t3),
            p_x12_t5 == xt(p_x12_t4),
            p_x12_t6 == xt(p_x12_t5),
            p_x12_t7 == xt(p_x12_t6),
            p_x15 == mul_terms(p_x12, p_x12_t1, p_x12_t2, p_x12_t3, p_x12_t4, p_x12_t5, p_x12_t6, p_x12_t7, p_x3),
            p_x15_t1 == xt(p_x15),
            p_x15_t2 == xt(p_x15_t1),
            p_x15_t3 == xt(p_x15_t2),
            p_x15_t4 == xt(p_x15_t3),
            p_x15_t5 == xt(p_x15_t4),
            p_x15_t6 == xt(p_x15_t5),
            p_x15_t7 == xt(p_x15_t6),
            p_x30 == mul_terms(p_x15, p_x15_t1, p_x15_t2, p_x15_t3, p_x15_t4, p_x15_t5, p_x15_t6, p_x15_t7, p_x15),
            p_x30_t1 == xt(p_x30),
            p_x30_t2 == xt(p_x30_t1),
            p_x30_t3 == xt(p_x30_t2),
            p_x30_t4 == xt(p_x30_t3),
            p_x30_t5 == xt(p_x30_t4),
            p_x30_t6 == xt(p_x30_t5),
            p_x30_t7 == xt(p_x30_t6),
            p_x60 == mul_terms(p_x30, p_x30_t1, p_x30_t2, p_x30_t3, p_x30_t4, p_x30_t5, p_x30_t6, p_x30_t7, p_x30),
            p_x60_t1 == xt(p_x60),
            p_x60_t2 == xt(p_x60_t1),
            p_x60_t3 == xt(p_x60_t2),
            p_x60_t4 == xt(p_x60_t3),
            p_x60_t5 == xt(p_x60_t4),
            p_x60_t6 == xt(p_x60_t5),
            p_x60_t7 == xt(p_x60_t6),
            p_x120 == mul_terms(p_x60, p_x60_t1, p_x60_t2, p_x60_t3, p_x60_t4, p_x60_t5, p_x60_t6, p_x60_t7, p_x60),
            p_x120_t1 == xt(p_x120),
            p_x120_t2 == xt(p_x120_t1),
            p_x120_t3 == xt(p_x120_t2),
            p_x120_t4 == xt(p_x120_t3),
            p_x120_t5 == xt(p_x120_t4),
            p_x120_t6 == xt(p_x120_t5),
            p_x120_t7 == xt(p_x120_t6),
            p_x240 == mul_terms(p_x120, p_x120_t1, p_x120_t2, p_x120_t3, p_x120_t4, p_x120_t5, p_x120_t6, p_x120_t7, p_x120),
            p_x240_t1 == xt(p_x240),
            p_x240_t2 == xt(p_x240_t1),
            p_x240_t3 == xt(p_x240_t2),
            p_x240_t4 == xt(p_x240_t3),
            p_x240_t5 == xt(p_x240_t4),
            p_x240_t6 == xt(p_x240_t5),
            p_x240_t7 == xt(p_x240_t6),
            p_x252 == mul_terms(p_x240, p_x240_t1, p_x240_t2, p_x240_t3, p_x240_t4, p_x240_t5, p_x240_t6, p_x240_t7, p_x12),
            p_x252_t1 == xt(p_x252),
            p_x252_t2 == xt(p_x252_t1),
            p_x252_t3 == xt(p_x252_t2),
            p_x252_t4 == xt(p_x252_t3),
            p_x252_t5 == xt(p_x252_t4),
            p_x252_t6 == xt(p_x252_t5),
            p_x252_t7 == xt(p_x252_t6),
            p_r == mul_terms(p_x252, p_x252_t1, p_x252_t2, p_x252_t3, p_x252_t4, p_x252_t5, p_x252_t6, p_x252_t7, p_x2),
            p_r_t1 == xt(p_r),
            p_r_t2 == xt(p_r_t1),
            p_r_t3 == xt(p_r_t2),
            p_r_t4 == xt(p_r_t3),
            p_r_t5 == xt(p_r_t4),
            p_r_t6 == xt(p_r_t5),
            p_r_t7 == xt(p_r_t6),
            q_x2 == mul_terms(p_r, p_r_t1, p_r_t2, p_r_t3, p_r_t4, p_r_t5, p_r_t6, p_r_t7, p_r),
            q_x2_t1 == xt(q_x2),
            q_x2_t2 == xt(q_x2_t1),
            q_x2_t3 == xt(q_x2_t2),
            q_x2_t4 == xt(q_x2_t3),
            q_x2_t5 == xt(q_x2_t4),
            q_x2_t6 == xt(q_x2_t5),
            q_x2_t7 == xt(q_x2_t6),
            q_x3 == mul_terms(q_x2, q_x2_t1, q_x2_t2, q_x2_t3, q_x2_t4, q_x2_t5, q_x2_t6, q_x2_t7, p_r),
            q_x3_t1 == xt(q_x3),
            q_x3_t2 == xt(q_x3_t1),
            q_x3_t3 == xt(q_x3_t2),
            q_x3_t4 == xt(q_x3_t3),
            q_x3_t5 == xt(q_x3_t4),
            q_x3_t6 == xt(q_x3_t5),
            q_x3_t7 == xt(q_x3_t6),
            q_x6 == mul_terms(q_x3, q_x3_t1, q_x3_t2, q_x3_t3, q_x3_t4, q_x3_t5, q_x3_t6, q_x3_t7, q_x3),
            q_x6_t1 == xt(q_x6),
            q_x6_t2 == xt(q_x6_t1),
            q_x6_t3 == xt(q_x6_t2),
            q_x6_t4 == xt(q_x6_t3),
            q_x6_t5 == xt(q_x6_t4),
            q_x6_t6 == xt(q_x6_t5),
            q_x6_t7 == xt(q_x6_t6),
            q_x12 == mul_terms(q_x6, q_x6_t1, q_x6_t2, q_x6_t3, q_x6_t4, q_x6_t5, q_x6_t6, q_x6_t7, q_x6),
            q_x12_t1 == xt(q_x12),
            q_x12_t2 == xt(q_x12_t1),
            q_x12_t3 == xt(q_x12_t2),
            q_x12_t4 == xt(q_x12_t3),
            q_x12_t5 == xt(q_x12_t4),
            q_x12_t6 == xt(q_x12_t5),
            q_x12_t7 == xt(q_x12_t6),
            q_x15 == mul_terms(q_x12, q_x12_t1, q_x12_t2, q_x12_t3, q_x12_t4, q_x12_t5, q_x12_t6, q_x12_t7, q_x3),
            q_x15_t1 == xt(q_x15),
            q_x15_t2 == xt(q_x15_t1),
            q_x15_t3 == xt(q_x15_t2),
            q_x15_t4 == xt(q_x15_t3),
            q_x15_t5 == xt(q_x15_t4),
            q_x15_t6 == xt(q_x15_t5),
            q_x15_t7 == xt(q_x15_t6),
            q_x30 == mul_terms(q_x15, q_x15_t1, q_x15_t2, q_x15_t3, q_x15_t4, q_x15_t5, q_x15_t6, q_x15_t7, q_x15),
            q_x30_t1 == xt(q_x30),
            q_x30_t2 == xt(q_x30_t1),
            q_x30_t3 == xt(q_x30_t2),
            q_x30_t4 == xt(q_x30_t3),
            q_x30_t5 == xt(q_x30_t4),
            q_x30_t6 == xt(q_x30_t5),
            q_x30_t7 == xt(q_x30_t6),
            q_x60 == mul_terms(q_x30, q_x30_t1, q_x30_t2, q_x30_t3, q_x30_t4, q_x30_t5, q_x30_t6, q_x30_t7, q_x30),
            q_x60_t1 == xt(q_x60),
            q_x60_t2 == xt(q_x60_t1),
            q_x60_t3 == xt(q_x60_t2),
            q_x60_t4 == xt(q_x60_t3),
            q_x60_t5 == xt(q_x60_t4),
            q_x60_t6 == xt(q_x60_t5),
            q_x60_t7 == xt(q_x60_t6),
            q_x120 == mul_terms(q_x60, q_x60_t1, q_x60_t2, q_x60_t3, q_x60_t4, q_x60_t5, q_x60_t6, q_x60_t7, q_x60),
            q_x120_t1 == xt(q_x120),
            q_x120_t2 == xt(q_x120_t1),
            q_x120_t3 == xt(q_x120_t2),
            q_x120_t4 == xt(q_x120_t3),
            q_x120_t5 == xt(q_x120_t4),
            q_x120_t6 == xt(q_x120_t5),
            q_x120_t7 == xt(q_x120_t6),
            q_x240 == mul_terms(q_x120, q_x120_t1, q_x120_t2, q_x120_t3, q_x120_t4, q_x120_t5, q_x120_t6, q_x120_t7, q_x120),
            q_x240_t1 == xt(q_x240),
            q_x240_t2 == xt(q_x240_t1),
            q_x240_t3 == xt(q_x240_t2),
            q_x240_t4 == xt(q_x240_t3),
            q_x240_t5 == xt(q_x240_t4),
            q_x240_t6 == xt(q_x240_t5),
            q_x240_t7 == xt(q_x240_t6),
            q_x252 == mul_terms(q_x240, q_x240_t1, q_x240_t2, q_x240_t3, q_x240_t4, q_x240_t5, q_x240_t6, q_x240_t7, q_x12),
            q_x252_t1 == xt(q_x252),
            q_x252_t2 == xt(q_x252_t1),
            q_x252_t3 == xt(q_x252_t2),
            q_x252_t4 == xt(q_x252_t3),
            q_x252_t5 == xt(q_x252_t4),
            q_x252_t6 == xt(q_x252_t5),
            q_x252_t7 == xt(q_x252_t6),
            q_r == mul_terms(q_x252, q_x252_t1, q_x252_t2, q_x252_t3, q_x252_t4, q_x252_t5, q_x252_t6, q_x252_t7, q_x2),
    ;
}

/// InvMixColumns undoes MixColumns on one column `a0 .. a3`.
pub proof fn lemma_mix_column_inverse(a0: u8, a1: u8, a2: u8, a3: u8)
    ensures
        gf_mul((xtime(a0) ^ (xtime(a1) ^ a1) ^ a2 ^ a3), 14) ^ gf_mul((xtime(a1) ^ (xtime(a2) ^ a2) ^ a3 ^ a0), 11) ^ gf_mul((xtime(a2) ^ (xtime(a3) ^ a3) ^ a0 ^ a1), 13) ^ gf_mul((xtime(a3) ^ (xtime(a0) ^ a0) ^ a1 ^ a2), 9) == a0,
        gf_mul((xtime(a1) ^ (xtime(a2) ^ a2) ^ a3 ^ a0), 14) ^ gf_mul((xtime(a2) ^ (xtime(a3) ^ a3) ^ a0 ^ a1), 11) ^ gf_mul((xtime(a3) ^ (xtime(a0) ^ a0) ^ a1 ^ a2), 13) ^ gf_mul((xtime(a0) ^ (xtime(a1) ^ a1) ^ a2 ^ a3), 9) == a1,
        gf_mul((xtime(a2) ^ (xtime(a3) ^ a3) ^ a0 ^ a1), 14) ^ gf_mul((xtime(a3) ^ (xtime(a0) ^ a0) ^ a1 ^ a2), 11) ^ gf_mul((xtime(a0) ^ (xtime(a1) ^ a1) ^ a2 ^ a3), 13) ^ gf_mul((xtime(a1) ^ (xtime(a2) ^ a2) ^ a3 ^ a0), 9) == a2,
        gf_mul((xtime(a3) ^ (xtime(a0) ^ a0) ^ a1 ^ a2), 14) ^ gf_mul((xtime(a0) ^ (xtime(a1) ^ a1) ^ a2 ^ a3), 11) ^ gf_mul((xtime(a1) ^ (xtime(a2) ^ a2) ^ a3 ^ a0), 13) ^ gf_mul((xtime(a2) ^ (xtime(a3) ^ a3) ^ a0 ^ a1), 9) == a3,
{
    let xt_a0 = xtime(a0);
    lemma_xtime_bits(a0);
    let xt_a1 = xtime(a1);
    lemma_xtime_bits(a1);
    let xt_a2 = xtime(a2);
    lemma_xtime_bits(a2);
    let xt_a3 = xtime(a3);
    lemma_xtime_bits(a3);
    let b0 = xt_a0 ^ (xt_a1 ^ a1) ^ a2 ^ a3;
    let b1 = xt_a1 ^ (xt_a2 ^ a2) ^ a3 ^ a0;
    let b2 = xt_a2 ^ (xt_a3 ^ a3) ^ a0 ^ a1;
    let b3 = xt_a3 ^ (xt_a0 ^ a0) ^ a1 ^ a2;
    let b0_t1 = xtime(b0);
    lemma_xtime_bits(b0);
    let b0_t2 = xtime(b0_t1);
    lemma_xtime_bits(b0_t1);
    let b0_t3 = xtime(b0_t2);
    lemma_xtime_bits(b0_t2);
    let b0_t4 = xtime(b0_t3);
    lemma_xtime_bits(b0_t3);
    let b0_t5 = xtime(b0_t4);
    lemma_xtime_bits(b0_t4);
    let b0_t6 = xtime(b0_t5);
    lemma_xtime_bits(b0_t5);
    let b0_t7 = xtime(b0_t6);
    lemma_xtime_bits(b0_t6);
    let b0_m14 = gf_mul(b0, 14);
    lemma_gf_mul_unrolled(b0, 14);
    let b0_m11 = gf_mul(b0, 11);
    lemma_gf_mul_unrolled(b0, 11);
    let b0_m13 = gf_mul(b0, 13);
    lemma_gf_mul_unrolled(b0, 13);
    let b0_m9 = gf_mul(b0, 9);
    lemma_gf_mul_unrolled(b0, 9);
    let b1_t1 = xtime(b1);
    lemma_xtime_bits(b1);
    let b1_t2 = xtime(b1_t1);
    lemma_xtime_bits(b1_t1);
    let b1_t3 = xtime(b1_t2);
    lemma_xtime_bits(b1_t2);
    let b1_t4 = xtime(b1_t3);
    lemma_xtime_bits(b1_t3);
    let b1_t5 = xtime(b1_t4);
    lemma_xtime_bits(b1_t4);
    let b1_t6 = xtime(b1_t5);
    lemma_xtime_bits(b1_t5);
    let b1_t7 = xtime(b1_t6);
    lemma_xtime_bits(b1_t6);
    let b1_m14 = gf_mul(b1, 14);
    lemma_gf_mul_unrolled(b1, 14);
    let b1_m11 = gf_mul(b1, 11);
    lemma_gf_mul_unrolled(b1, 11);
    let b1_m13 = gf_mul(b1, 13);
    lemma_gf_mul_unrolled(b1, 13);
    let b1_m9 = gf_mul(b1, 9);
    lemma_gf_mul_unrolled(b1, 9);
    let b2_t1 = xtime(b2);
    lemma_xtime_bits(b2);
    let b2_t2 = xtime(b2_t1);
    lemma_xtime_bits(b2_t1);
    let b2_t3 = xtime(b2_t2);
    lemma_xtime_bits(b2_t2);
    let b2_t4 = xtime(b2_t3);
    lemma_xtime_bits(b2_t3);
    let b2_t5 = xtime(b2_t4);
    lemma_xtime_bits(b2_t4);
    let b2_t6 = xtime(b2_t5);
    lemma_xtime_bits(b2_t5);
    let b2_t7 = xtime(b2_t6);
    lemma_xtime_bits(b2_t6);
    let b2_m14 = gf_mul(b2, 14);
    lemma_gf_mul_unrolled(b2, 14);
    let b2_m11 = gf_mul(b2, 11);
    lemma_gf_mul_unrolled(b2, 11);
    let b2_m13 = gf_mul(b2, 13);
    lemma_gf_mul_unrolled(b2, 13);
    let b2_m9 = gf_mul(b2, 9);
    lemma_gf_mul_unrolled(b2, 9);
    let b3_t1 = xtime(b3);
    lemma_xtime_bits(b3);
    let b3_t2 = xtime(b3_t1);
    lemma_xtime_bits(b3_t1);
    let b3_t3 = xtime(b3_t2);
    lemma_xtime_bits(b3_t2);
    let b3_t4 = xtime(b3_t3);
    lemma_xtime_bits(b3_t3);
    let b3_t5 = xtime(b3_t4);
    lemma_xtime_bits(b3_t4);
    let b3_t6 = xtime(b3_t5);
    lemma_xtime_bits(b3_t5);
    let b3_t7 = xtime(b3_t6);
    lemma_xtime_bits(b3_t6);
    let b3_m14 = gf_mul(b3, 14);
    lemma_gf_mul_unrolled(b3, 14);
    let b3_m11 = gf_mul(b3, 11);
    lemma_gf_mul_unrolled(b3, 11);
    let b3_m13 = gf_mul(b3, 13);
    lemma_gf_mul_unrolled(b3, 13);
    let b3_m9 = gf_mul(b3, 9);
    lemma_gf_mul_unrolled(b3, 9);
    assert(b0_m14 ^ b1_m11 ^ b2_m13 ^ b3_m9 == a0 && b1_m14 ^ b2_m11 ^ b3_m13 ^ b0_m9 == a1 && b2_m14 ^ b3_m11 ^ b0_m13 ^ b1_m9 == a2 && b3_m14 ^ b0_m11 ^ b1_m13 ^ b2_m9 == a3) by (bit_vector)
        requires
            xt_a0 == xt(a0),
            xt_a1 == xt(a1),
            xt_a2 == xt(a2),
            xt_a3 == xt(a3),
            b0 == xt_a0 ^ (xt_a1 ^ a1) ^ a2 ^ a3,
            b1 == xt_a1 ^ (xt_a2 ^ a2) ^ a3 ^ a0,
            b2 == xt_a2 ^ (xt_a3 ^ a3) ^ a0 ^ a1,
            b3 == xt_a3 ^ (xt_a0 ^ a0) ^ a1 ^ a2,
            b0_t1 == xt(b0),
            b0_t2 == xt(b0_t1),
            b0_t3 == xt(b0_t2),
            b0_t4 == xt(b0_t3),
            b0_t5 == xt(b0_t4),
            b0_t6 == xt(b0_t5),
            b0_t7 == xt(b0_t6),
            b0_m14 == mul_terms(b0, b0_t1, b0_t2, b0_t3, b0_t4, b0_t5, b0_t6, b0_t7, 14),
            b0_m11 == mul_terms(b0, b0_t1, b0_t2, b0_t3, b0_t4, b0_t5, b0_t6, b0_t7, 11),
            b0_m13 == mul_terms(b0, b0_t1, b0_t2, b0_t3, b0_t4, b0_t5, b0_t6, b0_t7, 13),
            b0_m9 == mul_terms(b0, b0_t1, b0_t2, b0_t3, b0_t4, b0_t5, b0_t6, b0_t7, 9),
            b1_t1 == xt(b1),
            b1_t2 == xt(b1_t1),
            b1_t3 == xt(b1_t2),
            b1_t4 == xt(b1_t3),
            b1_t5 == xt(b1_t4),
            b1_t6 == xt(b1_t5),
            b1_t7 == xt(b1_t6),
            b1_m14 == mul_terms(b1, b1_t1, b1_t2, b1_t3, b1_t4, b1_t5, b1_t6, b1_t7, 14),
            b1_m11 == mul_terms(b1, b1_t1, b1_t2, b1_t3, b1_t4, b1_t5, b1_t6, b1_t7, 11),
            b1_m13 == mul_terms(b1, b1_t1, b1_t2, b1_t3, b1_t4, b1_t5, b1_t6, b1_t7, 13),
            b1_m9 == mul_terms(b1, b1_t1, b1_t2, b1_t3, b1_t4, b1_t5, b1_t6, b1_t7, 9),
            b2_t1 == xt(b2),
            b2_t2 == xt(b2_t1),
            b2_t3 == xt(b2_t2),
            b2_t4 == xt(b2_t3),
            b2_t5 == xt(b2_t4),
            b2_t6 == xt(b2_t5),
            b2_t7 == xt(b2_t6),
            b2_m14 == mul_terms(b2, b2_t1, b2_t2, b2_t3, b2_t4, b2_t5, b2_t6, b2_t7, 14),
            b2_m11 == mul_terms(b2, b2_t1, b2_t2, b2_t3, b2_t4, b2_t5, b2_t6, b2_t7, 11),
            b2_m13 == mul_terms(b2, b2_t1, b2_t2, b2_t3, b2_t4, b2_t5, b2_t6, b2_t7, 13),
            b2_m9 == mul_terms(b2, b2_t1, b2_t2, b2_t3, b2_t4, b2_t5, b2_t6, b2_t7, 9),
            b3_t1 == xt(b3),
            b3_t2 == xt(b3_t1),
            b3_t3 == xt(b3_t2),
            b3_t4 == xt(b3_t3),
            b3_t5 == xt(b3_t4),
            b3_t6 == xt(b3_t5),
            b3_t7 == xt(b3_t6),
            b3_m14 == mul_terms(b3, b3_t1, b3_t2, b3_t3, b3_t4, b3_t5, b3_t6, b3_t7, 14),
            b3_m11 == mul_terms(b3, b3_t1, b3_t2, b3_t3, b3_t4, b3_t5, b3_t6, b3_t7, 11),
            b3_m13 == mul_terms(b3, b3_t1, b3_t2, b3_t3, b3_t4, b3_t5, b3_t6, b3_t7, 13),
            b3_m9 == mul_terms(b3, b3_t1, b3_t2, b3_t3, b3_t4, b3_t5, b3_t6, b3_t7, 9),
    ;
}

/// MixColumns undoes InvMixColumns on one column `a0 .. a3`.
pub proof fn lemma_inv_mix_column_inverse(a0: u8, a1: u8, a2: u8, a3: u8)
    ensures
        xtime((gf_mul(a0, 14) ^ gf_mul(a1, 11) ^ gf_mul(a2, 13) ^ gf_mul(a3, 9))) ^ (xtime((gf_mul(a1, 14) ^ gf_mul(a2, 11) ^ gf_mul(a3, 13) ^ gf_mul(a0, 9))) ^ (gf_mul(a1, 14) ^ gf_mul(a2, 11) ^ gf_mul(a3, 13) ^ gf_mul(a0, 9))) ^ (gf_mul(a2, 14) ^ gf_mul(a3, 11) ^ gf_mul(a0, 13) ^ gf_mul(a1, 9)) ^ (gf_mul(a3, 14) ^ gf_mul(a0, 11) ^ gf_mul(a1, 13) ^ gf_mul(a2, 9)) == a0,
        xtime((gf_mul(a1, 14) ^ gf_mul(a2, 11) ^ gf_mul(a3, 13) ^ gf_mul(a0, 9))) ^ (xtime((gf_mul(a2, 14) ^ gf_mul(a3, 11) ^ gf_mul(a0, 13) ^ gf_mul(a1, 9))) ^ (gf_mul(a2, 14) ^ gf_mul(a3, 11) ^ gf_mul(a0, 13) ^ gf_mul(a1, 9))) ^ (gf_mul(a3, 14) ^ gf_mul(a0, 11) ^ gf_mul(a1, 13) ^ gf_mul(a2, 9)) ^ (gf_mul(a0, 14) ^ gf_mul(a1, 11) ^ gf_mul(a2, 13) ^ gf_mul(a3, 9)) == a1,
        xtime((gf_mul(a2, 14) ^ gf_mul(a3, 11) ^ gf_mul(a0, 13) ^ gf_mul(a1, 9))) ^ (xtime((gf_mul(a3, 14) ^ gf_mul(a0, 11) ^ gf_mul(a1, 13) ^ gf_mul(a2, 9))) ^ (gf_mul(a3, 14) ^ gf_mul(a0, 11) ^ gf_mul(a1, 13) ^ gf_mul(a2, 9))) ^ (gf_mul(a0, 14) ^ gf_mul(a1, 11) ^ gf_mul(a2, 13) ^ gf_mul(a3, 9)) ^ (gf_mul(a1, 14) ^ gf_mul(a2, 11) ^ gf_mul(a3, 13) ^ gf_mul(a0, 9)) == a2,
        xtime((gf_mul(a3, 14) ^ gf_mul(a0, 11) ^ gf_mul(a1, 13) ^ gf_mul(a2, 9))) ^ (xtime((gf_mul(a0, 14) ^ gf_mul(a1, 11) ^ gf_mul(a2, 13) ^ gf_mul(a3, 9))) ^ (gf_mul(a0, 14) ^ gf_mul(a1, 11) ^ gf_mul(a2, 13) ^ gf_mul(a3, 9))) ^ (gf_mul(a1, 14) ^ gf_mul(a2, 11) ^ gf_mul(a3, 13) ^ gf_mul(a0, 9)) ^ (gf_mul(a2, 14) ^ gf_mul(a3, 11) ^ gf_mul(a0, 13) ^ gf_mul(a1, 9)) == a3,
{
    let a0_t1 = xtime(a0);
    lemma_xtime_bits(a0);
    let a0_t2 = xtime(a0_t1);
    lemma_xtime_bits(a0_t1);
    let a0_t3 = xtime(a0_t2);
    lemma_xtime_bits(a0_t2);
    let a0_t4 = xtime(a0_t3);
    lemma_xtime_bits(a0_t3);
    let a0_t5 = xtime(a0_t4);
    lemma_xtime_bits(a0_t4);
    let a0_t6 = xtime(a0_t5);
    lemma_xtime_bits(a0_t5);
    let a0_t7 = xtime(a0_t6);
    lemma_xtime_bits(a0_t6);
    let a0_m14 = gf_mul(a0, 14);
    lemma_gf_mul_unrolled(a0, 14);
    let a0_m11 = gf_mul(a0, 11);
    lemma_gf_mul_unrolled(a0, 11);
    let a0_m13 = gf_mul(a0, 13);
    lemma_gf_mul_unrolled(a0, 13);
    let a0_m9 = gf_mul(a0, 9);
    lemma_gf_mul_unrolled(a0, 9);
    let a1_t1 = xtime(a1);
    lemma_xtime_bits(a1);
    let a1_t2 = xtime(a1_t1);
    lemma_xtime_bits(a1_t1);
    let a1_t3 = xtime(a1_t2);
    lemma_xtime_bits(a1_t2);
    let a1_t4 = xtime(a1_t3);
    lemma_xtime_bits(a1_t3);
    let a1_t5 = xtime(a1_t4);
    lemma_xtime_bits(a1_t4);
    let a1_t6 = xtime(a1_t5);
    lemma_xtime_bits(a1_t5);
    let a1_t7 = xtime(a1_t6);
    lemma_xtime_bits(a1_t6);
    let a1_m14 = gf_mul(a1, 14);
    lemma_gf_mul_unrolled(a1, 14);
    let a1_m11 = gf_mul(a1, 11);
    lemma_gf_mul_unrolled(a1, 11);
    let a1_m13 = gf_mul(a1, 13);
    lemma_gf_mul_unrolled(a1, 13);
    let a1_m9 = gf_mul(a1, 9);
    lemma_gf_mul_unrolled(a1, 9);
    let a2_t1 = xtime(a2);
    lemma_xtime_bits(a2);
    let a2_t2 = xtime(a2_t1);
    lemma_xtime_bits(a2_t1);
    let a2_t3 = xtime(a2_t2);
    lemma_xtime_bits(a2_t2);
    let a2_t4 = xtime(a2_t3);
    lemma_xtime_bits(a2_t3);
    let a2_t5 = xtime(a2_t4);
    lemma_xtime_bits(a2_t4);
    let a2_t6 = xtime(a2_t5);
    lemma_xtime_bits(a2_t5);
    let a2_t7 = xtime(a2_t6);
    lemma_xtime_bits(a2_t6);
    let a2_m14 = gf_mul(a2, 14);
    lemma_gf_mul_unrolled(a2, 14);
    let a2_m11 = gf_mul(a2, 11);
    lemma_gf_mul_unrolled(a2, 11);
    let a2_m13 = gf_mul(a2, 13);
    lemma_gf_mul_unrolled(a2, 13);
    let a2_m9 = gf_mul(a2, 9);
    lemma_gf_mul_unrolled(a2, 9);
    let a3_t1 = xtime(a3);
    lemma_xtime_bits(a3);
    let a3_t2 = xtime(a3_t1);
    lemma_xtime_bits(a3_t1);
    let a3_t3 = xtime(a3_t2);
    lemma_xtime_bits(a3_t2);
    let a3_t4 = xtime(a3_t3);
    lemma_xtime_bits(a3_t3);
    let a3_t5 = xtime(a3_t4);
    lemma_xtime_bits(a3_t4);
    let a3_t6 = xtime(a3_t5);
    lemma_xtime_bits(a3_t5);
    let a3_t7 = xtime(a3_t6);
    lemma_xtime_bits(a3_t6);
    let a3_m14 = gf_mul(a3, 14);
    lemma_gf_mul_unrolled(a3, 14);
    let a3_m11 = gf_mul(a3, 11);
    lemma_gf_mul_unrolled(a3, 11);
    let a3_m13 = gf_mul(a3, 13);
    lemma_gf_mul_unrolled(a3, 13);
    let a3_m9 = gf_mul(a3, 9);
    lemma_gf_mul_unrolled(a3, 9);
    let c0 = a0_m14 ^ a1_m11 ^ a2_m13 ^ a3_m9;
    let c1 = a1_m14 ^ a2_m11 ^ a3_m13 ^ a0_m9;
    let c2 = a2_m14 ^ a3_m11 ^ a0_m13 ^ a1_m9;
    let c3 = a3_m14 ^ a0_m11 ^ a1_m13 ^ a2_m9;
    let xt_c0 = xtime(c0);
    lemma_xtime_bits(c0);
    let xt_c1 = xtime(c1);
    lemma_xtime_bits(c1);
    let xt_c2 = xtime(c2);
    lemma_xtime_bits(c2);
    let xt_c3 = xtime(c3);
    lemma_xtime_bits(c3);
    assert(xt_c0 ^ (xt_c1 ^ c1) ^ c2 ^ c3 == a0 && xt_c1 ^ (xt_c2 ^ c2) ^ c3 ^ c0 == a1 && xt_c2 ^ (xt_c3 ^ c3) ^ c0 ^ c1 == a2 && xt_c3 ^ (xt_c0 ^ c0) ^ c1 ^ c2 == a3) by (bit_vector)
        requires
            a0_t1 == xt(a0),
            a0_t2 == xt(a0_t1),
            a0_t3 == xt(a0_t2),
            a0_t4 == xt(a0_t3),
            a0_t5 == xt(a0_t4),
            a0_t6 == xt(a0_t5),
            a0_t7 == xt(a0_t6),
            a0_m14 == mul_terms(a0, a0_t1, a0_t2, a0_t3, a0_t4, a0_t5, a0_t6, a0_t7, 14),
            a0_m11 == mul_terms(a0, a0_t1, a0_t2, a0_t3, a0_t4, a0_t5, a0_t6, a0_t7, 11),
            a0_m13 == mul_terms(a0, a0_t1, a0_t2, a0_t3, a0_t4, a0_t5, a0_t6, a0_t7, 13),
            a0_m9 == mul_terms(a0, a0_t1, a0_t2, a0_t3, a0_t4, a0_t5, a0_t6, a0_t7, 9),
            a1_t1 == xt(a1),
            a1_t2 == xt(a1_t1),
            a1_t3 == xt(a1_t2),
            a1_t4 == xt(a1_t3),
            a1_t5 == xt(a1_t4),
            a1_t6 == xt(a1_t5),
            a1_t7 == xt(a1_t6),
            a1_m14 == mul_terms(a1, a1_t1, a1_t2, a1_t3, a1_t4, a1_t5, a1_t6, a1_t7, 14),
            a1_m11 == mul_terms(a1, a1_t1, a1_t2, a1_t3, a1_t4, a1_t5, a1_t6, a1_t7, 11),
            a1_m13 == mul_terms(a1, a1_t1, a1_t2, a1_t3, a1_t4, a1_t5, a1_t6, a1_t7, 13),
            a1_m9 == mul_terms(a1, a1_t1, a1_t2, a1_t3, a1_t4, a1_t5, a1_t6, a1_t7, 9),
            a2_t1 == xt(a2),
            a2_t2 == xt(a2_t1),
            a2_t3 == xt(a2_t2),
            a2_t4 == xt(a2_t3),
            a2_t5 == xt(a2_t4),
            a2_t6 == xt(a2_t5),
            a2_t7 == xt(a2_t6),
            a2_m14 == mul_terms(a2, a2_t1, a2_t2, a2_t3, a2_t4, a2_t5, a2_t6, a2_t7, 14),
            a2_m11 == mul_terms(a2, a2_t1, a2_t2, a2_t3, a2_t4, a2_t5, a2_t6, a2_t7, 11),
            a2_m13 == mul_terms(a2, a2_t1, a2_t2, a2_t3, a2_t4, a2_t5, a2_t6, a2_t7, 13),
            a2_m9 == mul_terms(a2, a2_t1, a2_t2, a2_t3, a2_t4, a2_t5, a2_t6, a2_t7, 9),
            a3_t1 == xt(a3),
            a3_t2 == xt(a3_t1),
            a3_t3 == xt(a3_t2),
            a3_t4 == xt(a3_t3),
            a3_t5 == xt(a3_t4),
            a3_t6 == xt(a3_t5),
            a3_t7 == xt(a3_t6),
            a3_m14 == mul_terms(a3, a3_t1, a3_t2, a3_t3, a3_t4, a3_t5, a3_t6, a3_t7, 14),
            a3_m11 == mul_terms(a3, a3_t1, a3_t2, a3_t3, a3_t4, a3_t5, a3_t6, a3_t7, 11),
            a3_m13 == mul_terms(a3, a3_t1, a3_t2, a3_t3, a3_t4, a3_t5, a3_t6, a3_t7, 13),
            a3_m9 == mul_terms(a3, a3_t1, a3_t2, a3_t3, a3_t4, a3_t5, a3_t6, a3_t7, 9),
            c0 == a0_m14 ^ a1_m11 ^ a2_m13 ^ a3_m9,
            c1 == a1_m14 ^ a2_m11 ^ a3_m13 ^ a0_m9,
            c2 == a2_m14 ^ a3_m11 ^ a0_m13 ^ a1_m9,
            c3 == a3_m14 ^ a0_m11 ^ a1_m13 ^ a2_m9,
            xt_c0 == xt(c0),
            xt_c1 == xt(c1),
            xt_c2 == xt(c2),
            xt_c3 == xt(c3),
    ;
}

pub open spec fn rotl8(b: u8, n: u8) -> u8 {
    ((b << n) | (b >> ((8 - n) as u8))) as u8
}

/// The affine map of the S-box.
pub open spec fn affine(b: u8) -> u8 {
    b ^ rotl8(b, 1) ^ rotl8(b, 2) ^ rotl8(b, 3) ^ rotl8(b, 4) ^ 0x63
}

/// The inverse of the affine map.
pub open spec fn inv_affine(b: u8) -> u8 {
    rotl8(b, 1) ^ rotl8(b, 3) ^ rotl8(b, 6) ^ 0x05
}

/// The AES S-box.
pub open spec fn sbox(x: u8) -> u8 {
    affine(gf_inv(x))
}

/// The inverse S-box.
pub open spec fn inv_sbox(x: u8) -> u8 {
    gf_inv(inv_affine(x))
}

fn sbox_exec(x: u8) -> (r: u8)
    ensures
        r == sbox(x),
{
    let b = gf_inv_exec(x);
    b ^ ((b << 1) | (b >> 7)) ^ ((b << 2) | (b >> 6)) ^ ((b << 3) | (b >> 5)) ^ ((b << 4) | (b
        >> 4)) ^ 0x63
}

fn inv_sbox_exec(x: u8) -> (r: u8)
    ensures
        r == inv_sbox(x),
{
    let b = ((x << 1) | (x >> 7)) ^ ((x << 3) | (x >> 5)) ^ ((x << 6) | (x >> 2)) ^ 0x05;
    gf_inv_exec(b)
}

/// The state is 16 bytes in column order: byte `r + 4 * c` is row `r` of column `c`.
pub open spec fn sub_bytes(s: Seq<u8>) -> Seq<u8> {
    Seq::new(16, |i: int| sbox(s[i]))
}

pub open spec fn inv_sub_bytes(s: Seq<u8>) -> Seq<u8> {
    Seq::new(16, |i: int| inv_sbox(s[i]))
}

/// Row `r` is rotated left by `r` places.
pub open spec fn shift_rows(s: Seq<u8>) -> Seq<u8> {
    Seq::new(16, |i: int| s[i % 4 + 4 * ((i / 4 + i % 4) % 4)])
}

pub open spec fn inv_shift_rows(s: Seq<u8>) -> Seq<u8> {
    Seq::new(16, |i: int| s[i % 4 + 4 * ((i / 4 + 4 - i % 4) % 4)])
}

/// Byte `r` of column `c` after MixColumns: 2·a0 + 3·a1 + a2 + a3, counting
/// rows from `r`.
pub open spec fn mix_byte(s: Seq<u8>, c: int, r: int) -> u8 {
    let a0 = s[4 * c + r % 4];
    let a1 = s[4 * c + (r + 1) % 4];
    let a2 = s[4 * c + (r + 2) % 4];
    let a3 = s[4 * c + (r + 3) % 4];
    xtime(a0) ^ (xtime(a1) ^ a1) ^ a2 ^ a3
}

/// Byte `r` of column `c` after InvMixColumns: 14·a0 + 11·a1 + 13·a2 + 9·a3.
pub open spec fn inv_mix_byte(s: Seq<u8>, c: int, r: int) -> u8 {
    let a0 = s[4 * c + r % 4];
    let a1 = s[4 * c + (r + 1) % 4];
    let a2 = s[4 * c + (r + 2) % 4];
    let a3 = s[4 * c + (r + 3) % 4];
    gf_mul(a0, 14) ^ gf_mul(a1, 11) ^ gf_mul(a2, 13) ^ gf_mul(a3, 9)
}

pub open spec fn mix_columns(s: Seq<u8>) -> Seq<u8> {
    Seq::new(16, |i: int| mix_byte(s, i / 4, i % 4))
}

pub open spec fn inv_mix_columns(s: Seq<u8>) -> Seq<u8> {
    Seq::new(16, |i: int| inv_mix_byte(s, i / 4, i % 4))
}


proof fn lemma_affine_inverse(v: u8)
    ensures
        inv_affine(affine(v)) == v,
        affine(inv_affine(v)) == v,
{
    assert(inv_affine(affine(v)) == v) by (bit_vector);
    assert(affine(inv_affine(v)) == v) by (bit_vector);
}

/// The inverse S-box undoes the S-box, and conversely.
pub proof fn lemma_sbox_inverse(x: u8)
    ensures
        inv_sbox(sbox(x)) == x,
        sbox(inv_sbox(x)) == x,
{
    lemma_affine_inverse(gf_inv(x));
    lemma_gf_inv_involution(x);
    lemma_affine_inverse(x);
    lemma_gf_inv_involution(inv_affine(x));
}

proof fn lemma_sub_bytes_inverse(s: Seq<u8>)
    requires
        s.len() == 16,
    ensures
        inv_sub_bytes(sub_bytes(s)) == s,
        sub_bytes(inv_sub_bytes(s)) == s,
{
    assert forall|i: int| 0 <= i < 16 implies #[trigger] inv_sub_bytes(sub_bytes(s))[i] == s[i]
        && sub_bytes(inv_sub_bytes(s))[i] == s[i] by {
        lemma_sbox_inverse(s[i]);
    }
    assert(inv_sub_bytes(sub_bytes(s)) =~= s);
    assert(sub_bytes(inv_sub_bytes(s)) =~= s);
}

proof fn lemma_shift_rows_inverse(s: Seq<u8>)
    requires
        s.len() == 16,
    ensures
        inv_shift_rows(shift_rows(s)) == s,
        shift_rows(inv_shift_rows(s)) == s,
{
    assert forall|i: int| 0 <= i < 16 implies #[trigger] inv_shift_rows(shift_rows(s))[i] == s[i]
        && shift_rows(inv_shift_rows(s))[i] == s[i] by {
        let r = i % 4;
        let c = i / 4;
        let j = r + 4 * ((c + 4 - r) % 4);
        let k = r + 4 * ((c + r) % 4);
        assert(j % 4 == r && j / 4 == (c + 4 - r) % 4);
        assert(k % 4 == r && k / 4 == (c + r) % 4);
        assert(((c + 4 - r) % 4 + r) % 4 == c);
        assert(((c + r) % 4 + 4 - r) % 4 == c);
        assert(r + 4 * c == i);
    }
    assert(inv_shift_rows(shift_rows(s)) =~= s);
    assert(shift_rows(inv_shift_rows(s)) =~= s);
}

proof fn lemma_column_index(c: int, j: int)
    requires
        0 <= c < 4,
        0 <= j < 4,
    ensures
        (4 * c + j) / 4 == c,
        (4 * c + j) % 4 == j,
{
}

#[verifier::rlimit(100)]
proof fn lemma_inv_mix_after_mix(s: Seq<u8>)
    requires
        s.len() == 16,
    ensures
        inv_mix_columns(mix_columns(s)) == s,
{
    let m = mix_columns(s);
    assert forall|i: int| 0 <= i < 16 implies #[trigger] inv_mix_columns(m)[i] == s[i] by {
        let c = i / 4;
        let r = i % 4;
        let b = 4 * c;
        lemma_column_index(c, 0);
        lemma_column_index(c, 1);
        lemma_column_index(c, 2);
        lemma_column_index(c, 3);
        assert(m[b] == mix_byte(s, c, 0));
        assert(m[b + 1] == mix_byte(s, c, 1));
        assert(m[b + 2] == mix_byte(s, c, 2));
        assert(m[b + 3] == mix_byte(s, c, 3));
        lemma_mix_column_inverse(s[b], s[b + 1], s[b + 2], s[b + 3]);
        assert(i == b + r);
    }
    assert(inv_mix_columns(m) =~= s);
}

#[verifier::rlimit(100)]
proof fn lemma_mix_after_inv_mix(s: Seq<u8>)
    requires
        s.len() == 16,
    ensures
        mix_columns(inv_mix_columns(s)) == s,
{
    let v = inv_mix_columns(s);
    assert forall|i: int| 0 <= i < 16 implies #[trigger] mix_columns(v)[i] == s[i] by {
        let c = i / 4;
        let r = i % 4;
        let b = 4 * c;
        lemma_column_index(c, 0);
        lemma_column_index(c, 1);
        lemma_column_index(c, 2);
        lemma_column_index(c, 3);
        assert(v[b] == inv_mix_byte(s, c, 0));
        assert(v[b + 1] == inv_mix_byte(s, c, 1));
        assert(v[b + 2] == inv_mix_byte(s, c, 2));
        assert(v[b + 3] == inv_mix_byte(s, c, 3));
        lemma_inv_mix_column_inverse(s[b], s[b + 1], s[b + 2], s[b + 3]);
        assert(i == b + r);
    }
    assert(mix_columns(v) =~= s);
}

proof fn lemma_mix_columns_inverse(s: Seq<u8>)
    requires
        s.len() == 16,
    ensures
        inv_mix_columns(mix_columns(s)) == s,
        mix_columns(inv_mix_columns(s)) == s,
{
    lemma_inv_mix_after_mix(s);
    lemma_mix_after_inv_mix(s);
}

proof fn lemma_xor_seq_twice(a: Seq<u8>, k: Seq<u8>)
    requires
        a.len() <= k.len(),
    ensures
        xor_seq(xor_seq(a, k), k) == a,
{
    crate::block::lemma_xor_twice(a, k);
}

/// Decryption rounds undo encryption rounds: after `n` of them, decryption
/// holds ShiftRows(SubBytes(.)) of the encryption state `n` rounds earlier.
proof fn lemma_dec_rounds_undo(ks: Seq<u8>, nr: nat, s0: Seq<u8>, n: nat)
    requires
        1 <= nr <= 14,
        ks.len() == 16 * (nr + 1),
        s0.len() == 16,
        n <= nr - 1,
    ensures
        dec_rounds(ks, nr, shift_rows(sub_bytes(enc_rounds(ks, s0, (nr - 1) as nat))), n)
            == shift_rows(sub_bytes(enc_rounds(ks, s0, (nr - 1 - n) as nat))),
        enc_rounds(ks, s0, (nr - 1 - n) as nat).len() == 16,
    decreases n,
{
    lemma_enc_rounds_len(ks, s0, (nr - 1 - n) as nat, nr);
    if n > 0 {
        lemma_dec_rounds_undo(ks, nr, s0, (n - 1) as nat);
        let m = (nr - n) as nat;
        let prev = enc_rounds(ks, s0, (m - 1) as nat);
        lemma_enc_rounds_len(ks, s0, (m - 1) as nat, nr);
        let t = shift_rows(sub_bytes(prev));
        let rk = round_key(ks, m);
        lemma_shift_rows_inverse(sub_bytes(enc_rounds(ks, s0, m)));
        lemma_sub_bytes_inverse(enc_rounds(ks, s0, m));
        lemma_xor_seq_twice(mix_columns(t), rk);
        lemma_mix_columns_inverse(t);
    }
}

proof fn lemma_enc_rounds_len(ks: Seq<u8>, s0: Seq<u8>, n: nat, nr: nat)
    requires
        s0.len() == 16,
    ensures
        enc_rounds(ks, s0, n).len() == 16,
    decreases n,
{
    if n > 0 {
        lemma_enc_rounds_len(ks, s0, (n - 1) as nat, nr);
    }
}

proof fn lemma_dec_rounds_len(ks: Seq<u8>, nr: nat, s0: Seq<u8>, n: nat)
    requires
        s0.len() == 16,
    ensures
        dec_rounds(ks, nr, s0, n).len() == 16,
    decreases n,
{
    if n > 0 {
        lemma_dec_rounds_len(ks, nr, s0, (n - 1) as nat);
    }
}

/// Encryption rounds undo decryption rounds: after `m` of them, encryption holds
/// InvSubBytes(InvShiftRows(.)) of the decryption state `m` rounds earlier.
proof fn lemma_enc_rounds_undo(ks: Seq<u8>, nr: nat, u0: Seq<u8>, m: nat)
    requires
        1 <= nr <= 14,
        ks.len() == 16 * (nr + 1),
        u0.len() == 16,
        m <= nr - 1,
    ensures
        enc_rounds(ks, inv_sub_bytes(inv_shift_rows(dec_rounds(ks, nr, u0, (nr - 1) as nat))), m)
            == inv_sub_bytes(inv_shift_rows(dec_rounds(ks, nr, u0, (nr - 1 - m) as nat))),
    decreases m,
{
    lemma_dec_rounds_len(ks, nr, u0, (nr - 1 - m) as nat);
    if m > 0 {
        lemma_enc_rounds_undo(ks, nr, u0, (m - 1) as nat);
        let n = (nr - m) as nat;
        let u = dec_rounds(ks, nr, u0, n);
        lemma_dec_rounds_len(ks, nr, u0, (n - 1) as nat);
        let prev = dec_rounds(ks, nr, u0, (n - 1) as nat);
        let w = xor_seq(inv_sub_bytes(inv_shift_rows(prev)), round_key(ks, m));
        lemma_sub_bytes_inverse(inv_shift_rows(u));
        lemma_shift_rows_inverse(u);
        lemma_mix_columns_inverse(w);
        lemma_xor_seq_twice(inv_sub_bytes(inv_shift_rows(prev)), round_key(ks, m));
    }
}

/// AES decryption undoes AES encryption under the same schedule, and conversely.
pub proof fn lemma_aes_inverse(ks: Seq<u8>, nr: nat, b: Seq<u8>)
    requires
        1 <= nr <= 14,
        ks.len() == 16 * (nr + 1),
        b.len() == 16,
    ensures
        aes_decrypt(ks, nr, aes_encrypt(ks, nr, b)) == b,
        aes_encrypt(ks, nr, aes_decrypt(ks, nr, b)) == b,
{
    let rk0 = round_key(ks, 0);
    let rkn = round_key(ks, nr);
    let s0 = xor_seq(b, rk0);
    lemma_enc_rounds_len(ks, s0, (nr - 1) as nat, nr);
    let last = shift_rows(sub_bytes(enc_rounds(ks, s0, (nr - 1) as nat)));
    lemma_xor_seq_twice(last, rkn);
    lemma_dec_rounds_undo(ks, nr, s0, (nr - 1) as nat);
    lemma_shift_rows_inverse(sub_bytes(s0));
    lemma_sub_bytes_inverse(s0);
    lemma_xor_seq_twice(b, rk0);

    let u0 = xor_seq(b, rkn);
    lemma_dec_rounds_len(ks, nr, u0, (nr - 1) as nat);
    let first = inv_sub_bytes(inv_shift_rows(dec_rounds(ks, nr, u0, (nr - 1) as nat)));
    lemma_xor_seq_twice(first, rk0);
    lemma_enc_rounds_undo(ks, nr, u0, (nr - 1) as nat);
    lemma_sub_bytes_inverse(inv_shift_rows(u0));
    lemma_shift_rows_inverse(u0);
    lemma_xor_seq_twice(b, rkn);
}

fn sub_bytes_exec(s: &Vec<u8>, inverse: bool) -> (r: Vec<u8>)
    requires
        s@.len() == 16,
    ensures
        r@ == if inverse {
            inv_sub_bytes(s@)
        } else {
            sub_bytes(s@)
        },
{
    let mut r: Vec<u8> = Vec::with_capacity(16);
    let mut i: usize = 0;
    while i < 16
        invariant
            s@.len() == 16,
            i <= 16,
            r@.len() == i,
            forall|j: int| 0 <= j < i ==> #[trigger] r@[j] == if inverse {
                inv_sbox(s@[j])
            } else {
                sbox(s@[j])
            },
        decreases 16 - i,
    {
        if inverse {
            r.push(inv_sbox_exec(s[i]));
        } else {
            r.push(sbox_exec(s[i]));
        }
        i += 1;
    }
    if inverse {
        assert(r@ =~= inv_sub_bytes(s@));
    } else {
        assert(r@ =~= sub_bytes(s@));
    }
    r
}

fn shift_rows_exec(s: &Vec<u8>, inverse: bool) -> (r: Vec<u8>)
    requires
        s@.len() == 16,
    ensures
        r@ == if inverse {
            inv_shift_rows(s@)
        } else {
            shift_rows(s@)
        },
{
    let mut r: Vec<u8> = Vec::with_capacity(16);
    let mut i: usize = 0;
    while i < 16
        invariant
            s@.len() == 16,
            i <= 16,
            r@.len() == i,
            forall|j: int| 0 <= j < i ==> #[trigger] r@[j] == if inverse {
                inv_shift_rows(s@)[j]
            } else {
                shift_rows(s@)[j]
            },
        decreases 16 - i,
    {
        let row = i % 4;
        let col = i / 4;
        let src = if inverse {
            row + 4 * ((col + 4 - row) % 4)
        } else {
            row + 4 * ((col + row) % 4)
        };
        r.push(s[src]);
        i += 1;
    }
    if inverse {
        assert(r@ =~= inv_shift_rows(s@));
    } else {
        assert(r@ =~= shift_rows(s@));
    }
    r
}

fn mix_columns_exec(s: &Vec<u8>, inverse: bool) -> (r: Vec<u8>)
    requires
        s@.len() == 16,
    ensures
        r@ == if inverse {
            inv_mix_columns(s@)
        } else {
            mix_columns(s@)
        },
{
    let mut r: Vec<u8> = Vec::with_capacity(16);
    let mut i: usize = 0;
    while i < 16
        invariant
            s@.len() == 16,
            i <= 16,
            r@.len() == i,
            forall|j: int| 0 <= j < i ==> #[trigger] r@[j] == if inverse {
                inv_mix_columns(s@)[j]
            } else {
                mix_columns(s@)[j]
            },
        decreases 16 - i,
    {
        let row = i % 4;
        let base = 4 * (i / 4);
        let a0 = s[base + row];
        let a1 = s[base + (row + 1) % 4];
        let a2 = s[base + (row + 2) % 4];
        let a3 = s[base + (row + 3) % 4];
        let v = if inverse {
            gf_mul_exec(a0, 14) ^ gf_mul_exec(a1, 11) ^ gf_mul_exec(a2, 13) ^ gf_mul_exec(a3, 9)
        } else {
            xtime_exec(a0) ^ (xtime_exec(a1) ^ a1) ^ a2 ^ a3
        };
        r.push(v);
        i += 1;
    }
    if inverse {
        assert(r@ =~= inv_mix_columns(s@));
    } else {
        assert(r@ =~= mix_columns(s@));
    }
    r
}


/// The round constant of key-expansion step `j` (from 1): x^(j-1) in GF(2^8).
pub open spec fn rcon(j: nat) -> u8
    decreases j,
{
    if j <= 1 {
        1
    } else {
        xtime(rcon((j - 1) as nat))
    }
}

fn rcon_exec(j: usize) -> (r: u8)
    requires
        1 <= j,
    ensures
        r == rcon(j as nat),
{
    let mut r: u8 = 1;
    let mut k: usize = 1;
    while k < j
        invariant
            1 <= k <= j,
            r == rcon(k as nat),
        decreases j - k,
    {
        r = xtime_exec(r);
        k += 1;
    }
    r
}

pub open spec fn sub_word(w: Seq<u8>) -> Seq<u8> {
    seq![sbox(w[0]), sbox(w[1]), sbox(w[2]), sbox(w[3])]
}

pub open spec fn rot_word(w: Seq<u8>) -> Seq<u8> {
    seq![w[1], w[2], w[3], w[0]]
}

/// What word `i - 1` contributes to word `i` of the expansion of a key of `nk` words.
pub open spec fn word_transform(temp: Seq<u8>, nk: nat, i: nat) -> Seq<u8> {
    if i % nk == 0 {
        xor_seq(sub_word(rot_word(temp)), seq![rcon(i / nk), 0u8, 0u8, 0u8])
    } else if nk > 6 && i % nk == 4 {
        sub_word(temp)
    } else {
        temp
    }
}

/// Word `i` (at least `nk`) of the key expansion, from the words before it in `ks`.
pub open spec fn next_word(ks: Seq<u8>, nk: nat, i: nat) -> Seq<u8> {
    let temp = ks.subrange(4 * i - 4, (4 * i) as int);
    xor_seq(ks.subrange(4 * (i - nk), 4 * (i - nk) + 4), word_transform(temp, nk, i))
}

fn word_transform_exec(temp: Vec<u8>, nk: usize, i: usize) -> (t: Vec<u8>)
    requires
        temp@.len() == 4,
        nk == 4 || nk == 6 || nk == 8,
        i >= 1,
    ensures
        t@ == word_transform(temp@, nk as nat, i as nat),
        t@.len() == 4,
{
    if i % nk == 0 {
        let rot = vec![temp[1], temp[2], temp[3], temp[0]];
        assert(rot@ =~= rot_word(temp@));
        let mut t = sub_word_exec(&rot);
        let rc = vec![rcon_exec(i / nk), 0u8, 0u8, 0u8];
        assert(rc@ =~= seq![rcon((i / nk) as nat), 0u8, 0u8, 0u8]);
        xor(&mut t, &rc);
        t
    } else if nk > 6 && i % nk == 4 {
        sub_word_exec(&temp)
    } else {
        temp
    }
}

/// The first `n` four-byte words of the expansion of a key of `nk` words.
pub open spec fn key_expansion(key: Seq<u8>, nk: nat, n: nat) -> Seq<u8>
    decreases n,
{
    if n <= nk {
        key.subrange(0, (4 * n) as int)
    } else {
        let prev = key_expansion(key, nk, (n - 1) as nat);
        prev + next_word(prev, nk, (n - 1) as nat)
    }
}

/// The round keys for a key of `nk` words: `nk + 7` round keys of 16 bytes.
pub open spec fn aes_key_schedule(key: Seq<u8>, nk: nat) -> Seq<u8> {
    key_expansion(key, nk, 4 * (nk + 7))
}

/// Round key `r` of the schedule `ks`.
pub open spec fn round_key(ks: Seq<u8>, r: nat) -> Seq<u8> {
    ks.subrange((16 * r) as int, (16 * r + 16) as int)
}

fn sub_word_exec(w: &Vec<u8>) -> (r: Vec<u8>)
    requires
        w@.len() == 4,
    ensures
        r@ == sub_word(w@),
{
    let mut r: Vec<u8> = Vec::with_capacity(4);
    r.push(sbox_exec(w[0]));
    r.push(sbox_exec(w[1]));
    r.push(sbox_exec(w[2]));
    r.push(sbox_exec(w[3]));
    assert(r@ =~= sub_word(w@));
    r
}

fn expand_key(key: &[u8], nk: usize) -> (ks: Vec<u8>)
    requires
        nk == 4 || nk == 6 || nk == 8,
        key@.len() == 4 * nk,
    ensures
        ks@ == aes_key_schedule(key@, nk as nat),
        ks@.len() == 16 * (nk + 7),
{
    let mut ks: Vec<u8> = Vec::with_capacity(16 * (nk + 7));
    let mut j: usize = 0;
    while j < key.len()
        invariant
            j <= key@.len(),
            ks@ == key@.subrange(0, j as int),
        decreases key@.len() - j,
    {
        ks.push(key[j]);
        j += 1;
        assert(ks@ =~= key@.subrange(0, j as int));
    }
    let total = 4 * (nk + 7);
    let mut i: usize = nk;
    while i < total
        invariant
            nk == 4 || nk == 6 || nk == 8,
            key@.len() == 4 * nk,
            total == 4 * (nk + 7),
            nk <= i <= total,
            ks@ == key_expansion(key@, nk as nat, i as nat),
            ks@.len() == 4 * i,
        decreases total - i,
    {
        let temp = copy_range(&ks, 4 * i - 4, 4);
        let t = word_transform_exec(temp, nk, i);
        let mut w = copy_range(&ks, 4 * (i - nk), 4);
        xor(&mut w, &t);
        assert(w@ == next_word(ks@, nk as nat, i as nat));
        append_bytes(&mut ks, &w);
        i += 1;
    }
    ks
}

/// One full encryption round: SubBytes, ShiftRows, MixColumns, AddRoundKey.
pub open spec fn enc_round(s: Seq<u8>, rk: Seq<u8>) -> Seq<u8> {
    xor_seq(mix_columns(shift_rows(sub_bytes(s))), rk)
}

/// Rounds 1 to `n` of encryption.
pub open spec fn enc_rounds(ks: Seq<u8>, s: Seq<u8>, n: nat) -> Seq<u8>
    decreases n,
{
    if n == 0 {
        s
    } else {
        enc_round(enc_rounds(ks, s, (n - 1) as nat), round_key(ks, n))
    }
}

/// AES encryption of block `b` with `nr` rounds under the schedule `ks`.
pub open spec fn aes_encrypt(ks: Seq<u8>, nr: nat, b: Seq<u8>) -> Seq<u8> {
    let s = enc_rounds(ks, xor_seq(b, round_key(ks, 0)), (nr - 1) as nat);
    xor_seq(shift_rows(sub_bytes(s)), round_key(ks, nr))
}

/// One full decryption round: InvShiftRows, InvSubBytes, AddRoundKey, InvMixColumns.
pub open spec fn dec_round(s: Seq<u8>, rk: Seq<u8>) -> Seq<u8> {
    inv_mix_columns(xor_seq(inv_sub_bytes(inv_shift_rows(s)), rk))
}

/// Rounds `nr - 1` down to `nr - n` of decryption.
pub open spec fn dec_rounds(ks: Seq<u8>, nr: nat, s: Seq<u8>, n: nat) -> Seq<u8>
    decreases n,
{
    if n == 0 {
        s
    } else {
        dec_round(dec_rounds(ks, nr, s, (n - 1) as nat), round_key(ks, (nr - n) as nat))
    }
}

/// AES decryption (the inverse cipher) of block `b`.
pub open spec fn aes_decrypt(ks: Seq<u8>, nr: nat, b: Seq<u8>) -> Seq<u8> {
    let s = dec_rounds(ks, nr, xor_seq(b, round_key(ks, nr)), (nr - 1) as nat);
    xor_seq(inv_sub_bytes(inv_shift_rows(s)), round_key(ks, 0))
}

fn add_round_key(s: &mut Vec<u8>, ks: &Vec<u8>, r: usize)
    requires
        r <= 14,
        old(s)@.len() == 16,
        16 * r + 16 <= ks@.len(),
    ensures
        final(s)@ == xor_seq(old(s)@, round_key(ks@, r as nat)),
        final(s)@.len() == 16,
{
    let rk = copy_range(ks, 16 * r, 16);
    xor(s, &rk);
}

fn encrypt_with(ks: &Vec<u8>, nr: usize, block: &Vec<u8>) -> (r: Vec<u8>)
    requires
        1 <= nr <= 14,
        ks@.len() == 16 * (nr + 1),
        block@.len() == 16,
    ensures
        r@ == aes_encrypt(ks@, nr as nat, block@),
{
    let mut s = copy_range(block, 0, 16);
    assert(s@ =~= block@);
    add_round_key(&mut s, ks, 0);
    let ghost s0 = s@;
    let mut r: usize = 1;
    while r < nr
        invariant
            1 <= r <= nr,
            nr <= 14,
            ks@.len() == 16 * (nr + 1),
            s@.len() == 16,
            s@ == enc_rounds(ks@, s0, (r - 1) as nat),
        decreases nr - r,
    {
        let t = sub_bytes_exec(&s, false);
        let t = shift_rows_exec(&t, false);
        s = mix_columns_exec(&t, false);
        add_round_key(&mut s, ks, r);
        r += 1;
    }
    let t = sub_bytes_exec(&s, false);
    let mut s = shift_rows_exec(&t, false);
    add_round_key(&mut s, ks, nr);
    s
}

fn decrypt_with(ks: &Vec<u8>, nr: usize, block: &Vec<u8>) -> (r: Vec<u8>)
    requires
        1 <= nr <= 14,
        ks@.len() == 16 * (nr + 1),
        block@.len() == 16,
    ensures
        r@ == aes_decrypt(ks@, nr as nat, block@),
{
    let mut s = copy_range(block, 0, 16);
    assert(s@ =~= block@);
    add_round_key(&mut s, ks, nr);
    let ghost s0 = s@;
    let mut n: usize = 1;
    while n < nr
        invariant
            1 <= n <= nr,
            nr <= 14,
            ks@.len() == 16 * (nr + 1),
            s@.len() == 16,
            s@ == dec_rounds(ks@, nr as nat, s0, (n - 1) as nat),
        decreases nr - n,
    {
        let t = shift_rows_exec(&s, true);
        let mut t = sub_bytes_exec(&t, true);
        add_round_key(&mut t, ks, nr - n);
        s = mix_columns_exec(&t, true);
        n += 1;
    }
    let t = shift_rows_exec(&s, true);
    let mut s = sub_bytes_exec(&t, true);
    add_round_key(&mut s, ks, 0);
    s
}

/// AES-128: 4-word key, 10 rounds.
#[derive(Clone)]
pub struct Aes128 {
    round_keys: Vec<u8>,
}

impl Aes128 {
    /// The expanded key: 11 round keys of 16 bytes, laid end to end.
    pub closed spec fn schedule(&self) -> Seq<u8> {
        self.round_keys@
    }

    /// Expands a 16-byte key.
    pub fn new(key: &[u8; 16]) -> (r: Self)
        ensures
            r.schedule() == aes_key_schedule(key@, 4),
            r.wf(),
    {
        Aes128 { round_keys: expand_key(key, 4) }
    }

    /// Expands a key given as a slice, which must hold 16 bytes.
    pub fn new_from_slice(key: &[u8]) -> (r: Result<Self, Error>)
        ensures
            match r {
                Ok(c) => key@.len() == 16 && c.schedule() == aes_key_schedule(key@, 4) && c.wf(),
                Err(e) => key@.len() != 16 && e == Error::InvalidKeyLength,
            },
    {
        if key.len() != 16 {
            return Err(Error::InvalidKeyLength);
        }
        Ok(Aes128 { round_keys: expand_key(key, 4) })
    }
}

impl BlockCipher for Aes128 {
    open spec fn spec_block_size() -> nat {
        16
    }

    open spec fn wf(&self) -> bool {
        self.schedule().len() == 176
    }

    open spec fn encrypt_spec(&self, b: Seq<u8>) -> Seq<u8> {
        aes_encrypt(self.schedule(), 10, b)
    }

    open spec fn decrypt_spec(&self, b: Seq<u8>) -> Seq<u8> {
        aes_decrypt(self.schedule(), 10, b)
    }

    proof fn lemma_block_len(&self, b: Seq<u8>) {
    }

    fn block_size(&self) -> (r: usize) {
        16
    }

    fn encrypt_block(&self, block: &mut Vec<u8>) {
        *block = encrypt_with(&self.round_keys, 10, block);
    }

    fn decrypt_block(&self, block: &mut Vec<u8>) {
        *block = decrypt_with(&self.round_keys, 10, block);
    }
}

impl BlockInverse for Aes128 {
    proof fn lemma_decrypt_encrypt(&self, b: Seq<u8>) {
        lemma_aes_inverse(self.schedule(), 10, b);
    }

    proof fn lemma_encrypt_decrypt(&self, b: Seq<u8>) {
        lemma_aes_inverse(self.schedule(), 10, b);
    }
}

/// AES-192: 6-word key, 12 rounds.
#[derive(Clone)]
pub struct Aes192 {
    round_keys: Vec<u8>,
}

impl Aes192 {
    /// The expanded key: 13 round keys of 16 bytes, laid end to end.
    pub closed spec fn schedule(&self) -> Seq<u8> {
        self.round_keys@
    }

    /// Expands a 24-byte key.
    pub fn new(key: &[u8; 24]) -> (r: Self)
        ensures
            r.schedule() == aes_key_schedule(key@, 6),
            r.wf(),
    {
        Aes192 { round_keys: expand_key(key, 6) }
    }

    /// Expands a key given as a slice, which must hold 24 bytes.
    pub fn new_from_slice(key: &[u8]) -> (r: Result<Self, Error>)
        ensures
            match r {
                Ok(c) => key@.len() == 24 && c.schedule() == aes_key_schedule(key@, 6) && c.wf(),
                Err(e) => key@.len() != 24 && e == Error::InvalidKeyLength,
            },
    {
        if key.len() != 24 {
            return Err(Error::InvalidKeyLength);
        }
        Ok(Aes192 { round_keys: expand_key(key, 6) })
    }
}

impl BlockCipher for Aes192 {
    open spec fn spec_block_size() -> nat {
        16
    }

    open spec fn wf(&self) -> bool {
        self.schedule().len() == 208
    }

    open spec fn encrypt_spec(&self, b: Seq<u8>) -> Seq<u8> {
        aes_encrypt(self.schedule(), 12, b)
    }

    open spec fn decrypt_spec(&self, b: Seq<u8>) -> Seq<u8> {
        aes_decrypt(self.schedule(), 12, b)
    }

    proof fn lemma_block_len(&self, b: Seq<u8>) {
    }

    fn block_size(&self) -> (r: usize) {
        16
    }

    fn encrypt_block(&self, block: &mut Vec<u8>) {
        *block = encrypt_with(&self.round_keys, 12, block);
    }

    fn decrypt_block(&self, block: &mut Vec<u8>) {
        *block = decrypt_with(&self.round_keys, 12, block);
    }
}

impl BlockInverse for Aes192 {
    proof fn lemma_decrypt_encrypt(&self, b: Seq<u8>) {
        lemma_aes_inverse(self.schedule(), 12, b);
    }

    proof fn lemma_encrypt_decrypt(&self, b: Seq<u8>) {
        lemma_aes_inverse(self.schedule(), 12, b);
    }
}

/// AES-256: 8-word key, 14 rounds.
#[derive(Clone)]
pub struct Aes256 {
    round_keys: Vec<u8>,
}

impl Aes256 {
    /// The expanded key: 15 round keys of 16 bytes, laid end to end.
    pub closed spec fn schedule(&self) -> Seq<u8> {
        self.round_keys@
    }

    /// Expands a 32-byte key.
    pub fn new(key: &[u8; 32]) -> (r: Self)
        ensures
            r.schedule() == aes_key_schedule(key@, 8),
            r.wf(),
    {
        Aes256 { round_keys: expand_key(key, 8) }
    }

    /// Expands a key given as a slice, which must hold 32 bytes.
    pub fn new_from_slice(key: &[u8]) -> (r: Result<Self, Error>)
        ensures
            match r {
                Ok(c) => key@.len() == 32 && c.schedule() == aes_key_schedule(key@, 8) && c.wf(),
                Err(e) => key@.len() != 32 && e == Error::InvalidKeyLength,
            },
    {
        if key.len() != 32 {
            return Err(Error::InvalidKeyLength);
        }
        Ok(Aes256 { round_keys: expand_key(key, 8) })
    }
}

impl BlockCipher for Aes256 {
    open spec fn spec_block_size() -> nat {
        16
    }

    open spec fn wf(&self) -> bool {
        self.schedule().len() == 240
    }

    open spec fn encrypt_spec(&self, b: Seq<u8>) -> Seq<u8> {
        aes_encrypt(self.schedule(), 14, b)
    }

    open spec fn decrypt_spec(&self, b: Seq<u8>) -> Seq<u8> {
        aes_decrypt(self.schedule(), 14, b)
    }

    proof fn lemma_block_len(&self, b: Seq<u8>) {
    }

    fn block_size(&self) -> (r: usize) {
        16
    }

    fn encrypt_block(&self, block: &mut Vec<u8>) {
        *block = encrypt_with(&self.round_keys, 14, block);
    }

    fn decrypt_block(&self, block: &mut Vec<u8>) {
        *block = decrypt_with(&self.round_keys, 14, block);
    }
}

impl BlockInverse for Aes256 {
    proof fn lemma_decrypt_encrypt(&self, b: Seq<u8>) {
        lemma_aes_inverse(self.schedule(), 14, b);
    }

    proof fn lemma_encrypt_decrypt(&self, b: Seq<u8>) {
        lemma_aes_inverse(self.schedule(), 14, b);
    }
}

} // verus!
