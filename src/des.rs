//! The DES block cipher (FIPS 46-3): key schedule, Feistel network, and its
//! initial and final permutations.
use vstd::prelude::*;

use crate::block::{BlockCipher, BlockInverse};
use crate::Error;
use crate::feistel::{
    high_half, lemma_network_inverse, low_half, network_backward, network_forward, rounds_backward,
    rounds_forward, RoundFn,
};
use crate::bytes::{
    lemma_u64_be_of_bytes, lemma_u64_bytes_of_be, u64_from_be, u64_from_be_bytes,
    u64_push_be_bytes, u64_to_be,
};

verus! {

/// Permuted choice 1: the 56 key bits kept, in their new order.
pub const PC1: [u8; 56] = [
    57, 49, 41, 33, 25, 17, 9, 1, 58, 50, 42, 34, 26, 18,
    10, 2, 59, 51, 43, 35, 27, 19, 11, 3, 60, 52, 44, 36,
    63, 55, 47, 39, 31, 23, 15, 7, 62, 54, 46, 38, 30, 22,
    14, 6, 61, 53, 45, 37, 29, 21, 13, 5, 28, 20, 12, 4,
];

/// Permuted choice 2: the 48 bits of a round key, taken from the 56-bit key state.
pub const PC2: [u8; 48] = [
    14, 17, 11, 24, 1, 5, 3, 28, 15, 6, 21, 10,
    23, 19, 12, 4, 26, 8, 16, 7, 27, 20, 13, 2,
    41, 52, 31, 37, 47, 55, 30, 40, 51, 45, 33, 48,
    44, 49, 39, 56, 34, 53, 46, 42, 50, 36, 29, 32,
];

/// Expansion of the 32-bit half block to 48 bits.
pub const EXPANSION: [u8; 48] = [
    32, 1, 2, 3, 4, 5, 4, 5, 6, 7, 8, 9,
    8, 9, 10, 11, 12, 13, 12, 13, 14, 15, 16, 17,
    16, 17, 18, 19, 20, 21, 20, 21, 22, 23, 24, 25,
    24, 25, 26, 27, 28, 29, 28, 29, 30, 31, 32, 1,
];

/// Permutation of the 32 bits that leave the S-boxes.
pub const P_PERM: [u8; 32] = [
    16, 7, 20, 21, 29, 12, 28, 17, 1, 15, 23, 26, 5, 18, 31, 10,
    2, 8, 24, 14, 32, 27, 3, 9, 19, 13, 30, 6, 22, 11, 4, 25,
];

/// Left rotation of each key half, per round.
pub const SHIFTS: [u8; 16] = [
    1, 1, 2, 2, 2, 2, 2, 2, 1, 2, 2, 2, 2, 2, 2, 1,
];

/// The eight S-boxes; entry `16 * row + column`.
pub const SBOXES: [[u8; 64]; 8] = [
    [
        14, 4, 13, 1, 2, 15, 11, 8, 3, 10, 6, 12, 5, 9, 0, 7,
        0, 15, 7, 4, 14, 2, 13, 1, 10, 6, 12, 11, 9, 5, 3, 8,
        4, 1, 14, 8, 13, 6, 2, 11, 15, 12, 9, 7, 3, 10, 5, 0,
        15, 12, 8, 2, 4, 9, 1, 7, 5, 11, 3, 14, 10, 0, 6, 13,
    ],
    [
        15, 1, 8, 14, 6, 11, 3, 4, 9, 7, 2, 13, 12, 0, 5, 10,
        3, 13, 4, 7, 15, 2, 8, 14, 12, 0, 1, 10, 6, 9, 11, 5,
        0, 14, 7, 11, 10, 4, 13, 1, 5, 8, 12, 6, 9, 3, 2, 15,
        13, 8, 10, 1, 3, 15, 4, 2, 11, 6, 7, 12, 0, 5, 14, 9,
    ],
    [
        10, 0, 9, 14, 6, 3, 15, 5, 1, 13, 12, 7, 11, 4, 2, 8,
        13, 7, 0, 9, 3, 4, 6, 10, 2, 8, 5, 14, 12, 11, 15, 1,
        13, 6, 4, 9, 8, 15, 3, 0, 11, 1, 2, 12, 5, 10, 14, 7,
        1, 10, 13, 0, 6, 9, 8, 7, 4, 15, 14, 3, 11, 5, 2, 12,
    ],
    [
        7, 13, 14, 3, 0, 6, 9, 10, 1, 2, 8, 5, 11, 12, 4, 15,
        13, 8, 11, 5, 6, 15, 0, 3, 4, 7, 2, 12, 1, 10, 14, 9,
        10, 6, 9, 0, 12, 11, 7, 13, 15, 1, 3, 14, 5, 2, 8, 4,
        3, 15, 0, 6, 10, 1, 13, 8, 9, 4, 5, 11, 12, 7, 2, 14,
    ],
    [
        2, 12, 4, 1, 7, 10, 11, 6, 8, 5, 3, 15, 13, 0, 14, 9,
        14, 11, 2, 12, 4, 7, 13, 1, 5, 0, 15, 10, 3, 9, 8, 6,
        4, 2, 1, 11, 10, 13, 7, 8, 15, 9, 12, 5, 6, 3, 0, 14,
        11, 8, 12, 7, 1, 14, 2, 13, 6, 15, 0, 9, 10, 4, 5, 3,
    ],
    [
        12, 1, 10, 15, 9, 2, 6, 8, 0, 13, 3, 4, 14, 7, 5, 11,
        10, 15, 4, 2, 7, 12, 9, 5, 6, 1, 13, 14, 0, 11, 3, 8,
        9, 14, 15, 5, 2, 8, 12, 3, 7, 0, 4, 10, 1, 13, 11, 6,
        4, 3, 2, 12, 9, 5, 15, 10, 11, 14, 1, 7, 6, 0, 8, 13,
    ],
    [
        4, 11, 2, 14, 15, 0, 8, 13, 3, 12, 9, 7, 5, 10, 6, 1,
        13, 0, 11, 7, 4, 9, 1, 10, 14, 3, 5, 12, 2, 15, 8, 6,
        1, 4, 11, 13, 12, 3, 7, 14, 10, 15, 6, 8, 0, 5, 9, 2,
        6, 11, 13, 8, 1, 4, 10, 7, 9, 5, 0, 15, 14, 2, 3, 12,
    ],
    [
        13, 2, 8, 4, 6, 15, 11, 1, 10, 9, 3, 14, 5, 0, 12, 7,
        1, 15, 13, 8, 10, 3, 7, 4, 12, 5, 6, 11, 0, 14, 9, 2,
        7, 11, 4, 1, 9, 12, 14, 2, 0, 6, 10, 13, 15, 3, 5, 8,
        2, 1, 14, 7, 4, 10, 8, 13, 15, 12, 9, 0, 3, 5, 6, 11,
    ],
];

/// The bits of `x`, an `n`-bit value whose bit 1 is the most significant, in
/// the order that `table` lists them; the first listed bit ends up most significant.
pub open spec fn permute(x: u64, n: u64, table: Seq<u8>) -> u64
    decreases table.len(),
{
    if table.len() == 0 {
        0
    } else {
        let t = table.last() as u64;
        (permute(x, n, table.drop_last()) << 1u64) | ((x >> ((n - t) as u64)) & 1)
    }
}

pub fn permute_bits(x: u64, n: u64, table: &[u8]) -> (r: u64)
    requires
        n <= 64,
        forall|i: int| 0 <= i < table@.len() ==> 1 <= #[trigger] table@[i] <= n,
    ensures
        r == permute(x, n, table@),
{
    let mut acc: u64 = 0;
    let mut i: usize = 0;
    while i < table.len()
        invariant
            n <= 64,
            forall|j: int| 0 <= j < table@.len() ==> 1 <= #[trigger] table@[j] <= n,
            i <= table@.len(),
            acc == permute(x, n, table@.subrange(0, i as int)),
        decreases table@.len() - i,
    {
        let t = table[i] as u64;
        acc = (acc << 1u64) | ((x >> (n - t)) & 1);
        assert(table@.subrange(0, i + 1).drop_last() =~= table@.subrange(0, i as int));
        i += 1;
    }
    assert(table@.subrange(0, table@.len() as int) =~= table@);
    acc
}

/// Exchanges the bits of `a` selected by `mask` with those `delta` places higher.
pub open spec fn delta_swap(a: u64, delta: u64, mask: u64) -> u64 {
    let b = (a ^ (a >> delta)) & mask;
    a ^ b ^ (b << delta)
}

fn delta_swap_exec(a: u64, delta: u64, mask: u64) -> (r: u64)
    requires
        delta < 64,
    ensures
        r == delta_swap(a, delta, mask),
{
    let b = (a ^ (a >> delta)) & mask;
    a ^ b ^ (b << delta)
}

/// The initial permutation IP, as a network of bit exchanges.
pub open spec fn initial_perm(x: u64) -> u64 {
    let x = delta_swap(x, 36, 0x0f0f_0f0f);
    let x = delta_swap(x, 48, 0x0000_ffff);
    let x = delta_swap(x, 30, 0xcccc_cccc);
    let x = delta_swap(x, 24, 0xff00_ff00);
    delta_swap(x, 33, 0x5555_5555)
}

/// The final permutation IP^-1: the same exchanges in reverse order.
pub open spec fn final_perm(x: u64) -> u64 {
    let x = delta_swap(x, 33, 0x5555_5555);
    let x = delta_swap(x, 24, 0xff00_ff00);
    let x = delta_swap(x, 30, 0xcccc_cccc);
    let x = delta_swap(x, 48, 0x0000_ffff);
    delta_swap(x, 36, 0x0f0f_0f0f)
}

fn initial_perm_exec(x: u64) -> (r: u64)
    ensures
        r == initial_perm(x),
{
    let x = delta_swap_exec(x, 36, 0x0f0f_0f0f);
    let x = delta_swap_exec(x, 48, 0x0000_ffff);
    let x = delta_swap_exec(x, 30, 0xcccc_cccc);
    let x = delta_swap_exec(x, 24, 0xff00_ff00);
    delta_swap_exec(x, 33, 0x5555_5555)
}

fn final_perm_exec(x: u64) -> (r: u64)
    ensures
        r == final_perm(x),
{
    let x = delta_swap_exec(x, 33, 0x5555_5555);
    let x = delta_swap_exec(x, 24, 0xff00_ff00);
    let x = delta_swap_exec(x, 30, 0xcccc_cccc);
    let x = delta_swap_exec(x, 48, 0x0000_ffff);
    delta_swap_exec(x, 36, 0x0f0f_0f0f)
}

/// Each exchange of the network is its own inverse.
proof fn lemma_delta_swap_twice(a: u64, delta: u64, mask: u64)
    requires
        (delta == 36 && mask == 0x0f0f_0f0f) || (delta == 48 && mask == 0x0000_ffff) || (delta
            == 30 && mask == 0xcccc_cccc) || (delta == 24 && mask == 0xff00_ff00) || (delta == 33
            && mask == 0x5555_5555),
    ensures
        delta_swap(delta_swap(a, delta, mask), delta, mask) == a,
{
    if delta == 36 {
        assert(delta_swap(delta_swap(a, 36, 0x0f0f_0f0f), 36, 0x0f0f_0f0f) == a) by (bit_vector);
    } else if delta == 48 {
        assert(delta_swap(delta_swap(a, 48, 0x0000_ffff), 48, 0x0000_ffff) == a) by (bit_vector);
    } else if delta == 30 {
        assert(delta_swap(delta_swap(a, 30, 0xcccc_cccc), 30, 0xcccc_cccc) == a) by (bit_vector);
    } else if delta == 24 {
        assert(delta_swap(delta_swap(a, 24, 0xff00_ff00), 24, 0xff00_ff00) == a) by (bit_vector);
    } else {
        assert(delta_swap(delta_swap(a, 33, 0x5555_5555), 33, 0x5555_5555) == a) by (bit_vector);
    }
}

pub proof fn lemma_final_initial(x: u64)
    ensures
        final_perm(initial_perm(x)) == x,
        initial_perm(final_perm(x)) == x,
{
    let x1 = delta_swap(x, 36, 0x0f0f_0f0f);
    let x2 = delta_swap(x1, 48, 0x0000_ffff);
    let x3 = delta_swap(x2, 30, 0xcccc_cccc);
    let x4 = delta_swap(x3, 24, 0xff00_ff00);
    let x5 = delta_swap(x4, 33, 0x5555_5555);
    lemma_delta_swap_twice(x4, 33, 0x5555_5555);
    lemma_delta_swap_twice(x3, 24, 0xff00_ff00);
    lemma_delta_swap_twice(x2, 30, 0xcccc_cccc);
    lemma_delta_swap_twice(x1, 48, 0x0000_ffff);
    lemma_delta_swap_twice(x, 36, 0x0f0f_0f0f);
    let y1 = delta_swap(x, 33, 0x5555_5555);
    let y2 = delta_swap(y1, 24, 0xff00_ff00);
    let y3 = delta_swap(y2, 30, 0xcccc_cccc);
    let y4 = delta_swap(y3, 48, 0x0000_ffff);
    lemma_delta_swap_twice(y4, 36, 0x0f0f_0f0f);
    lemma_delta_swap_twice(y3, 48, 0x0000_ffff);
    lemma_delta_swap_twice(y2, 30, 0xcccc_cccc);
    lemma_delta_swap_twice(y1, 24, 0xff00_ff00);
    lemma_delta_swap_twice(x, 33, 0x5555_5555);
}

/// Rotation of a 28-bit key half by `s` places to the left.
pub open spec fn rotl28(x: u64, s: u64) -> u64 {
    ((x << s) | (x >> ((28 - s) as u64))) & 0x0fff_ffff
}

/// The two 28-bit key halves after `i` rounds of the key schedule.
pub open spec fn key_halves(key: u64, i: nat) -> (u64, u64)
    decreases i,
{
    if i == 0 {
        let cd = permute(key, 64, PC1@);
        (cd >> 28u64, cd & 0x0fff_ffff)
    } else {
        let (c, d) = key_halves(key, (i - 1) as nat);
        let s = SHIFTS@[i - 1] as u64;
        (rotl28(c, s), rotl28(d, s))
    }
}

/// The 48-bit key of round `i` (counting from 0).
pub open spec fn round_key(key: u64, i: nat) -> u64 {
    let (c, d) = key_halves(key, i + 1);
    permute((c << 28u64) | d, 56, PC2@)
}

/// The sixteen round keys derived from a 64-bit key.
pub open spec fn key_schedule(key: u64) -> Seq<u64> {
    Seq::new(16, |i: int| round_key(key, i as nat))
}

/// Entry of S-box `i` selected by the `i`-th group of six bits of `x` (a 48-bit value):
/// the outer two bits pick the row, the inner four the column.
pub open spec fn sbox_entry(x: u64, i: int) -> u64 {
    let six = (x >> ((42 - 6 * i) as u64)) & 63;
    let row = ((six >> 4u64) & 2) | (six & 1);
    let col = (six >> 1u64) & 15;
    SBOXES@[i]@[(row * 16 + col) as int] as u64
}

/// The outputs of the first `n` S-boxes on `x`, four bits each, the first box highest.
pub open spec fn substitute(x: u64, n: nat) -> u64
    decreases n,
{
    if n == 0 {
        0
    } else {
        (substitute(x, (n - 1) as nat) << 4u64) | sbox_entry(x, n - 1)
    }
}

/// The round function f of DES on a 32-bit half block and a 48-bit round key.
pub open spec fn feistel(r: u32, k: u64) -> u32 {
    permute(substitute(permute(r as u64, 32, EXPANSION@) ^ k, 8), 32, P_PERM@) as u32
}

/// The DES round function as a Feistel round function.
pub open spec fn des_round() -> RoundFn {
    |r: u32, k: u64| feistel(r, k)
}

/// DES encryption of the 64-bit block `x` with the round keys `ks`.
pub open spec fn des_encrypt(ks: Seq<u64>, x: u64) -> u64 {
    final_perm(network_forward(des_round(), ks, initial_perm(x)))
}

/// DES decryption: the same network with the round keys in reverse order.
pub open spec fn des_decrypt(ks: Seq<u64>, x: u64) -> u64 {
    final_perm(network_backward(des_round(), ks, initial_perm(x)))
}

/// Decryption undoes encryption under the same round keys, and conversely.
pub proof fn lemma_des_inverse(ks: Seq<u64>, x: u64)
    ensures
        des_decrypt(ks, des_encrypt(ks, x)) == x,
        des_encrypt(ks, des_decrypt(ks, x)) == x,
{
    let y = initial_perm(x);
    lemma_network_inverse(des_round(), ks, y);
    lemma_final_initial(network_forward(des_round(), ks, y));
    lemma_final_initial(network_backward(des_round(), ks, y));
    lemma_final_initial(x);
}

fn rotl28_exec(x: u64, s: u64) -> (r: u64)
    requires
        1 <= s <= 2,
    ensures
        r == rotl28(x, s),
{
    ((x << s) | (x >> (28 - s))) & 0x0fff_ffff
}

/// Derives the sixteen round keys from a 64-bit key (its parity bits are ignored).
pub fn gen_keys(key: u64) -> (r: Vec<u64>)
    ensures
        r@ == key_schedule(key),
{
    let cd = permute_bits(key, 64, &PC1);
    let mut c: u64 = cd >> 28;
    let mut d: u64 = cd & 0x0fff_ffff;
    let mut keys: Vec<u64> = Vec::with_capacity(16);
    let mut i: usize = 0;
    while i < 16
        invariant
            i <= 16,
            (c, d) == key_halves(key, i as nat),
            keys@.len() == i,
            forall|j: int| 0 <= j < i ==> keys@[j] == round_key(key, j as nat),
        decreases 16 - i,
    {
        let s = SHIFTS[i] as u64;
        c = rotl28_exec(c, s);
        d = rotl28_exec(d, s);
        keys.push(permute_bits((c << 28) | d, 56, &PC2));
        i += 1;
    }
    assert(keys@ =~= key_schedule(key));
    keys
}

fn substitute_exec(x: u64) -> (r: u64)
    ensures
        r == substitute(x, 8),
{
    let mut acc: u64 = 0;
    let mut i: usize = 0;
    while i < 8
        invariant
            i <= 8,
            acc == substitute(x, i as nat),
        decreases 8 - i,
    {
        let six = (x >> (42 - 6 * i as u64)) & 63;
        let row = ((six >> 4) & 2) | (six & 1);
        let col = (six >> 1) & 15;
        assert(row * 16 + col < 64) by (bit_vector)
            requires
                row == ((six >> 4u64) & 2) | (six & 1),
                col == (six >> 1u64) & 15,
        ;
        acc = (acc << 4) | (SBOXES[i][(row * 16 + col) as usize] as u64);
        i += 1;
    }
    acc
}

fn feistel_exec(r: u32, k: u64) -> (o: u32)
    ensures
        o == feistel(r, k),
{
    let e = permute_bits(r as u64, 32, &EXPANSION);
    let s = substitute_exec(e ^ k);
    permute_bits(s, 32, &P_PERM) as u32
}

/// The DES block cipher, holding its sixteen round keys.
#[derive(Clone)]
pub struct Des {
    keys: Vec<u64>,
}

impl Des {
    /// The round keys, first round first.
    pub closed spec fn round_keys(&self) -> Seq<u64> {
        self.keys@
    }

    /// A DES instance for the 64-bit key `key`, read big-endian.
    pub fn from_u64(key: u64) -> (r: Self)
        ensures
            r.round_keys() == key_schedule(key),
    {
        Des { keys: gen_keys(key) }
    }

    /// A DES instance for an eight-byte key.
    pub fn new(key: &[u8; 8]) -> (r: Self)
        ensures
            r.round_keys() == key_schedule(u64_from_be(key@)),
            r.wf(),
    {
        Self::with_key(key)
    }

    /// A DES instance for a key given as a slice, which must hold eight bytes.
    pub fn new_from_slice(key: &[u8]) -> (r: Result<Self, Error>)
        ensures
            match r {
                Ok(c) => key@.len() == 8 && c.round_keys() == key_schedule(u64_from_be(key@)) && c.wf(),
                Err(e) => key@.len() != 8 && e == Error::InvalidKeyLength,
            },
    {
        if key.len() != 8 {
            return Err(Error::InvalidKeyLength);
        }
        Ok(Self::with_key(key))
    }

    fn with_key(key: &[u8]) -> (r: Self)
        requires
            key@.len() == 8,
        ensures
            r.round_keys() == key_schedule(u64_from_be(key@)),
            r.wf(),
    {
        let k = u64_from_be_bytes(key, 0);
        assert(key@.subrange(0, 8) =~= key@);
        Self::from_u64(k)
    }

    /// Encrypts a block given as a 64-bit integer.
    pub fn encrypt(&self, x: u64) -> (r: u64)
        requires
            self.round_keys().len() == 16,
        ensures
            r == des_encrypt(self.round_keys(), x),
    {
        let y = initial_perm_exec(x);
        let mut l: u32 = (y >> 32) as u32;
        let mut r: u32 = y as u32;
        let mut i: usize = 0;
        while i < 16
            invariant
                self.keys@.len() == 16,
                i <= 16,
                (l, r) == rounds_forward(des_round(), self.keys@.subrange(0, i as int), high_half(y), low_half(y)),
            decreases 16 - i,
        {
            let t = l ^ feistel_exec(r, self.keys[i]);
            assert(self.keys@.subrange(0, i + 1).drop_last() =~= self.keys@.subrange(0, i as int));
            l = r;
            r = t;
            i += 1;
        }
        assert(self.keys@.subrange(0, 16) =~= self.keys@);
        final_perm_exec(((r as u64) << 32) | (l as u64))
    }

    /// Decrypts a block given as a 64-bit integer.
    pub fn decrypt(&self, x: u64) -> (r: u64)
        requires
            self.round_keys().len() == 16,
        ensures
            r == des_decrypt(self.round_keys(), x),
    {
        let y = initial_perm_exec(x);
        let mut l: u32 = (y >> 32) as u32;
        let mut r: u32 = y as u32;
        let mut i: usize = 16;
        assert(self.keys@.subrange(0, 16) =~= self.keys@);
        while i > 0
            invariant
                self.keys@.len() == 16,
                i <= 16,
                rounds_backward(des_round(), self.keys@, high_half(y), low_half(y))
                    == rounds_backward(
                    des_round(),
                    self.keys@.subrange(0, i as int),
                    l,
                    r,
                ),
            decreases i,
        {
            let t = l ^ feistel_exec(r, self.keys[i - 1]);
            assert(self.keys@.subrange(0, i as int).drop_last() =~= self.keys@.subrange(
                0,
                i - 1,
            ));
            l = r;
            r = t;
            i -= 1;
        }
        final_perm_exec(((r as u64) << 32) | (l as u64))
    }
}

/// Reads an eight-byte block as a big-endian integer.
pub fn block_to_u64(block: &Vec<u8>) -> (r: u64)
    requires
        block@.len() == 8,
    ensures
        r == u64_from_be(block@),
{
    let r = u64_from_be_bytes(block.as_slice(), 0);
    assert(block@.subrange(0, 8) =~= block@);
    r
}

/// Writes a 64-bit integer back as an eight-byte big-endian block.
pub fn u64_to_block(x: u64) -> (r: Vec<u8>)
    ensures
        r@ == u64_to_be(x),
{
    let mut r: Vec<u8> = Vec::with_capacity(8);
    u64_push_be_bytes(&mut r, x);
    assert(r@ =~= u64_to_be(x));
    r
}

/// A DES cipher on byte blocks: the block is read big-endian.
pub open spec fn des_encrypt_bytes(ks: Seq<u64>, b: Seq<u8>) -> Seq<u8> {
    u64_to_be(des_encrypt(ks, u64_from_be(b)))
}

pub open spec fn des_decrypt_bytes(ks: Seq<u64>, b: Seq<u8>) -> Seq<u8> {
    u64_to_be(des_decrypt(ks, u64_from_be(b)))
}

impl BlockCipher for Des {
    open spec fn spec_block_size() -> nat {
        8
    }

    open spec fn wf(&self) -> bool {
        self.round_keys().len() == 16
    }

    open spec fn encrypt_spec(&self, b: Seq<u8>) -> Seq<u8> {
        des_encrypt_bytes(self.round_keys(), b)
    }

    open spec fn decrypt_spec(&self, b: Seq<u8>) -> Seq<u8> {
        des_decrypt_bytes(self.round_keys(), b)
    }

    proof fn lemma_block_len(&self, b: Seq<u8>) {
    }

    fn block_size(&self) -> (r: usize) {
        8
    }

    fn encrypt_block(&self, block: &mut Vec<u8>) {
        let x = block_to_u64(block);
        *block = u64_to_block(self.encrypt(x));
    }

    fn decrypt_block(&self, block: &mut Vec<u8>) {
        let x = block_to_u64(block);
        *block = u64_to_block(self.decrypt(x));
    }
}

impl BlockInverse for Des {
    proof fn lemma_decrypt_encrypt(&self, b: Seq<u8>) {
        let ks = self.round_keys();
        let x = u64_from_be(b);
        lemma_u64_be_of_bytes(des_encrypt(ks, x));
        lemma_des_inverse(ks, x);
        lemma_u64_bytes_of_be(b);
    }

    proof fn lemma_encrypt_decrypt(&self, b: Seq<u8>) {
        let ks = self.round_keys();
        let x = u64_from_be(b);
        lemma_u64_be_of_bytes(des_decrypt(ks, x));
        lemma_des_inverse(ks, x);
        lemma_u64_bytes_of_be(b);
    }
}

} // verus!
