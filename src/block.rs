//! The block-cipher interface that the modes of operation are written against,
//! and the byte-level helpers they share.
use vstd::arithmetic::div_mod::lemma_fundamental_div_mod;
use vstd::prelude::*;

verus! {

/// A keyed permutation on blocks of a fixed number of bytes.
///
/// `encrypt_spec` and `decrypt_spec` say what the cipher computes on a block;
/// the executable methods are proved to compute exactly that.
pub trait BlockCipher {
    /// The block size in bytes.
    spec fn spec_block_size() -> nat;

    /// The instance is fully initialised (its key schedule has the expected shape).
    spec fn wf(&self) -> bool;

    /// The encryption of block `b` under this instance's key.
    spec fn encrypt_spec(&self, b: Seq<u8>) -> Seq<u8>;

    /// The decryption of block `b` under this instance's key.
    spec fn decrypt_spec(&self, b: Seq<u8>) -> Seq<u8>;

    /// Encryption and decryption keep the block size.
    proof fn lemma_block_len(&self, b: Seq<u8>)
        requires
            b.len() == Self::spec_block_size(),
        ensures
            self.encrypt_spec(b).len() == Self::spec_block_size(),
            self.decrypt_spec(b).len() == Self::spec_block_size(),
    ;

    fn block_size(&self) -> (r: usize)
        ensures
            r == Self::spec_block_size(),
            r > 0,
    ;

    /// Encrypts one block in place.
    fn encrypt_block(&self, block: &mut Vec<u8>)
        requires
            self.wf(),
            old(block)@.len() == Self::spec_block_size(),
        ensures
            final(block)@ == self.encrypt_spec(old(block)@),
            final(block)@.len() == Self::spec_block_size(),
    ;

    /// Decrypts one block in place.
    fn decrypt_block(&self, block: &mut Vec<u8>)
        requires
            self.wf(),
            old(block)@.len() == Self::spec_block_size(),
        ensures
            final(block)@ == self.decrypt_spec(old(block)@),
            final(block)@.len() == Self::spec_block_size(),
    ;
}

/// A block cipher whose decryption is proved to undo its encryption, and conversely.
pub trait BlockInverse: BlockCipher {
    proof fn lemma_decrypt_encrypt(&self, b: Seq<u8>)
        requires
            self.wf(),
            b.len() == Self::spec_block_size(),
        ensures
            self.decrypt_spec(self.encrypt_spec(b)) == b,
    ;

    proof fn lemma_encrypt_decrypt(&self, b: Seq<u8>)
        requires
            self.wf(),
            b.len() == Self::spec_block_size(),
        ensures
            self.encrypt_spec(self.decrypt_spec(b)) == b,
    ;
}

/// Encrypts every block of `blocks` in place under `c`, each on its own.
pub fn cipher_encrypt_blocks<C: BlockCipher>(c: &C, blocks: &mut Vec<Vec<u8>>)
    requires
        c.wf(),
        all_len(blocks_view(old(blocks)@), C::spec_block_size()),
    ensures
        blocks_view(final(blocks)@) == Seq::new(
            old(blocks)@.len(),
            |i: int| c.encrypt_spec(old(blocks)@[i]@),
        ),
{
    let n = blocks.len();
    let mut i: usize = 0;
    while i < n
        invariant
            c.wf(),
            n == blocks@.len(),
            n == old(blocks)@.len(),
            all_len(blocks_view(old(blocks)@), C::spec_block_size()),
            i <= n,
            forall|j: int| 0 <= j < i ==> (#[trigger] blocks@[j])@ == c.encrypt_spec(old(blocks)@[j]@),
            forall|j: int| i <= j < n ==> (#[trigger] blocks@[j])@ == old(blocks)@[j]@,
        decreases n - i,
    {
        let mut b = copy_range(&blocks[i], 0, blocks[i].len());
        assert(blocks_view(old(blocks)@)[i as int].len() == C::spec_block_size());
        assert(b@ =~= old(blocks)@[i as int]@);
        c.encrypt_block(&mut b);
        blocks.set(i, b);
        i += 1;
    }
    assert(blocks_view(blocks@) =~= Seq::new(n as nat, |i: int| c.encrypt_spec(old(blocks)@[i]@)));
}

/// Decrypts every block of `blocks` in place under `c`, each on its own.
pub fn cipher_decrypt_blocks<C: BlockCipher>(c: &C, blocks: &mut Vec<Vec<u8>>)
    requires
        c.wf(),
        all_len(blocks_view(old(blocks)@), C::spec_block_size()),
    ensures
        blocks_view(final(blocks)@) == Seq::new(
            old(blocks)@.len(),
            |i: int| c.decrypt_spec(old(blocks)@[i]@),
        ),
{
    let n = blocks.len();
    let mut i: usize = 0;
    while i < n
        invariant
            c.wf(),
            n == blocks@.len(),
            n == old(blocks)@.len(),
            all_len(blocks_view(old(blocks)@), C::spec_block_size()),
            i <= n,
            forall|j: int| 0 <= j < i ==> (#[trigger] blocks@[j])@ == c.decrypt_spec(old(blocks)@[j]@),
            forall|j: int| i <= j < n ==> (#[trigger] blocks@[j])@ == old(blocks)@[j]@,
        decreases n - i,
    {
        let mut b = copy_range(&blocks[i], 0, blocks[i].len());
        assert(blocks_view(old(blocks)@)[i as int].len() == C::spec_block_size());
        assert(b@ =~= old(blocks)@[i as int]@);
        c.decrypt_block(&mut b);
        blocks.set(i, b);
        i += 1;
    }
    assert(blocks_view(blocks@) =~= Seq::new(n as nat, |i: int| c.decrypt_spec(old(blocks)@[i]@)));
}

/// Bytewise XOR of `a` with the leading `a.len()` bytes of `b`.
pub open spec fn xor_seq(a: Seq<u8>, b: Seq<u8>) -> Seq<u8> {
    Seq::new(a.len(), |i: int| a[i] ^ b[i])
}

pub proof fn lemma_xor_twice(a: Seq<u8>, b: Seq<u8>)
    requires
        a.len() <= b.len(),
    ensures
        xor_seq(xor_seq(a, b), b) == a,
{
    assert forall|i: int| 0 <= i < a.len() implies #[trigger] xor_seq(xor_seq(a, b), b)[i] == a[i] by {
        let x = a[i];
        let y = b[i];
        assert((x ^ y) ^ y == x) by (bit_vector);
    }
    assert(xor_seq(xor_seq(a, b), b) =~= a);
}

/// XORs `buf2` into `buf1`, byte by byte; `buf2` may be longer, its tail is ignored.
pub fn xor(buf1: &mut Vec<u8>, buf2: &Vec<u8>)
    requires
        old(buf1)@.len() <= buf2@.len(),
    ensures
        final(buf1)@ == xor_seq(old(buf1)@, buf2@),
{
    let n = buf1.len();
    let mut i: usize = 0;
    while i < n
        invariant
            n == buf1@.len(),
            n == old(buf1)@.len(),
            n <= buf2@.len(),
            i <= n,
            forall|j: int| 0 <= j < i ==> buf1@[j] == old(buf1)@[j] ^ buf2@[j],
            forall|j: int| i <= j < n ==> buf1@[j] == old(buf1)@[j],
        decreases n - i,
    {
        let v = buf1[i] ^ buf2[i];
        buf1.set(i, v);
        i += 1;
    }
    assert(buf1@ =~= xor_seq(old(buf1)@, buf2@));
}

/// A copy of `v[start .. start + len]`.
pub fn copy_range(v: &Vec<u8>, start: usize, len: usize) -> (r: Vec<u8>)
    requires
        start + len <= v@.len(),
    ensures
        r@ == v@.subrange(start as int, start + len),
{
    let mut r: Vec<u8> = Vec::with_capacity(len);
    let vl = v.len();
    let mut i: usize = 0;
    while i < len
        invariant
            vl == v@.len(),
            start + len <= vl,
            i <= len,
            r@ == v@.subrange(start as int, start + i),
        decreases len - i,
    {
        r.push(v[start + i]);
        i += 1;
        assert(r@ =~= v@.subrange(start as int, start + i));
    }
    r
}


/// The contents of a list of byte vectors.
pub open spec fn blocks_view(v: Seq<Vec<u8>>) -> Seq<Seq<u8>> {
    Seq::new(v.len(), |i: int| v[i]@)
}

/// Every block of `bl` has `n` bytes.
pub open spec fn all_len(bl: Seq<Seq<u8>>, n: nat) -> bool {
    forall|i: int| 0 <= i < bl.len() ==> (#[trigger] bl[i]).len() == n
}

/// No block of `bl` has more than `n` bytes.
pub open spec fn all_len_at_most(bl: Seq<Seq<u8>>, n: nat) -> bool {
    forall|i: int| 0 <= i < bl.len() ==> (#[trigger] bl[i]).len() <= n
}

/// Feeds the blocks of `msg` through `step`, in order, starting from state `s`;
/// gives the final state and the output blocks.
pub open spec fn run<S>(step: spec_fn(S, Seq<u8>) -> (S, Seq<u8>), s: S, msg: Seq<Seq<u8>>) -> (S, Seq<Seq<u8>>)
    decreases msg.len(),
{
    if msg.len() == 0 {
        (s, Seq::empty())
    } else {
        let (s1, o) = step(s, msg[0]);
        let (s2, os) = run(step, s1, msg.drop_first());
        (s2, seq![o] + os)
    }
}

pub proof fn lemma_run_len<S>(step: spec_fn(S, Seq<u8>) -> (S, Seq<u8>), s: S, msg: Seq<Seq<u8>>)
    ensures
        run(step, s, msg).1.len() == msg.len(),
    decreases msg.len(),
{
    if msg.len() > 0 {
        lemma_run_len(step, step(s, msg[0]).0, msg.drop_first());
    }
}

/// One more block of a run, seen from the middle of the message.
pub proof fn lemma_run_next<S>(step: spec_fn(S, Seq<u8>) -> (S, Seq<u8>), s: S, msg: Seq<Seq<u8>>, i: int)
    requires
        0 <= i < msg.len(),
    ensures
        run(step, s, msg.subrange(i, msg.len() as int)) == ({
            let (s1, o) = step(s, msg[i]);
            let (s2, os) = run(step, s1, msg.subrange(i + 1, msg.len() as int));
            (s2, seq![o] + os)
        }),
{
    assert(msg.subrange(i, msg.len() as int).drop_first() =~= msg.subrange(i + 1, msg.len() as int));
}


/// `s` cut into consecutive blocks of `bs` bytes.
pub open spec fn chunks(s: Seq<u8>, bs: nat) -> Seq<Seq<u8>> {
    Seq::new(s.len() / bs, |j: int| s.subrange(j * bs, j * bs + bs))
}

/// The blocks of `bl` laid end to end.
pub open spec fn concat(bl: Seq<Seq<u8>>) -> Seq<u8>
    decreases bl.len(),
{
    if bl.len() == 0 {
        Seq::empty()
    } else {
        concat(bl.drop_last()) + bl.last()
    }
}

/// Appends the bytes of `w` to `v`.
pub fn append_bytes(v: &mut Vec<u8>, w: &Vec<u8>)
    ensures
        final(v)@ == old(v)@ + w@,
{
    let mut k: usize = 0;
    while k < w.len()
        invariant
            k <= w@.len(),
            v@ == old(v)@ + w@.subrange(0, k as int),
        decreases w@.len() - k,
    {
        v.push(w[k]);
        k += 1;
        assert(v@ =~= old(v)@ + w@.subrange(0, k as int));
    }
    assert(w@.subrange(0, w@.len() as int) =~= w@);
}

pub proof fn lemma_concat_len(bl: Seq<Seq<u8>>, bs: nat)
    requires
        all_len(bl, bs),
    ensures
        concat(bl).len() == bl.len() * bs,
    decreases bl.len(),
{
    if bl.len() > 0 {
        assert(all_len(bl.drop_last(), bs));
        lemma_concat_len(bl.drop_last(), bs);
        assert((bl.len() - 1) * bs + bs == bl.len() * bs) by (nonlinear_arith);
    }
}

/// Blocks of equal size laid end to end and cut again are the same blocks.
pub proof fn lemma_chunks_concat(bl: Seq<Seq<u8>>, bs: nat)
    requires
        bs > 0,
        all_len(bl, bs),
    ensures
        chunks(concat(bl), bs) == bl,
    decreases bl.len(),
{
    let n = bl.len();
    lemma_concat_len(bl, bs);
    assert(n * bs / bs == n) by (nonlinear_arith)
        requires
            bs > 0,
    ;
    if n > 0 {
        let dl = bl.drop_last();
        assert(all_len(dl, bs));
        lemma_chunks_concat(dl, bs);
        lemma_concat_len(dl, bs);
        let c = concat(bl);
        assert forall|j: int| 0 <= j < n implies #[trigger] chunks(c, bs)[j] == bl[j] by {
            assert(j * bs + bs <= n * bs) by (nonlinear_arith)
                requires
                    0 <= j < n,
            ;
            if j < n - 1 {
                assert(j * bs + bs <= (n - 1) * bs) by (nonlinear_arith)
                    requires
                        0 <= j < n - 1,
                ;
                assert(c.subrange(j * bs, j * bs + bs) =~= concat(dl).subrange(j * bs, j * bs + bs));
                assert(chunks(concat(dl), bs)[j] == dl[j]);
            } else {
                assert(j * bs == (n - 1) * bs);
                assert(c.subrange(j * bs, j * bs + bs) =~= bl.last());
            }
        }
        assert(chunks(c, bs) =~= bl);
    } else {
        assert(chunks(concat(bl), bs) =~= bl);
    }
}

/// Cuts `s` into blocks of `bs` bytes.
pub fn split_blocks(s: &Vec<u8>, bs: usize) -> (r: Vec<Vec<u8>>)
    requires
        bs > 0,
        s@.len() % (bs as nat) == 0,
    ensures
        blocks_view(r@) == chunks(s@, bs as nat),
        all_len(blocks_view(r@), bs as nat),
{
    let len = s.len();
    let n = len / bs;
    proof {
        lemma_fundamental_div_mod(len as int, bs as int);
    }
    let mut r: Vec<Vec<u8>> = Vec::with_capacity(n);
    let mut off: usize = 0;
    let mut j: usize = 0;
    while j < n
        invariant
            len == s@.len(),
            n == len / bs,
            len == bs * n,
            bs > 0,
            j <= n,
            off == j * bs,
            r@.len() == j,
            forall|k: int| 0 <= k < j ==> (#[trigger] r@[k])@ == s@.subrange(k * bs, k * bs + bs),
            forall|k: int| 0 <= k < j ==> (#[trigger] r@[k])@.len() == bs,
        decreases n - j,
    {
        assert(off + bs <= len) by (nonlinear_arith)
            requires
                off == j * bs,
                j < n,
                len == bs * n,
        ;
        let b = copy_range(s, off, bs);
        r.push(b);
        assert((j + 1) * bs == j * bs + bs) by (nonlinear_arith);
        off = off + bs;
        j += 1;
    }
    assert(blocks_view(r@) =~= chunks(s@, bs as nat));
    r
}

/// Cuts an IV into `z` blocks of `bs` bytes, if it has that length.
pub fn split_iv(iv: &Vec<u8>, z: usize, bs: usize) -> (r: Option<Vec<Vec<u8>>>)
    requires
        bs > 0,
    ensures
        match r {
            Some(v) => iv@.len() == z * bs && blocks_view(v@) == chunks(iv@, bs as nat)
                && blocks_view(v@).len() == z && all_len(blocks_view(v@), bs as nat),
            None => iv@.len() != z * bs,
        },
{
    let len = iv.len();
    proof {
        lemma_fundamental_div_mod(len as int, bs as int);
    }
    if len % bs != 0 || len / bs != z {
        assert(len != z * bs) by (nonlinear_arith)
            requires
                len == bs * (len / bs) + len % bs,
                len % bs != 0 || len / bs != z,
                0 <= len % bs < bs,
        ;
        return None;
    }
    assert(len == z * bs) by (nonlinear_arith)
        requires
            len == bs * (len / bs) + len % bs,
            len % bs == 0,
            len / bs == z,
    ;
    Some(split_blocks(iv, bs))
}

/// Lays the blocks of `v` end to end.
pub fn concat_blocks(v: &Vec<Vec<u8>>) -> (r: Vec<u8>)
    ensures
        r@ == concat(blocks_view(v@)),
{
    let mut r: Vec<u8> = Vec::new();
    let mut j: usize = 0;
    while j < v.len()
        invariant
            j <= v@.len(),
            r@ == concat(blocks_view(v@).subrange(0, j as int)),
        decreases v@.len() - j,
    {
        let b = &v[j];
        let ghost before = r@;
        let mut k: usize = 0;
        while k < b.len()
            invariant
                k <= b@.len(),
                r@ == before + b@.subrange(0, k as int),
            decreases b@.len() - k,
        {
            r.push(b[k]);
            k += 1;
            assert(r@ =~= before + b@.subrange(0, k as int));
        }
        assert(blocks_view(v@).subrange(0, j + 1).drop_last() =~= blocks_view(v@).subrange(0, j as int));
        assert(b@.subrange(0, b@.len() as int) =~= b@);
        j += 1;
    }
    assert(blocks_view(v@).subrange(0, v@.len() as int) =~= blocks_view(v@));
    r
}


/// A mode of operation seen as a state machine over blocks: `model` is its
/// abstract state (feedback register, counter, ...).
pub trait ModeState {
    type Model;

    /// What never changes once the mode is set up: the cipher and the parameters.
    type Config;

    spec fn config(&self) -> Self::Config;

    spec fn model(&self) -> Self::Model;

    /// The state is well formed.
    spec fn inv(&self) -> bool;

    /// The number of bytes in each block the mode takes and gives.
    spec fn unit_len(&self) -> nat;
}

/// A mode that encrypts one block at a time, as `encrypt_step` says.
pub trait ModeEncrypt: ModeState {
    spec fn encrypt_step(&self) -> spec_fn(Self::Model, Seq<u8>) -> (Self::Model, Seq<u8>);

    fn encrypt_block_mut(&mut self, block: &mut Vec<u8>)
        requires
            old(self).inv(),
            old(block)@.len() == old(self).unit_len(),
        ensures
            final(self).inv(),
            final(self).unit_len() == old(self).unit_len(),
            final(self).config() == old(self).config(),
            final(self).encrypt_step() == old(self).encrypt_step(),
            (final(self).model(), final(block)@) == (old(self).encrypt_step())(
                old(self).model(),
                old(block)@,
            ),
    ;
}

/// A mode that decrypts one block at a time, as `decrypt_step` says.
pub trait ModeDecrypt: ModeState {
    spec fn decrypt_step(&self) -> spec_fn(Self::Model, Seq<u8>) -> (Self::Model, Seq<u8>);

    fn decrypt_block_mut(&mut self, block: &mut Vec<u8>)
        requires
            old(self).inv(),
            old(block)@.len() == old(self).unit_len(),
        ensures
            final(self).inv(),
            final(self).unit_len() == old(self).unit_len(),
            final(self).config() == old(self).config(),
            final(self).decrypt_step() == old(self).decrypt_step(),
            (final(self).model(), final(block)@) == (old(self).decrypt_step())(
                old(self).model(),
                old(block)@,
            ),
    ;
}

/// Running over `a + b` is running over `a`, then over `b` from where `a` left off.
pub proof fn lemma_run_append<S>(
    step: spec_fn(S, Seq<u8>) -> (S, Seq<u8>),
    s: S,
    a: Seq<Seq<u8>>,
    b: Seq<Seq<u8>>,
)
    ensures
        run(step, s, a + b) == ({
            let (sa, oa) = run(step, s, a);
            let (sb, ob) = run(step, sa, b);
            (sb, oa + ob)
        }),
    decreases a.len(),
{
    if a.len() == 0 {
        assert(a + b =~= b);
        assert(Seq::<Seq<u8>>::empty() + run(step, s, b).1 =~= run(step, s, b).1);
    } else {
        let (s1, o) = step(s, a[0]);
        assert((a + b).drop_first() =~= a.drop_first() + b);
        lemma_run_append(step, s1, a.drop_first(), b);
        let (sa, oa) = run(step, s1, a.drop_first());
        let (sb, ob) = run(step, sa, b);
        assert(seq![o] + (oa + ob) =~= (seq![o] + oa) + ob);
    }
}

proof fn lemma_prefix_step(p: Seq<Seq<u8>>, o: Seq<u8>, os: Seq<Seq<u8>>)
    ensures
        p + (seq![o] + os) == (p + seq![o]) + os,
{
    assert(p + (seq![o] + os) =~= (p + seq![o]) + os);
}

/// Encrypts the blocks of `blocks` in place, in order.
pub fn encrypt_blocks<M: ModeEncrypt>(mode: &mut M, blocks: &mut Vec<Vec<u8>>)
    requires
        old(mode).inv(),
        all_len(blocks_view(old(blocks)@), old(mode).unit_len()),
    ensures
        final(mode).inv(),
        final(mode).unit_len() == old(mode).unit_len(),
        final(mode).config() == old(mode).config(),
        final(mode).encrypt_step() == old(mode).encrypt_step(),
        (final(mode).model(), blocks_view(final(blocks)@)) == run(
            old(mode).encrypt_step(),
            old(mode).model(),
            blocks_view(old(blocks)@),
        ),
{
    let ghost f = mode.encrypt_step();
    let ghost msg = blocks_view(blocks@);
    let n = blocks.len();
    let mut i: usize = 0;
    assert(msg.subrange(0, n as int) =~= msg);
    assert(blocks_view(blocks@).subrange(0, 0) + run(f, mode.model(), msg).1 =~= run(f, mode.model(), msg).1);
    while i < n
        invariant
            mode.inv(),
            mode.unit_len() == old(mode).unit_len(),
            mode.config() == old(mode).config(),
            mode.encrypt_step() == f,
            f == old(mode).encrypt_step(),
            msg == blocks_view(old(blocks)@),
            all_len(msg, mode.unit_len()),
            n == msg.len(),
            blocks@.len() == n,
            i <= n,
            forall|j: int| i <= j < n ==> (#[trigger] blocks@[j])@ == msg[j],
            run(f, old(mode).model(), msg) == ({
                let (sf, os) = run(f, mode.model(), msg.subrange(i as int, n as int));
                (sf, blocks_view(blocks@).subrange(0, i as int) + os)
            }),
        decreases n - i,
    {
        let mut b = blocks[i].clone();
        assert(b@ == msg[i as int]);
        proof {
            lemma_run_next(f, mode.model(), msg, i as int);
        }
        let ghost before = blocks_view(blocks@).subrange(0, i as int);
        mode.encrypt_block_mut(&mut b);
        blocks.set(i, b);
        proof {
            let (s1, o) = f(old(mode).model(), msg[i as int]);
            assert(blocks_view(blocks@).subrange(0, i + 1) =~= before + seq![b@]);
            lemma_prefix_step(before, b@, run(f, mode.model(), msg.subrange(i + 1, n as int)).1);
        }
        i += 1;
    }
    assert(blocks_view(blocks@).subrange(0, n as int) =~= blocks_view(blocks@));
}

/// Decrypts the blocks of `blocks` in place, in order.
pub fn decrypt_blocks<M: ModeDecrypt>(mode: &mut M, blocks: &mut Vec<Vec<u8>>)
    requires
        old(mode).inv(),
        all_len(blocks_view(old(blocks)@), old(mode).unit_len()),
    ensures
        final(mode).inv(),
        final(mode).unit_len() == old(mode).unit_len(),
        final(mode).config() == old(mode).config(),
        final(mode).decrypt_step() == old(mode).decrypt_step(),
        (final(mode).model(), blocks_view(final(blocks)@)) == run(
            old(mode).decrypt_step(),
            old(mode).model(),
            blocks_view(old(blocks)@),
        ),
{
    let ghost f = mode.decrypt_step();
    let ghost msg = blocks_view(blocks@);
    let n = blocks.len();
    let mut i: usize = 0;
    assert(msg.subrange(0, n as int) =~= msg);
    assert(blocks_view(blocks@).subrange(0, 0) + run(f, mode.model(), msg).1 =~= run(f, mode.model(), msg).1);
    while i < n
        invariant
            mode.inv(),
            mode.unit_len() == old(mode).unit_len(),
            mode.config() == old(mode).config(),
            mode.decrypt_step() == f,
            f == old(mode).decrypt_step(),
            msg == blocks_view(old(blocks)@),
            all_len(msg, mode.unit_len()),
            n == msg.len(),
            blocks@.len() == n,
            i <= n,
            forall|j: int| i <= j < n ==> (#[trigger] blocks@[j])@ == msg[j],
            run(f, old(mode).model(), msg) == ({
                let (sf, os) = run(f, mode.model(), msg.subrange(i as int, n as int));
                (sf, blocks_view(blocks@).subrange(0, i as int) + os)
            }),
        decreases n - i,
    {
        let mut b = blocks[i].clone();
        assert(b@ == msg[i as int]);
        proof {
            lemma_run_next(f, mode.model(), msg, i as int);
        }
        let ghost before = blocks_view(blocks@).subrange(0, i as int);
        mode.decrypt_block_mut(&mut b);
        blocks.set(i, b);
        proof {
            let (s1, o) = f(old(mode).model(), msg[i as int]);
            assert(blocks_view(blocks@).subrange(0, i + 1) =~= before + seq![b@]);
            lemma_prefix_step(before, b@, run(f, mode.model(), msg.subrange(i + 1, n as int)).1);
        }
        i += 1;
    }
    assert(blocks_view(blocks@).subrange(0, n as int) =~= blocks_view(blocks@));
}

} // verus!
