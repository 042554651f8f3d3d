//! Big-endian byte strings: their numeric value, their lexicographic order,
//! and the zero-padding helpers that every fixed-width codec is built on.
use vstd::prelude::*;

verus! {

/// `256` raised to the power `n`.
pub open spec fn pow256(n: nat) -> nat
    decreases n,
{
    if n == 0 {
        1
    } else {
        256 * pow256((n - 1) as nat)
    }
}

/// The value of a byte string read as a big-endian unsigned integer.
pub open spec fn be_value(s: Seq<u8>) -> nat
    decreases s.len(),
{
    if s.len() == 0 {
        0
    } else {
        (be_value(s.drop_last()) * 256 + s.last()) as nat
    }
}

/// The `n` low-order bytes of `v`, most significant first.
pub open spec fn be_bytes(v: nat, n: nat) -> Seq<u8>
    decreases n,
{
    if n == 0 {
        Seq::empty()
    } else {
        be_bytes(v / 256, (n - 1) as nat).push((v % 256) as u8)
    }
}

/// `n` zero bytes.
pub open spec fn zeros(n: nat) -> Seq<u8> {
    Seq::new(n, |i: int| 0u8)
}

/// Lexicographic byte order, as an ordered key/value store compares keys:
/// at the first position where the strings differ the smaller byte wins,
/// and a proper prefix sorts before the longer string.
pub open spec fn lex_lt(a: Seq<u8>, b: Seq<u8>) -> bool {
    ||| (a.len() < b.len() && b.subrange(0, a.len() as int) == a)
    ||| exists|i: int|
        0 <= i < a.len() && i < b.len() && a.subrange(0, i) == b.subrange(0, i) && a[i] < b[i]
}

pub proof fn lemma_pow256_positive(n: nat)
    ensures
        pow256(n) >= 1,
    decreases n,
{
    if n > 0 {
        lemma_pow256_positive((n - 1) as nat);
    }
}

pub proof fn lemma_be_bytes_len(v: nat, n: nat)
    ensures
        be_bytes(v, n).len() == n,
    decreases n,
{
    if n > 0 {
        lemma_be_bytes_len(v / 256, (n - 1) as nat);
    }
}

pub proof fn lemma_be_value_bound(s: Seq<u8>)
    ensures
        be_value(s) < pow256(s.len()),
    decreases s.len(),
{
    if s.len() > 0 {
        lemma_be_value_bound(s.drop_last());
        let a = be_value(s.drop_last());
        let p = pow256((s.len() - 1) as nat);
        assert(a * 256 + s.last() < p * 256) by (nonlinear_arith)
            requires
                a < p,
                s.last() < 256,
        ;
    }
}

/// Reading back the bytes of a value that fits gives the value.
pub proof fn lemma_be_value_of_bytes(v: nat, n: nat)
    requires
        v < pow256(n),
    ensures
        be_value(be_bytes(v, n)) == v,
    decreases n,
{
    if n > 0 {
        let p = pow256((n - 1) as nat);
        assert(v / 256 < p) by (nonlinear_arith)
            requires
                v < 256 * p,
        ;
        lemma_be_value_of_bytes(v / 256, (n - 1) as nat);
        let s = be_bytes(v, n);
        assert(s.drop_last() == be_bytes(v / 256, (n - 1) as nat));
        assert((v / 256) * 256 + v % 256 == v) by (nonlinear_arith);
    }
}

/// Writing out the value of a byte string gives back the string.
pub proof fn lemma_be_bytes_of_value(s: Seq<u8>)
    ensures
        be_bytes(be_value(s), s.len()) == s,
    decreases s.len(),
{
    if s.len() > 0 {
        let a = be_value(s.drop_last());
        let b = s.last() as nat;
        lemma_be_bytes_of_value(s.drop_last());
        assert((a * 256 + b) / 256 == a && (a * 256 + b) % 256 == b) by (nonlinear_arith)
            requires
                b < 256,
        ;
        assert(be_bytes(be_value(s), s.len()) =~= s);
    }
}

/// A value that fits in `n` bytes, written in `n + k` bytes, starts with `k` zeros.
pub proof fn lemma_be_bytes_pad(v: nat, n: nat, k: nat)
    requires
        v < pow256(n),
    ensures
        be_bytes(v, n + k) == zeros(k) + be_bytes(v, n),
    decreases n,
{
    if n == 0 {
        assert(v == 0);
        lemma_be_bytes_zero(k);
        assert(zeros(k) + Seq::<u8>::empty() =~= zeros(k));
    } else {
        let p = pow256((n - 1) as nat);
        assert(v / 256 < p) by (nonlinear_arith)
            requires
                v < 256 * p,
        ;
        lemma_be_bytes_pad(v / 256, (n - 1) as nat, k);
        assert((n + k - 1) as nat == (n - 1) as nat + k);
        assert(be_bytes(v, n + k) =~= zeros(k) + be_bytes(v, n));
    }
}

pub proof fn lemma_be_bytes_zero(k: nat)
    ensures
        be_bytes(0, k) == zeros(k),
    decreases k,
{
    if k > 0 {
        lemma_be_bytes_zero((k - 1) as nat);
        assert(be_bytes(0, k) =~= zeros(k));
    }
}

/// The value of a concatenation.
pub proof fn lemma_be_value_append(a: Seq<u8>, b: Seq<u8>)
    ensures
        be_value(a + b) == be_value(a) * pow256(b.len()) + be_value(b),
    decreases b.len(),
{
    if b.len() == 0 {
        assert(a + b =~= a);
        assert(pow256(0) == 1);
        assert(be_value(b) == 0);
    } else {
        lemma_be_value_append(a, b.drop_last());
        assert((a + b).drop_last() =~= a + b.drop_last());
        assert((a + b).last() == b.last());
        let x = be_value(a);
        let p = pow256((b.len() - 1) as nat);
        assert(pow256(b.len()) == 256 * p);
        let y = be_value(b.drop_last());
        assert((x * p + y) * 256 + b.last() == x * (256 * p) + (y * 256 + b.last()))
            by (nonlinear_arith);
        assert(be_value(a + b) == be_value(a + b.drop_last()) * 256 + b.last());
        assert(be_value(b) == y * 256 + b.last());
    }
}

/// Leading zeros do not change the value.
pub proof fn lemma_be_value_zeros(k: nat, s: Seq<u8>)
    ensures
        be_value(zeros(k) + s) == be_value(s),
{
    lemma_be_bytes_zero(k);
    lemma_pow256_positive(k);
    lemma_be_value_of_bytes(0, k);
    lemma_be_bytes_len(0, k);
    lemma_be_value_append(zeros(k), s);
}

/// Splitting the value of a big-endian string into a high and a low part.
pub proof fn lemma_value_split(hi1: nat, lo1: nat, hi2: nat, lo2: nat, m: nat)
    requires
        lo1 < m,
        lo2 < m,
    ensures
        (hi1 * m + lo1 < hi2 * m + lo2) <==> (hi1 < hi2 || (hi1 == hi2 && lo1 < lo2)),
        (hi1 * m + lo1 == hi2 * m + lo2) <==> (hi1 == hi2 && lo1 == lo2),
{
    if hi1 < hi2 {
        assert(hi1 * m + lo1 < hi2 * m + lo2) by (nonlinear_arith)
            requires
                hi1 < hi2,
                lo1 < m,
        ;
    } else if hi1 > hi2 {
        assert(hi1 * m + lo1 > hi2 * m + lo2) by (nonlinear_arith)
            requires
                hi1 > hi2,
                lo2 < m,
        ;
    }
}

/// One direction of the order lemma: a first difference decides the values.
proof fn lemma_lex_lt_implies_value_lt(a: Seq<u8>, b: Seq<u8>, i: int)
    requires
        a.len() == b.len(),
        0 <= i < a.len(),
        a.subrange(0, i) == b.subrange(0, i),
        a[i] < b[i],
    ensures
        be_value(a) < be_value(b),
    decreases a.len(),
{
    let n = a.len();
    if i == n - 1 {
        assert(a.drop_last() =~= a.subrange(0, i));
        assert(b.drop_last() =~= b.subrange(0, i));
    } else {
        assert(a.drop_last().subrange(0, i) =~= a.subrange(0, i));
        assert(b.drop_last().subrange(0, i) =~= b.subrange(0, i));
        lemma_lex_lt_implies_value_lt(a.drop_last(), b.drop_last(), i);
        lemma_value_split(
            be_value(a.drop_last()),
            a.last() as nat,
            be_value(b.drop_last()),
            b.last() as nat,
            256,
        );
    }
}

/// Equal-length byte strings sort lexicographically exactly as their
/// big-endian values sort numerically.
pub proof fn lemma_lex_lt_iff_value_lt(a: Seq<u8>, b: Seq<u8>)
    requires
        a.len() == b.len(),
    ensures
        lex_lt(a, b) <==> be_value(a) < be_value(b),
{
    if lex_lt(a, b) {
        let i = choose|i: int|
            0 <= i < a.len() && i < b.len() && a.subrange(0, i) == b.subrange(0, i) && a[i]
                < b[i];
        lemma_lex_lt_implies_value_lt(a, b, i);
    }
    if be_value(a) < be_value(b) {
        if a == b {
        } else {
            let i = first_difference(a, b);
            if a[i] > b[i] {
                lemma_lex_lt_implies_value_lt(b, a, i);
            }
            assert(a[i] < b[i]);
        }
    }
}

/// The first position at which two distinct strings of one length differ.
proof fn first_difference(a: Seq<u8>, b: Seq<u8>) -> (i: int)
    requires
        a.len() == b.len(),
        a != b,
    ensures
        0 <= i < a.len(),
        a.subrange(0, i) == b.subrange(0, i),
        a[i] != b[i],
{
    assert(exists|j: int| 0 <= j < a.len() && a[j] != b[j]) by {
        if forall|j: int| 0 <= j < a.len() ==> a[j] == b[j] {
            assert(a =~= b);
        }
    }
    let j = choose|j: int| 0 <= j < a.len() && a[j] != b[j];
    first_difference_upto(a, b, j)
}

proof fn first_difference_upto(a: Seq<u8>, b: Seq<u8>, j: int) -> (i: int)
    requires
        a.len() == b.len(),
        0 <= j < a.len(),
        a[j] != b[j],
    ensures
        0 <= i <= j,
        a.subrange(0, i) == b.subrange(0, i),
        a[i] != b[i],
    decreases j,
{
    if a.subrange(0, j) =~= b.subrange(0, j) {
        j
    } else {
        let k = choose|k: int| 0 <= k < j && a.subrange(0, j)[k] != b.subrange(0, j)[k];
        first_difference_upto(a, b, k)
    }
}

/// The powers of 256 that the codecs use.
pub proof fn lemma_pow256_values()
    ensures
        pow256(0) == 1,
        pow256(1) == 0x100,
        pow256(2) == 0x1_0000,
        pow256(3) == 0x100_0000,
        pow256(4) == 0x1_0000_0000,
        pow256(5) == 0x100_0000_0000,
        pow256(6) == 0x1_0000_0000_0000,
        pow256(7) == 0x100_0000_0000_0000,
        pow256(8) == 0x1_0000_0000_0000_0000,
{
    assert(pow256(1) == 256 * pow256(0));
    assert(pow256(2) == 256 * pow256(1));
    assert(pow256(3) == 256 * pow256(2));
    assert(pow256(4) == 256 * pow256(3));
    assert(pow256(5) == 256 * pow256(4));
    assert(pow256(6) == 256 * pow256(5));
    assert(pow256(7) == 256 * pow256(6));
    assert(pow256(8) == 256 * pow256(7));
}

pub proof fn lemma_pow256_monotonic(k: nat, m: nat)
    requires
        k <= m,
    ensures
        pow256(k) <= pow256(m),
    decreases m,
{
    if k < m {
        lemma_pow256_monotonic(k, (m - 1) as nat);
    }
}

/// Writes the `width` low-order bytes of `v`, most significant first.
pub fn be_encode(v: u64, width: usize) -> (r: Vec<u8>)
    requires
        width <= 8,
        v < pow256(width as nat),
    ensures
        r@ == be_bytes(v as nat, width as nat),
        r@.len() == width,
    decreases width,
{
    if width == 0 {
        Vec::new()
    } else {
        proof {
            let p = pow256((width - 1) as nat);
            assert(v / 256 < p) by (nonlinear_arith)
                requires
                    v < 256 * p,
            ;
            lemma_be_bytes_len(v as nat, width as nat);
        }
        let mut r = be_encode(v / 256, width - 1);
        r.push((v % 256) as u8);
        r
    }
}

/// Reads `width` bytes at `start` as a big-endian unsigned integer.
pub fn be_decode(bytes: &[u8], start: usize, width: usize) -> (r: u64)
    requires
        width <= 8,
        start + width <= bytes@.len(),
    ensures
        r == be_value(bytes@.subrange(start as int, start + width)),
{
    let n = bytes.len();
    let mut acc: u64 = 0;
    let mut k: usize = 0;
    proof {
        lemma_pow256_values();
        assert(bytes@.subrange(start as int, start as int) =~= Seq::<u8>::empty());
    }
    while k < width
        invariant
            width <= 8,
            start + width <= bytes@.len(),
            n == bytes@.len(),
            k <= width,
            acc == be_value(bytes@.subrange(start as int, start + k)),
            acc < pow256(k as nat),
        decreases width - k,
    {
        let ghost prefix = bytes@.subrange(start as int, start + k);
        let ghost next = bytes@.subrange(start as int, start + k + 1);
        proof {
            assert(next.drop_last() =~= prefix);
            assert(next.last() == bytes@[start + k]);
            lemma_pow256_monotonic(k as nat, 7);
            lemma_pow256_values();
            let b = bytes@[start + k] as nat;
            let p = pow256(k as nat);
            assert(acc * 256 + b < p * 256) by (nonlinear_arith)
                requires
                    acc < p,
                    b < 256,
            ;
            assert(p * 256 <= 0x100_0000_0000_0000 * 256) by (nonlinear_arith)
                requires
                    p <= 0x100_0000_0000_0000,
            ;
        }
        acc = acc * 256 + bytes[start + k] as u64;
        k = k + 1;
    }
    acc
}

/// Drops the leading bytes of a big-endian integer to leave `disk_width`
/// bytes. The dropped bytes must be zero, so that nothing is lost.
pub fn truncate_zero_be_bytes(mem_bytes: &[u8], disk_width: usize) -> (r: Vec<u8>)
    requires
        disk_width <= mem_bytes@.len(),
        forall|i: int| 0 <= i < mem_bytes@.len() - disk_width ==> mem_bytes@[i] == 0,
    ensures
        r@ == mem_bytes@.subrange(mem_bytes@.len() - disk_width, mem_bytes@.len() as int),
        mem_bytes@ == zeros((mem_bytes@.len() - disk_width) as nat) + r@,
        be_value(r@) == be_value(mem_bytes@),
{
    let start = mem_bytes.len() - disk_width;
    let mut r: Vec<u8> = Vec::new();
    let mut i: usize = start;
    while i < mem_bytes.len()
        invariant
            start <= i <= mem_bytes@.len(),
            r@ == mem_bytes@.subrange(start as int, i as int),
        decreases mem_bytes@.len() - i,
    {
        r.push(mem_bytes[i]);
        i = i + 1;
        proof {
            assert(r@ =~= mem_bytes@.subrange(start as int, i as int));
        }
    }
    proof {
        assert(mem_bytes@ =~= zeros(start as nat) + r@);
        lemma_be_value_zeros(start as nat, r@);
    }
    r
}

/// Pads a big-endian integer with leading zero bytes up to `mem_width` bytes.
pub fn expand_zero_be_bytes(disk_bytes: &[u8], mem_width: usize) -> (r: Vec<u8>)
    requires
        disk_bytes@.len() <= mem_width,
    ensures
        r@ == zeros((mem_width - disk_bytes@.len()) as nat) + disk_bytes@,
        be_value(r@) == be_value(disk_bytes@),
{
    let pad = mem_width - disk_bytes.len();
    let mut r: Vec<u8> = Vec::new();
    let mut i: usize = 0;
    while i < pad
        invariant
            i <= pad,
            r@ == zeros(i as nat),
        decreases pad - i,
    {
        r.push(0u8);
        i = i + 1;
        proof {
            assert(r@ =~= zeros(i as nat));
        }
    }
    let mut j: usize = 0;
    while j < disk_bytes.len()
        invariant
            j <= disk_bytes@.len(),
            r@ == zeros(pad as nat) + disk_bytes@.subrange(0, j as int),
        decreases disk_bytes@.len() - j,
    {
        r.push(disk_bytes[j]);
        j = j + 1;
        proof {
            assert(r@ =~= zeros(pad as nat) + disk_bytes@.subrange(0, j as int));
        }
    }
    proof {
        assert(disk_bytes@.subrange(0, disk_bytes@.len() as int) =~= disk_bytes@);
        lemma_be_value_zeros(pad as nat, disk_bytes@);
    }
    r
}

} // verus!
