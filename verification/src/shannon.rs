//! Fixed-point Shannon entropy of a byte buffer.
//!
//! The entropy of the byte distribution is computed in integer arithmetic.
//! `log2` of a rational `a / b` is evaluated as an integer part (the largest
//! `k` with `b * 2^k <= a`) plus a binary fraction found by repeated
//! squaring, all scaled by [`SCORE_ONE`] millionths.  The normalized entropy
//! is the bit entropy divided by 8 and clamped into `0 ..= SCORE_ONE`; it is
//! exact on power-of-two distributions, which gives the two classical
//! anchors: one occurrence of every byte value scores `SCORE_ONE`, a
//! constant buffer scores `0`.

use vstd::prelude::*;
use vstd::arithmetic::power2::{
    pow2,
    lemma_pow2_unfold,
    lemma_pow2_adds,
    lemma_pow2_pos,
    lemma_pow2_strictly_increases,
    lemma2_to64,
    lemma2_to64_rest,
};
use vstd::arithmetic::div_mod::{
    lemma_div_is_ordered,
    lemma_div_multiples_vanish,
    lemma_multiply_divide_lt,
    lemma_fundamental_div_mod,
};
use vstd::arithmetic::mul::{lemma_mul_inequality, lemma_mul_is_commutative};
use crate::SCORE_ONE;

verus! {

/// The fixed-point base of the fractional `log2` iteration: 2^32.
pub const FP: u64 = 0x1_0000_0000;

/// How many binary fraction bits of `log2` are computed.
pub const FRAC_ROUNDS: u64 = 20;

/// 2^FRAC_ROUNDS.
pub const FRAC_UNIT: u64 = 0x10_0000;

/// The largest `k` with `b * 2^k <= a`, for `1 <= b <= a`.
pub open spec fn spec_ilog2(a: int, b: int) -> int
    decreases a - b,
    when 1 <= b <= a
{
    if 2 * b > a {
        0
    } else {
        1 + spec_ilog2(a, 2 * b)
    }
}

/// The first `rounds` binary fraction bits of `log2(x / FP)`, read as one
/// integer, computed by the classical squaring iteration on `x in [FP, 2*FP)`.
pub open spec fn spec_frac_bits(x: int, rounds: nat) -> int
    decreases rounds,
{
    if rounds == 0 {
        0
    } else {
        let y = (x * x) / (FP as int);
        if y >= 2 * (FP as int) {
            pow2((rounds - 1) as nat) as int + spec_frac_bits(y / 2, (rounds - 1) as nat)
        } else {
            spec_frac_bits(y, (rounds - 1) as nat)
        }
    }
}

/// `log2(a / b)` in millionths, for `1 <= b <= a`: the integer part plus
/// `FRAC_ROUNDS` fraction bits, both scaled by `SCORE_ONE`.
pub open spec fn spec_log2_fixed(a: int, b: int) -> int {
    let k = spec_ilog2(a, b);
    let x = (a * (FP as int)) / (b * pow2(k as nat) as int);
    k * (SCORE_ONE as int) + (spec_frac_bits(x, FRAC_ROUNDS as nat) * (SCORE_ONE as int)) / (
    FRAC_UNIT as int)
}

/// `2*p <= a` exactly when `p <= a/2`, for machine-size bounds checks.
proof fn lemma_halving(p: int, a: int)
    requires
        p >= 0,
        a >= 0,
    ensures
        (2 * p <= a) <==> (p <= a / 2),
{
    lemma_fundamental_div_mod(a, 2);
    if 2 * p <= a {
        lemma_div_is_ordered(2 * p, a, 2);
        lemma_div_multiples_vanish(p, 2);
    }
}

/// The fraction iteration never leaves `[0, 2^rounds)`.
proof fn lemma_frac_bits_bound(x: int, rounds: nat)
    ensures
        0 <= spec_frac_bits(x, rounds) < pow2(rounds),
    decreases rounds,
{
    lemma_pow2_pos(rounds);
    if rounds > 0 {
        let y = (x * x) / (FP as int);
        lemma_frac_bits_bound(y / 2, (rounds - 1) as nat);
        lemma_frac_bits_bound(y, (rounds - 1) as nat);
        lemma_pow2_unfold(rounds);
    }
}

/// Started exactly at the base point `FP` (the value 1.0), every fraction
/// bit is zero.
proof fn lemma_frac_bits_of_one(rounds: nat)
    ensures
        spec_frac_bits(FP as int, rounds) == 0,
    decreases rounds,
{
    if rounds > 0 {
        assert(((FP as int) * (FP as int)) / (FP as int) == FP as int) by {
            lemma_div_multiples_vanish(FP as int, FP as int);
        }
        lemma_frac_bits_of_one((rounds - 1) as nat);
    }
}

/// On an exact power of two, `spec_ilog2` returns the exponent.
proof fn lemma_ilog2_exact(b: int, k: nat)
    requires
        b >= 1,
    ensures
        spec_ilog2(b * pow2(k) as int, b) == k,
    decreases k,
{
    lemma_pow2_pos(k);
    if k == 0 {
        assert(pow2(0) == 1) by {
            lemma2_to64();
        }
    } else {
        lemma_pow2_unfold(k);
        let a = b * pow2(k) as int;
        assert(a == (2 * b) * pow2((k - 1) as nat) as int) by {
            lemma_pow2_adds(1, (k - 1) as nat);
            lemma2_to64();
            let pk1 = pow2((k - 1) as nat) as int;
            assert(b * (2 * pk1) == (2 * b) * pk1) by (nonlinear_arith);
        }
        lemma_pow2_pos((k - 1) as nat);
        assert(2 * b <= a) by {
            lemma_mul_inequality(1, pow2((k - 1) as nat) as int, 2 * b);
            lemma_mul_is_commutative(2 * b, pow2((k - 1) as nat) as int);
        }
        lemma_ilog2_exact(2 * b, (k - 1) as nat);
    }
}

/// On an exact ratio `2^k`, the fixed-point `log2` is exactly `k` scaled.
pub proof fn lemma_log2_fixed_exact(b: int, k: nat)
    requires
        b >= 1,
    ensures
        spec_log2_fixed(b * pow2(k) as int, b) == k * (SCORE_ONE as int),
{
    let a = b * pow2(k) as int;
    lemma_ilog2_exact(b, k);
    lemma_pow2_pos(k);
    assert(a >= 1) by (nonlinear_arith)
        requires b >= 1 && pow2(k) >= 1 && a == b * pow2(k) as int;
    assert((a * (FP as int)) / (b * pow2(k) as int) == FP as int) by {
        lemma_div_multiples_vanish(FP as int, a);
    }
    lemma_frac_bits_of_one(FRAC_ROUNDS as nat);
    assert((0 * (SCORE_ONE as int)) / (FRAC_UNIT as int) == 0);
}

/// The integer `log2(a / b)` in millionths, by binary search on the integer
/// part and repeated squaring for `FRAC_ROUNDS` fraction bits.
pub fn log2_fixed(a: u64, b: u64) -> (r: u64)
    requires
        1 <= b,
        b <= a,
    ensures
        r as int == spec_log2_fixed(a as int, b as int),
        r <= 64 * (SCORE_ONE as u64),
{
    let mut k: u64 = 0;
    let mut p: u64 = b;
    proof {
        lemma2_to64();
        assert(b as int * pow2(0) as int == b as int);
    }
    while p <= a / 2
        invariant
            1 <= b <= p <= a,
            p as int == b as int * pow2(k as nat) as int,
            spec_ilog2(a as int, b as int) == k + spec_ilog2(a as int, p as int),
            k < 64,
        decreases a - p,
    {
        proof {
            lemma_halving(p as int, a as int);
            lemma_pow2_unfold((k + 1) as nat);
            let bi = b as int;
            let pk = pow2(k as nat) as int;
            assert(bi * (2 * pk) == 2 * (bi * pk)) by (nonlinear_arith);
        }
        p = p * 2;
        k = k + 1;
        proof {
            assert(k < 64) by {
                lemma_mul_inequality(1, b as int, pow2(k as nat) as int);
                lemma_mul_is_commutative(b as int, pow2(k as nat) as int);
                if k >= 64 {
                    if k > 64 {
                        lemma_pow2_strictly_increases(64, k as nat);
                    }
                    lemma2_to64_rest();
                }
            }
        }
    }
    proof {
        lemma_halving(p as int, a as int);
        assert(spec_ilog2(a as int, p as int) == 0);
    }
    proof {
        let aw = a as u128;
        let fw = FP as u128;
        assert(aw * fw <= 0xFFFF_FFFF_FFFF_FFFFu128 * 0x1_0000_0000u128) by (nonlinear_arith)
            requires aw <= 0xFFFF_FFFF_FFFF_FFFFu128 && fw == 0x1_0000_0000u128;
    }
    let x_wide: u128 = (a as u128) * (FP as u128) / (p as u128);
    proof {
        let ai = a as int;
        let pi = p as int;
        let fp = FP as int;
        assert(fp <= (ai * fp) / pi < 2 * fp) by {
            lemma_mul_inequality(pi, ai, fp);
            lemma_div_is_ordered(pi * fp, ai * fp, pi);
            lemma_div_multiples_vanish(fp, pi);
            lemma_mul_is_commutative(pi, fp);
            assert(ai * fp < pi * (2 * fp)) by {
                lemma_halving(pi, ai);
                lemma_mul_inequality(ai, 2 * pi - 1, fp);
                assert((2 * pi - 1) * fp == pi * (2 * fp) - fp) by (nonlinear_arith);
            }
            lemma_multiply_divide_lt(ai * fp, pi, 2 * fp);
        }
    }
    let mut x: u64 = x_wide as u64;
    let ghost x0: int = x as int;
    let mut frac: u64 = 0;
    let mut i: u64 = 0;
    while i < FRAC_ROUNDS
        invariant
            FP <= x < 2 * FP,
            i <= FRAC_ROUNDS,
            frac < pow2(i as nat),
            spec_frac_bits(x0, FRAC_ROUNDS as nat) == frac as int * pow2((FRAC_ROUNDS - i) as nat)
                as int + spec_frac_bits(x as int, (FRAC_ROUNDS - i) as nat),
        decreases FRAC_ROUNDS - i,
    {
        proof {
            lemma2_to64();
            lemma2_to64_rest();
        }
        proof {
            let xw = x as u128;
            assert(xw * xw < 0x4_0000_0000_0000_0000u128) by (nonlinear_arith)
                requires xw < 0x2_0000_0000u128;
        }
        let y_wide: u128 = (x as u128) * (x as u128) / (FP as u128);
        proof {
            let xi = x as int;
            let fp = FP as int;
            assert(fp <= (xi * xi) / fp < 4 * fp) by {
                lemma_mul_inequality(fp, xi, fp);
                lemma_mul_inequality(fp, xi, xi);
                lemma_mul_is_commutative(fp, xi);
                lemma_div_is_ordered(fp * fp, xi * xi, fp);
                lemma_div_multiples_vanish(fp, fp);
                assert(xi * xi < fp * (4 * fp)) by {
                    lemma_mul_inequality(xi, 2 * fp - 1, xi);
                    lemma_mul_inequality(xi, 2 * fp - 1, 2 * fp - 1);
                    assert((2 * fp - 1) * (2 * fp - 1) < fp * (4 * fp)) by (nonlinear_arith)
                        requires fp >= 1;
                }
                lemma_multiply_divide_lt(xi * xi, fp, 4 * fp);
            }
        }
        let y: u64 = y_wide as u64;
        let ghost x_before: int = x as int;
        let ghost frac_before: int = frac as int;
        let ghost m: nat = (FRAC_ROUNDS - i - 1) as nat;
        proof {
            lemma_pow2_strictly_increases(i as nat, FRAC_ROUNDS as nat);
            lemma_pow2_unfold((m + 1) as nat);
            let fp = FP as int;
            let ys = (x_before * x_before) / fp;
            assert(y as int == ys);
            assert(frac_before * pow2((m + 1) as nat) as int == 2 * frac_before * pow2(m) as int
                + 0) by (nonlinear_arith)
                requires pow2((m + 1) as nat) == 2 * pow2(m);
        }
        if y >= 2 * FP {
            proof {
                assert(y as int / 2 >= FP as int) by {
                    lemma_div_is_ordered(2 * FP as int, y as int, 2);
                    lemma_div_multiples_vanish(FP as int, 2);
                }
                assert(y as int / 2 < 2 * FP as int) by {
                    lemma_multiply_divide_lt(y as int, 2, 2 * FP as int);
                }
            }
            frac = 2 * frac + 1;
            x = y / 2;
            proof {
                let pm = pow2(m) as int;
                assert(spec_frac_bits(x_before, (m + 1) as nat) == pm + spec_frac_bits(
                    x as int,
                    m,
                ));
                assert((2 * frac_before + 1) * pm == 2 * frac_before * pm + pm)
                    by (nonlinear_arith);
            }
        } else {
            frac = 2 * frac;
            x = y;
            proof {
                let pm = pow2(m) as int;
                assert(spec_frac_bits(x_before, (m + 1) as nat) == spec_frac_bits(x as int, m));
                assert((2 * frac_before) * pm == 2 * frac_before * pm) by (nonlinear_arith);
            }
        }
        i = i + 1;
        proof {
            lemma_pow2_unfold(i as nat);
            assert((FRAC_ROUNDS - i) as nat == m);
            assert(spec_frac_bits(x0, FRAC_ROUNDS as nat) == frac as int * pow2(m) as int
                + spec_frac_bits(x as int, m));
        }
    }
    proof {
        lemma2_to64();
        assert(i == FRAC_ROUNDS);
        assert(pow2((FRAC_ROUNDS - i) as nat) == 1);
        assert(spec_frac_bits(x as int, (FRAC_ROUNDS - i) as nat) == 0);
        assert(frac as int * pow2((FRAC_ROUNDS - i) as nat) as int == frac as int)
            by (nonlinear_arith)
            requires pow2((FRAC_ROUNDS - i) as nat) == 1;
        assert(spec_frac_bits(x0, FRAC_ROUNDS as nat) == frac as int);
        assert(frac < pow2(20));
        assert(pow2(20) == 0x10_0000);
    }
    let scaled: u64 = frac * SCORE_ONE as u64 / FRAC_UNIT;
    proof {
        let fi = frac as int;
        let ui = FRAC_UNIT as int;
        let si = SCORE_ONE as int;
        assert(fi * si < ui * si) by {
            lemma_mul_inequality(fi, ui - 1, si);
            lemma_mul_inequality(ui - 1, ui, si);
        }
        lemma_mul_is_commutative(ui, si);
        lemma_multiply_divide_lt(fi * si, ui, si);
        assert(scaled as int >= 0);
    }
    k * SCORE_ONE as u64 + scaled
}

/// How many times byte value `v` occurs in `data`.
pub open spec fn byte_count(data: Seq<u8>, v: u8) -> nat
    decreases data.len(),
{
    if data.len() == 0 {
        0
    } else {
        byte_count(data.drop_last(), v) + (if data.last() == v {
            1nat
        } else {
            0nat
        })
    }
}

/// The summed counts of the byte values `0 .. b`.
pub open spec fn count_below(data: Seq<u8>, b: int) -> int
    decreases b,
{
    if b <= 0 {
        0
    } else {
        count_below(data, b - 1) + byte_count(data, (b - 1) as u8)
    }
}

/// What one byte value with count `c` adds to the entropy sum of a buffer
/// of length `n`: `c * log2(n / c)` in millionths of a bit.
pub open spec fn entropy_term(n: int, c: nat) -> int {
    if c == 0 {
        0
    } else {
        c * spec_log2_fixed(n, c as int)
    }
}

/// The entropy sum over the byte values `0 .. b`.
pub open spec fn entropy_below(data: Seq<u8>, n: int, b: int) -> int
    decreases b,
{
    if b <= 0 {
        0
    } else {
        entropy_below(data, n, b - 1) + entropy_term(n, byte_count(data, (b - 1) as u8))
    }
}

/// The normalized Shannon entropy of `data` in millionths: the bit entropy
/// divided by 8, clamped into `0 ..= SCORE_ONE`; zero for an empty buffer.
pub open spec fn spec_entropy(data: Seq<u8>) -> int {
    if data.len() == 0 {
        0
    } else {
        let raw = entropy_below(data, data.len() as int, 256) / (8 * data.len() as int);
        if raw > SCORE_ONE as int {
            SCORE_ONE as int
        } else {
            raw
        }
    }
}

/// No byte value occurs more often than the buffer is long.
pub proof fn lemma_byte_count_le_len(data: Seq<u8>, v: u8)
    ensures
        byte_count(data, v) <= data.len(),
    decreases data.len(),
{
    if data.len() > 0 {
        lemma_byte_count_le_len(data.drop_last(), v);
    }
}

/// Dropping the last byte lowers by one exactly the partial count sums that
/// cover its value.
proof fn lemma_count_below_drop(data: Seq<u8>, b: int)
    requires
        data.len() >= 1,
        0 <= b <= 256,
    ensures
        count_below(data, b) == count_below(data.drop_last(), b) + (if (data.last() as int) < b {
            1int
        } else {
            0int
        }),
    decreases b,
{
    if b > 0 {
        lemma_count_below_drop(data, b - 1);
    }
}

/// An empty buffer has empty counts.
proof fn lemma_count_below_empty(b: int)
    ensures
        count_below(Seq::<u8>::empty(), b) == 0,
    decreases b,
{
    if b > 0 {
        lemma_count_below_empty(b - 1);
    }
}

/// The 256 byte-value counts partition the buffer: they sum to its length.
pub proof fn lemma_count_partition(data: Seq<u8>)
    ensures
        count_below(data, 256) == data.len(),
    decreases data.len(),
{
    if data.len() == 0 {
        assert(data =~= Seq::<u8>::empty());
        lemma_count_below_empty(256);
    } else {
        lemma_count_partition(data.drop_last());
        lemma_count_below_drop(data, 256);
    }
}

/// Partial count sums are non-negative and grow with the bound.
proof fn lemma_count_below_le(data: Seq<u8>, b1: int, b2: int)
    requires
        b1 <= b2,
    ensures
        count_below(data, b1) <= count_below(data, b2),
        count_below(data, b1) >= 0,
    decreases b2 - b1, b1,
{
    if b1 == b2 {
        if b1 > 0 {
            lemma_count_below_le(data, b1 - 1, b1 - 1);
        }
    } else {
        lemma_count_below_le(data, b1, b2 - 1);
        lemma_count_below_le(data, b1, b1);
    }
}

/// The fixed-point `log2` stays within `0 ..= 64 * SCORE_ONE` on every
/// machine-size ratio.
pub proof fn lemma_log2_fixed_bounds(a: int, b: int)
    requires
        1 <= b <= a,
        a <= 0xFFFF_FFFF_FFFF_FFFF,
    ensures
        0 <= spec_log2_fixed(a, b) <= 64 * (SCORE_ONE as int),
{
    lemma_ilog2_props(a, b);
    let k = spec_ilog2(a, b);
    assert(k < 64) by {
        lemma_pow2_pos(k as nat);
        lemma_mul_inequality(1, b, pow2(k as nat) as int);
        lemma_mul_is_commutative(b, pow2(k as nat) as int);
        if k >= 64 {
            if k > 64 {
                lemma_pow2_strictly_increases(64, k as nat);
            }
            lemma2_to64_rest();
        }
    }
    let x = (a * (FP as int)) / (b * pow2(k as nat) as int);
    let f = spec_frac_bits(x, FRAC_ROUNDS as nat);
    lemma_frac_bits_bound(x, FRAC_ROUNDS as nat);
    lemma2_to64();
    let si = SCORE_ONE as int;
    let ui = FRAC_UNIT as int;
    assert(0 <= (f * si) / ui < si) by {
        lemma_mul_inequality(0, f, si);
        vstd::arithmetic::div_mod::lemma_div_pos_is_pos(f * si, ui);
        assert(f * si < ui * si) by {
            lemma_mul_inequality(f, ui - 1, si);
            lemma_mul_inequality(ui - 1, ui, si);
        }
        lemma_mul_is_commutative(ui, si);
        lemma_multiply_divide_lt(f * si, ui, si);
    }
    assert(0 <= k * si <= 63 * si) by {
        lemma_mul_inequality(0, k, si);
        lemma_mul_inequality(k, 63, si);
    }
}

/// `spec_ilog2` is non-negative and never overshoots its argument.
proof fn lemma_ilog2_props(a: int, b: int)
    requires
        1 <= b <= a,
    ensures
        spec_ilog2(a, b) >= 0,
        b * pow2(spec_ilog2(a, b) as nat) as int <= a,
    decreases a - b,
{
    lemma2_to64();
    if 2 * b > a {
        assert(b * pow2(0) as int == b);
    } else {
        lemma_ilog2_props(a, 2 * b);
        let k = spec_ilog2(a, 2 * b);
        lemma_pow2_unfold((k + 1) as nat);
        assert(b * (2 * pow2(k as nat) as int) == (2 * b) * pow2(k as nat) as int)
            by (nonlinear_arith);
    }
}

/// The entropy sum is non-negative and at most `64 * SCORE_ONE` per counted
/// byte.
pub proof fn lemma_entropy_below_bounds(data: Seq<u8>, n: int, b: int)
    requires
        1 <= n,
        n == data.len(),
        n <= 0xFFFF_FFFF_FFFF_FFFF,
        0 <= b <= 256,
    ensures
        0 <= entropy_below(data, n, b),
        entropy_below(data, n, b) <= 64 * (SCORE_ONE as int) * count_below(data, b),
    decreases b,
{
    if b > 0 {
        lemma_entropy_below_bounds(data, n, b - 1);
        let c = byte_count(data, (b - 1) as u8);
        lemma_byte_count_le_len(data, (b - 1) as u8);
        if c > 0 {
            lemma_log2_fixed_bounds(n, c as int);
            let lg = spec_log2_fixed(n, c as int);
            assert(0 <= c * lg <= 64 * (SCORE_ONE as int) * c) by (nonlinear_arith)
                requires 0 <= lg <= 64 * (SCORE_ONE as int) && c > 0;
        }
        lemma_count_below_le(data, b - 1, b - 1);
        assert(64 * (SCORE_ONE as int) * count_below(data, b) == 64 * (SCORE_ONE as int)
            * count_below(data, b - 1) + 64 * (SCORE_ONE as int) * c) by (nonlinear_arith)
            requires count_below(data, b) == count_below(data, b - 1) + c;
    }
}

/// One histogram bucket per byte value.
fn count_bytes(data: &[u8]) -> (counts: Vec<usize>)
    ensures
        counts@.len() == 256,
        forall|v: int|
            0 <= v < 256 ==> #[trigger] counts@[v] == byte_count(data@, v as u8),
{
    let mut counts: Vec<usize> = Vec::new();
    let mut v: usize = 0;
    while v < 256
        invariant
            counts@.len() == v <= 256,
            forall|j: int| 0 <= j < v ==> #[trigger] counts@[j] == 0,
        decreases 256 - v,
    {
        counts.push(0);
        v = v + 1;
    }
    let n = data.len();
    proof {
        assert(data@.subrange(0, 0) =~= Seq::<u8>::empty());
        assert forall|w: int| 0 <= w < 256 implies #[trigger] counts@[w] == byte_count(
            data@.subrange(0, 0),
            w as u8,
        ) by {}
    }
    for i in 0..n
        invariant
            n == data@.len(),
            counts@.len() == 256,
            forall|w: int|
                0 <= w < 256 ==> #[trigger] counts@[w] == byte_count(
                    data@.subrange(0, i as int),
                    w as u8,
                ),
    {
        let b = data[i] as usize;
        proof {
            lemma_byte_count_le_len(data@.subrange(0, i as int), data@[i as int]);
        }
        let c = counts[b];
        counts.set(b, c + 1);
        proof {
            let pre = data@.subrange(0, i as int);
            let cur = data@.subrange(0, i + 1);
            assert(cur.drop_last() =~= pre);
            assert(cur.last() == data@[i as int]);
            assert forall|w: int| 0 <= w < 256 implies #[trigger] counts@[w] == byte_count(
                cur,
                w as u8,
            ) by {
                assert(byte_count(cur, w as u8) == byte_count(pre, w as u8) + (
                if cur.last() == w as u8 {
                    1nat
                } else {
                    0nat
                }));
            }
        }
    }
    proof {
        assert(data@.subrange(0, n as int) =~= data@);
    }
    counts
}

/// The normalized Shannon entropy of `data`, in millionths, clamped into
/// `0 ..= SCORE_ONE`.
pub fn shannon_entropy(data: &[u8]) -> (e: u32)
    ensures
        e as int == spec_entropy(data@),
        e <= SCORE_ONE,
{
    let n = data.len();
    if n == 0 {
        return 0;
    }
    let counts = count_bytes(data);
    let ghost dv = data@;
    let ghost ni = n as int;
    let mut total: u128 = 0;
    let mut b: usize = 0;
    proof {
        lemma_count_partition(dv);
    }
    while b < 256
        invariant
            1 <= n <= 0xFFFF_FFFF_FFFF_FFFF,
            ni == n as int,
            dv == data@,
            ni == dv.len(),
            b <= 256,
            counts@.len() == 256,
            forall|v: int| 0 <= v < 256 ==> #[trigger] counts@[v] == byte_count(dv, v as u8),
            total as int == entropy_below(dv, ni, b as int),
            count_below(dv, 256) == ni,
        decreases 256 - b,
    {
        let c = counts[b];
        proof {
            lemma_byte_count_le_len(dv, b as u8);
            lemma_entropy_below_bounds(dv, ni, b as int);
            lemma_entropy_below_bounds(dv, ni, b + 1);
            lemma_count_below_le(dv, b + 1, 256);
            let s64 = 64 * (SCORE_ONE as int);
            assert(s64 * count_below(dv, b + 1) <= s64 * ni) by (nonlinear_arith)
                requires count_below(dv, b + 1) <= ni && s64 > 0;
        }
        if c > 0 {
            let lg = log2_fixed(n as u64, c as u64);
            proof {
                let ci = c as int;
                let li = lg as int;
                assert(ci * li <= ni * (64 * (SCORE_ONE as int))) by (nonlinear_arith)
                    requires 0 <= ci <= ni && 0 <= li <= 64 * (SCORE_ONE as int);
                assert(entropy_below(dv, ni, b + 1) == entropy_below(dv, ni, b as int)
                    + entropy_term(ni, byte_count(dv, b as u8)));
            }
            total = total + (c as u128) * (lg as u128);
        } else {
            proof {
                assert(entropy_below(dv, ni, b + 1) == entropy_below(dv, ni, b as int));
            }
        }
        b = b + 1;
    }
    let denom: u128 = 8 * (n as u128);
    let raw: u128 = total / denom;
    proof {
        lemma_entropy_below_bounds(dv, ni, 256);
        vstd::arithmetic::div_mod::lemma_div_pos_is_pos(total as int, denom as int);
    }
    if raw > SCORE_ONE as u128 {
        SCORE_ONE
    } else {
        raw as u32
    }
}

/// A buffer that holds every byte value exactly once has full entropy.
pub proof fn lemma_entropy_uniform(data: Seq<u8>)
    requires
        forall|v: u8| byte_count(data, v) == 1,
    ensures
        spec_entropy(data) == SCORE_ONE as int,
{
    lemma_count_below_all_one(data, 256);
    lemma_count_partition(data);
    assert(data.len() == 256);
    lemma_entropy_below_all_one(data, 256);
    lemma2_to64();
    assert(pow2(8) == 256);
    lemma_log2_fixed_exact(1, 8);
    assert(1 * pow2(8) as int == 256);
    assert(spec_log2_fixed(256, 1) == 8 * (SCORE_ONE as int));
    assert(entropy_below(data, 256, 256) == 256 * 8000000);
    assert((2048000000int) / (2048int) == 1000000int) by {
        lemma_div_multiples_vanish(1000000, 2048);
    }
}

/// With every count equal to one, the partial count sums count the values.
proof fn lemma_count_below_all_one(data: Seq<u8>, b: int)
    requires
        forall|v: u8| byte_count(data, v) == 1,
        0 <= b <= 256,
    ensures
        count_below(data, b) == b,
    decreases b,
{
    if b > 0 {
        lemma_count_below_all_one(data, b - 1);
    }
}

/// With every count equal to one and length 256, each byte value adds
/// exactly `log2(256)` bits to the entropy sum.
proof fn lemma_entropy_below_all_one(data: Seq<u8>, b: int)
    requires
        forall|v: u8| byte_count(data, v) == 1,
        data.len() == 256,
        0 <= b <= 256,
    ensures
        entropy_below(data, 256, b) == b * 8000000,
    decreases b,
{
    if b > 0 {
        lemma_entropy_below_all_one(data, b - 1);
        lemma2_to64();
        assert(1 * pow2(8) as int == 256);
        lemma_log2_fixed_exact(1, 8);
        assert(spec_log2_fixed(256, 1) == 8 * (SCORE_ONE as int));
        assert(spec_log2_fixed(256, 1) == 8000000);
        assert(byte_count(data, (b - 1) as u8) == 1);
        assert(entropy_term(256, 1) == 1 * spec_log2_fixed(256, 1));
        assert(1 * spec_log2_fixed(256, 1) == spec_log2_fixed(256, 1));
        assert(entropy_below(data, 256, b) == entropy_below(data, 256, b - 1) + entropy_term(
            256,
            1,
        ));
    }
}

/// A non-empty constant buffer has zero entropy.
pub proof fn lemma_entropy_constant(data: Seq<u8>)
    requires
        data.len() >= 1,
        forall|i: int| 0 <= i < data.len() ==> #[trigger] data[i] == data[0],
    ensures
        spec_entropy(data) == 0,
{
    let n = data.len() as int;
    lemma_byte_count_all_same(data);
    lemma2_to64();
    assert((data[0] as u8) as int * pow2(0) as int == data[0] as int);
    lemma_log2_fixed_exact(n, 0);
    assert(n * pow2(0) as int == n);
    assert(spec_log2_fixed(n, n) == 0);
    lemma_entropy_below_one_value(data, 256);
    assert(entropy_below(data, n, 256) == 0);
    assert(0int / (8 * n) == 0) by {
        vstd::arithmetic::div_mod::lemma_div_pos_is_pos(0, 8 * n);
        vstd::arithmetic::div_mod::lemma_div_nonincreasing(0, 8 * n);
    }
}

/// In a constant buffer, the byte value of the first element owns the whole
/// count and every other value counts zero.
proof fn lemma_byte_count_all_same(data: Seq<u8>)
    requires
        data.len() >= 1,
        forall|i: int| 0 <= i < data.len() ==> #[trigger] data[i] == data[0],
    ensures
        byte_count(data, data[0]) == data.len(),
        forall|v: u8| v != data[0] ==> byte_count(data, v) == 0,
    decreases data.len(),
{
    if data.len() == 1 {
        assert(data.drop_last() =~= Seq::<u8>::empty());
        assert(data.last() == data[0]);
        assert(byte_count(Seq::<u8>::empty(), data[0]) == 0);
        assert(byte_count(data, data[0]) == 1);
        assert forall|v: u8| v != data[0] implies byte_count(data, v) == 0 by {
            assert(byte_count(Seq::<u8>::empty(), v) == 0);
            assert(byte_count(data.drop_last(), v) == 0);
        }
    } else {
        let d = data.drop_last();
        assert(d[0] == data[0]);
        assert forall|i: int| 0 <= i < d.len() implies #[trigger] d[i] == d[0] by {
            assert(d[i] == data[i]);
        }
        lemma_byte_count_all_same(d);
        assert(data.last() == data[0]);
        assert(byte_count(data, data[0]) == byte_count(d, data[0]) + 1);
        assert forall|v: u8| v != data[0] implies byte_count(data, v) == 0 by {
            assert(byte_count(d, v) == 0);
        }
    }
}

/// In a constant buffer, every entropy term vanishes: the owning value
/// contributes `log2(n/n) == 0` and the rest contribute nothing.
proof fn lemma_entropy_below_one_value(data: Seq<u8>, b: int)
    requires
        data.len() >= 1,
        forall|i: int| 0 <= i < data.len() ==> #[trigger] data[i] == data[0],
        byte_count(data, data[0]) == data.len(),
        forall|v: u8| v != data[0] ==> byte_count(data, v) == 0,
        spec_log2_fixed(data.len() as int, data.len() as int) == 0,
        0 <= b <= 256,
    ensures
        entropy_below(data, data.len() as int, b) == 0,
    decreases b,
{
    let n = data.len() as int;
    if b > 0 {
        lemma_entropy_below_one_value(data, b - 1);
        let v = (b - 1) as u8;
        if v == data[0] {
            assert(entropy_term(n, byte_count(data, v)) == n * spec_log2_fixed(n, n));
            assert(n * 0 == 0);
        } else {
            assert(entropy_term(n, byte_count(data, v)) == 0);
        }
    }
}

} // verus!
