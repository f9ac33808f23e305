//! Fixed-point number model shared by the whole core.
//!
//! Market quantities are carried as integers with a fixed scale:
//!
//! - prices, ATR and band levels: `PRICE_SCALE` units per currency unit;
//! - confidences, weights and position factors: `CONF_ONE` is 1.0;
//! - ADX, DI, band width and percentiles: `PCT_SCALE` units per percent point;
//! - log-returns and state means: `RET_SCALE` is 1.0;
//! - return variances: `VAR_SCALE` is 1.0;
//! - probabilities: `PROB_SCALE` is 1.0.
//!
//! This module holds the scales, the shared arithmetic helpers (integer square
//! root, floor division of signed values, base-2 powers) and the convexity
//! lemma that underlies every smoothing update of the core.

use vstd::prelude::*;

verus! {

use vstd::arithmetic::div_mod::{
    lemma_div_is_ordered,
    lemma_div_multiples_vanish,
    lemma_fundamental_div_mod,
    lemma_fundamental_div_mod_converse,
    lemma_multiply_divide_lt,
};
use vstd::arithmetic::power2::{
    lemma2_to64,
    lemma2_to64_rest,
    lemma_pow2_strictly_increases,
    lemma_pow2_unfold,
    pow2,
};

/// Scaled units per currency unit for prices, ATR values and band levels.
pub const PRICE_SCALE: u64 = 10_000;

/// Largest scaled price the core accepts (10^8 currency units).
pub const PRICE_MAX: u64 = 1_000_000_000_000;

/// Scaled representation of confidence 1.0.
pub const CONF_ONE: u64 = 1_000_000;

/// Scaled units per percent point for ADX, DI, band width and percentiles.
pub const PCT_SCALE: u64 = 100;

/// Scaled representation of a log-return of 1.0.
pub const RET_SCALE: u64 = 1_000_000_000;

/// Largest magnitude of a scaled log-return the core produces.
pub const RET_MAX: u64 = 60_000_000_000;

/// Scaled representation of a return variance of 1.0.
pub const VAR_SCALE: u64 = 1_000_000_000_000;

/// Variance floor: 1e-8 at `VAR_SCALE`, guards against singular emissions.
pub const VAR_FLOOR: u64 = 10_000;

/// Largest scaled variance the estimator can produce.
pub const VAR_MAX: u64 = 1_000_000_000_000_000_000;

/// Scaled representation of probability 1.0.
pub const PROB_SCALE: u64 = 1_000_000_000;

/// A convex combination `((s - w) * a + w * b) / s` with floor division stays
/// between its two operands. Every smoothing update of the core (EMA steps,
/// Wilder smoothing, online Gaussian updates, transition shrinkage, blending)
/// is of this shape, so this lemma carries all their range invariants.
pub proof fn lemma_convex_bounds(a: int, b: int, w: int, s: int)
    requires
        0 <= w <= s,
        1 <= s,
    ensures
        ((s - w) * a + w * b) / s >= (if a <= b { a } else { b }),
        ((s - w) * a + w * b) / s <= (if a <= b { b } else { a }),
{
    let lo = if a <= b { a } else { b };
    let hi = if a <= b { b } else { a };
    let num = (s - w) * a + w * b;
    assert(s * lo <= num && num <= s * hi) by (nonlinear_arith)
        requires
            0 <= w <= s,
            lo <= a <= hi,
            lo <= b <= hi,
            num == (s - w) * a + w * b,
    ;
    lemma_div_is_ordered(s * lo, num, s);
    lemma_div_multiples_vanish(lo, s);
    lemma_div_is_ordered(num, s * hi, s);
    lemma_div_multiples_vanish(hi, s);
}

/// Floor of a quotient is bounded by any multiple of the divisor that bounds
/// the dividend: if `num <= s * hi` then `num / s <= hi`, and symmetrically
/// from below.
pub proof fn lemma_div_bound_upper(num: int, hi: int, s: int)
    requires
        1 <= s,
        num <= s * hi,
    ensures
        num / s <= hi,
{
    lemma_div_is_ordered(num, s * hi, s);
    lemma_div_multiples_vanish(hi, s);
}

/// Lower counterpart of [`lemma_div_bound_upper`].
pub proof fn lemma_div_bound_lower(num: int, lo: int, s: int)
    requires
        1 <= s,
        s * lo <= num,
    ensures
        lo <= num / s,
{
    lemma_div_is_ordered(s * lo, num, s);
    lemma_div_multiples_vanish(lo, s);
}

/// Integer square root: the unique `r` with `r * r <= x < (r + 1) * (r + 1)`.
pub fn isqrt_u128(x: u128) -> (r: u64)
    ensures
        (r as int) * (r as int) <= x as int,
        (x as int) < ((r as int + 1) * (r as int + 1)),
{
    let mut lo: u128 = 0;
    let mut hi: u128 = 0x1_0000_0000_0000_0000;
    proof {
        assert((0x1_0000_0000_0000_0000 as int) * (0x1_0000_0000_0000_0000 as int) > u128::MAX as int)
            by (nonlinear_arith);
    }
    while lo + 1 < hi
        invariant
            lo < hi <= 0x1_0000_0000_0000_0000,
            (lo as int) * (lo as int) <= x as int,
            (x as int) < ((hi as int) * (hi as int)),
        decreases hi - lo,
    {
        let mid = lo + (hi - lo) / 2;
        assert(mid * mid <= u128::MAX) by (nonlinear_arith)
            requires mid < 0x1_0000_0000_0000_0000u128,
        ;
        if mid * mid <= x {
            lo = mid;
        } else {
            hi = mid;
        }
    }
    lo as u64
}

/// Floor division of a signed value by a positive divisor; agrees with the
/// mathematical (Euclidean) quotient used in specifications.
pub fn div_floor_i128(a: i128, d: u64) -> (r: i128)
    requires
        1 <= d,
        -0x4000_0000_0000_0000_0000_0000_0000_0000 < a,
    ensures
        r as int == a as int / d as int,
{
    if a >= 0 {
        let q = (a as u128) / (d as u128);
        q as i128
    } else {
        let m = (-a) as u128;
        let q = m / (d as u128);
        proof {
            lemma_fundamental_div_mod(m as int, d as int);
        }
        let rem = m % (d as u128);
        if rem == 0 {
            proof {
                lemma_div_multiples_vanish(-(q as int), d as int);
                assert((d as int) * (-(q as int)) == a as int) by (nonlinear_arith)
                    requires
                        m as int == (d as int) * (q as int) + 0,
                        a as int == -(m as int),
                ;
            }
            -(q as i128)
        } else {
            proof {
                assert(a as int == (-(q as int) - 1) * (d as int) + ((d as int) - (rem as int)))
                    by (nonlinear_arith)
                    requires
                        m as int == (d as int) * (q as int) + rem as int,
                        a as int == -(m as int),
                ;
                lemma_fundamental_div_mod_converse(
                    a as int,
                    d as int,
                    -(q as int) - 1,
                    (d as int) - (rem as int),
                );
            }
            -(q as i128) - 1
        }
    }
}

/// 2^40, the binary scale used inside the logarithm kernel.
pub const TWO_40: u64 = 1_099_511_627_776;

/// ln 2 at `RET_SCALE`.
pub const LN2_RET: u64 = 693_147_180;

/// ln 2 at `CONF_ONE` (the scale of the exponent argument).
pub const LN2_MICRO: u64 = 693_147;

/// Scaled representation of 1.0 for the exponential kernel.
pub const EXP_ONE: u64 = 1_000_000_000_000;

/// Exponent magnitude (at `CONF_ONE`) beyond which `exp(-z)` underflows the
/// `EXP_ONE` scale and the kernel returns zero.
pub const EXP_ZCUT: u64 = 28_000_000;

/// 2^k as an executable value.
pub fn pow2_u64(k: u64) -> (r: u64)
    requires
        k <= 62,
    ensures
        r as nat == pow2(k as nat),
        r >= 1,
{
    let mut r: u64 = 1;
    let mut i: u64 = 0;
    proof {
        lemma2_to64();
        lemma2_to64_rest();
    }
    while i < k
        invariant
            i <= k <= 62,
            r as nat == pow2(i as nat),
        decreases k - i,
    {
        proof {
            lemma2_to64();
            lemma2_to64_rest();
            if i < 62 {
                lemma_pow2_strictly_increases(i as nat, 62);
            }
            lemma_pow2_unfold((i + 1) as nat);
        }
        r = r * 2;
        i = i + 1;
    }
    proof {
        lemma2_to64();
        lemma2_to64_rest();
    }
    r
}

/// Truncated Taylor expansion of `exp(-f)` at scale `EXP_ONE`, for
/// `0 <= f < LN2_MICRO` at scale `CONF_ONE`.
pub open spec fn spec_exp_taylor(f: int) -> int {
    let f12 = f * 1_000_000;
    let t1 = f12;
    let t2 = t1 * f12 / 2_000_000_000_000;
    let t3 = t2 * f12 / 3_000_000_000_000;
    let t4 = t3 * f12 / 4_000_000_000_000;
    let t5 = t4 * f12 / 5_000_000_000_000;
    let t6 = t5 * f12 / 6_000_000_000_000;
    let t7 = t6 * f12 / 7_000_000_000_000;
    let t8 = t7 * f12 / 8_000_000_000_000;
    let t9 = t8 * f12 / 9_000_000_000_000;
    let t10 = t9 * f12 / 10_000_000_000_000;
    let t11 = t10 * f12 / 11_000_000_000_000;
    let t12 = t11 * f12 / 12_000_000_000_000;
    let t13 = t12 * f12 / 13_000_000_000_000;
    let acc = EXP_ONE - t1 + (t2 - t3) + (t4 - t5) + (t6 - t7) + (t8 - t9) + (t10 - t11) + (t12
        - t13);
    if acc > EXP_ONE {
        EXP_ONE as int
    } else {
        acc
    }
}

/// `exp(-z)` at scale `EXP_ONE`, for `z >= 0` at scale `CONF_ONE`: argument
/// reduction by powers of two followed by the Taylor kernel.
pub open spec fn spec_exp_neg(z: int) -> int {
    if z >= EXP_ZCUT {
        0
    } else {
        let k = z / (LN2_MICRO as int);
        let f = z % (LN2_MICRO as int);
        spec_exp_taylor(f) / (pow2(k as nat) as int)
    }
}

/// Executable `exp(-z)`: returns exactly [`spec_exp_neg`] of the argument.
pub fn exp_neg(z: u64) -> (r: u64)
    ensures
        r as int == spec_exp_neg(z as int),
        r <= EXP_ONE,
{
    if z >= EXP_ZCUT {
        return 0;
    }
    let k = z / LN2_MICRO;
    let f = z % LN2_MICRO;
    assert(k <= 40) by {
        assert(z < 41 * (LN2_MICRO as int));
        lemma_multiply_divide_lt(z as int, LN2_MICRO as int, 41);
    }
    let f12: u128 = (f as u128) * 1_000_000;
    assert(f12 < 2_000_000_000_000) by {
        assert((f as int) < LN2_MICRO as int);
    }
    let t1: u128 = f12;
    proof {
        lemma_exp_term_le(t1 as int, f12 as int, 2_000_000_000_000);
    }
    let t2: u128 = t1 * f12 / 2_000_000_000_000;
    proof {
        lemma_exp_term_le(t2 as int, f12 as int, 3_000_000_000_000);
    }
    let t3: u128 = t2 * f12 / 3_000_000_000_000;
    proof {
        lemma_exp_term_le(t3 as int, f12 as int, 4_000_000_000_000);
    }
    let t4: u128 = t3 * f12 / 4_000_000_000_000;
    proof {
        lemma_exp_term_le(t4 as int, f12 as int, 5_000_000_000_000);
    }
    let t5: u128 = t4 * f12 / 5_000_000_000_000;
    proof {
        lemma_exp_term_le(t5 as int, f12 as int, 6_000_000_000_000);
    }
    let t6: u128 = t5 * f12 / 6_000_000_000_000;
    proof {
        lemma_exp_term_le(t6 as int, f12 as int, 7_000_000_000_000);
    }
    let t7: u128 = t6 * f12 / 7_000_000_000_000;
    proof {
        lemma_exp_term_le(t7 as int, f12 as int, 8_000_000_000_000);
    }
    let t8: u128 = t7 * f12 / 8_000_000_000_000;
    proof {
        lemma_exp_term_le(t8 as int, f12 as int, 9_000_000_000_000);
    }
    let t9: u128 = t8 * f12 / 9_000_000_000_000;
    proof {
        lemma_exp_term_le(t9 as int, f12 as int, 10_000_000_000_000);
    }
    let t10: u128 = t9 * f12 / 10_000_000_000_000;
    proof {
        lemma_exp_term_le(t10 as int, f12 as int, 11_000_000_000_000);
    }
    let t11: u128 = t10 * f12 / 11_000_000_000_000;
    proof {
        lemma_exp_term_le(t11 as int, f12 as int, 12_000_000_000_000);
    }
    let t12: u128 = t11 * f12 / 12_000_000_000_000;
    proof {
        lemma_exp_term_le(t12 as int, f12 as int, 13_000_000_000_000);
    }
    let t13: u128 = t12 * f12 / 13_000_000_000_000;
    let acc: u128 = (EXP_ONE as u128) - t1 + (t2 - t3) + (t4 - t5) + (t6 - t7) + (t8 - t9) + (t10
        - t11) + (t12 - t13);
    let clamped: u128 = if acc > EXP_ONE as u128 {
        EXP_ONE as u128
    } else {
        acc
    };
    let p2 = pow2_u64(k);
    let out = clamped / (p2 as u128);
    proof {
        lemma_div_bound_upper(clamped as int, EXP_ONE as int, p2 as int);
        assert((p2 as int) * (EXP_ONE as int) >= EXP_ONE as int) by (nonlinear_arith)
            requires
                p2 >= 1,
        ;
    }
    out as u64
}

/// Each Taylor term is no larger than the one before it: `prev * f / d <=
/// prev` whenever `f <= d`.
proof fn lemma_exp_term_le(prev: int, f: int, d: int)
    requires
        0 <= prev <= 2_000_000_000_000,
        0 <= f <= d,
        f <= 2_000_000_000_000,
        1 <= d,
    ensures
        prev * f / d <= prev,
        0 <= prev * f / d,
        prev * f <= 4_000_000_000_000_000_000_000_000,
{
    assert(prev * f <= d * prev && 0 <= prev * f && prev * f
        <= 4_000_000_000_000_000_000_000_000) by (nonlinear_arith)
        requires
            0 <= prev <= 2_000_000_000_000,
            0 <= f <= d,
            f <= 2_000_000_000_000,
    ;
    lemma_div_bound_upper(prev * f, prev, d);
    lemma_div_bound_lower(prev * f, 0, d);
}

/// Atanh-series logarithm kernel at scale `RET_SCALE`, for a ratio `c / q`
/// in `[1, 2)`: `ln(c / q) = 2 atanh((c - q) / (c + q))`.
pub open spec fn spec_ln_series(c: int, q: int) -> int {
    let t = (c - q) * TWO_40 / (c + q);
    let t2 = t * t / (TWO_40 as int);
    let p3 = t * t2 / (TWO_40 as int);
    let p5 = p3 * t2 / (TWO_40 as int);
    let p7 = p5 * t2 / (TWO_40 as int);
    let p9 = p7 * t2 / (TWO_40 as int);
    let p11 = p9 * t2 / (TWO_40 as int);
    let p13 = p11 * t2 / (TWO_40 as int);
    let p15 = p13 * t2 / (TWO_40 as int);
    let s = t + p3 / 3 + p5 / 5 + p7 / 7 + p9 / 9 + p11 / 11 + p13 / 13 + p15 / 15;
    2 * s * RET_SCALE / (TWO_40 as int)
}

/// `ln(c / q)` at scale `RET_SCALE` for `1 <= q <= c`: halves the ratio until
/// it lies in `[1, 2)`, accumulating `ln 2` per step.
pub open spec fn spec_ln_pos(c: int, q: int) -> int
    decreases c - q,
    when 1 <= q <= c
{
    if 2 * q > c {
        spec_ln_series(c, q)
    } else {
        LN2_RET + spec_ln_pos(c, 2 * q)
    }
}

/// Signed logarithm of a price ratio at scale `RET_SCALE`.
pub open spec fn spec_ln_ratio(c: int, p: int) -> int {
    if c >= p {
        spec_ln_pos(c, p)
    } else {
        -spec_ln_pos(p, c)
    }
}

/// Executable series kernel: returns exactly [`spec_ln_series`].
fn ln_series(c: u64, q: u64) -> (r: u64)
    requires
        1 <= q <= c <= PRICE_MAX,
        c < 2 * q,
    ensures
        r as int == spec_ln_series(c as int, q as int),
        r <= 16_000_000_000,
{
    let den: u128 = (c as u128) + (q as u128);
    let num: u128 = ((c - q) as u128) * (TWO_40 as u128);
    proof {
        assert(num < den * (TWO_40 as int)) by (nonlinear_arith)
            requires
                num == ((c - q) as int) * (TWO_40 as int),
                (c as int) - (q as int) < den,
                den >= 2,
        ;
        lemma_multiply_divide_lt(num as int, den as int, TWO_40 as int);
    }
    let t: u128 = num / den;
    proof {
        lemma_ln_pow_lt(t as int, t as int);
    }
    let t2: u128 = t * t / (TWO_40 as u128);
    proof {
        lemma_ln_pow_lt(t as int, t2 as int);
    }
    let p3: u128 = t * t2 / (TWO_40 as u128);
    proof {
        lemma_ln_pow_lt(p3 as int, t2 as int);
    }
    let p5: u128 = p3 * t2 / (TWO_40 as u128);
    proof {
        lemma_ln_pow_lt(p5 as int, t2 as int);
    }
    let p7: u128 = p5 * t2 / (TWO_40 as u128);
    proof {
        lemma_ln_pow_lt(p7 as int, t2 as int);
    }
    let p9: u128 = p7 * t2 / (TWO_40 as u128);
    proof {
        lemma_ln_pow_lt(p9 as int, t2 as int);
    }
    let p11: u128 = p9 * t2 / (TWO_40 as u128);
    proof {
        lemma_ln_pow_lt(p11 as int, t2 as int);
    }
    let p13: u128 = p11 * t2 / (TWO_40 as u128);
    proof {
        lemma_ln_pow_lt(p13 as int, t2 as int);
    }
    let p15: u128 = p13 * t2 / (TWO_40 as u128);
    let s: u128 = t + p3 / 3 + p5 / 5 + p7 / 7 + p9 / 9 + p11 / 11 + p13 / 13 + p15 / 15;
    let out: u128 = 2 * s * (RET_SCALE as u128) / (TWO_40 as u128);
    proof {
        assert(2 * (s as int) * (RET_SCALE as int) <= (TWO_40 as int) * 16_000_000_000int)
            by (nonlinear_arith)
            requires
                s < 8 * (TWO_40 as int),
        ;
        lemma_div_bound_upper(2 * (s as int) * (RET_SCALE as int), 16_000_000_000int, TWO_40 as int);
        lemma_div_bound_lower(2 * (s as int) * (RET_SCALE as int), 0, TWO_40 as int);
    }
    out as u64
}

/// Both factors below `TWO_40` keep the scaled product below `TWO_40`.
proof fn lemma_ln_pow_lt(a: int, b: int)
    requires
        0 <= a < TWO_40 as int,
        0 <= b < TWO_40 as int,
    ensures
        a * b / (TWO_40 as int) < TWO_40 as int,
        0 <= a * b / (TWO_40 as int),
        a * b <= 0x1_0000_0000_0000_0000_0000,
{
    assert(a * b < (TWO_40 as int) * (TWO_40 as int) && 0 <= a * b) by (nonlinear_arith)
        requires
            0 <= a < TWO_40 as int,
            0 <= b < TWO_40 as int,
    ;
    lemma_multiply_divide_lt(a * b, TWO_40 as int, TWO_40 as int);
    lemma_div_bound_lower(a * b, 0, TWO_40 as int);
}

/// Executable `ln(c / p)` for `p <= c`: returns exactly [`spec_ln_pos`].
fn ln_pos(c: u64, p: u64) -> (r: u64)
    requires
        1 <= p <= c <= PRICE_MAX,
    ensures
        r as int == spec_ln_pos(c as int, p as int),
        r <= 44_000_000_000,
{
    let mut q: u64 = p;
    let mut k: u64 = 0;
    proof {
        lemma2_to64();
    }
    while 2 * q <= c
        invariant
            1 <= p <= q <= c <= PRICE_MAX,
            k <= 39,
            pow2(k as nat) <= q,
            spec_ln_pos(c as int, p as int) == k * (LN2_RET as int) + spec_ln_pos(
                c as int,
                q as int,
            ),
        decreases c - q,
    {
        proof {
            lemma2_to64();
            lemma2_to64_rest();
            lemma_pow2_unfold((k + 1) as nat);
            if k + 1 >= 40 {
                if k + 1 > 40 {
                    lemma_pow2_strictly_increases(40, (k + 1) as nat);
                }
                assert(pow2((k + 1) as nat) >= pow2(40));
                assert(false);
            }
        }
        q = 2 * q;
        k = k + 1;
    }
    let ser = ln_series(c, q);
    k * LN2_RET + ser
}

/// A bounded FIFO step: push at the back, and drop the oldest element when
/// the capacity is exceeded. All rolling windows of the core evolve this way.
pub open spec fn ring_push<T>(s: Seq<T>, v: T, cap: int) -> Seq<T> {
    let grown = s.push(v);
    if grown.len() > cap {
        grown.skip(1)
    } else {
        grown
    }
}

/// Sum of a sequence of scaled values.
pub open spec fn seq_sum(s: Seq<u64>) -> int
    decreases s.len(),
{
    if s.len() == 0 {
        0
    } else {
        seq_sum(s.drop_last()) + s.last()
    }
}

/// A sequence of values in `[0, m]` sums to at most `len * m`.
pub proof fn lemma_seq_sum_bound(s: Seq<u64>, m: int)
    requires
        forall|i: int| 0 <= i < s.len() ==> s[i] <= m,
    ensures
        0 <= seq_sum(s) <= s.len() * m,
    decreases s.len(),
{
    if s.len() == 0 {
    } else {
        lemma_seq_sum_bound(s.drop_last(), m);
        assert((s.len() - 1) * m + m == s.len() * m) by (nonlinear_arith);
        assert(s.last() <= m);
    }
}

/// A sequence of values that are all at least `m` sums to at least `len * m`.
pub proof fn lemma_seq_sum_lower(s: Seq<u64>, m: int)
    requires
        forall|i: int| 0 <= i < s.len() ==> s[i] >= m,
        m >= 0,
    ensures
        seq_sum(s) >= s.len() * m,
    decreases s.len(),
{
    if s.len() == 0 {
    } else {
        lemma_seq_sum_lower(s.drop_last(), m);
        assert((s.len() - 1) * m + m == s.len() * m) by (nonlinear_arith);
        assert(s.last() >= m);
    }
}

/// Sum of the elements of a vector of scaled values.
pub fn sum_u64(v: &Vec<u64>) -> (r: u64)
    requires
        v@.len() <= 1_000_000,
        forall|i: int| 0 <= i < v@.len() ==> v@[i] <= PRICE_MAX,
    ensures
        r as int == seq_sum(v@),
        r <= v@.len() * PRICE_MAX,
{
    let mut acc: u64 = 0;
    let mut i: usize = 0;
    proof {
        lemma_seq_sum_bound(v@, PRICE_MAX as int);
    }
    while i < v.len()
        invariant
            i <= v@.len() <= 1_000_000,
            forall|j: int| 0 <= j < v@.len() ==> v@[j] <= PRICE_MAX,
            acc as int == seq_sum(v@.take(i as int)),
            acc <= i * PRICE_MAX,
        decreases v@.len() - i,
    {
        proof {
            assert(v@.take(i as int + 1).drop_last() =~= v@.take(i as int));
            assert(v@.take(i as int + 1).last() == v@[i as int]);
            assert((i as int) * PRICE_MAX + PRICE_MAX == (i as int + 1) * PRICE_MAX)
                by (nonlinear_arith);
        }
        acc = acc + v[i];
        i = i + 1;
    }
    proof {
        assert(v@.take(v@.len() as int) =~= v@);
    }
    acc
}

/// Sum of squared deviations of a sequence from a centre `mu`, at the square
/// of the values' scale.
pub open spec fn seq_sq_dev_sum(s: Seq<u64>, mu: int) -> int
    decreases s.len(),
{
    if s.len() == 0 {
        0
    } else {
        seq_sq_dev_sum(s.drop_last(), mu) + (s.last() - mu) * (s.last() - mu)
    }
}

/// Squared deviations of values in `[0, m]` from a centre in `[0, m]` sum to
/// at most `len * m * m`.
pub proof fn lemma_seq_sq_dev_sum_bound(s: Seq<u64>, mu: int, m: int)
    requires
        forall|i: int| 0 <= i < s.len() ==> s[i] <= m,
        0 <= mu <= m,
        0 <= m,
    ensures
        0 <= seq_sq_dev_sum(s, mu) <= s.len() * (m * m),
    decreases s.len(),
{
    if s.len() == 0 {
    } else {
        lemma_seq_sq_dev_sum_bound(s.drop_last(), mu, m);
        let d = s.last() - mu;
        assert(0 <= d * d <= m * m) by (nonlinear_arith)
            requires
                -m <= d <= m,
        ;
        assert((s.len() - 1) * (m * m) + m * m == s.len() * (m * m)) by (nonlinear_arith);
    }
}

/// The mathematical floor square root.
pub open spec fn spec_isqrt(x: int) -> int {
    choose|r: int| 0 <= r && #[trigger] (r * r) <= x && x < (r + 1) * (r + 1)
}

/// The floor square root is unique, so any witness equals [`spec_isqrt`].
pub proof fn lemma_isqrt_witness(x: int, r: int)
    requires
        0 <= r,
        r * r <= x,
        x < (r + 1) * (r + 1),
    ensures
        spec_isqrt(x) == r,
{
    assert(exists|q: int| 0 <= q && #[trigger] (q * q) <= x && x < (q + 1) * (q + 1)) by {
        assert(0 <= r && r * r <= x && x < (r + 1) * (r + 1));
    }
    let q = spec_isqrt(x);
    assert(0 <= q && q * q <= x && x < (q + 1) * (q + 1));
    assert(q == r) by (nonlinear_arith)
        requires
            0 <= r,
            r * r <= x,
            x < (r + 1) * (r + 1),
            0 <= q,
            q * q <= x,
            x < (q + 1) * (q + 1),
    ;
}

/// Executable floor square root, tied to the specification-level
/// [`spec_isqrt`].
pub fn isqrt(x: u128) -> (r: u64)
    ensures
        r as int == spec_isqrt(x as int),
        (r as int) * (r as int) <= x as int,
        (x as int) < ((r as int + 1) * (r as int + 1)),
{
    let r = isqrt_u128(x);
    proof {
        lemma_isqrt_witness(x as int, r as int);
    }
    r
}

/// Saturating signed addition, clamped at the `i64` range.
pub open spec fn spec_sat_add_i64(a: int, b: int) -> int {
    if a + b > i64::MAX as int {
        i64::MAX as int
    } else if a + b < i64::MIN as int {
        i64::MIN as int
    } else {
        a + b
    }
}

/// Executable saturating signed addition.
pub fn sat_add_i64(a: i64, b: i64) -> (r: i64)
    ensures
        r as int == spec_sat_add_i64(a as int, b as int),
{
    let wide: i128 = a as i128 + b as i128;
    if wide > i64::MAX as i128 {
        i64::MAX
    } else if wide < i64::MIN as i128 {
        i64::MIN
    } else {
        wide as i64
    }
}

/// Saturating unsigned addition, clamped at the `u64` range.
pub open spec fn spec_sat_add_u64(a: int, b: int) -> int {
    if a + b > u64::MAX as int {
        u64::MAX as int
    } else {
        a + b
    }
}

/// Executable saturating unsigned addition.
pub fn sat_add_u64(a: u64, b: u64) -> (r: u64)
    ensures
        r as int == spec_sat_add_u64(a as int, b as int),
{
    let wide: u128 = a as u128 + b as u128;
    if wide > u64::MAX as u128 {
        u64::MAX
    } else {
        wide as u64
    }
}

/// Signed log-return of a price step: `ln(c / p)` at scale `RET_SCALE`,
/// exactly [`spec_ln_ratio`] of the scaled prices.
pub fn ln_ratio(c: u64, p: u64) -> (r: i64)
    requires
        1 <= c <= PRICE_MAX,
        1 <= p <= PRICE_MAX,
    ensures
        r as int == spec_ln_ratio(c as int, p as int),
        -(RET_MAX as int) <= r as int <= RET_MAX as int,
{
    if c >= p {
        let v = ln_pos(c, p);
        v as i64
    } else {
        let v = ln_pos(p, c);
        -(v as i64)
    }
}

} // verus!
