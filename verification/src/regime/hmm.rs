//! Hidden Markov Model regime detection: Gaussian emissions over log-returns,
//! forward filtering with exact integer normalization, online parameter
//! updates and periodic batch re-estimation.
//!
//! The filtered state distribution and every transition-matrix row sum to
//! exactly [`PROB_SCALE`], and every variance stays at or above
//! [`VAR_FLOOR`]: the numerical guards of the design are theorems here.

use vstd::prelude::*;

verus! {

use crate::fixed::{
    exp_neg,
    isqrt,
    lemma_div_bound_lower,
    lemma_div_bound_upper,
    spec_exp_neg,
    spec_isqrt,
    CONF_ONE,
    EXP_ZCUT,
    PROB_SCALE,
    RET_MAX,
    VAR_FLOOR,
    VAR_MAX,
};
use vstd::arithmetic::div_mod::lemma_fundamental_div_mod;

/// Configuration of the HMM regime detector. Rates and confidences are at
/// scale [`CONF_ONE`].
#[derive(Clone, Copy, Debug, PartialEq, Eq, Structural)]
pub struct HMMConfig {
    /// Number of hidden states.
    pub n_states: usize,
    /// Observations needed before predictions are made.
    pub min_observations: u64,
    /// Learning rate for online updates; zero disables online learning.
    pub learning_rate: u64,
    /// Smoothing factor pulling the transition matrix toward its prior.
    pub transition_smoothing: u64,
    /// Window length of the buffered return history.
    pub lookback_window: usize,
    /// Confidence threshold for regime classification.
    pub min_confidence: u64,
}

/// Machine bounds under which every HMM computation stays in range.
pub open spec fn spec_hmm_config_wf(c: HMMConfig) -> bool {
    &&& 2 <= c.n_states <= 16
    &&& 2 <= c.lookback_window <= 4_096
    &&& 1 <= c.min_observations <= 1_000_000_000
    &&& c.learning_rate <= CONF_ONE
    &&& c.transition_smoothing <= CONF_ONE
    &&& c.min_confidence <= CONF_ONE
}

impl HMMConfig {
    /// Whether the configuration satisfies the bounds the detector requires.
    pub fn is_valid(&self) -> (r: bool)
        ensures
            r == spec_hmm_config_wf(*self),
    {
        2 <= self.n_states && self.n_states <= 16 && 2 <= self.lookback_window
            && self.lookback_window <= 4_096 && 1 <= self.min_observations
            && self.min_observations <= 1_000_000_000 && self.learning_rate <= CONF_ONE
            && self.transition_smoothing <= CONF_ONE && self.min_confidence <= CONF_ONE
    }

    /// Configuration optimized for crypto: faster adaptation, shorter window.
    pub fn crypto_optimized() -> (r: HMMConfig)
        ensures
            r == (HMMConfig {
                n_states: 3,
                min_observations: 50,
                learning_rate: 20_000,
                transition_smoothing: 50_000,
                lookback_window: 100,
                min_confidence: 500_000,
            }),
            spec_hmm_config_wf(r),
    {
        HMMConfig {
            n_states: 3,
            min_observations: 50,
            learning_rate: 20_000,
            transition_smoothing: 50_000,
            lookback_window: 100,
            min_confidence: 500_000,
        }
    }

    /// Conservative configuration: two states, slow adaptation, long window.
    pub fn conservative() -> (r: HMMConfig)
        ensures
            r == (HMMConfig {
                n_states: 2,
                min_observations: 150,
                learning_rate: 5_000,
                transition_smoothing: 150_000,
                lookback_window: 500,
                min_confidence: 700_000,
            }),
            spec_hmm_config_wf(r),
    {
        HMMConfig {
            n_states: 2,
            min_observations: 150,
            learning_rate: 5_000,
            transition_smoothing: 150_000,
            lookback_window: 500,
            min_confidence: 700_000,
        }
    }
}

impl Default for HMMConfig {
    /// Defaults tuned for roughly a year of daily observations.
    fn default() -> (r: HMMConfig)
        ensures
            r == (HMMConfig {
                n_states: 3,
                min_observations: 100,
                learning_rate: 10_000,
                transition_smoothing: 100_000,
                lookback_window: 252,
                min_confidence: 600_000,
            }),
            spec_hmm_config_wf(r),
    {
        HMMConfig {
            n_states: 3,
            min_observations: 100,
            learning_rate: 10_000,
            transition_smoothing: 100_000,
            lookback_window: 252,
            min_confidence: 600_000,
        }
    }
}

/// Gaussian emission parameters of one hidden state, with clamped running
/// diagnostics. The mean is at `RET_SCALE`, the variance at `VAR_SCALE`.
#[derive(Clone, Copy, Debug, PartialEq, Eq, Structural)]
pub struct GaussianState {
    /// Emission mean.
    pub mean: i64,
    /// Emission variance, floored at [`VAR_FLOOR`].
    pub variance: u64,
    /// Clamped running sum of weighted observations (diagnostic only).
    pub sum: i64,
    /// Clamped running sum of weighted squared observations (diagnostic only).
    pub sum_sq: u64,
    /// Saturating count of observations seen (diagnostic only).
    pub count: u64,
}

impl GaussianState {
    /// Range bounds every emission state of the core maintains.
    pub open spec fn wf(self) -> bool {
        &&& -(RET_MAX as int) <= self.mean as int <= RET_MAX as int
        &&& VAR_FLOOR <= self.variance <= VAR_MAX
    }

    /// A fresh state with the given parameters and zeroed diagnostics.
    pub fn new(mean: i64, variance: u64) -> (r: GaussianState)
        requires
            -(RET_MAX as int) <= mean as int <= RET_MAX as int,
            VAR_FLOOR <= variance <= VAR_MAX,
        ensures
            r == (GaussianState { mean, variance, sum: 0, sum_sq: 0, count: 0 }),
            r.wf(),
    {
        GaussianState { mean, variance, sum: 0, sum_sq: 0, count: 0 }
    }
}

/// Relative emission weight of a return under a Gaussian state:
/// `exp(-(r - mu)^2 / (2 v)) / sigma`, carried at a fixed common scale so
/// that weights of different states compare exactly as their densities do.
pub open spec fn spec_emission_weight(r: int, mu: int, v: int) -> int {
    let d = if r >= mu {
        r - mu
    } else {
        mu - r
    };
    let z = d * d / (2 * v);
    if z >= EXP_ZCUT {
        0
    } else {
        spec_exp_neg(z) * CONF_ONE / spec_isqrt(v * CONF_ONE)
    }
}

/// Executable emission weight, tied to [`spec_emission_weight`].
pub fn emission_weight(r: i64, mean: i64, variance: u64) -> (w: u64)
    requires
        -(RET_MAX as int) <= r as int <= RET_MAX as int,
        -(RET_MAX as int) <= mean as int <= RET_MAX as int,
        VAR_FLOOR <= variance <= VAR_MAX,
    ensures
        w as int == spec_emission_weight(r as int, mean as int, variance as int),
        w <= 10_000_000_000_000,
{
    let d: u64 = if r >= mean {
        (r - mean) as u64
    } else {
        (mean - r) as u64
    };
    proof {
        assert((d as int) * (d as int) <= 120_000_000_000int * 120_000_000_000int)
            by (nonlinear_arith)
            requires
                d <= 120_000_000_000u64,
        ;
        lemma_div_bound_lower((d as int) * (d as int), 0, 2 * variance as int);
    }
    let z_wide: u128 = (d as u128) * (d as u128) / (2 * variance as u128);
    if z_wide >= EXP_ZCUT as u128 {
        return 0;
    }
    let z = z_wide as u64;
    let e = exp_neg(z);
    let sigma = isqrt((variance as u128) * (CONF_ONE as u128));
    proof {
        assert(100_000int * 100_000int <= (variance as int) * (CONF_ONE as int))
            by (nonlinear_arith)
            requires
                variance >= VAR_FLOOR,
        ;
        if sigma < 100_000 {
            assert(((sigma as int) + 1) * ((sigma as int) + 1) <= 100_000int * 100_000int)
                by (nonlinear_arith)
                requires
                    0 <= sigma as int,
                    sigma as int + 1 <= 100_000int,
            ;
            assert(false);
        }
        lemma_div_bound_upper(
            (e as int) * (CONF_ONE as int),
            10_000_000_000_000int,
            sigma as int,
        );
        lemma_div_bound_lower((e as int) * (CONF_ONE as int), 0, sigma as int);
        assert((sigma as int) * 10_000_000_000_000int >= (e as int) * (CONF_ONE as int))
            by (nonlinear_arith)
            requires
                sigma as int >= 100_000,
                e <= 1_000_000_000_000u64,
        ;
    }
    e * CONF_ONE / sigma
}

/// Sum of a sequence of weights.
pub open spec fn seq_sum128(s: Seq<u128>) -> int
    decreases s.len(),
{
    if s.len() == 0 {
        0
    } else {
        seq_sum128(s.drop_last()) + s.last()
    }
}

/// Every element of a weight sequence is at most the whole sum.
pub proof fn lemma_seq_sum128_elem(s: Seq<u128>, i: int)
    requires
        0 <= i < s.len(),
    ensures
        s[i] <= seq_sum128(s),
        seq_sum128(s) >= 0,
    decreases s.len(),
{
    lemma_seq_sum128_nonneg(s.drop_last());
    if i == s.len() - 1 {
    } else {
        lemma_seq_sum128_elem(s.drop_last(), i);
    }
}

/// Weight sums are non-negative.
pub proof fn lemma_seq_sum128_nonneg(s: Seq<u128>)
    ensures
        seq_sum128(s) >= 0,
    decreases s.len(),
{
    if s.len() > 0 {
        lemma_seq_sum128_nonneg(s.drop_last());
    }
}

/// A weight sequence with elements at most `m` sums to at most `len * m`.
pub proof fn lemma_seq_sum128_bound(s: Seq<u128>, m: int)
    requires
        forall|i: int| 0 <= i < s.len() ==> s[i] <= m,
    ensures
        0 <= seq_sum128(s) <= s.len() * m,
    decreases s.len(),
{
    if s.len() == 0 {
    } else {
        lemma_seq_sum128_bound(s.drop_last(), m);
        assert((s.len() - 1) * m + m == s.len() * m) by (nonlinear_arith);
    }
}

/// The uniform distribution over `n` states at scale [`PROB_SCALE`]; state 0
/// absorbs the rounding remainder so the total is exact.
pub open spec fn spec_uniform(n: int) -> Seq<u64> {
    let q = (PROB_SCALE as int) / n;
    Seq::new(n as nat, |j: int| if j == 0 {
        ((PROB_SCALE as int) - (n - 1) * q) as u64
    } else {
        q as u64
    })
}

/// A sequence whose tail is constant sums to its head plus the tail total.
pub proof fn lemma_seq_sum_head_const(s: Seq<u64>, c: int)
    requires
        s.len() >= 1,
        forall|i: int| 1 <= i < s.len() ==> s[i] == c,
    ensures
        crate::fixed::seq_sum(s) == s[0] + (s.len() - 1) * c,
    decreases s.len(),
{
    if s.len() == 1 {
        assert(crate::fixed::seq_sum(s.drop_last()) == 0);
    } else {
        lemma_seq_sum_head_const(s.drop_last(), c);
        assert(s.drop_last()[0] == s[0]);
        assert((s.len() - 2) * c + c == (s.len() - 1) * c) by (nonlinear_arith);
    }
}

/// The uniform distribution sums to exactly [`PROB_SCALE`].
pub proof fn lemma_uniform_sum(n: int)
    requires
        1 <= n <= 16,
    ensures
        crate::fixed::seq_sum(spec_uniform(n)) == PROB_SCALE as int,
        forall|j: int| 0 <= j < n ==> #[trigger] spec_uniform(n)[j] <= PROB_SCALE,
{
    let q = (PROB_SCALE as int) / n;
    lemma_fundamental_div_mod(PROB_SCALE as int, n);
    assert(0 <= (n - 1) * q <= PROB_SCALE as int) by (nonlinear_arith)
        requires
            1 <= n <= 16,
            0 <= q,
            n * q <= PROB_SCALE as int,
    ;
    lemma_seq_sum_head_const(spec_uniform(n), q);
}

/// An executable uniform distribution, tied to [`spec_uniform`].
pub fn uniform_probs(n: usize) -> (p: Vec<u64>)
    requires
        1 <= n <= 16,
    ensures
        p@ == spec_uniform(n as int),
        p@.len() == n,
        crate::fixed::seq_sum(p@) == PROB_SCALE as int,
        forall|j: int| 0 <= j < n ==> #[trigger] p@[j] <= PROB_SCALE,
{
    let q = PROB_SCALE / (n as u64);
    proof {
        lemma_fundamental_div_mod(PROB_SCALE as int, n as int);
        assert(0 <= ((n as int) - 1) * (q as int) <= PROB_SCALE as int) by (nonlinear_arith)
            requires
                1 <= n as int <= 16,
                0 <= q as int,
                (n as int) * (q as int) <= PROB_SCALE as int,
        ;
    }
    let head = PROB_SCALE - ((n as u64) - 1) * q;
    let mut p: Vec<u64> = Vec::new();
    p.push(head);
    let mut j: usize = 1;
    while j < n
        invariant
            1 <= j <= n <= 16,
            p@.len() == j,
            p@[0] == PROB_SCALE - ((n as int) - 1) * (q as int),
            forall|i: int| 1 <= i < j ==> p@[i] == q,
            q == (PROB_SCALE as int) / (n as int),
        decreases n - j,
    {
        p.push(q);
        j = j + 1;
    }
    proof {
        assert(p@ =~= spec_uniform(n as int));
        lemma_uniform_sum(n as int);
    }
    p
}

/// Floor share of one weight in a distribution normalized to [`PROB_SCALE`].
pub open spec fn floor_share(wj: int, total: int) -> int {
    wj * (PROB_SCALE as int) / total
}

/// Sum of the floor shares of the weights from index `k` on.
pub open spec fn rsum(w: Seq<u128>, total: int, k: int) -> int
    decreases w.len() - k,
{
    if k < 0 || k >= w.len() {
        0
    } else {
        floor_share(w[k] as int, total) + rsum(w, total, k + 1)
    }
}

/// Sum of the raw weights from index `k` on.
pub open spec fn wrest(w: Seq<u128>, k: int) -> int
    decreases w.len() - k,
{
    if k < 0 || k >= w.len() {
        0
    } else {
        w[k] + wrest(w, k + 1)
    }
}

/// The floor shares from `k` on are bounded by the raw weights from `k` on:
/// `rsum(k) * total <= wrest(k) * PROB_SCALE`.
pub proof fn lemma_rsum_bound(w: Seq<u128>, total: int, k: int)
    requires
        1 <= total,
    ensures
        0 <= rsum(w, total, k),
        rsum(w, total, k) * total <= wrest(w, k) * (PROB_SCALE as int),
        0 <= wrest(w, k),
    decreases w.len() - k,
{
    if k < 0 || k >= w.len() {
    } else {
        lemma_rsum_bound(w, total, k + 1);
        let f = floor_share(w[k] as int, total);
        assert(rsum(w, total, k) == f + rsum(w, total, k + 1));
        assert(wrest(w, k) == w[k] + wrest(w, k + 1));
        lemma_fundamental_div_mod((w[k] as int) * (PROB_SCALE as int), total);
        lemma_div_bound_lower((w[k] as int) * (PROB_SCALE as int), 0, total);
        assert((w[k] as int) * (PROB_SCALE as int) >= 0) by (nonlinear_arith)
            requires
                w[k] as int >= 0,
        ;
        assert(f * total <= (w[k] as int) * (PROB_SCALE as int)) by {
            assert((w[k] as int) * (PROB_SCALE as int) == total * f + ((w[k] as int) * (
            PROB_SCALE as int)) % total);
            assert(((w[k] as int) * (PROB_SCALE as int)) % total >= 0);
            assert(total * f == f * total) by (nonlinear_arith);
        }
        assert((f + rsum(w, total, k + 1)) * total == f * total + rsum(w, total, k + 1) * total)
            by (nonlinear_arith);
        assert(((w[k] as int) + wrest(w, k + 1)) * (PROB_SCALE as int) == (w[k] as int) * (
        PROB_SCALE as int) + wrest(w, k + 1) * (PROB_SCALE as int)) by (nonlinear_arith);
    }
}

/// The tail-weight sum never exceeds the total weight sum.
pub proof fn lemma_wrest_le_total(w: Seq<u128>, k: int)
    requires
        0 <= k <= w.len(),
    ensures
        wrest(w, k) <= seq_sum128(w),
    decreases w.len(),
{
    if w.len() == 0 {
    } else if k == w.len() {
        lemma_seq_sum128_nonneg(w);
    } else {
        lemma_wrest_drop_last(w, k);
        lemma_wrest_le_total(w.drop_last(), k);
    }
}

/// Dropping the last element removes exactly its contribution to a tail sum.
pub proof fn lemma_wrest_drop_last(w: Seq<u128>, k: int)
    requires
        0 <= k < w.len(),
    ensures
        wrest(w, k) == wrest(w.drop_last(), k) + w.last(),
    decreases w.len() - k,
{
    if k == w.len() - 1 {
        assert(wrest(w, k) == w[k] + wrest(w, k + 1));
        assert(wrest(w, k + 1) == 0);
        assert(wrest(w.drop_last(), k) == 0);
    } else {
        lemma_wrest_drop_last(w, k + 1);
        assert(wrest(w, k) == w[k] + wrest(w, k + 1));
        assert(wrest(w.drop_last(), k) == w.drop_last()[k] + wrest(w.drop_last(), k + 1));
        assert(w.drop_last()[k] == w[k]);
    }
}

/// The normalized distribution of a positive weight vector: index 0 takes
/// the rounding remainder, every other index takes its floor share.
pub open spec fn spec_normalized(w: Seq<u128>, total: int) -> Seq<u64> {
    Seq::new(w.len(), |j: int| if j == 0 {
        ((PROB_SCALE as int) - rsum(w, total, 1)) as u64
    } else {
        floor_share(w[j] as int, total) as u64
    })
}

/// Exact normalization: maps a weight vector with positive total to a
/// distribution that sums to exactly [`PROB_SCALE`].
pub fn normalize_exact(w: &Vec<u128>) -> (p: Vec<u64>)
    requires
        1 <= w@.len() <= 16,
        forall|j: int| 0 <= j < w@.len() ==> #[trigger] w@[j] <= 0x1_0000_0000_0000_0000_0000_0000,
        seq_sum128(w@) >= 1,
    ensures
        p@ == spec_normalized(w@, seq_sum128(w@)),
        p@.len() == w@.len(),
        crate::fixed::seq_sum(p@) == PROB_SCALE as int,
        forall|j: int| 0 <= j < p@.len() ==> #[trigger] p@[j] <= PROB_SCALE,
{
    let n = w.len();
    let mut total: u128 = 0;
    let mut i: usize = 0;
    proof {
        lemma_seq_sum128_bound(w@, 0x1_0000_0000_0000_0000_0000_0000int);
    }
    while i < n
        invariant
            i <= n == w@.len() <= 16,
            forall|j: int| 0 <= j < w@.len() ==> #[trigger] w@[j]
                <= 0x1_0000_0000_0000_0000_0000_0000,
            total as int == seq_sum128(w@.take(i as int)),
            total <= (i as int) * 0x1_0000_0000_0000_0000_0000_0000,
        decreases n - i,
    {
        proof {
            assert(w@.take(i as int + 1).drop_last() =~= w@.take(i as int));
            assert(w@.take(i as int + 1).last() == w@[i as int]);
            assert((i as int) * 0x1_0000_0000_0000_0000_0000_0000int
                + 0x1_0000_0000_0000_0000_0000_0000int == (i as int + 1)
                * 0x1_0000_0000_0000_0000_0000_0000int) by (nonlinear_arith);
        }
        total = total + w[i];
        i = i + 1;
    }
    proof {
        assert(w@.take(w@.len() as int) =~= w@);
    }
    let ghost gtotal = total as int;
    let mut shares: Vec<u64> = Vec::new();
    let mut j: usize = 1;
    while j < n
        invariant
            1 <= j <= n == w@.len() <= 16,
            forall|k: int| 0 <= k < w@.len() ==> #[trigger] w@[k]
                <= 0x1_0000_0000_0000_0000_0000_0000,
            gtotal == seq_sum128(w@),
            1 <= gtotal,
            total as int == gtotal,
            shares@.len() == j - 1,
            forall|k: int| 1 <= k < j ==> shares@[k - 1] as int == floor_share(w@[k] as int, gtotal),
        decreases n - j,
    {
        let wj = w[j];
        proof {
            lemma_seq_sum128_elem(w@, j as int);
            assert((wj as int) * (PROB_SCALE as int) <= gtotal * (PROB_SCALE as int))
                by (nonlinear_arith)
                requires
                    0 <= wj as int <= gtotal,
            ;
            lemma_div_bound_upper((wj as int) * (PROB_SCALE as int), PROB_SCALE as int, gtotal);
            lemma_div_bound_lower((wj as int) * (PROB_SCALE as int), 0, gtotal);
            assert((wj as int) * (PROB_SCALE as int)
                <= 0x1_0000_0000_0000_0000_0000_0000int * 1_000_000_000int) by (nonlinear_arith)
                requires
                    0 <= wj as int <= 0x1_0000_0000_0000_0000_0000_0000int,
            ;
        }
        let share_wide: u128 = (wj as u128) * (PROB_SCALE as u128) / total;
        shares.push(share_wide as u64);
        j = j + 1;
    }
    proof {
        lemma_rsum_bound(w@, gtotal, 1);
        lemma_wrest_le_total(w@, 1);
        assert(wrest(w@, 1) * (PROB_SCALE as int) <= gtotal * (PROB_SCALE as int))
            by (nonlinear_arith)
            requires
                wrest(w@, 1) <= gtotal,
                0 <= wrest(w@, 1),
        ;
        assert(rsum(w@, gtotal, 1) <= PROB_SCALE as int) by (nonlinear_arith)
            requires
                rsum(w@, gtotal, 1) * gtotal <= gtotal * (PROB_SCALE as int),
                1 <= gtotal,
                0 <= rsum(w@, gtotal, 1),
        ;
    }
    let mut rest: u64 = 0;
    let mut k: usize = 0;
    while k < shares.len()
        invariant
            k <= shares@.len(),
            shares@.len() == w@.len() - 1,
            w@.len() <= 16,
            forall|t: int| 0 <= t < shares@.len() ==> shares@[t] as int == floor_share(
                w@[t + 1] as int,
                gtotal,
            ),
            rest as int == rsum(w@, gtotal, 1) - rsum(w@, gtotal, k as int + 1),
            0 <= rest as int <= PROB_SCALE as int,
            0 <= rsum(w@, gtotal, 1) <= PROB_SCALE as int,
            1 <= gtotal,
        decreases shares@.len() - k,
    {
        proof {
            lemma_rsum_bound(w@, gtotal, k as int + 2);
            assert(rsum(w@, gtotal, k as int + 1) == floor_share(w@[k as int + 1] as int, gtotal)
                + rsum(w@, gtotal, k as int + 2));
            lemma_rsum_prefix(w@, gtotal, 1, k as int + 2);
            lemma_rsum_range_nonneg(w@, gtotal, 1, k as int + 2);
        }
        rest = rest + shares[k];
        k = k + 1;
    }
    proof {
        assert(rsum(w@, gtotal, shares@.len() as int + 1) == 0);
    }
    let head = PROB_SCALE - rest;
    let mut p: Vec<u64> = Vec::new();
    p.push(head);
    let mut t: usize = 0;
    while t < shares.len()
        invariant
            t <= shares@.len(),
            shares@.len() == w@.len() - 1,
            p@.len() == t + 1,
            p@[0] == head,
            forall|u: int| 1 <= u < p@.len() ==> p@[u] == shares@[u - 1],
        decreases shares@.len() - t,
    {
        p.push(shares[t]);
        t = t + 1;
    }
    proof {
        assert(p@ =~= spec_normalized(w@, gtotal));
        lemma_normalized_sum(w@, gtotal, p@);
    }
    p
}

/// A prefix difference of tail share sums equals the shares dropped.
pub proof fn lemma_rsum_prefix(w: Seq<u128>, total: int, a: int, b: int)
    requires
        1 <= total,
        0 <= a <= b <= w.len() + 1,
    ensures
        rsum(w, total, a) == rsum(w, total, b) + rsum_range(w, total, a, b),
    decreases b - a,
{
    if a == b {
    } else {
        lemma_rsum_prefix(w, total, a + 1, b);
    }
}

/// Sum of the floor shares of the weights in `[a, b)`.
pub open spec fn rsum_range(w: Seq<u128>, total: int, a: int, b: int) -> int
    decreases b - a,
{
    if a >= b || a < 0 || a >= w.len() {
        0
    } else {
        floor_share(w[a] as int, total) + rsum_range(w, total, a + 1, b)
    }
}

/// Range share sums are non-negative.
pub proof fn lemma_rsum_range_nonneg(w: Seq<u128>, total: int, a: int, b: int)
    requires
        1 <= total,
    ensures
        rsum_range(w, total, a, b) >= 0,
    decreases b - a,
{
    if a >= b || a < 0 || a >= w.len() {
    } else {
        lemma_rsum_range_nonneg(w, total, a + 1, b);
        lemma_div_bound_lower((w[a] as int) * (PROB_SCALE as int), 0, total);
        assert((w[a] as int) * (PROB_SCALE as int) >= 0) by (nonlinear_arith)
            requires
                w[a] as int >= 0,
        ;
    }
}

/// The normalized vector sums to exactly [`PROB_SCALE`] and stays within it.
proof fn lemma_normalized_sum(w: Seq<u128>, total: int, p: Seq<u64>)
    requires
        1 <= total,
        1 <= w.len() <= 16,
        p == spec_normalized(w, total),
        forall|j: int| 0 <= j < w.len() ==> #[trigger] w[j] <= 0x1_0000_0000_0000_0000_0000_0000,
        seq_sum128(w) == total,
    ensures
        crate::fixed::seq_sum(p) == PROB_SCALE as int,
        forall|j: int| 0 <= j < p.len() ==> #[trigger] p[j] <= PROB_SCALE,
{
    lemma_rsum_bound(w, total, 1);
    lemma_wrest_le_total(w, 1);
    assert(wrest(w, 1) * (PROB_SCALE as int) <= total * (PROB_SCALE as int)) by (nonlinear_arith)
        requires
            wrest(w, 1) <= total,
            0 <= wrest(w, 1),
    ;
    assert(rsum(w, total, 1) <= PROB_SCALE as int) by (nonlinear_arith)
        requires
            rsum(w, total, 1) * total <= total * (PROB_SCALE as int),
            1 <= total,
            0 <= rsum(w, total, 1),
    ;
    assert forall|j: int| 1 <= j < w.len() implies 0 <= #[trigger] floor_share(w[j] as int, total)
        <= PROB_SCALE as int by {
        lemma_seq_sum128_elem(w, j);
        assert((w[j] as int) * (PROB_SCALE as int) <= total * (PROB_SCALE as int))
            by (nonlinear_arith)
            requires
                0 <= w[j] as int <= total,
        ;
        lemma_div_bound_upper((w[j] as int) * (PROB_SCALE as int), PROB_SCALE as int, total);
        lemma_div_bound_lower((w[j] as int) * (PROB_SCALE as int), 0, total);
    }
    lemma_normalized_sum_rec(w, total, p);
    assert forall|j: int| 0 <= j < p.len() implies #[trigger] p[j] <= PROB_SCALE by {
        if j == 0 {
        } else {
            assert(p[j] as int == floor_share(w[j] as int, total));
        }
    }
}

/// The sum of the normalized vector telescopes to the head plus the tail.
proof fn lemma_normalized_sum_rec(w: Seq<u128>, total: int, p: Seq<u64>)
    requires
        1 <= total,
        1 <= w.len(),
        p == spec_normalized(w, total),
        0 <= rsum(w, total, 1) <= PROB_SCALE as int,
        forall|j: int| 1 <= j < w.len() ==> 0 <= #[trigger] floor_share(w[j] as int, total)
            <= PROB_SCALE as int,
    ensures
        crate::fixed::seq_sum(p) == PROB_SCALE as int,
{
    lemma_seq_sum_shares(w, total, p, w.len() as int);
    assert(rsum(w, total, w.len() as int) == 0);
    assert(p.take(w.len() as int) =~= p);
}

/// Partial sums of the normalized vector equal the head plus the shares so
/// far.
proof fn lemma_seq_sum_shares(w: Seq<u128>, total: int, p: Seq<u64>, upto: int)
    requires
        1 <= total,
        1 <= upto <= w.len(),
        p == spec_normalized(w, total),
        0 <= rsum(w, total, 1) <= PROB_SCALE as int,
        forall|j: int| 1 <= j < w.len() ==> 0 <= #[trigger] floor_share(w[j] as int, total)
            <= PROB_SCALE as int,
    ensures
        crate::fixed::seq_sum(p.take(upto)) == (PROB_SCALE as int) - rsum(w, total, upto),
    decreases upto,
{
    lemma_rsum_bound(w, total, upto);
    assert(p.take(upto).len() == upto);
    assert(crate::fixed::seq_sum(p.take(upto)) == crate::fixed::seq_sum(p.take(upto).drop_last())
        + p.take(upto).last());
    if upto == 1 {
        assert(p.take(1).drop_last() =~= Seq::<u64>::empty());
        assert(crate::fixed::seq_sum(Seq::<u64>::empty()) == 0);
        assert(p.take(1).last() == p[0]);
        assert(p[0] as int == (PROB_SCALE as int) - rsum(w, total, 1));
    } else {
        lemma_seq_sum_shares(w, total, p, upto - 1);
        assert(p.take(upto).drop_last() =~= p.take(upto - 1));
        assert(p.take(upto).last() == p[upto - 1]);
        assert(p[upto - 1] as int == floor_share(w[upto - 1] as int, total));
        assert(rsum(w, total, upto - 1) == floor_share(w[upto - 1] as int, total) + rsum(
            w,
            total,
            upto,
        ));
    }
}

/// The rows of a transition matrix as mathematical sequences.
pub open spec fn tm_rows(tm: Seq<Vec<u64>>) -> Seq<Seq<u64>> {
    tm.map_values(|row: Vec<u64>| row@)
}

/// Dot product of column `j` of the transition matrix with the filtered
/// distribution, over the first `upto` states.
pub open spec fn spec_col_dot(tm: Seq<Seq<u64>>, probs: Seq<u64>, j: int, upto: int) -> int
    decreases upto,
{
    if upto <= 0 {
        0
    } else {
        spec_col_dot(tm, probs, j, upto - 1) + tm[upto - 1][j] * probs[upto - 1]
    }
}

/// The column dot product of probability-scaled entries is bounded.
pub proof fn lemma_col_dot_bound(tm: Seq<Seq<u64>>, probs: Seq<u64>, j: int, upto: int)
    requires
        0 <= j,
        0 <= upto,
        forall|i: int| 0 <= i < upto ==> j < (#[trigger] tm[i]).len(),
        forall|i: int| 0 <= i < upto && 0 <= j < tm[i].len() ==> (#[trigger] tm[i][j])
            <= PROB_SCALE,
        forall|i: int| 0 <= i < upto ==> #[trigger] probs[i] <= PROB_SCALE,
        upto <= 16,
    ensures
        0 <= spec_col_dot(tm, probs, j, upto),
        spec_col_dot(tm, probs, j, upto) <= upto * ((PROB_SCALE as int) * (PROB_SCALE as int)),
    decreases upto,
{
    if upto <= 0 {
    } else {
        lemma_col_dot_bound(tm, probs, j, upto - 1);
        let a = tm[upto - 1][j] as int;
        let b = probs[upto - 1] as int;
        assert(0 <= a <= PROB_SCALE as int);
        assert(0 <= b <= PROB_SCALE as int);
        assert(0 <= a * b <= (PROB_SCALE as int) * (PROB_SCALE as int)) by (nonlinear_arith)
            requires
                0 <= a <= PROB_SCALE as int,
                0 <= b <= PROB_SCALE as int,
        ;
        assert((upto - 1) * ((PROB_SCALE as int) * (PROB_SCALE as int)) + (PROB_SCALE as int) * (
        PROB_SCALE as int) == upto * ((PROB_SCALE as int) * (PROB_SCALE as int)))
            by (nonlinear_arith);
    }
}

/// The unnormalized forward weights of one filtering step: emission weight
/// times the one-step-ahead predictive mass.
pub open spec fn spec_forward_w(
    states: Seq<GaussianState>,
    tm: Seq<Seq<u64>>,
    probs: Seq<u64>,
    r: int,
) -> Seq<u128> {
    Seq::new(
        states.len(),
        |j: int|
            (spec_emission_weight(r, states[j].mean as int, states[j].variance as int) * (
            spec_col_dot(tm, probs, j, probs.len() as int) / (PROB_SCALE as int))) as u128,
    )
}

/// The filtered distribution after one observation: normalized forward
/// weights, or the uniform distribution when the weights collapse to zero.
pub open spec fn spec_forward_dist(
    states: Seq<GaussianState>,
    tm: Seq<Seq<u64>>,
    probs: Seq<u64>,
    r: int,
) -> Seq<u64> {
    let w = spec_forward_w(states, tm, probs, r);
    let total = seq_sum128(w);
    if total == 0 {
        spec_uniform(states.len() as int)
    } else {
        spec_normalized(w, total)
    }
}

/// The index and value of the last maximum of a non-empty vector.
pub fn argmax_last(v: &Vec<u64>) -> (res: (usize, u64))
    requires
        1 <= v@.len(),
    ensures
        res.0 < v@.len(),
        v@[res.0 as int] == res.1,
        forall|j: int| 0 <= j < v@.len() ==> #[trigger] v@[j] <= res.1,
        forall|j: int| res.0 < j < v@.len() ==> #[trigger] v@[j] < res.1,
{
    let mut best: usize = 0;
    let mut best_val: u64 = v[0];
    let mut j: usize = 1;
    while j < v.len()
        invariant
            1 <= j <= v@.len(),
            best < j,
            v@[best as int] == best_val,
            forall|k: int| 0 <= k < j ==> #[trigger] v@[k] <= best_val,
            forall|k: int| best < k < j ==> #[trigger] v@[k] < best_val,
        decreases v@.len() - j,
    {
        if v[j] >= best_val {
            best = j;
            best_val = v[j];
        }
        j = j + 1;
    }
    (best, best_val)
}

/// Initial emission mean of state `i` among `n` (weakly informative prior).
pub open spec fn spec_init_mean(n: int, i: int) -> int {
    if n == 2 {
        if i == 0 {
            1_000_000
        } else {
            -1_000_000
        }
    } else if n == 3 {
        if i == 0 {
            1_000_000
        } else if i == 1 {
            -1_000_000
        } else {
            0
        }
    } else {
        (2 * i - n) * 500_000
    }
}

/// Initial emission variance of state `i` among `n`.
pub open spec fn spec_init_var(n: int, i: int) -> int {
    if n == 2 {
        if i == 0 {
            100_000_000
        } else {
            400_000_000
        }
    } else if n == 3 {
        if i == 0 {
            100_000_000
        } else if i == 1 {
            200_000_000
        } else {
            900_000_000
        }
    } else {
        100_000_000 * (1 + i)
    }
}

/// Prior transition mass from state `i` to state `j`: 0.9 on the diagonal,
/// the rest spread uniformly.
pub open spec fn spec_target(i: int, j: int, n: int) -> int {
    if i == j {
        900_000_000
    } else {
        100_000_000int / (n - 1)
    }
}

/// A sequence that is constant except at one index sums accordingly.
pub proof fn lemma_seq_sum_one_diff(s: Seq<u64>, idx: int, a: int, c: int)
    requires
        0 <= idx < s.len(),
        s[idx] == a,
        forall|j: int| 0 <= j < s.len() && j != idx ==> s[j] == c,
    ensures
        crate::fixed::seq_sum(s) == a + (s.len() - 1) * c,
    decreases s.len(),
{
    assert(crate::fixed::seq_sum(s) == crate::fixed::seq_sum(s.drop_last()) + s.last());
    if s.len() == 1 {
        assert(s.drop_last() =~= Seq::<u64>::empty());
        assert(crate::fixed::seq_sum(Seq::<u64>::empty()) == 0);
        assert((s.len() - 1) * c == 0) by (nonlinear_arith)
            requires
                s.len() == 1,
        ;
    } else if idx == s.len() - 1 {
        lemma_seq_sum_head_const(s.drop_last(), c);
        assert(s.drop_last()[0] == c);
        assert(c + (s.len() - 2) * c == (s.len() - 1) * c) by (nonlinear_arith);
    } else {
        lemma_seq_sum_one_diff(s.drop_last(), idx, a, c);
        assert(a + (s.len() - 2) * c + c == a + (s.len() - 1) * c) by (nonlinear_arith);
    }
}

/// The online update of one Gaussian state under soft responsibility `w`
/// (probability-scaled) and learning rate `lr` (confidence-scaled).
pub open spec fn spec_gauss_online(g: GaussianState, w: u64, r: int, lr: int) -> GaussianState {
    let lw = lr * w / (PROB_SCALE as int);
    let mean2 = (((CONF_ONE as int) - lw) * g.mean + lw * r) / (CONF_ONE as int);
    let d = if r >= mean2 {
        r - mean2
    } else {
        mean2 - r
    };
    let q = d * d / (CONF_ONE as int);
    let varraw = (((CONF_ONE as int) - lw) * g.variance + lw * q) / (CONF_ONE as int);
    let var2 = if varraw < VAR_FLOOR as int {
        VAR_FLOOR as int
    } else {
        varraw
    };
    let rr = (if r >= 0 {
        r
    } else {
        -r
    }) * (if r >= 0 {
        r
    } else {
        -r
    });
    let ssq = rr / (crate::fixed::RET_SCALE as int);
    GaussianState {
        mean: mean2 as i64,
        variance: var2 as u64,
        sum: crate::fixed::spec_sat_add_i64(g.sum as int, r * w / (PROB_SCALE as int)) as i64,
        sum_sq: crate::fixed::spec_sat_add_u64(
            g.sum_sq as int,
            ssq * w / (PROB_SCALE as int),
        ) as u64,
        count: crate::fixed::spec_sat_add_u64(g.count as int, 1) as u64,
    }
}

/// The unnormalized row weights of the transition shrinkage toward the
/// prior.
pub open spec fn spec_shrink_w(row: Seq<u64>, i: int, n: int, s: int) -> Seq<u128> {
    Seq::new(n as nat, |j: int| (((CONF_ONE as int) - s) * row[j] + s * spec_target(i, j, n)) as u128)
}

/// A transition row after one shrinkage step: the normalized weights, or the
/// row unchanged in the degenerate zero-weight case.
pub open spec fn spec_row_shrunk(row: Seq<u64>, i: int, n: int, s: int) -> Seq<u64> {
    let w = spec_shrink_w(row, i, n, s);
    let total = seq_sum128(w);
    if total == 0 {
        row
    } else {
        spec_normalized(w, total)
    }
}

/// The regime a learned state denotes: volatile above 2% per-bar volatility,
/// otherwise trending by the sign of the mean, otherwise mean-reverting.
pub open spec fn spec_state_regime(g: GaussianState) -> crate::regime::types::MarketRegime {
    if g.variance > 400_000_000 {
        crate::regime::types::MarketRegime::Volatile
    } else if g.mean > 500_000 {
        crate::regime::types::MarketRegime::Trending(crate::regime::types::TrendDirection::Bullish)
    } else if g.mean < -500_000 {
        crate::regime::types::MarketRegime::Trending(crate::regime::types::TrendDirection::Bearish)
    } else {
        crate::regime::types::MarketRegime::MeanReverting
    }
}

/// Hidden Markov Model regime detector over scaled log-returns.
#[derive(Debug)]
pub struct HMMRegimeDetector {
    /// Configuration.
    pub config: HMMConfig,
    /// Gaussian emission parameters of each hidden state.
    pub states: Vec<GaussianState>,
    /// Row-stochastic transition matrix at scale [`PROB_SCALE`].
    pub transition_matrix: Vec<Vec<u64>>,
    /// Initial state distribution.
    pub initial_probs: Vec<u64>,
    /// Filtered state distribution.
    pub state_probs: Vec<u64>,
    /// Buffered recent returns for batch re-estimation.
    pub returns_history: Vec<i64>,
    /// Recent closes for return computation.
    pub prices: Vec<u64>,
    /// Most likely state under the filtered distribution.
    pub current_state: usize,
    /// Filtered probability of the most likely state.
    pub current_confidence: u64,
    /// Observations processed, saturating.
    pub n_observations: u64,
    /// Regime reported at initialization.
    pub last_regime: crate::regime::types::MarketRegime,
}

impl HMMRegimeDetector {
    /// Structural invariants every HMM detector of the core maintains: the
    /// filtered distribution and every transition row sum to exactly
    /// [`PROB_SCALE`], and every variance sits at or above [`VAR_FLOOR`].
    pub open spec fn wf(self) -> bool {
        let n = self.config.n_states as int;
        &&& spec_hmm_config_wf(self.config)
        &&& self.states@.len() == n
        &&& (forall|i: int| 0 <= i < n ==> (#[trigger] self.states@[i]).wf())
        &&& self.transition_matrix@.len() == n
        &&& (forall|i: int|
            0 <= i < n ==> (#[trigger] self.transition_matrix@[i])@.len() == n)
        &&& (forall|i: int|
            0 <= i < n ==> crate::fixed::seq_sum((#[trigger] self.transition_matrix@[i])@)
                == PROB_SCALE as int)
        &&& (forall|i: int, j: int|
            0 <= i < n && 0 <= j < n ==> (#[trigger] self.transition_matrix@[i]@[j])
                <= PROB_SCALE)
        &&& self.initial_probs@.len() == n
        &&& crate::fixed::seq_sum(self.initial_probs@) == PROB_SCALE as int
        &&& (forall|j: int| 0 <= j < n ==> #[trigger] self.initial_probs@[j] <= PROB_SCALE)
        &&& self.state_probs@.len() == n
        &&& crate::fixed::seq_sum(self.state_probs@) == PROB_SCALE as int
        &&& (forall|j: int| 0 <= j < n ==> #[trigger] self.state_probs@[j] <= PROB_SCALE)
        &&& self.returns_history@.len() <= self.config.lookback_window
        &&& (forall|t: int|
            0 <= t < self.returns_history@.len() ==> -(RET_MAX as int) <= (
            #[trigger] self.returns_history@[t]) as int <= RET_MAX as int)
        &&& self.prices@.len() <= 10
        &&& (forall|t: int|
            0 <= t < self.prices@.len() ==> 1 <= #[trigger] self.prices@[t] <= crate::fixed::PRICE_MAX)
        &&& self.current_state < n
        &&& self.current_confidence <= PROB_SCALE
    }

    /// A detector as it comes out of construction under a configuration:
    /// prior emission parameters, prior transitions, uniform distributions,
    /// empty histories.
    pub open spec fn spec_fresh(r: HMMRegimeDetector, config: HMMConfig) -> bool {
        &&& r.config == config
        &&& r.states@.len() == config.n_states
        &&& (forall|i: int|
            0 <= i < config.n_states ==> #[trigger] r.states@[i] == (GaussianState {
                mean: spec_init_mean(config.n_states as int, i) as i64,
                variance: spec_init_var(config.n_states as int, i) as u64,
                sum: 0i64,
                sum_sq: 0u64,
                count: 0u64,
            }))
        &&& r.transition_matrix@.len() == config.n_states
        &&& (forall|i: int|
            0 <= i < config.n_states ==> (#[trigger] r.transition_matrix@[i])@.len()
                == config.n_states)
        &&& (forall|i: int, j: int|
            0 <= i < config.n_states && 0 <= j < config.n_states
                ==> (#[trigger] r.transition_matrix@[i]@[j]) as int == spec_tm_init(
                config.n_states as int,
                i,
                j,
            ))
        &&& r.initial_probs@ == spec_uniform(config.n_states as int)
        &&& r.state_probs@ == spec_uniform(config.n_states as int)
        &&& r.returns_history@.len() == 0
        &&& r.prices@.len() == 0
        &&& r.current_state == 0
        &&& r.current_confidence == 0
        &&& r.n_observations == 0
        &&& r.last_regime == crate::regime::types::MarketRegime::Uncertain
    }

    /// A fresh detector with the weakly-informative prior parameterization.
    pub fn new(config: HMMConfig) -> (r: HMMRegimeDetector)
        requires
            spec_hmm_config_wf(config),
        ensures
            HMMRegimeDetector::spec_fresh(r, config),
            r.config == config,
            r.states@.len() == config.n_states,
            forall|i: int|
                0 <= i < config.n_states ==> #[trigger] r.states@[i] == (GaussianState {
                    mean: spec_init_mean(config.n_states as int, i) as i64,
                    variance: spec_init_var(config.n_states as int, i) as u64,
                    sum: 0i64,
                    sum_sq: 0u64,
                    count: 0u64,
                }),
            forall|i: int, j: int|
                0 <= i < config.n_states && 0 <= j < config.n_states
                    ==> (#[trigger] r.transition_matrix@[i]@[j]) as int == spec_tm_init(
                    config.n_states as int,
                    i,
                    j,
                ),
            r.initial_probs@ == spec_uniform(config.n_states as int),
            r.state_probs@ == spec_uniform(config.n_states as int),
            r.returns_history@ =~= Seq::<i64>::empty(),
            r.prices@ =~= Seq::<u64>::empty(),
            r.current_state == 0,
            r.current_confidence == 0,
            r.n_observations == 0,
            r.last_regime == crate::regime::types::MarketRegime::Uncertain,
            r.wf(),
    {
        let n = config.n_states;
        let mut states: Vec<GaussianState> = Vec::new();
        if n == 2 {
            states.push(GaussianState::new(1_000_000, 100_000_000));
            states.push(GaussianState::new(-1_000_000, 400_000_000));
        } else if n == 3 {
            states.push(GaussianState::new(1_000_000, 100_000_000));
            states.push(GaussianState::new(-1_000_000, 200_000_000));
            states.push(GaussianState::new(0, 900_000_000));
        } else {
            let mut i: usize = 0;
            while i < n
                invariant
                    i <= n <= 16,
                    4 <= n,
                    states@.len() == i,
                    forall|k: int|
                        0 <= k < i ==> #[trigger] states@[k] == (GaussianState {
                            mean: spec_init_mean(n as int, k) as i64,
                            variance: spec_init_var(n as int, k) as u64,
                            sum: 0i64,
                            sum_sq: 0u64,
                            count: 0u64,
                        }),
                decreases n - i,
            {
                let mean: i64 = if 2 * i >= n {
                    ((2 * i - n) as u64 * 500_000) as i64
                } else {
                    -(((n - 2 * i) as u64 * 500_000) as i64)
                };
                let variance: u64 = 100_000_000 * (1 + i as u64);
                states.push(GaussianState::new(mean, variance));
                i = i + 1;
            }
        }
        let off: u64 = 100_000_000 / ((n as u64) - 1);
        proof {
            lemma_fundamental_div_mod(100_000_000int, (n as int) - 1);
        }
        let diag: u64 = PROB_SCALE - ((n as u64) - 1) * off;
        let mut tm: Vec<Vec<u64>> = Vec::new();
        let mut i: usize = 0;
        while i < n
            invariant
                i <= n <= 16,
                2 <= n,
                off as int == 100_000_000int / ((n as int) - 1),
                0 <= ((n as int) - 1) * (off as int) <= 100_000_000,
                diag as int == (PROB_SCALE as int) - ((n as int) - 1) * (off as int),
                tm@.len() == i,
                forall|k: int| 0 <= k < i ==> (#[trigger] tm@[k])@.len() == n,
                forall|k: int, j: int|
                    0 <= k < i && 0 <= j < n ==> (#[trigger] tm@[k]@[j]) as int == spec_tm_init(
                        n as int,
                        k,
                        j,
                    ),
                forall|k: int|
                    0 <= k < i ==> crate::fixed::seq_sum((#[trigger] tm@[k])@)
                        == PROB_SCALE as int,
            decreases n - i,
        {
            let mut row: Vec<u64> = Vec::new();
            let mut j: usize = 0;
            while j < n
                invariant
                    j <= n <= 16,
                    i < n,
                    row@.len() == j,
                    forall|t: int|
                        0 <= t < j ==> (#[trigger] row@[t]) as int == (if t == i as int {
                            diag as int
                        } else {
                            off as int
                        }),
                decreases n - j,
            {
                if j == i {
                    row.push(diag);
                } else {
                    row.push(off);
                }
                j = j + 1;
            }
            proof {
                lemma_seq_sum_one_diff(row@, i as int, diag as int, off as int);
                assert((diag as int) + ((n as int) - 1) * (off as int) == PROB_SCALE as int);
                assert(forall|t: int|
                    0 <= t < n ==> (#[trigger] row@[t]) as int == spec_tm_init(n as int, i as int, t));
            }
            tm.push(row);
            i = i + 1;
        }
        let initial_probs = uniform_probs(n);
        let state_probs = uniform_probs(n);
        let r = HMMRegimeDetector {
            config,
            states,
            transition_matrix: tm,
            initial_probs,
            state_probs,
            returns_history: Vec::new(),
            prices: Vec::new(),
            current_state: 0,
            current_confidence: 0,
            n_observations: 0,
            last_regime: crate::regime::types::MarketRegime::Uncertain,
        };
        proof {
            lemma_uniform_sum(n as int);
            assert forall|k: int| 0 <= k < n implies (#[trigger] r.states@[k]).wf() by {
                if n == 2 || n == 3 {
                } else {
                    assert(-(16int) * 500_000 <= spec_init_mean(n as int, k) <= 16int * 500_000)
                        by (nonlinear_arith)
                        requires
                            4 <= n as int <= 16,
                            0 <= k < n as int,
                            spec_init_mean(n as int, k) == (2 * k - (n as int)) * 500_000,
                    ;
                    assert(100_000_000 <= spec_init_var(n as int, k) <= 1_600_000_000)
                        by (nonlinear_arith)
                        requires
                            4 <= n as int <= 16,
                            0 <= k < n as int,
                            spec_init_var(n as int, k) == 100_000_000 * (1 + k),
                    ;
                }
            }
        }
        r
    }

    /// Build a detector, rejecting a configuration outside the bounds the
    /// detector requires.
    pub fn try_new(config: HMMConfig) -> (r: Result<
        HMMRegimeDetector,
        crate::regime::types::ConfigError,
    >)
        ensures
            r is Ok <==> spec_hmm_config_wf(config),
            r matches Ok(d) ==> d.config == config && d.n_observations == 0 && d.wf(),
            r is Err ==> r == Err::<HMMRegimeDetector, crate::regime::types::ConfigError>(
                crate::regime::types::ConfigError::InvalidConfig,
            ),
    {
        if config.is_valid() {
            Ok(HMMRegimeDetector::new(config))
        } else {
            Err(crate::regime::types::ConfigError::InvalidConfig)
        }
    }

    /// Create with the default configuration.
    pub fn default_config() -> (r: HMMRegimeDetector)
        ensures
            HMMRegimeDetector::spec_fresh(
                r,
                HMMConfig {
                    n_states: 3usize,
                    min_observations: 100u64,
                    learning_rate: 10_000u64,
                    transition_smoothing: 100_000u64,
                    lookback_window: 252usize,
                    min_confidence: 600_000u64,
                },
            ),
            r.wf(),
    {
        HMMRegimeDetector::new(HMMConfig::default())
    }

    /// Create with the crypto-optimized configuration.
    pub fn crypto_optimized() -> (r: HMMRegimeDetector)
        ensures
            HMMRegimeDetector::spec_fresh(
                r,
                HMMConfig {
                    n_states: 3usize,
                    min_observations: 50u64,
                    learning_rate: 20_000u64,
                    transition_smoothing: 50_000u64,
                    lookback_window: 100usize,
                    min_confidence: 500_000u64,
                },
            ),
            r.wf(),
    {
        HMMRegimeDetector::new(HMMConfig::crypto_optimized())
    }

    /// One forward-filtering step: multiply the predictive distribution by
    /// the emission weights and renormalize exactly; on numerical collapse
    /// (all weights zero) reset to the uniform distribution and continue.
    fn forward_step(&mut self, ret: i64)
        requires
            old(self).wf(),
            -(RET_MAX as int) <= ret as int <= RET_MAX as int,
        ensures
            final(self).state_probs@ == spec_forward_dist(
                old(self).states@,
                tm_rows(old(self).transition_matrix@),
                old(self).state_probs@,
                ret as int,
            ),
            crate::fixed::seq_sum(final(self).state_probs@) == PROB_SCALE as int,
            final(self).current_state < final(self).state_probs@.len(),
            final(self).state_probs@[final(self).current_state as int]
                == final(self).current_confidence,
            forall|j: int|
                0 <= j < final(self).state_probs@.len()
                    ==> #[trigger] final(self).state_probs@[j] <= final(self).current_confidence,
            forall|j: int|
                final(self).current_state < j < final(self).state_probs@.len()
                    ==> #[trigger] final(self).state_probs@[j] < final(self).current_confidence,
            final(self).config == old(self).config,
            final(self).states == old(self).states,
            final(self).transition_matrix == old(self).transition_matrix,
            final(self).initial_probs == old(self).initial_probs,
            final(self).returns_history == old(self).returns_history,
            final(self).prices == old(self).prices,
            final(self).n_observations == old(self).n_observations,
            final(self).last_regime == old(self).last_regime,
            final(self).wf(),
    {
        let n = self.config.n_states;
        let ghost gtm = tm_rows(self.transition_matrix@);
        let ghost gprobs = self.state_probs@;
        let ghost gstates = self.states@;
        let mut w: Vec<u128> = Vec::new();
        let mut j: usize = 0;
        while j < n
            invariant
                j <= n,
                self.wf(),
                n == self.config.n_states,
                gtm == tm_rows(self.transition_matrix@),
                gprobs == self.state_probs@,
                gstates == self.states@,
                -(RET_MAX as int) <= ret as int <= RET_MAX as int,
                w@.len() == j,
                forall|k: int|
                    0 <= k < j ==> (#[trigger] w@[k]) == spec_forward_w(
                        gstates,
                        gtm,
                        gprobs,
                        ret as int,
                    )[k],
                forall|k: int| 0 <= k < j ==> (#[trigger] w@[k]) <= 0x1_0000_0000_0000_0000_0000_0000,
            decreases n - j,
        {
            let mut acc: u128 = 0;
            let mut i: usize = 0;
            while i < n
                invariant
                    i <= n,
                    j < n,
                    self.wf(),
                    n == self.config.n_states,
                    gtm == tm_rows(self.transition_matrix@),
                    gprobs == self.state_probs@,
                    acc as int == spec_col_dot(gtm, gprobs, j as int, i as int),
                    acc <= (i as int) * ((PROB_SCALE as int) * (PROB_SCALE as int)),
                decreases n - i,
            {
                proof {
                    assert(gtm[i as int] == self.transition_matrix@[i as int]@);
                    assert(0 <= self.transition_matrix@[i as int]@[j as int] <= PROB_SCALE);
                    assert(0 <= (self.transition_matrix@[i as int]@[j as int] as int) * (
                    self.state_probs@[i as int] as int) <= (PROB_SCALE as int) * (
                    PROB_SCALE as int)) by (nonlinear_arith)
                        requires
                            0 <= self.transition_matrix@[i as int]@[j as int] as int
                                <= PROB_SCALE as int,
                            0 <= self.state_probs@[i as int] as int <= PROB_SCALE as int,
                    ;
                    assert((i as int) * ((PROB_SCALE as int) * (PROB_SCALE as int)) + (
                    PROB_SCALE as int) * (PROB_SCALE as int) == (i as int + 1) * ((
                    PROB_SCALE as int) * (PROB_SCALE as int))) by (nonlinear_arith);
                }
                let row = &self.transition_matrix[i];
                acc = acc + (row[j] as u128) * (self.state_probs[i] as u128);
                i = i + 1;
            }
            let pred: u128 = acc / (PROB_SCALE as u128);
            proof {
                assert(acc as int <= (PROB_SCALE as int) * 16_000_000_000int) by (nonlinear_arith)
                    requires
                        acc as int <= (n as int) * ((PROB_SCALE as int) * (PROB_SCALE as int)),
                        n <= 16,
                ;
                lemma_div_bound_upper(acc as int, 16_000_000_000int, PROB_SCALE as int);
                lemma_div_bound_lower(acc as int, 0, PROB_SCALE as int);
            }
            let e = emission_weight(ret, self.states[j].mean, self.states[j].variance);
            proof {
                assert((e as int) * (pred as int) <= 10_000_000_000_000int * 16_000_000_000int)
                    by (nonlinear_arith)
                    requires
                        0 <= e as int <= 10_000_000_000_000int,
                        0 <= pred as int <= 16_000_000_000int,
                ;
            }
            let wj: u128 = (e as u128) * pred;
            w.push(wj);
            proof {
                assert(w@[j as int] == spec_forward_w(gstates, gtm, gprobs, ret as int)[j as int]);
            }
            j = j + 1;
        }
        proof {
            assert(w@ =~= spec_forward_w(gstates, gtm, gprobs, ret as int));
        }
        let mut total: u128 = 0;
        let mut k: usize = 0;
        while k < w.len()
            invariant
                k <= w@.len() <= 16,
                forall|t: int| 0 <= t < w@.len() ==> (#[trigger] w@[t])
                    <= 0x1_0000_0000_0000_0000_0000_0000,
                total as int == seq_sum128(w@.take(k as int)),
                total <= (k as int) * 0x1_0000_0000_0000_0000_0000_0000,
            decreases w@.len() - k,
        {
            proof {
                assert(w@.take(k as int + 1).drop_last() =~= w@.take(k as int));
                assert(w@.take(k as int + 1).last() == w@[k as int]);
                assert((k as int) * 0x1_0000_0000_0000_0000_0000_0000int
                    + 0x1_0000_0000_0000_0000_0000_0000int == (k as int + 1)
                    * 0x1_0000_0000_0000_0000_0000_0000int) by (nonlinear_arith);
            }
            total = total + w[k];
            k = k + 1;
        }
        proof {
            assert(w@.take(w@.len() as int) =~= w@);
        }
        if total == 0 {
            self.state_probs = uniform_probs(n);
        } else {
            self.state_probs = normalize_exact(&w);
        }
        let (best, best_val) = argmax_last(&self.state_probs);
        self.current_state = best;
        self.current_confidence = best_val;
    }
}

/// Sum of a small vector of weights.
fn sum_u128(v: &Vec<u128>) -> (t: u128)
    requires
        v@.len() <= 16,
        forall|j: int| 0 <= j < v@.len() ==> #[trigger] v@[j] <= 0x1_0000_0000_0000_0000_0000_0000,
    ensures
        t as int == seq_sum128(v@),
{
    let mut total: u128 = 0;
    let mut k: usize = 0;
    while k < v.len()
        invariant
            k <= v@.len() <= 16,
            forall|j: int| 0 <= j < v@.len() ==> #[trigger] v@[j]
                <= 0x1_0000_0000_0000_0000_0000_0000,
            total as int == seq_sum128(v@.take(k as int)),
            total <= (k as int) * 0x1_0000_0000_0000_0000_0000_0000,
        decreases v@.len() - k,
    {
        proof {
            assert(v@.take(k as int + 1).drop_last() =~= v@.take(k as int));
            assert(v@.take(k as int + 1).last() == v@[k as int]);
            assert((k as int) * 0x1_0000_0000_0000_0000_0000_0000int
                + 0x1_0000_0000_0000_0000_0000_0000int == (k as int + 1)
                * 0x1_0000_0000_0000_0000_0000_0000int) by (nonlinear_arith);
        }
        total = total + v[k];
        k = k + 1;
    }
    proof {
        assert(v@.take(v@.len() as int) =~= v@);
    }
    total
}

impl HMMRegimeDetector {
    /// Online soft-assignment update: pull each state's Gaussian toward the
    /// observed return in proportion to its filtered responsibility, floor
    /// the variances, and shrink every transition row toward the prior while
    /// keeping it exactly row-stochastic.
    fn online_parameter_update(&mut self, ret: i64)
        requires
            old(self).wf(),
            -(RET_MAX as int) <= ret as int <= RET_MAX as int,
        ensures
            final(self).states@.len() == old(self).states@.len(),
            forall|i: int|
                0 <= i < old(self).states@.len() ==> #[trigger] final(self).states@[i]
                    == spec_gauss_online(
                    old(self).states@[i],
                    old(self).state_probs@[i],
                    ret as int,
                    old(self).config.learning_rate as int,
                ),
            final(self).transition_matrix@.len() == old(self).transition_matrix@.len(),
            forall|i: int|
                0 <= i < old(self).transition_matrix@.len()
                    ==> (#[trigger] final(self).transition_matrix@[i])@ == spec_row_shrunk(
                    old(self).transition_matrix@[i]@,
                    i,
                    old(self).config.n_states as int,
                    old(self).config.transition_smoothing as int,
                ),
            final(self).config == old(self).config,
            final(self).initial_probs == old(self).initial_probs,
            final(self).state_probs == old(self).state_probs,
            final(self).returns_history == old(self).returns_history,
            final(self).prices == old(self).prices,
            final(self).current_state == old(self).current_state,
            final(self).current_confidence == old(self).current_confidence,
            final(self).n_observations == old(self).n_observations,
            final(self).last_regime == old(self).last_regime,
            final(self).wf(),
    {
        let n = self.config.n_states;
        let lr = self.config.learning_rate;
        let mut idx: usize = 0;
        while idx < n
            invariant
                idx <= n,
                n == self.config.n_states,
                lr == self.config.learning_rate,
                self.wf(),
                -(RET_MAX as int) <= ret as int <= RET_MAX as int,
                self.config == old(self).config,
                self.transition_matrix == old(self).transition_matrix,
                self.initial_probs == old(self).initial_probs,
                self.state_probs == old(self).state_probs,
                self.returns_history == old(self).returns_history,
                self.prices == old(self).prices,
                self.current_state == old(self).current_state,
                self.current_confidence == old(self).current_confidence,
                self.n_observations == old(self).n_observations,
                self.last_regime == old(self).last_regime,
                self.states@.len() == old(self).states@.len(),
                forall|i: int|
                    0 <= i < idx ==> #[trigger] self.states@[i] == spec_gauss_online(
                        old(self).states@[i],
                        old(self).state_probs@[i],
                        ret as int,
                        old(self).config.learning_rate as int,
                    ),
                forall|i: int|
                    idx <= i < n ==> #[trigger] self.states@[i] == old(self).states@[i],
            decreases n - idx,
        {
            let g = self.states[idx];
            let wgt = self.state_probs[idx];
            proof {
                assert((lr as int) * (wgt as int) <= (CONF_ONE as int) * (PROB_SCALE as int))
                    by (nonlinear_arith)
                    requires
                        lr <= CONF_ONE,
                        wgt <= PROB_SCALE,
                ;
                lemma_div_bound_upper(
                    (lr as int) * (wgt as int),
                    CONF_ONE as int,
                    PROB_SCALE as int,
                );
                lemma_div_bound_lower((lr as int) * (wgt as int), 0, PROB_SCALE as int);
            }
            let lw: u64 = lr * wgt / PROB_SCALE;
            proof {
                assert(((CONF_ONE as int) - lw) * (g.mean as int)
                    <= 1_000_000int * 60_000_000_000int && ((CONF_ONE as int) - lw) * (
                g.mean as int) >= -(1_000_000int * 60_000_000_000int) && (lw as int) * (
                ret as int) <= 1_000_000int * 60_000_000_000int && (lw as int) * (ret as int)
                    >= -(1_000_000int * 60_000_000_000int)) by (nonlinear_arith)
                    requires
                        0 <= lw as int <= CONF_ONE as int,
                        -(RET_MAX as int) <= g.mean as int <= RET_MAX as int,
                        -(RET_MAX as int) <= ret as int <= RET_MAX as int,
                ;
            }
            let num: i128 = ((CONF_ONE - lw) as i128) * (g.mean as i128) + (lw as i128) * (
            ret as i128);
            let mean2_wide = crate::fixed::div_floor_i128(num, CONF_ONE);
            proof {
                crate::fixed::lemma_convex_bounds(
                    g.mean as int,
                    ret as int,
                    lw as int,
                    CONF_ONE as int,
                );
            }
            let mean2: i64 = mean2_wide as i64;
            let d: u64 = if ret >= mean2 {
                (ret - mean2) as u64
            } else {
                (mean2 - ret) as u64
            };
            proof {
                assert((d as int) * (d as int) <= 120_000_000_000int * 120_000_000_000int)
                    by (nonlinear_arith)
                    requires
                        d <= 120_000_000_000u64,
                ;
                lemma_div_bound_upper(
                    (d as int) * (d as int),
                    14_400_000_000_000_000int,
                    CONF_ONE as int,
                );
                lemma_div_bound_lower((d as int) * (d as int), 0, CONF_ONE as int);
            }
            let q_wide: u128 = (d as u128) * (d as u128) / (CONF_ONE as u128);
            let q: u64 = q_wide as u64;
            proof {
                assert(((CONF_ONE as int) - lw) * (g.variance as int) <= 1_000_000int
                    * 1_000_000_000_000_000_000int && 0 <= ((CONF_ONE as int) - lw) * (
                g.variance as int) && (lw as int) * (q as int) <= 1_000_000int
                    * 14_400_000_000_000_000int && 0 <= (lw as int) * (q as int))
                    by (nonlinear_arith)
                    requires
                        0 <= lw as int <= CONF_ONE as int,
                        0 <= g.variance as int <= VAR_MAX as int,
                        0 <= q as int <= 14_400_000_000_000_000int,
                ;
                crate::fixed::lemma_convex_bounds(
                    g.variance as int,
                    q as int,
                    lw as int,
                    CONF_ONE as int,
                );
            }
            let varraw_wide: u128 = (((CONF_ONE - lw) as u128) * (g.variance as u128) + (
            lw as u128) * (q as u128)) / (CONF_ONE as u128);
            let varraw: u64 = varraw_wide as u64;
            let var2: u64 = if varraw < VAR_FLOOR {
                VAR_FLOOR
            } else {
                varraw
            };
            proof {
                assert((ret as int) * (wgt as int) <= 60_000_000_000int * 1_000_000_000int && (
                ret as int) * (wgt as int) >= -(60_000_000_000int * 1_000_000_000int))
                    by (nonlinear_arith)
                    requires
                        -(RET_MAX as int) <= ret as int <= RET_MAX as int,
                        0 <= wgt as int <= PROB_SCALE as int,
                ;
                lemma_div_bound_upper(
                    (ret as int) * (wgt as int),
                    60_000_000_000int,
                    PROB_SCALE as int,
                );
                assert((PROB_SCALE as int) * (-60_000_000_000int) == -((PROB_SCALE as int)
                    * 60_000_000_000int)) by (nonlinear_arith);
                lemma_div_bound_lower(
                    (ret as int) * (wgt as int),
                    -60_000_000_000int,
                    PROB_SCALE as int,
                );
            }
            let sum_incr_wide = crate::fixed::div_floor_i128(
                (ret as i128) * (wgt as i128),
                PROB_SCALE,
            );
            let sum2 = crate::fixed::sat_add_i64(g.sum, sum_incr_wide as i64);
            let d0: u64 = if ret >= 0 {
                ret as u64
            } else {
                (-ret) as u64
            };
            proof {
                assert((d0 as int) * (d0 as int) <= 60_000_000_000int * 60_000_000_000int)
                    by (nonlinear_arith)
                    requires
                        d0 <= 60_000_000_000u64,
                ;
                lemma_div_bound_upper(
                    (d0 as int) * (d0 as int),
                    3_600_000_000_000int,
                    crate::fixed::RET_SCALE as int,
                );
                lemma_div_bound_lower((d0 as int) * (d0 as int), 0, crate::fixed::RET_SCALE as int);
            }
            let rr: u128 = (d0 as u128) * (d0 as u128);
            let ssq: u128 = rr / (crate::fixed::RET_SCALE as u128);
            proof {
                assert((ssq as int) * (wgt as int) <= 3_600_000_000_000int * 1_000_000_000int
                    && 0 <= (ssq as int) * (wgt as int)) by (nonlinear_arith)
                    requires
                        0 <= ssq as int <= 3_600_000_000_000int,
                        0 <= wgt as int <= PROB_SCALE as int,
                ;
                lemma_div_bound_upper(
                    (ssq as int) * (wgt as int),
                    3_600_000_000_000int,
                    PROB_SCALE as int,
                );
                lemma_div_bound_lower((ssq as int) * (wgt as int), 0, PROB_SCALE as int);
            }
            let ssq_incr: u128 = ssq * (wgt as u128) / (PROB_SCALE as u128);
            let sumsq2 = crate::fixed::sat_add_u64(g.sum_sq, ssq_incr as u64);
            let count2 = crate::fixed::sat_add_u64(g.count, 1);
            let g2 = GaussianState {
                mean: mean2,
                variance: var2,
                sum: sum2,
                sum_sq: sumsq2,
                count: count2,
            };
            proof {
                assert(g2 == spec_gauss_online(
                    old(self).states@[idx as int],
                    old(self).state_probs@[idx as int],
                    ret as int,
                    old(self).config.learning_rate as int,
                ));
            }
            self.states.set(idx, g2);
            idx = idx + 1;
        }
        let sm = self.config.transition_smoothing;
        let mut i: usize = 0;
        while i < n
            invariant
                i <= n,
                n == self.config.n_states,
                sm == self.config.transition_smoothing,
                self.wf(),
                self.config == old(self).config,
                self.initial_probs == old(self).initial_probs,
                self.state_probs == old(self).state_probs,
                self.returns_history == old(self).returns_history,
                self.prices == old(self).prices,
                self.current_state == old(self).current_state,
                self.current_confidence == old(self).current_confidence,
                self.n_observations == old(self).n_observations,
                self.last_regime == old(self).last_regime,
                self.states@.len() == old(self).states@.len(),
                forall|k: int|
                    0 <= k < old(self).states@.len() ==> #[trigger] self.states@[k]
                        == spec_gauss_online(
                        old(self).states@[k],
                        old(self).state_probs@[k],
                        ret as int,
                        old(self).config.learning_rate as int,
                    ),
                self.transition_matrix@.len() == old(self).transition_matrix@.len(),
                forall|k: int|
                    0 <= k < i ==> (#[trigger] self.transition_matrix@[k])@ == spec_row_shrunk(
                        old(self).transition_matrix@[k]@,
                        k,
                        old(self).config.n_states as int,
                        old(self).config.transition_smoothing as int,
                    ),
                forall|k: int|
                    i <= k < n ==> #[trigger] self.transition_matrix@[k] == old(
                        self,
                    ).transition_matrix@[k],
            decreases n - i,
        {
            let ghost growrow = old(self).transition_matrix@[i as int]@;
            let mut w: Vec<u128> = Vec::new();
            let mut j: usize = 0;
            while j < n
                invariant
                    j <= n,
                    i < n,
                    n == self.config.n_states,
                    2 <= n <= 16,
                    sm <= CONF_ONE,
                    self.wf(),
                    growrow == self.transition_matrix@[i as int]@,
                    sm == self.config.transition_smoothing,
                    w@.len() == j,
                    forall|t: int|
                        0 <= t < j ==> (#[trigger] w@[t]) == spec_shrink_w(
                            growrow,
                            i as int,
                            n as int,
                            sm as int,
                        )[t],
                    forall|t: int|
                        0 <= t < j ==> (#[trigger] w@[t]) <= 0x1_0000_0000_0000_0000_0000_0000,
                decreases n - j,
            {
                let target: u64 = if i == j {
                    900_000_000
                } else {
                    100_000_000 / ((n as u64) - 1)
                };
                let row = &self.transition_matrix[i];
                proof {
                    lemma_fundamental_div_mod(100_000_000int, (n as int) - 1);
                    assert(((CONF_ONE as int) - sm) * (row@[j as int] as int) <= 1_000_000int
                        * 1_000_000_000int && 0 <= ((CONF_ONE as int) - sm) * (
                    row@[j as int] as int) && (sm as int) * (target as int) <= 1_000_000int
                        * 900_000_000int && 0 <= (sm as int) * (target as int))
                        by (nonlinear_arith)
                        requires
                            0 <= sm as int <= CONF_ONE as int,
                            0 <= row@[j as int] as int <= PROB_SCALE as int,
                            0 <= target as int <= 900_000_000int,
                    ;
                }
                let wj: u128 = ((CONF_ONE - sm) as u128) * (row[j] as u128) + (sm as u128) * (
                target as u128);
                w.push(wj);
                proof {
                    assert(w@[j as int] == spec_shrink_w(growrow, i as int, n as int, sm as int)[j as int]);
                }
                j = j + 1;
            }
            proof {
                assert(w@ =~= spec_shrink_w(growrow, i as int, n as int, sm as int));
            }
            let total = sum_u128(&w);
            if total > 0 {
                let new_row = normalize_exact(&w);
                self.transition_matrix.set(i, new_row);
            }
            proof {
                assert(self.transition_matrix@[i as int]@ == spec_row_shrunk(
                    growrow,
                    i as int,
                    n as int,
                    sm as int,
                ));
            }
            i = i + 1;
        }
    }
}

/// Sum of column `j` of the smoothed state-occupancy rows, over the first
/// `upto` times.
pub open spec fn gamma_col_sum(gammas: Seq<Vec<u64>>, j: int, upto: int) -> int
    decreases upto,
{
    if upto <= 0 {
        0
    } else {
        gamma_col_sum(gammas, j, upto - 1) + gammas[upto - 1]@[j]
    }
}

/// Occupancy-weighted sum of the returns in column `j`, over the first
/// `upto` times.
pub open spec fn gamma_col_msum(gammas: Seq<Vec<u64>>, rets: Seq<i64>, j: int, upto: int) -> int
    decreases upto,
{
    if upto <= 0 {
        0
    } else {
        gamma_col_msum(gammas, rets, j, upto - 1) + gammas[upto - 1]@[j] * rets[upto - 1]
    }
}

/// Occupancy-weighted sum of squared deviations from a centre `nm` in
/// column `j`, over the first `upto` times, at `VAR_SCALE`.
pub open spec fn gamma_col_vsum(
    gammas: Seq<Vec<u64>>,
    rets: Seq<i64>,
    j: int,
    nm: int,
    upto: int,
) -> int
    decreases upto,
{
    if upto <= 0 {
        0
    } else {
        let d = if rets[upto - 1] >= nm {
            rets[upto - 1] - nm
        } else {
            nm - rets[upto - 1]
        };
        gamma_col_vsum(gammas, rets, j, nm, upto - 1) + gammas[upto - 1]@[j] * (d * d / (
        CONF_ONE as int))
    }
}

/// A weight vector normalized to a distribution, or the uniform distribution
/// when it has collapsed to zero.
pub open spec fn spec_norm_or_uniform(w: Seq<u128>, n: int) -> Seq<u64> {
    let total = seq_sum128(w);
    if total == 0 {
        spec_uniform(n)
    } else {
        spec_normalized(w, total)
    }
}

/// The initial forward weights of the batch pass: emission mass under each
/// state times its prior mass.
pub open spec fn spec_alpha0_w(states: Seq<GaussianState>, init: Seq<u64>, r: int) -> Seq<u128> {
    Seq::new(
        states.len(),
        |j: int|
            (spec_emission_weight(r, states[j].mean as int, states[j].variance as int)
                * init[j]) as u128,
    )
}

/// Row `t` of the normalized forward pass over the buffered returns.
pub open spec fn spec_alpha_row(
    states: Seq<GaussianState>,
    tm: Seq<Seq<u64>>,
    init: Seq<u64>,
    rets: Seq<i64>,
    t: int,
) -> Seq<u64>
    decreases t,
{
    if t <= 0 {
        spec_norm_or_uniform(spec_alpha0_w(states, init, rets[0] as int), states.len() as int)
    } else {
        spec_forward_dist(
            states,
            tm,
            spec_alpha_row(states, tm, init, rets, t - 1),
            rets[t] as int,
        )
    }
}

/// One backward-pass cell: transition-weighted successor betas times
/// successor emissions, over the first `upto` successor states.
pub open spec fn spec_beta_dot(
    states: Seq<GaussianState>,
    tm: Seq<Seq<u64>>,
    beta: Seq<u64>,
    r: int,
    i: int,
    upto: int,
) -> int
    decreases upto,
{
    if upto <= 0 {
        0
    } else {
        spec_beta_dot(states, tm, beta, r, i, upto - 1) + (tm[i][upto - 1] * beta[upto - 1] / (
        PROB_SCALE as int)) * spec_emission_weight(
            r,
            states[upto - 1].mean as int,
            states[upto - 1].variance as int,
        )
    }
}

/// The unnormalized backward weights of one step.
pub open spec fn spec_beta_w(
    states: Seq<GaussianState>,
    tm: Seq<Seq<u64>>,
    beta: Seq<u64>,
    r: int,
) -> Seq<u128> {
    Seq::new(
        states.len(),
        |i: int| spec_beta_dot(states, tm, beta, r, i, states.len() as int) as u128,
    )
}

/// Backward row `k` counted from the end: the row for time
/// `returns.len() - 1 - k`, normalized at each step.
pub open spec fn spec_rev_beta_row(
    states: Seq<GaussianState>,
    tm: Seq<Seq<u64>>,
    rets: Seq<i64>,
    k: int,
) -> Seq<u64>
    decreases k,
{
    if k <= 0 {
        Seq::new(states.len(), |i: int| PROB_SCALE)
    } else {
        spec_norm_or_uniform(
            spec_beta_w(
                states,
                tm,
                spec_rev_beta_row(states, tm, rets, k - 1),
                rets[rets.len() - k] as int,
            ),
            states.len() as int,
        )
    }
}

/// The state-occupancy row for time `t`: the normalized product of the
/// forward and backward masses, or all-zero when it collapses.
pub open spec fn spec_gamma_row(
    states: Seq<GaussianState>,
    tm: Seq<Seq<u64>>,
    init: Seq<u64>,
    rets: Seq<i64>,
    t: int,
) -> Seq<u64> {
    let a = spec_alpha_row(states, tm, init, rets, t);
    let b = spec_rev_beta_row(states, tm, rets, rets.len() - 1 - t);
    let w = Seq::new(states.len(), |j: int| (a[j] * b[j]) as u128);
    let total = seq_sum128(w);
    if total == 0 {
        Seq::new(states.len(), |j: int| 0u64)
    } else {
        spec_normalized(w, total)
    }
}

/// Total occupancy mass of state `j` over the first `upto` times.
pub open spec fn spec_gamma_wsum(
    states: Seq<GaussianState>,
    tm: Seq<Seq<u64>>,
    init: Seq<u64>,
    rets: Seq<i64>,
    j: int,
    upto: int,
) -> int
    decreases upto,
{
    if upto <= 0 {
        0
    } else {
        spec_gamma_wsum(states, tm, init, rets, j, upto - 1) + spec_gamma_row(
            states,
            tm,
            init,
            rets,
            upto - 1,
        )[j]
    }
}

/// Occupancy-weighted sum of returns for state `j`.
pub open spec fn spec_gamma_msum(
    states: Seq<GaussianState>,
    tm: Seq<Seq<u64>>,
    init: Seq<u64>,
    rets: Seq<i64>,
    j: int,
    upto: int,
) -> int
    decreases upto,
{
    if upto <= 0 {
        0
    } else {
        spec_gamma_msum(states, tm, init, rets, j, upto - 1) + spec_gamma_row(
            states,
            tm,
            init,
            rets,
            upto - 1,
        )[j] * rets[upto - 1]
    }
}

/// Occupancy-weighted sum of squared deviations from `nm` for state `j`.
pub open spec fn spec_gamma_vsum(
    states: Seq<GaussianState>,
    tm: Seq<Seq<u64>>,
    init: Seq<u64>,
    rets: Seq<i64>,
    j: int,
    nm: int,
    upto: int,
) -> int
    decreases upto,
{
    if upto <= 0 {
        0
    } else {
        let d = if rets[upto - 1] >= nm {
            rets[upto - 1] - nm
        } else {
            nm - rets[upto - 1]
        };
        spec_gamma_vsum(states, tm, init, rets, j, nm, upto - 1) + spec_gamma_row(
            states,
            tm,
            init,
            rets,
            upto - 1,
        )[j] * (d * d / (CONF_ONE as int))
    }
}

/// The batch re-estimate of one state's Gaussian: the 0.7 / 0.3 blend of the
/// old parameters with the gamma-weighted mean and variance over the
/// buffered returns, the variance floored; a state with no occupancy mass
/// keeps its parameters. The running diagnostics are untouched.
pub open spec fn spec_bw_reestimated(
    states: Seq<GaussianState>,
    tm: Seq<Seq<u64>>,
    init: Seq<u64>,
    rets: Seq<i64>,
    j: int,
) -> GaussianState {
    let t_len = rets.len() as int;
    let wsum = spec_gamma_wsum(states, tm, init, rets, j, t_len);
    if wsum <= 0 {
        states[j]
    } else {
        let new_mean = spec_gamma_msum(states, tm, init, rets, j, t_len) / wsum;
        let vraw = spec_gamma_vsum(states, tm, init, rets, j, new_mean, t_len) / wsum;
        let new_var = if vraw < VAR_FLOOR as int {
            VAR_FLOOR as int
        } else {
            vraw
        };
        GaussianState {
            mean: ((7 * states[j].mean + 3 * new_mean) / 10) as i64,
            variance: ((7 * states[j].variance + 3 * new_var) / 10) as u64,
            sum: states[j].sum,
            sum_sq: states[j].sum_sq,
            count: states[j].count,
        }
    }
}

/// Occupancy rows known pointwise equal to the specification rows carry
/// their column sums over to the specification sums.
proof fn lemma_gamma_sums_bridge(
    gammas: Seq<Vec<u64>>,
    states: Seq<GaussianState>,
    tm: Seq<Seq<u64>>,
    init: Seq<u64>,
    rets: Seq<i64>,
    j: int,
    nm: int,
    upto: int,
)
    requires
        0 <= upto <= gammas.len(),
        forall|t: int|
            0 <= t < upto ==> (#[trigger] gammas[t])@ == spec_gamma_row(
                states,
                tm,
                init,
                rets,
                t,
            ),
    ensures
        gamma_col_sum(gammas, j, upto) == spec_gamma_wsum(states, tm, init, rets, j, upto),
        gamma_col_msum(gammas, rets, j, upto) == spec_gamma_msum(
            states,
            tm,
            init,
            rets,
            j,
            upto,
        ),
        gamma_col_vsum(gammas, rets, j, nm, upto) == spec_gamma_vsum(
            states,
            tm,
            init,
            rets,
            j,
            nm,
            upto,
        ),
    decreases upto,
{
    if upto > 0 {
        lemma_gamma_sums_bridge(gammas, states, tm, init, rets, j, nm, upto - 1);
    }
}

impl HMMRegimeDetector {
    /// The normalized forward pass over the buffered returns.
    #[verifier::rlimit(100)]
    #[verifier::spinoff_prover]
    fn bw_alphas(&self) -> (alphas: Vec<Vec<u64>>)
        requires
            self.wf(),
            1 <= self.returns_history@.len(),
        ensures
            alphas@.len() == self.returns_history@.len(),
            forall|t: int|
                0 <= t < alphas@.len() ==> (#[trigger] alphas@[t])@ == spec_alpha_row(
                    self.states@,
                    tm_rows(self.transition_matrix@),
                    self.initial_probs@,
                    self.returns_history@,
                    t,
                ),
            forall|t: int|
                0 <= t < alphas@.len() ==> (#[trigger] alphas@[t])@.len()
                    == self.config.n_states,
            forall|t: int, k: int|
                0 <= t < alphas@.len() && 0 <= k < self.config.n_states
                    ==> (#[trigger] alphas@[t]@[k]) <= PROB_SCALE,
    {
        let ghost gstates = self.states@;
        let ghost gtm = tm_rows(self.transition_matrix@);
        let ghost ginit = self.initial_probs@;
        let ghost grets = self.returns_history@;
        let n = self.config.n_states;
        let t_len = self.returns_history.len();
        let mut alphas: Vec<Vec<u64>> = Vec::new();
        let r0 = self.returns_history[0];
        let mut w0: Vec<u128> = Vec::new();
        let mut j: usize = 0;
        while j < n
            invariant
                j <= n,
                self.wf(),
                n == self.config.n_states,
                gstates == self.states@,
                ginit == self.initial_probs@,
                w0@.len() == j,
                forall|k: int| 0 <= k < j ==> (#[trigger] w0@[k])
                    <= 0x1_0000_0000_0000_0000_0000_0000,
                forall|k: int| 0 <= k < j ==> (#[trigger] w0@[k]) == spec_alpha0_w(
                    gstates,
                    ginit,
                    r0 as int,
                )[k],
                t_len == self.returns_history@.len(),
                1 <= t_len,
                -(RET_MAX as int) <= r0 as int <= RET_MAX as int,
            decreases n - j,
        {
            let e = emission_weight(r0, self.states[j].mean, self.states[j].variance);
            proof {
                assert((e as int) * (self.initial_probs@[j as int] as int)
                    <= 10_000_000_000_000int * 1_000_000_000int && 0 <= (e as int) * (
                self.initial_probs@[j as int] as int)) by (nonlinear_arith)
                    requires
                        0 <= e as int <= 10_000_000_000_000int,
                        0 <= self.initial_probs@[j as int] as int <= PROB_SCALE as int,
                ;
            }
            let wj: u128 = (e as u128) * (self.initial_probs[j] as u128);
            w0.push(wj);
            proof {
                assert(w0@[j as int] == spec_alpha0_w(gstates, ginit, r0 as int)[j as int]);
            }
            j = j + 1;
        }
        proof {
            assert(w0@ =~= spec_alpha0_w(gstates, ginit, r0 as int));
        }
        let total0 = sum_u128(&w0);
        let row0 = if total0 == 0 {
            uniform_probs(n)
        } else {
            normalize_exact(&w0)
        };
        proof {
            assert(row0@ == spec_alpha_row(gstates, gtm, ginit, grets, 0));
        }
        alphas.push(row0);
        let mut t: usize = 1;
        while t < t_len
            invariant
                1 <= t <= t_len,
                self.wf(),
                n == self.config.n_states,
                gstates == self.states@,
                gtm == tm_rows(self.transition_matrix@),
                ginit == self.initial_probs@,
                grets == self.returns_history@,
                t_len == self.returns_history@.len(),
                alphas@.len() == t,
                forall|u: int|
                    0 <= u < t ==> (#[trigger] alphas@[u])@ == spec_alpha_row(
                        gstates,
                        gtm,
                        ginit,
                        grets,
                        u,
                    ),
                forall|u: int| 0 <= u < t ==> (#[trigger] alphas@[u])@.len() == n,
                forall|u: int, k: int|
                    0 <= u < t && 0 <= k < n ==> (#[trigger] alphas@[u]@[k]) <= PROB_SCALE,
            decreases t_len - t,
        {
            let rt = self.returns_history[t];
            let prev = &alphas[t - 1];
            let mut w: Vec<u128> = Vec::new();
            let mut jj: usize = 0;
            while jj < n
                invariant
                    jj <= n,
                    t < t_len,
                    self.wf(),
                    n == self.config.n_states,
                    gstates == self.states@,
                    gtm == tm_rows(self.transition_matrix@),
                    t_len == self.returns_history@.len(),
                    prev@.len() == n,
                    forall|k: int| 0 <= k < n ==> (#[trigger] prev@[k]) <= PROB_SCALE,
                    -(RET_MAX as int) <= rt as int <= RET_MAX as int,
                    w@.len() == jj,
                    forall|k: int| 0 <= k < jj ==> (#[trigger] w@[k])
                        <= 0x1_0000_0000_0000_0000_0000_0000,
                    forall|k: int| 0 <= k < jj ==> (#[trigger] w@[k]) == spec_forward_w(
                        gstates,
                        gtm,
                        prev@,
                        rt as int,
                    )[k],
                decreases n - jj,
            {
                let mut acc: u128 = 0;
                let mut i: usize = 0;
                while i < n
                    invariant
                        i <= n,
                        jj < n,
                        self.wf(),
                        n == self.config.n_states,
                        gtm == tm_rows(self.transition_matrix@),
                        prev@.len() == n,
                        forall|k: int| 0 <= k < n ==> (#[trigger] prev@[k]) <= PROB_SCALE,
                        acc as int == spec_col_dot(gtm, prev@, jj as int, i as int),
                        acc <= (i as int) * ((PROB_SCALE as int) * (PROB_SCALE as int)),
                    decreases n - i,
                {
                    proof {
                        assert(gtm[i as int] == self.transition_matrix@[i as int]@);
                        let a = self.transition_matrix@[i as int]@[jj as int] as int;
                        let b = prev@[i as int] as int;
                        assert(0 <= a * b <= (PROB_SCALE as int) * (PROB_SCALE as int))
                            by (nonlinear_arith)
                            requires
                                0 <= a <= PROB_SCALE as int,
                                0 <= b <= PROB_SCALE as int,
                        ;
                        assert((i as int) * ((PROB_SCALE as int) * (PROB_SCALE as int)) + (
                        PROB_SCALE as int) * (PROB_SCALE as int) == (i as int + 1) * ((
                        PROB_SCALE as int) * (PROB_SCALE as int))) by (nonlinear_arith);
                    }
                    let row = &self.transition_matrix[i];
                    acc = acc + (row[jj] as u128) * (prev[i] as u128);
                    i = i + 1;
                }
                proof {
                    assert(acc as int <= (PROB_SCALE as int) * 16_000_000_000int)
                        by (nonlinear_arith)
                        requires
                            acc as int <= (n as int) * ((PROB_SCALE as int) * (PROB_SCALE as int)),
                            n <= 16,
                    ;
                    lemma_div_bound_upper(acc as int, 16_000_000_000int, PROB_SCALE as int);
                    lemma_div_bound_lower(acc as int, 0, PROB_SCALE as int);
                }
                let pred: u128 = acc / (PROB_SCALE as u128);
                let e = emission_weight(rt, self.states[jj].mean, self.states[jj].variance);
                proof {
                    assert((e as int) * (pred as int) <= 10_000_000_000_000int
                        * 16_000_000_000int) by (nonlinear_arith)
                        requires
                            0 <= e as int <= 10_000_000_000_000int,
                            0 <= pred as int <= 16_000_000_000int,
                    ;
                }
                let wj: u128 = (e as u128) * pred;
                w.push(wj);
                proof {
                    assert(w@[jj as int] == spec_forward_w(gstates, gtm, prev@, rt as int)[jj as int]);
                }
                jj = jj + 1;
            }
            proof {
                assert(w@ =~= spec_forward_w(gstates, gtm, prev@, rt as int));
            }
            let tot = sum_u128(&w);
            let row = if tot == 0 {
                uniform_probs(n)
            } else {
                normalize_exact(&w)
            };
            proof {
                assert(prev@ == spec_alpha_row(gstates, gtm, ginit, grets, t as int - 1));
                assert(row@ == spec_alpha_row(gstates, gtm, ginit, grets, t as int));
            }
            alphas.push(row);
            t = t + 1;
        }
        alphas
    }

    /// The normalized backward pass over the buffered returns, rows kept in
    /// reverse order.
    #[verifier::rlimit(100)]
    #[verifier::spinoff_prover]
    fn bw_rev_betas(&self) -> (rb: Vec<Vec<u64>>)
        requires
            self.wf(),
            1 <= self.returns_history@.len(),
        ensures
            rb@.len() == self.returns_history@.len(),
            forall|k: int|
                0 <= k < rb@.len() ==> (#[trigger] rb@[k])@ == spec_rev_beta_row(
                    self.states@,
                    tm_rows(self.transition_matrix@),
                    self.returns_history@,
                    k,
                ),
            forall|k: int|
                0 <= k < rb@.len() ==> (#[trigger] rb@[k])@.len() == self.config.n_states,
            forall|u: int, k: int|
                0 <= u < rb@.len() && 0 <= k < self.config.n_states ==> (#[trigger] rb@[u]@[k])
                    <= PROB_SCALE,
    {
        let ghost gstates = self.states@;
        let ghost gtm = tm_rows(self.transition_matrix@);
        let ghost grets = self.returns_history@;
        let n = self.config.n_states;
        let t_len = self.returns_history.len();
        let mut rev_beta: Vec<Vec<u64>> = Vec::new();
        let mut last: Vec<u64> = Vec::new();
        let mut z: usize = 0;
        while z < n
            invariant
                z <= n,
                last@.len() == z,
                forall|k: int| 0 <= k < z ==> (#[trigger] last@[k]) == PROB_SCALE,
            decreases n - z,
        {
            last.push(PROB_SCALE);
            z = z + 1;
        }
        proof {
            assert(last@ =~= spec_rev_beta_row(gstates, gtm, grets, 0));
        }
        rev_beta.push(last);
        let mut kk: usize = 1;
        while kk < t_len
            invariant
                1 <= kk <= t_len,
                self.wf(),
                n == self.config.n_states,
                gstates == self.states@,
                gtm == tm_rows(self.transition_matrix@),
                grets == self.returns_history@,
                t_len == self.returns_history@.len(),
                rev_beta@.len() == kk,
                forall|u: int|
                    0 <= u < kk ==> (#[trigger] rev_beta@[u])@ == spec_rev_beta_row(
                        gstates,
                        gtm,
                        grets,
                        u,
                    ),
                forall|u: int| 0 <= u < kk ==> (#[trigger] rev_beta@[u])@.len() == n,
                forall|u: int, k: int|
                    0 <= u < kk && 0 <= k < n ==> (#[trigger] rev_beta@[u]@[k]) <= PROB_SCALE,
            decreases t_len - kk,
        {
            let rt = self.returns_history[t_len - kk];
            let prev = &rev_beta[kk - 1];
            let mut w: Vec<u128> = Vec::new();
            let mut i: usize = 0;
            while i < n
                invariant
                    i <= n,
                    kk < t_len,
                    self.wf(),
                    n == self.config.n_states,
                    gstates == self.states@,
                    gtm == tm_rows(self.transition_matrix@),
                    t_len == self.returns_history@.len(),
                    prev@.len() == n,
                    forall|k: int| 0 <= k < n ==> (#[trigger] prev@[k]) <= PROB_SCALE,
                    -(RET_MAX as int) <= rt as int <= RET_MAX as int,
                    w@.len() == i,
                    forall|k: int| 0 <= k < i ==> (#[trigger] w@[k])
                        <= 0x1_0000_0000_0000_0000_0000_0000,
                    forall|k: int| 0 <= k < i ==> (#[trigger] w@[k]) == spec_beta_w(
                        gstates,
                        gtm,
                        prev@,
                        rt as int,
                    )[k],
                decreases n - i,
            {
                let mut acc: u128 = 0;
                let mut jj: usize = 0;
                while jj < n
                    invariant
                        jj <= n,
                        i < n,
                        self.wf(),
                        n == self.config.n_states,
                        gstates == self.states@,
                        gtm == tm_rows(self.transition_matrix@),
                        t_len == self.returns_history@.len(),
                        kk < t_len,
                        prev@.len() == n,
                        forall|k: int| 0 <= k < n ==> (#[trigger] prev@[k]) <= PROB_SCALE,
                        -(RET_MAX as int) <= rt as int <= RET_MAX as int,
                        acc as int == spec_beta_dot(gstates, gtm, prev@, rt as int, i as int, jj as int),
                        acc <= (jj as int) * (10_000_000_000_000int * 1_000_000_000int),
                    decreases n - jj,
                {
                    proof {
                        assert(gtm[i as int] == self.transition_matrix@[i as int]@);
                        let a = self.transition_matrix@[i as int]@[jj as int] as int;
                        let b = prev@[jj as int] as int;
                        assert(0 <= a * b <= (PROB_SCALE as int) * (PROB_SCALE as int))
                            by (nonlinear_arith)
                            requires
                                0 <= a <= PROB_SCALE as int,
                                0 <= b <= PROB_SCALE as int,
                        ;
                    }
                    let row = &self.transition_matrix[i];
                    let ab: u128 = (row[jj] as u128) * (prev[jj] as u128);
                    proof {
                        assert(ab as int <= (PROB_SCALE as int) * (PROB_SCALE as int));
                        lemma_div_bound_upper(ab as int, PROB_SCALE as int, PROB_SCALE as int);
                        lemma_div_bound_lower(ab as int, 0, PROB_SCALE as int);
                    }
                    let abs: u128 = ab / (PROB_SCALE as u128);
                    let e = emission_weight(rt, self.states[jj].mean, self.states[jj].variance);
                    proof {
                        assert((abs as int) * (e as int) <= 1_000_000_000int
                            * 10_000_000_000_000int && 0 <= (abs as int) * (e as int))
                            by (nonlinear_arith)
                            requires
                                0 <= abs as int <= PROB_SCALE as int,
                                0 <= e as int <= 10_000_000_000_000int,
                        ;
                        assert((jj as int) * (10_000_000_000_000int * 1_000_000_000int)
                            + 10_000_000_000_000int * 1_000_000_000int == (jj as int + 1) * (
                        10_000_000_000_000int * 1_000_000_000int)) by (nonlinear_arith);
                    }
                    acc = acc + abs * (e as u128);
                    jj = jj + 1;
                }
                w.push(acc);
                proof {
                    assert(acc as int <= 0x1_0000_0000_0000_0000_0000_0000int)
                        by (nonlinear_arith)
                        requires
                            acc as int <= (n as int) * (10_000_000_000_000int * 1_000_000_000int),
                            n <= 16,
                    ;
                    assert(w@[i as int] == spec_beta_w(gstates, gtm, prev@, rt as int)[i as int]);
                }
                i = i + 1;
            }
            proof {
                assert(w@ =~= spec_beta_w(gstates, gtm, prev@, rt as int));
            }
            let tot = sum_u128(&w);
            let row = if tot == 0 {
                uniform_probs(n)
            } else {
                normalize_exact(&w)
            };
            proof {
                assert(prev@ == spec_rev_beta_row(gstates, gtm, grets, kk as int - 1));
                assert(row@ == spec_rev_beta_row(gstates, gtm, grets, kk as int));
            }
            rev_beta.push(row);
            kk = kk + 1;
        }
        rev_beta
    }

    /// The state occupancies: the normalized product of the forward and
    /// backward masses at every time.
    #[verifier::rlimit(100)]
    #[verifier::spinoff_prover]
    fn bw_gammas(&self, alphas: &Vec<Vec<u64>>, rev_beta: &Vec<Vec<u64>>) -> (gammas: Vec<
        Vec<u64>,
    >)
        requires
            self.wf(),
            1 <= self.returns_history@.len(),
            alphas@.len() == self.returns_history@.len(),
            forall|t: int|
                0 <= t < alphas@.len() ==> (#[trigger] alphas@[t])@ == spec_alpha_row(
                    self.states@,
                    tm_rows(self.transition_matrix@),
                    self.initial_probs@,
                    self.returns_history@,
                    t,
                ),
            forall|t: int|
                0 <= t < alphas@.len() ==> (#[trigger] alphas@[t])@.len()
                    == self.config.n_states,
            forall|t: int, k: int|
                0 <= t < alphas@.len() && 0 <= k < self.config.n_states
                    ==> (#[trigger] alphas@[t]@[k]) <= PROB_SCALE,
            rev_beta@.len() == self.returns_history@.len(),
            forall|k: int|
                0 <= k < rev_beta@.len() ==> (#[trigger] rev_beta@[k])@ == spec_rev_beta_row(
                    self.states@,
                    tm_rows(self.transition_matrix@),
                    self.returns_history@,
                    k,
                ),
            forall|k: int|
                0 <= k < rev_beta@.len() ==> (#[trigger] rev_beta@[k])@.len()
                    == self.config.n_states,
            forall|u: int, k: int|
                0 <= u < rev_beta@.len() && 0 <= k < self.config.n_states
                    ==> (#[trigger] rev_beta@[u]@[k]) <= PROB_SCALE,
        ensures
            gammas@.len() == self.returns_history@.len(),
            forall|t: int|
                0 <= t < gammas@.len() ==> (#[trigger] gammas@[t])@ == spec_gamma_row(
                    self.states@,
                    tm_rows(self.transition_matrix@),
                    self.initial_probs@,
                    self.returns_history@,
                    t,
                ),
            forall|t: int|
                0 <= t < gammas@.len() ==> (#[trigger] gammas@[t])@.len()
                    == self.config.n_states,
            forall|u: int, k: int|
                0 <= u < gammas@.len() && 0 <= k < self.config.n_states
                    ==> (#[trigger] gammas@[u]@[k]) <= PROB_SCALE,
    {
        let ghost gstates = self.states@;
        let ghost gtm = tm_rows(self.transition_matrix@);
        let ghost ginit = self.initial_probs@;
        let ghost grets = self.returns_history@;
        let n = self.config.n_states;
        let t_len = self.returns_history.len();
        let mut gammas: Vec<Vec<u64>> = Vec::new();
        let mut tt: usize = 0;
        while tt < t_len
            invariant
                tt <= t_len,
                self.wf(),
                n == self.config.n_states,
                gstates == self.states@,
                gtm == tm_rows(self.transition_matrix@),
                ginit == self.initial_probs@,
                grets == self.returns_history@,
                t_len == self.returns_history@.len(),
                alphas@.len() == t_len,
                rev_beta@.len() == t_len,
                forall|u: int|
                    0 <= u < t_len ==> (#[trigger] alphas@[u])@ == spec_alpha_row(
                        gstates,
                        gtm,
                        ginit,
                        grets,
                        u,
                    ),
                forall|u: int| 0 <= u < t_len ==> (#[trigger] alphas@[u])@.len() == n,
                forall|u: int, k: int|
                    0 <= u < t_len && 0 <= k < n ==> (#[trigger] alphas@[u]@[k]) <= PROB_SCALE,
                forall|u: int|
                    0 <= u < t_len ==> (#[trigger] rev_beta@[u])@ == spec_rev_beta_row(
                        gstates,
                        gtm,
                        grets,
                        u,
                    ),
                forall|u: int| 0 <= u < t_len ==> (#[trigger] rev_beta@[u])@.len() == n,
                forall|u: int, k: int|
                    0 <= u < t_len && 0 <= k < n ==> (#[trigger] rev_beta@[u]@[k]) <= PROB_SCALE,
                gammas@.len() == tt,
                forall|u: int|
                    0 <= u < tt ==> (#[trigger] gammas@[u])@ == spec_gamma_row(
                        gstates,
                        gtm,
                        ginit,
                        grets,
                        u,
                    ),
                forall|u: int| 0 <= u < tt ==> (#[trigger] gammas@[u])@.len() == n,
                forall|u: int, k: int|
                    0 <= u < tt && 0 <= k < n ==> (#[trigger] gammas@[u]@[k]) <= PROB_SCALE,
            decreases t_len - tt,
        {
            let arow = &alphas[tt];
            let brow = &rev_beta[t_len - 1 - tt];
            let mut w: Vec<u128> = Vec::new();
            let mut k: usize = 0;
            while k < n
                invariant
                    k <= n,
                    arow@.len() == n,
                    brow@.len() == n,
                    forall|u: int| 0 <= u < n ==> (#[trigger] arow@[u]) <= PROB_SCALE,
                    forall|u: int| 0 <= u < n ==> (#[trigger] brow@[u]) <= PROB_SCALE,
                    w@.len() == k,
                    forall|u: int| 0 <= u < k ==> (#[trigger] w@[u])
                        <= 0x1_0000_0000_0000_0000_0000_0000,
                    forall|u: int| 0 <= u < k ==> (#[trigger] w@[u]) == (arow@[u] * brow@[u]) as u128,
                decreases n - k,
            {
                proof {
                    assert(0 <= (arow@[k as int] as int) * (brow@[k as int] as int) <= (
                    PROB_SCALE as int) * (PROB_SCALE as int)) by (nonlinear_arith)
                        requires
                            0 <= arow@[k as int] as int <= PROB_SCALE as int,
                            0 <= brow@[k as int] as int <= PROB_SCALE as int,
                    ;
                }
                let g: u128 = (arow[k] as u128) * (brow[k] as u128);
                w.push(g);
                k = k + 1;
            }
            proof {
                let a = spec_alpha_row(gstates, gtm, ginit, grets, tt as int);
                let b = spec_rev_beta_row(gstates, gtm, grets, t_len as int - 1 - tt as int);
                assert(w@ =~= Seq::new(gstates.len(), |j: int| (a[j] * b[j]) as u128));
            }
            let tot = sum_u128(&w);
            let grow = if tot == 0 {
                let mut zrow: Vec<u64> = Vec::new();
                let mut y: usize = 0;
                while y < n
                    invariant
                        y <= n,
                        zrow@.len() == y,
                        forall|u: int| 0 <= u < y ==> (#[trigger] zrow@[u]) == 0,
                    decreases n - y,
                {
                    zrow.push(0);
                    y = y + 1;
                }
                proof {
                    assert(zrow@ =~= Seq::new(gstates.len(), |j: int| 0u64));
                }
                zrow
            } else {
                normalize_exact(&w)
            };
            proof {
                assert(grow@ == spec_gamma_row(gstates, gtm, ginit, grets, tt as int));
            }
            gammas.push(grow);
            tt = tt + 1;
        }
        gammas
    }

    /// Periodic batch re-estimation of the emission parameters from the
    /// buffered returns: normalized forward and backward passes, state
    /// occupancies, and a 0.7 / 0.3 blend of the old and re-estimated
    /// Gaussians, with the variances floored. The transition matrix is
    /// deliberately left untouched: the online shrinkage toward the prior
    /// governs it. The running diagnostics are preserved.
    #[verifier::rlimit(100)]
    #[verifier::spinoff_prover]
    fn baum_welch_update(&mut self)
        requires
            old(self).wf(),
        ensures
            final(self).config == old(self).config,
            final(self).transition_matrix == old(self).transition_matrix,
            final(self).initial_probs == old(self).initial_probs,
            final(self).state_probs == old(self).state_probs,
            final(self).returns_history == old(self).returns_history,
            final(self).prices == old(self).prices,
            final(self).current_state == old(self).current_state,
            final(self).current_confidence == old(self).current_confidence,
            final(self).n_observations == old(self).n_observations,
            final(self).last_regime == old(self).last_regime,
            final(self).states@.len() == old(self).states@.len(),
            forall|i: int|
                0 <= i < final(self).states@.len() ==> (#[trigger] final(self).states@[i]).wf(),
            forall|i: int|
                0 <= i < final(self).states@.len() ==> (#[trigger] final(self).states@[i]).sum
                    == old(self).states@[i].sum && final(self).states@[i].sum_sq == old(
                    self,
                ).states@[i].sum_sq && final(self).states@[i].count == old(self).states@[i].count,
            old(self).returns_history@.len() < old(self).config.min_observations
                ==> final(self).states == old(self).states,
            old(self).returns_history@.len() >= old(self).config.min_observations
                ==> forall|j: int|
                0 <= j < final(self).states@.len() ==> #[trigger] final(self).states@[j]
                    == spec_bw_reestimated(
                    old(self).states@,
                    tm_rows(old(self).transition_matrix@),
                    old(self).initial_probs@,
                    old(self).returns_history@,
                    j,
                ),
            final(self).wf(),
    {
        if (self.returns_history.len() as u64) < self.config.min_observations {
            return ;
        }
        let ghost gstates = self.states@;
        let ghost gtm = tm_rows(self.transition_matrix@);
        let ghost ginit = self.initial_probs@;
        let ghost grets = self.returns_history@;
        let n = self.config.n_states;
        let t_len = self.returns_history.len();
        let alphas = self.bw_alphas();
        let rev_beta = self.bw_rev_betas();
        let gammas = self.bw_gammas(&alphas, &rev_beta);
        let mut sj: usize = 0;
        while sj < n
            invariant
                sj <= n,
                self.wf(),
                n == self.config.n_states,
                t_len == self.returns_history@.len(),
                1 <= t_len <= 4_096,
                gtm == tm_rows(self.transition_matrix@),
                ginit == self.initial_probs@,
                grets == self.returns_history@,
                gammas@.len() == t_len,
                forall|u: int|
                    0 <= u < t_len ==> (#[trigger] gammas@[u])@ == spec_gamma_row(
                        gstates,
                        gtm,
                        ginit,
                        grets,
                        u,
                    ),
                forall|u: int| 0 <= u < t_len ==> (#[trigger] gammas@[u])@.len() == n,
                forall|u: int, k: int|
                    0 <= u < t_len && 0 <= k < n ==> (#[trigger] gammas@[u]@[k]) <= PROB_SCALE,
                self.config == old(self).config,
                self.transition_matrix == old(self).transition_matrix,
                self.initial_probs == old(self).initial_probs,
                self.state_probs == old(self).state_probs,
                self.returns_history == old(self).returns_history,
                self.prices == old(self).prices,
                self.current_state == old(self).current_state,
                self.current_confidence == old(self).current_confidence,
                self.n_observations == old(self).n_observations,
                self.last_regime == old(self).last_regime,
                gstates == old(self).states@,
                self.states@.len() == old(self).states@.len(),
                forall|k: int|
                    0 <= k < sj ==> #[trigger] self.states@[k] == spec_bw_reestimated(
                        gstates,
                        gtm,
                        ginit,
                        grets,
                        k,
                    ),
                forall|k: int|
                    sj <= k < n ==> #[trigger] self.states@[k] == old(self).states@[k],
            decreases n - sj,
        {
            let g = self.states[sj];
            let mut wsum: u128 = 0;
            let mut msum: i128 = 0;
            let mut u: usize = 0;
            while u < t_len
                invariant
                    u <= t_len,
                    sj < n,
                    self.wf(),
                    n == self.config.n_states,
                    t_len == self.returns_history@.len(),
                    1 <= t_len <= 4_096,
                    grets == self.returns_history@,
                    gammas@.len() == t_len,
                    forall|v: int| 0 <= v < t_len ==> (#[trigger] gammas@[v])@.len() == n,
                    forall|v: int, k: int|
                        0 <= v < t_len && 0 <= k < n ==> (#[trigger] gammas@[v]@[k]) <= PROB_SCALE,
                    wsum as int == gamma_col_sum(gammas@, sj as int, u as int),
                    wsum <= (u as int) * (PROB_SCALE as int),
                    msum as int == gamma_col_msum(gammas@, grets, sj as int, u as int),
                    -((wsum as int) * (RET_MAX as int)) <= msum as int <= (wsum as int) * (
                    RET_MAX as int),
                decreases t_len - u,
            {
                let gv = gammas[u][sj];
                let rv = self.returns_history[u];
                proof {
                    let gi = gv as int;
                    let ri = rv as int;
                    assert(-(gi * (RET_MAX as int)) <= gi * ri <= gi * (RET_MAX as int))
                        by (nonlinear_arith)
                        requires
                            0 <= gi,
                            -(RET_MAX as int) <= ri <= RET_MAX as int,
                    ;
                    assert(((wsum as int) + gi) * (RET_MAX as int) == (wsum as int) * (
                    RET_MAX as int) + gi * (RET_MAX as int)) by (nonlinear_arith);
                    assert((u as int) * (PROB_SCALE as int) + PROB_SCALE as int == (u as int + 1)
                        * (PROB_SCALE as int)) by (nonlinear_arith);
                    assert(gi * (RET_MAX as int) <= 1_000_000_000int * 60_000_000_000int)
                        by (nonlinear_arith)
                        requires
                            0 <= gi <= 1_000_000_000int,
                    ;
                }
                wsum = wsum + (gv as u128);
                msum = msum + (gv as i128) * (rv as i128);
                u = u + 1;
            }
            proof {
                lemma_gamma_sums_bridge(gammas@, gstates, gtm, ginit, grets, sj as int, 0, t_len as int);
            }
            if wsum > 0 {
                proof {
                    assert(wsum as int <= 4_096int * 1_000_000_000int);
                    lemma_div_bound_upper(msum as int, RET_MAX as int, wsum as int);
                    assert((wsum as int) * (-(RET_MAX as int)) == -((wsum as int) * (
                    RET_MAX as int))) by (nonlinear_arith);
                    lemma_div_bound_lower(msum as int, -(RET_MAX as int), wsum as int);
                }
                let new_mean_wide = crate::fixed::div_floor_i128(msum, wsum as u64);
                let new_mean: i64 = new_mean_wide as i64;
                let mut vsum: u128 = 0;
                let mut gsum: u128 = 0;
                let mut u2: usize = 0;
                while u2 < t_len
                    invariant
                        u2 <= t_len,
                        sj < n,
                        self.wf(),
                        t_len == self.returns_history@.len(),
                        1 <= t_len <= 4_096,
                        n == self.config.n_states,
                        grets == self.returns_history@,
                        gammas@.len() == t_len,
                        forall|v: int| 0 <= v < t_len ==> (#[trigger] gammas@[v])@.len() == n,
                        forall|v: int, k: int|
                            0 <= v < t_len && 0 <= k < n ==> (#[trigger] gammas@[v]@[k])
                                <= PROB_SCALE,
                        -(RET_MAX as int) <= new_mean as int <= RET_MAX as int,
                        gsum as int == gamma_col_sum(gammas@, sj as int, u2 as int),
                        gsum <= (u2 as int) * (PROB_SCALE as int),
                        vsum as int == gamma_col_vsum(
                            gammas@,
                            grets,
                            sj as int,
                            new_mean as int,
                            u2 as int,
                        ),
                        vsum <= (gsum as int) * 14_400_000_000_000_000int,
                    decreases t_len - u2,
                {
                    let gv = gammas[u2][sj];
                    let rv = self.returns_history[u2];
                    let d: u64 = if rv >= new_mean {
                        (rv - new_mean) as u64
                    } else {
                        (new_mean - rv) as u64
                    };
                    proof {
                        assert((d as int) * (d as int) <= 120_000_000_000int * 120_000_000_000int)
                            by (nonlinear_arith)
                            requires
                                d <= 120_000_000_000u64,
                        ;
                        lemma_div_bound_upper(
                            (d as int) * (d as int),
                            14_400_000_000_000_000int,
                            CONF_ONE as int,
                        );
                        lemma_div_bound_lower((d as int) * (d as int), 0, CONF_ONE as int);
                    }
                    let q: u128 = (d as u128) * (d as u128) / (CONF_ONE as u128);
                    proof {
                        let gi = gv as int;
                        let qi = q as int;
                        assert(0 <= gi * qi <= gi * 14_400_000_000_000_000int) by (nonlinear_arith)
                            requires
                                0 <= gi,
                                0 <= qi <= 14_400_000_000_000_000int,
                        ;
                        assert(((gsum as int) + gi) * 14_400_000_000_000_000int == (gsum as int)
                            * 14_400_000_000_000_000int + gi * 14_400_000_000_000_000int)
                            by (nonlinear_arith);
                        assert((u2 as int) * (PROB_SCALE as int) + PROB_SCALE as int == (u2 as int
                            + 1) * (PROB_SCALE as int)) by (nonlinear_arith);
                        assert(gi * 14_400_000_000_000_000int <= 1_000_000_000int
                            * 14_400_000_000_000_000int) by (nonlinear_arith)
                            requires
                                0 <= gi <= 1_000_000_000int,
                        ;
                        assert((gsum as int) * 14_400_000_000_000_000int <= (4_096int
                            * 1_000_000_000int) * 14_400_000_000_000_000int) by (nonlinear_arith)
                            requires
                                0 <= gsum as int <= 4_096int * 1_000_000_000int,
                        ;
                    }
                    vsum = vsum + (gv as u128) * q;
                    gsum = gsum + (gv as u128);
                    u2 = u2 + 1;
                }
                proof {
                    assert(gsum == wsum);
                    lemma_gamma_sums_bridge(
                        gammas@,
                        gstates,
                        gtm,
                        ginit,
                        grets,
                        sj as int,
                        new_mean as int,
                        t_len as int,
                    );
                    lemma_div_bound_upper(vsum as int, 14_400_000_000_000_000int, wsum as int);
                    lemma_div_bound_lower(vsum as int, 0, wsum as int);
                }
                let new_var_raw: u128 = vsum / wsum;
                let new_var: u64 = if (new_var_raw as u64) < VAR_FLOOR {
                    VAR_FLOOR
                } else {
                    new_var_raw as u64
                };
                proof {
                    crate::fixed::lemma_convex_bounds(g.mean as int, new_mean as int, 3, 10);
                    crate::fixed::lemma_convex_bounds(g.variance as int, new_var as int, 3, 10);
                }
                let blended_mean_wide = crate::fixed::div_floor_i128(
                    7 * (g.mean as i128) + 3 * (new_mean as i128),
                    10,
                );
                let blended_var_wide: u128 = (7 * (g.variance as u128) + 3 * (new_var as u128))
                    / 10;
                let g2 = GaussianState {
                    mean: blended_mean_wide as i64,
                    variance: blended_var_wide as u64,
                    sum: g.sum,
                    sum_sq: g.sum_sq,
                    count: g.count,
                };
                proof {
                    assert(g2 == spec_bw_reestimated(gstates, gtm, ginit, grets, sj as int));
                }
                self.states.set(sj, g2);
            } else {
                proof {
                    assert(self.states@[sj as int] == spec_bw_reestimated(
                        gstates,
                        gtm,
                        ginit,
                        grets,
                        sj as int,
                    ));
                }
            }
            sj = sj + 1;
        }
    }
}

impl HMMRegimeDetector {
    /// The relation between the detector states before and after absorbing
    /// one return observation. The filtered distribution, the histories and
    /// the transition matrix are pinned exactly; after a batch re-estimation
    /// the Gaussian parameters are pinned to their invariant ranges.
    pub open spec fn spec_processed(pre: Self, post: Self, ret: int) -> bool {
        let nobs = crate::fixed::spec_sat_add_u64(pre.n_observations as int, 1);
        let hist = crate::fixed::ring_push(
            pre.returns_history@,
            ret as i64,
            pre.config.lookback_window as int,
        );
        let dist = spec_forward_dist(
            pre.states@,
            tm_rows(pre.transition_matrix@),
            pre.state_probs@,
            ret,
        );
        let online = nobs > pre.config.min_observations && pre.config.learning_rate > 0;
        let bw = nobs > 0 && nobs % ((pre.config.lookback_window as int) / 2) == 0 && hist.len()
            >= pre.config.min_observations;
        &&& post.config == pre.config
        &&& post.initial_probs == pre.initial_probs
        &&& post.n_observations as int == nobs
        &&& post.returns_history@ == hist
        &&& post.state_probs@ == dist
        &&& post.current_state < post.state_probs@.len()
        &&& post.state_probs@[post.current_state as int] == post.current_confidence
        &&& (forall|j: int|
            0 <= j < post.state_probs@.len() ==> #[trigger] post.state_probs@[j]
                <= post.current_confidence)
        &&& post.states@.len() == pre.states@.len()
        &&& (if online {
            &&& post.transition_matrix@.len() == pre.transition_matrix@.len()
            &&& (forall|i: int|
                0 <= i < pre.transition_matrix@.len()
                    ==> (#[trigger] post.transition_matrix@[i])@ == spec_row_shrunk(
                    pre.transition_matrix@[i]@,
                    i,
                    pre.config.n_states as int,
                    pre.config.transition_smoothing as int,
                ))
        } else {
            post.transition_matrix == pre.transition_matrix
        })
        &&& (!online && !bw ==> post.states == pre.states)
        &&& (online && !bw ==> forall|i: int|
            0 <= i < pre.states@.len() ==> #[trigger] post.states@[i] == spec_gauss_online(
                pre.states@[i],
                dist[i],
                ret,
                pre.config.learning_rate as int,
            ))
        &&& (bw ==> {
            let mid_states = if online {
                Seq::new(
                    pre.states@.len(),
                    |i: int|
                        spec_gauss_online(
                            pre.states@[i],
                            dist[i],
                            ret,
                            pre.config.learning_rate as int,
                        ),
                )
            } else {
                pre.states@
            };
            forall|i: int|
                0 <= i < post.states@.len() ==> #[trigger] post.states@[i] == spec_bw_reestimated(
                    mid_states,
                    tm_rows(post.transition_matrix@),
                    pre.initial_probs@,
                    hist,
                    i,
                )
        })
        &&& post.last_regime == pre.last_regime
    }

    /// Absorb one return observation: buffer it, run the forward step, and
    /// apply the online and periodic batch parameter updates.
    fn process_return(&mut self, ret: i64)
        requires
            old(self).wf(),
            -(RET_MAX as int) <= ret as int <= RET_MAX as int,
        ensures
            HMMRegimeDetector::spec_processed(*old(self), *final(self), ret as int),
            final(self).prices == old(self).prices,
            final(self).wf(),
    {
        self.n_observations = crate::fixed::sat_add_u64(self.n_observations, 1);
        self.returns_history.push(ret);
        if self.returns_history.len() > self.config.lookback_window {
            self.returns_history.remove(0);
        }
        proof {
            assert(self.returns_history@ =~= crate::fixed::ring_push(
                old(self).returns_history@,
                ret,
                old(self).config.lookback_window as int,
            ));
        }
        self.forward_step(ret);
        let online = self.n_observations > self.config.min_observations
            && self.config.learning_rate > 0;
        if online {
            self.online_parameter_update(ret);
        }
        let half = (self.config.lookback_window as u64) / 2;
        if self.n_observations > 0 && self.n_observations % half == 0 && (
        self.returns_history.len() as u64) >= self.config.min_observations {
            let ghost gmid = self.states@;
            self.baum_welch_update();
            proof {
                let dist = spec_forward_dist(
                    old(self).states@,
                    tm_rows(old(self).transition_matrix@),
                    old(self).state_probs@,
                    ret as int,
                );
                if online {
                    assert(gmid =~= Seq::new(
                        old(self).states@.len(),
                        |i: int|
                            spec_gauss_online(
                                old(self).states@[i],
                                dist[i],
                                ret as int,
                                old(self).config.learning_rate as int,
                            ),
                    ));
                } else {
                    assert(gmid == old(self).states@);
                }
            }
        }
    }

    /// The regime a state index denotes under the current parameters.
    fn state_to_regime(&self, state: usize) -> (r: crate::regime::types::MarketRegime)
        requires
            self.wf(),
            state < self.config.n_states,
        ensures
            r == spec_state_regime(self.states@[state as int]),
    {
        let g = &self.states[state];
        if g.variance > 400_000_000 {
            crate::regime::types::MarketRegime::Volatile
        } else if g.mean > 500_000 {
            crate::regime::types::MarketRegime::Trending(
                crate::regime::types::TrendDirection::Bullish,
            )
        } else if g.mean < -500_000 {
            crate::regime::types::MarketRegime::Trending(
                crate::regime::types::TrendDirection::Bearish,
            )
        } else {
            crate::regime::types::MarketRegime::MeanReverting
        }
    }

    /// The confidence record the detector currently reports: `Uncertain`
    /// with confidence zero before readiness; afterwards the regime of the
    /// most likely state with the filtered probability as confidence, and
    /// the annualized mean return and volatility of that state as metrics.
    /// The metric fields are unsigned percent scales, so both diagnostics
    /// are clamped into them: a negative annualized return reads as zero.
    pub open spec fn spec_regime_confidence(self) -> crate::regime::types::RegimeConfidence {
        if self.n_observations < self.config.min_observations {
            crate::regime::types::RegimeConfidence {
                regime: crate::regime::types::MarketRegime::Uncertain,
                confidence: 0,
                adx_value: 0,
                bb_width_percentile: 0,
                trend_strength: 0,
            }
        } else {
            let g = self.states@[self.current_state as int];
            let annret = if g.mean <= 0 {
                0int
            } else {
                let raw = g.mean * 2_520_000 / (crate::fixed::RET_SCALE as int);
                if raw > 10_000 {
                    10_000int
                } else {
                    raw
                }
            };
            let sig = spec_isqrt(g.variance * CONF_ONE);
            let volraw = sig * 158_745 / (crate::fixed::RET_SCALE as int);
            let vol = if volraw > 10_000 {
                10_000int
            } else {
                volraw
            };
            crate::regime::types::RegimeConfidence {
                regime: spec_state_regime(g),
                confidence: (self.current_confidence / 1_000) as u64,
                adx_value: annret as u64,
                bb_width_percentile: vol as u64,
                trend_strength: 0,
            }
        }
    }

    /// The current regime with confidence and diagnostic metrics.
    pub fn get_regime_confidence(&self) -> (r: crate::regime::types::RegimeConfidence)
        requires
            self.wf(),
        ensures
            r == self.spec_regime_confidence(),
            crate::regime::types::spec_confidence_wf(r),
    {
        if self.n_observations < self.config.min_observations {
            return crate::regime::types::RegimeConfidence::new(
                crate::regime::types::MarketRegime::Uncertain,
                0,
            );
        }
        let regime = self.state_to_regime(self.current_state);
        let g = self.states[self.current_state];
        let annret: u64 = if g.mean <= 0 {
            0
        } else {
            proof {
                lemma_div_bound_lower(
                    (g.mean as int) * 2_520_000,
                    0,
                    crate::fixed::RET_SCALE as int,
                );
            }
            let raw: u128 = (g.mean as u128) * 2_520_000 / (crate::fixed::RET_SCALE as u128);
            if raw > 10_000 {
                10_000
            } else {
                raw as u64
            }
        };
        let sig = isqrt((g.variance as u128) * (CONF_ONE as u128));
        proof {
            if sig > 2_000_000_000_000 {
                assert((sig as int) * (sig as int) > 2_000_000_000_000int * 2_000_000_000_000int)
                    by (nonlinear_arith)
                    requires
                        sig as int > 2_000_000_000_000int,
                ;
                assert((g.variance as int) * (CONF_ONE as int) <= 1_000_000_000_000_000_000int
                    * 1_000_000int) by (nonlinear_arith)
                    requires
                        g.variance as int <= VAR_MAX as int,
                ;
                assert(false);
            }
            lemma_div_bound_lower((sig as int) * 158_745, 0, crate::fixed::RET_SCALE as int);
        }
        let volraw: u128 = (sig as u128) * 158_745 / (crate::fixed::RET_SCALE as u128);
        let vol: u64 = if volraw > 10_000 {
            10_000
        } else {
            volraw as u64
        };
        crate::regime::types::RegimeConfidence::with_metrics(
            regime,
            self.current_confidence / 1_000,
            annret,
            vol,
            0,
        )
    }

    /// The full relation between detector states and output across one close.
    pub open spec fn spec_update_relation(
        pre: Self,
        post: Self,
        close: u64,
        out: crate::regime::types::RegimeConfidence,
    ) -> bool {
        &&& post.prices@ == crate::fixed::ring_push(pre.prices@, close, 10)
        &&& (pre.prices@.len() == 0 ==> {
            &&& post.config == pre.config
            &&& post.states == pre.states
            &&& post.transition_matrix == pre.transition_matrix
            &&& post.state_probs == pre.state_probs
            &&& post.returns_history == pre.returns_history
            &&& post.n_observations == pre.n_observations
        })
        &&& (pre.prices@.len() > 0 ==> HMMRegimeDetector::spec_processed(
            pre,
            post,
            crate::fixed::spec_ln_ratio(close as int, pre.prices@.last() as int),
        ))
        &&& out == post.spec_regime_confidence()
    }

    /// Absorb a close price: compute the log-return against the previous
    /// close, run one observation step, and report the current regime.
    pub fn update(&mut self, close: u64) -> (out: crate::regime::types::RegimeConfidence)
        requires
            old(self).wf(),
            1 <= close <= crate::fixed::PRICE_MAX,
        ensures
            HMMRegimeDetector::spec_update_relation(*old(self), *final(self), close, out),
            crate::regime::types::spec_confidence_wf(out),
            final(self).wf(),
    {
        if self.prices.len() > 0 {
            let prev = self.prices[self.prices.len() - 1];
            let ret = crate::fixed::ln_ratio(close, prev);
            self.process_return(ret);
        }
        self.prices.push(close);
        if self.prices.len() > 10 {
            self.prices.remove(0);
        }
        proof {
            assert(self.prices@ =~= crate::fixed::ring_push(old(self).prices@, close, 10));
        }
        self.get_regime_confidence()
    }

    /// Absorb an OHLC bar; only the close participates in the return.
    pub fn update_ohlc(&mut self, high: u64, low: u64, close: u64) -> (out:
        crate::regime::types::RegimeConfidence)
        requires
            old(self).wf(),
            1 <= close <= crate::fixed::PRICE_MAX,
        ensures
            HMMRegimeDetector::spec_update_relation(*old(self), *final(self), close, out),
            crate::regime::types::spec_confidence_wf(out),
            final(self).wf(),
    {
        self.update(close)
    }

    /// The filtered state distribution.
    pub fn state_probabilities(&self) -> (r: &Vec<u64>)
        ensures
            r == &self.state_probs,
    {
        &self.state_probs
    }

    /// The `(mean, variance)` parameters of each state.
    pub fn state_parameters(&self) -> (r: Vec<(i64, u64)>)
        requires
            self.wf(),
        ensures
            r@.len() == self.states@.len(),
            forall|i: int|
                0 <= i < self.states@.len() ==> #[trigger] r@[i] == (
                self.states@[i].mean,
                self.states@[i].variance,
                ),
    {
        let mut out: Vec<(i64, u64)> = Vec::new();
        let mut i: usize = 0;
        while i < self.states.len()
            invariant
                i <= self.states@.len(),
                out@.len() == i,
                forall|k: int|
                    0 <= k < i ==> #[trigger] out@[k] == (
                    self.states@[k].mean,
                    self.states@[k].variance,
                    ),
            decreases self.states@.len() - i,
        {
            let g = &self.states[i];
            out.push((g.mean, g.variance));
            i = i + 1;
        }
        out
    }

    /// The transition matrix.
    pub fn transition_matrix(&self) -> (r: &Vec<Vec<u64>>)
        ensures
            r == &self.transition_matrix,
    {
        &self.transition_matrix
    }

    /// The index of the most likely state.
    pub fn current_state_index(&self) -> (r: usize)
        ensures
            r == self.current_state,
    {
        self.current_state
    }

    /// Whether enough observations have been absorbed to classify.
    pub fn is_ready(&self) -> (r: bool)
        ensures
            r == (self.n_observations >= self.config.min_observations),
    {
        self.n_observations >= self.config.min_observations
    }

    /// Expected bars spent in a state, `1 / (1 - P(stay))`, at scale
    /// [`CONF_ONE`]: zero for an out-of-range state, saturated when the
    /// state is absorbing.
    pub open spec fn spec_expected_duration(self, state: int) -> int {
        if state >= self.config.n_states {
            0int
        } else {
            let a = self.transition_matrix@[state]@[state] as int;
            if a >= PROB_SCALE as int {
                u64::MAX as int
            } else {
                (PROB_SCALE as int) * (CONF_ONE as int) / ((PROB_SCALE as int) - a)
            }
        }
    }

    /// Expected bars spent in a state, at scale [`CONF_ONE`].
    pub fn expected_regime_duration(&self, state: usize) -> (r: u64)
        requires
            self.wf(),
        ensures
            r as int == self.spec_expected_duration(state as int),
    {
        if state >= self.config.n_states {
            return 0;
        }
        let row = &self.transition_matrix[state];
        let a = row[state];
        if a >= PROB_SCALE {
            u64::MAX
        } else {
            proof {
                lemma_div_bound_upper(
                    (PROB_SCALE as int) * (CONF_ONE as int),
                    (PROB_SCALE as int) * (CONF_ONE as int),
                    (PROB_SCALE as int) - a as int,
                );
                lemma_div_bound_lower(
                    (PROB_SCALE as int) * (CONF_ONE as int),
                    0,
                    (PROB_SCALE as int) - a as int,
                );
                assert(((PROB_SCALE as int) - a as int) * ((PROB_SCALE as int) * (
                CONF_ONE as int)) >= (PROB_SCALE as int) * (CONF_ONE as int)) by (nonlinear_arith)
                    requires
                        (PROB_SCALE as int) - a as int >= 1,
                ;
            }
            let wide: u128 = (PROB_SCALE as u128) * (CONF_ONE as u128) / ((PROB_SCALE - a) as u128);
            wide as u64
        }
    }

    /// The most likely next state under the one-step-ahead predictive
    /// distribution, with its probability.
    pub fn predict_next_state(&self) -> (res: (usize, u64))
        requires
            self.wf(),
        ensures
            res.0 < self.config.n_states,
            res.1 as int == spec_col_dot(
                tm_rows(self.transition_matrix@),
                self.state_probs@,
                res.0 as int,
                self.config.n_states as int,
            ) / (PROB_SCALE as int),
            forall|j: int|
                0 <= j < self.config.n_states ==> #[trigger] spec_col_dot(
                    tm_rows(self.transition_matrix@),
                    self.state_probs@,
                    j,
                    self.config.n_states as int,
                ) / (PROB_SCALE as int) <= res.1,
    {
        let n = self.config.n_states;
        let ghost gtm = tm_rows(self.transition_matrix@);
        let ghost gprobs = self.state_probs@;
        let mut preds: Vec<u64> = Vec::new();
        let mut j: usize = 0;
        while j < n
            invariant
                j <= n,
                self.wf(),
                n == self.config.n_states,
                gtm == tm_rows(self.transition_matrix@),
                gprobs == self.state_probs@,
                preds@.len() == j,
                forall|k: int|
                    0 <= k < j ==> (#[trigger] preds@[k]) as int == spec_col_dot(
                        gtm,
                        gprobs,
                        k,
                        n as int,
                    ) / (PROB_SCALE as int),
            decreases n - j,
        {
            let mut acc: u128 = 0;
            let mut i: usize = 0;
            while i < n
                invariant
                    i <= n,
                    j < n,
                    self.wf(),
                    n == self.config.n_states,
                    gtm == tm_rows(self.transition_matrix@),
                    gprobs == self.state_probs@,
                    acc as int == spec_col_dot(gtm, gprobs, j as int, i as int),
                    acc <= (i as int) * ((PROB_SCALE as int) * (PROB_SCALE as int)),
                decreases n - i,
            {
                proof {
                    let a = self.transition_matrix@[i as int]@[j as int] as int;
                    let b = self.state_probs@[i as int] as int;
                    assert(0 <= a * b <= (PROB_SCALE as int) * (PROB_SCALE as int))
                        by (nonlinear_arith)
                        requires
                            0 <= a <= PROB_SCALE as int,
                            0 <= b <= PROB_SCALE as int,
                    ;
                    assert((i as int) * ((PROB_SCALE as int) * (PROB_SCALE as int)) + (
                    PROB_SCALE as int) * (PROB_SCALE as int) == (i as int + 1) * ((
                    PROB_SCALE as int) * (PROB_SCALE as int))) by (nonlinear_arith);
                }
                let row = &self.transition_matrix[i];
                acc = acc + (row[j] as u128) * (self.state_probs[i] as u128);
                i = i + 1;
            }
            proof {
                assert(acc as int <= (PROB_SCALE as int) * 16_000_000_000int) by (nonlinear_arith)
                    requires
                        acc as int <= (n as int) * ((PROB_SCALE as int) * (PROB_SCALE as int)),
                        n <= 16,
                ;
                lemma_div_bound_upper(acc as int, 16_000_000_000int, PROB_SCALE as int);
                lemma_div_bound_lower(acc as int, 0, PROB_SCALE as int);
            }
            let pred: u128 = acc / (PROB_SCALE as u128);
            preds.push(pred as u64);
            j = j + 1;
        }
        let (best, best_val) = argmax_last(&preds);
        proof {
            assert forall|k: int|
                0 <= k < n implies #[trigger] spec_col_dot(gtm, gprobs, k, n as int) / (
            PROB_SCALE as int) <= best_val as int by {
                assert(preds@[k] as int == spec_col_dot(gtm, gprobs, k, n as int) / (
                PROB_SCALE as int));
                assert(preds@[k] <= best_val);
            }
        }
        (best, best_val)
    }
}

/// Initial transition mass from `i` to `j` among `n` states: the prior
/// diagonal mass with the rounding remainder folded into the diagonal.
pub open spec fn spec_tm_init(n: int, i: int, j: int) -> int {
    let off = 100_000_000int / (n - 1);
    if i == j {
        (PROB_SCALE as int) - (n - 1) * off
    } else {
        off
    }
}

} // verus!
