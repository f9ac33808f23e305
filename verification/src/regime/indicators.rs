//! Incremental technical indicators with explicit warmup semantics: EMA,
//! ATR (Wilder smoothing), ADX and Bollinger Bands, over scaled prices.

use vstd::prelude::*;

verus! {

use crate::fixed::{
    lemma_convex_bounds,
    lemma_div_bound_lower,
    lemma_div_bound_upper,
    lemma_seq_sum_bound,
    ring_push,
    seq_sq_dev_sum,
    seq_sum,
    spec_isqrt,
    sum_u64,
    PRICE_MAX,
};
use vstd::arithmetic::div_mod::lemma_div_is_ordered_by_denominator;

/// The next EMA value after absorbing `x`: `prev + 2 (x - prev) / (p + 1)`,
/// computed with floor division on the magnitude of the move.
pub open spec fn spec_ema_next(prev: int, x: int, p: int) -> int {
    if x >= prev {
        prev + 2 * (x - prev) / (p + 1)
    } else {
        prev - 2 * (prev - x) / (p + 1)
    }
}

/// One EMA step stays between its operands.
pub proof fn lemma_ema_next_bounds(prev: int, x: int, p: int)
    requires
        1 <= p,
        0 <= prev,
        0 <= x,
    ensures
        spec_ema_next(prev, x, p) >= (if prev <= x { prev } else { x }),
        spec_ema_next(prev, x, p) <= (if prev <= x { x } else { prev }),
{
    if x >= prev {
        lemma_div_is_ordered_by_denominator(2 * (x - prev), 2, p + 1);
        lemma_div_bound_lower(2 * (x - prev), 0, p + 1);
    } else {
        lemma_div_is_ordered_by_denominator(2 * (prev - x), 2, p + 1);
        lemma_div_bound_lower(2 * (prev - x), 0, p + 1);
    }
}

/// Exponential moving average with multiplier `2 / (period + 1)`. The first
/// input seeds the state; the value is exposed only once `period` inputs have
/// been absorbed.
#[derive(Clone, Copy, Debug, PartialEq, Eq, Structural)]
pub struct EMA {
    /// Smoothing period.
    pub period: usize,
    /// Current smoothed value, `None` until seeded.
    pub current: Option<u64>,
    /// Whether the warmup window has filled.
    pub initialized: bool,
    /// Inputs absorbed, counted up to the period.
    pub warmup_count: usize,
}

impl EMA {
    /// Structural bounds every EMA of the core maintains.
    pub open spec fn wf(self) -> bool {
        &&& 1 <= self.period <= 1_000
        &&& self.warmup_count <= self.period
        &&& match self.current {
            Some(v) => v <= PRICE_MAX,
            None => true,
        }
        &&& (self.initialized ==> self.current is Some && self.warmup_count >= self.period)
    }

    /// The state after absorbing one input.
    pub open spec fn spec_step(self, x: u64) -> EMA {
        let count = if self.warmup_count < self.period {
            (self.warmup_count + 1) as usize
        } else {
            self.warmup_count
        };
        match self.current {
            None => EMA { current: Some(x), warmup_count: count, ..self },
            Some(prev) => EMA {
                current: Some(spec_ema_next(prev as int, x as int, self.period as int) as u64),
                initialized: self.initialized || count >= self.period,
                warmup_count: count,
                period: self.period,
            },
        }
    }

    /// The value exposed by a state: `None` until the warmup window filled.
    pub open spec fn spec_value(self) -> Option<u64> {
        if self.initialized {
            self.current
        } else {
            None
        }
    }

    /// A fresh EMA of the given period.
    pub fn new(period: usize) -> (r: EMA)
        requires
            1 <= period <= 1_000,
        ensures
            r == (EMA { period, current: None, initialized: false, warmup_count: 0 }),
            r.wf(),
    {
        EMA { period, current: None, initialized: false, warmup_count: 0 }
    }

    /// Absorb one input and return the EMA value, or `None` before readiness.
    pub fn update(&mut self, price: u64) -> (out: Option<u64>)
        requires
            old(self).wf(),
            price <= PRICE_MAX,
        ensures
            *final(self) == old(self).spec_step(price),
            out == final(self).spec_value(),
            final(self).wf(),
    {
        if self.warmup_count < self.period {
            self.warmup_count = self.warmup_count + 1;
        }
        match self.current {
            Some(prev) => {
                let next = if price >= prev {
                    let diff = price - prev;
                    proof {
                        lemma_div_is_ordered_by_denominator(
                            2 * diff as int,
                            2,
                            self.period as int + 1,
                        );
                    }
                    prev + 2 * diff / (self.period as u64 + 1)
                } else {
                    let diff = prev - price;
                    proof {
                        lemma_div_is_ordered_by_denominator(
                            2 * diff as int,
                            2,
                            self.period as int + 1,
                        );
                    }
                    prev - 2 * diff / (self.period as u64 + 1)
                };
                self.current = Some(next);
                if self.warmup_count >= self.period {
                    self.initialized = true;
                }
            },
            None => {
                self.current = Some(price);
            },
        }
        if self.initialized {
            self.current
        } else {
            None
        }
    }

    /// The EMA value, or `None` before readiness.
    pub fn value(&self) -> (r: Option<u64>)
        ensures
            r == self.spec_value(),
    {
        if self.initialized {
            self.current
        } else {
            None
        }
    }

    /// Whether the warmup window has filled.
    pub fn is_ready(&self) -> (r: bool)
        ensures
            r == self.initialized,
    {
        self.initialized
    }
}

/// True range of a bar against the previous close.
pub open spec fn spec_true_range(high: int, low: int, prev_close: Option<u64>) -> int {
    match prev_close {
        None => high - low,
        Some(pc) => {
            let hl = high - low;
            let hc = if high >= pc {
                high - pc
            } else {
                pc as int - high
            };
            let lc = if low >= pc {
                low - pc
            } else {
                pc as int - low
            };
            if hl >= hc && hl >= lc {
                hl
            } else if hc >= lc {
                hc
            } else {
                lc
            }
        },
    }
}

/// The ATR value after a window step: Wilder smoothing once seeded, the
/// arithmetic mean of the first full window otherwise.
pub open spec fn spec_atr_next(prev: Option<u64>, window: Seq<u64>, tr: int, p: int) -> Option<
    u64,
> {
    if window.len() >= p {
        match prev {
            Some(a) => Some((((p - 1) * a + tr) / p) as u64),
            None => Some((seq_sum(window) / p) as u64),
        }
    } else {
        prev
    }
}

/// Average True Range with Wilder smoothing over scaled prices.
#[derive(Clone, Debug)]
pub struct ATR {
    /// Smoothing period.
    pub period: usize,
    /// Rolling window of the last `period` true ranges.
    pub values: Vec<u64>,
    /// Close of the previous bar.
    pub prev_close: Option<u64>,
    /// Current ATR, `None` until a full window has been seen.
    pub current_atr: Option<u64>,
}

impl ATR {
    /// The full relation between the states before and after one bar.
    pub open spec fn spec_stepped(pre: ATR, post: ATR, high: int, low: int, close: int) -> bool {
        let tr = spec_true_range(high, low, pre.prev_close);
        &&& post.period == pre.period
        &&& post.prev_close == Some(close as u64)
        &&& post.values@ == ring_push(pre.values@, tr as u64, pre.period as int)
        &&& post.current_atr == spec_atr_next(pre.current_atr, post.values@, tr, pre.period as int)
    }

    /// Structural bounds every ATR of the core maintains.
    pub open spec fn wf(self) -> bool {
        &&& 1 <= self.period <= 1_000
        &&& self.values@.len() <= self.period
        &&& (forall|i: int| 0 <= i < self.values@.len() ==> self.values@[i] <= PRICE_MAX)
        &&& match self.prev_close {
            Some(c) => 1 <= c <= PRICE_MAX,
            None => true,
        }
        &&& match self.current_atr {
            Some(a) => a <= PRICE_MAX,
            None => true,
        }
    }

    /// A fresh ATR of the given period.
    pub fn new(period: usize) -> (r: ATR)
        requires
            1 <= period <= 1_000,
        ensures
            r.period == period,
            r.values@ =~= Seq::<u64>::empty(),
            r.prev_close is None,
            r.current_atr is None,
            r.wf(),
    {
        ATR { period, values: Vec::new(), prev_close: None, current_atr: None }
    }

    /// Absorb one bar and return the ATR, or `None` before a full window.
    pub fn update(&mut self, high: u64, low: u64, close: u64) -> (out: Option<u64>)
        requires
            old(self).wf(),
            1 <= low <= close <= high <= PRICE_MAX,
        ensures
            ATR::spec_stepped(*old(self), *final(self), high as int, low as int, close as int),
            out == final(self).current_atr,
            final(self).wf(),
    {
        let true_range = match self.prev_close {
            Some(prev_c) => {
                let hl = high - low;
                let hc = if high >= prev_c {
                    high - prev_c
                } else {
                    prev_c - high
                };
                let lc = if low >= prev_c {
                    low - prev_c
                } else {
                    prev_c - low
                };
                let m = if hl >= hc && hl >= lc {
                    hl
                } else if hc >= lc {
                    hc
                } else {
                    lc
                };
                m
            },
            None => high - low,
        };
        self.prev_close = Some(close);
        self.values.push(true_range);
        if self.values.len() > self.period {
            self.values.remove(0);
            proof {
                assert(self.values@ =~= ring_push(
                    old(self).values@,
                    true_range,
                    old(self).period as int,
                ));
            }
        }
        if self.values.len() >= self.period {
            match self.current_atr {
                Some(prev_atr) => {
                    let p = self.period as u64;
                    proof {
                        assert(((p as int) - 1) * (prev_atr as int) <= 999 * 1_000_000_000_000int)
                            by (nonlinear_arith)
                            requires
                                1 <= p <= 1_000,
                                prev_atr <= 1_000_000_000_000u64,
                        ;
                        lemma_convex_bounds(
                            prev_atr as int,
                            true_range as int,
                            1,
                            old(self).period as int,
                        );
                        lemma_div_bound_lower(
                            (old(self).period as int - 1) * prev_atr + true_range,
                            0,
                            old(self).period as int,
                        );
                    }
                    let new_atr = ((p - 1) * prev_atr + true_range) / p;
                    self.current_atr = Some(new_atr);
                },
                None => {
                    let s = sum_u64(&self.values);
                    proof {
                        lemma_seq_sum_bound(self.values@, PRICE_MAX as int);
                        lemma_div_bound_upper(
                            seq_sum(self.values@),
                            PRICE_MAX as int,
                            old(self).period as int,
                        );
                        lemma_div_bound_lower(seq_sum(self.values@), 0, old(self).period as int);
                    }
                    self.current_atr = Some(s / (self.period as u64));
                },
            }
        }
        self.current_atr
    }

    /// The current ATR, or `None` before a full window.
    pub fn value(&self) -> (r: Option<u64>)
        ensures
            r == self.current_atr,
    {
        self.current_atr
    }

    /// Whether a full window has been absorbed.
    pub fn is_ready(&self) -> (r: bool)
        ensures
            r == self.current_atr is Some,
    {
        self.current_atr.is_some()
    }
}

/// Directional movements of a bar against the previous bar: `+DM` is the up
/// move when it dominates and is positive, `-DM` symmetrically.
pub open spec fn spec_dm(
    prev_high: Option<u64>,
    prev_low: Option<u64>,
    high: int,
    low: int,
) -> (int, int) {
    match (prev_high, prev_low) {
        (Some(ph), Some(pl)) => {
            let up = high - ph;
            let down = pl - low;
            let plus = if up > down && up > 0 {
                up
            } else {
                0
            };
            let minus = if down > up && down > 0 {
                down
            } else {
                0
            };
            (plus, minus)
        },
        _ => (0, 0),
    }
}

/// Average Directional Index: trend strength in `[0, 100]` at `PCT_SCALE`.
#[derive(Clone, Debug)]
pub struct ADX {
    /// Smoothing period.
    pub period: usize,
    /// True-range smoother.
    pub atr: ATR,
    /// Smoother of `+DM`.
    pub plus_dm_ema: EMA,
    /// Smoother of `-DM`.
    pub minus_dm_ema: EMA,
    /// Rolling window of the last `period` DX values.
    pub dx_values: Vec<u64>,
    /// High of the previous bar.
    pub prev_high: Option<u64>,
    /// Low of the previous bar.
    pub prev_low: Option<u64>,
    /// Current ADX, `None` until `period` DX values accumulated.
    pub current_adx: Option<u64>,
    /// Current `+DI` at `PCT_SCALE`.
    pub plus_di: Option<u64>,
    /// Current `-DI` at `PCT_SCALE`.
    pub minus_di: Option<u64>,
}

impl ADX {
    /// Structural bounds every ADX of the core maintains.
    pub open spec fn wf(self) -> bool {
        &&& 1 <= self.period <= 1_000
        &&& self.atr.wf() && self.atr.period == self.period
        &&& self.plus_dm_ema.wf() && self.plus_dm_ema.period == self.period
        &&& self.minus_dm_ema.wf() && self.minus_dm_ema.period == self.period
        &&& self.dx_values@.len() <= self.period
        &&& (forall|i: int| 0 <= i < self.dx_values@.len() ==> self.dx_values@[i] <= 10_000)
        &&& match self.prev_high {
            Some(h) => h <= PRICE_MAX,
            None => true,
        }
        &&& match self.prev_low {
            Some(l) => 1 <= l <= PRICE_MAX,
            None => true,
        }
        &&& match self.current_adx {
            Some(a) => a <= 10_000,
            None => true,
        }
        &&& match self.plus_di {
            Some(d) => d <= 10_000_000_000_000_000,
            None => true,
        }
        &&& match self.minus_di {
            Some(d) => d <= 10_000_000_000_000_000,
            None => true,
        }
    }

    /// The DI, DX and ADX updates of one bar, given the already-stepped
    /// smoothers held in `post`.
    pub open spec fn spec_di_part(pre: ADX, post: ADX) -> bool {
        match (post.atr.current_atr, post.plus_dm_ema.spec_value(), post.minus_dm_ema.spec_value()) {
            (Some(av), Some(pv), Some(mv)) => if av > 0 {
                let pdi = pv * 10_000 / (av as int);
                let mdi = mv * 10_000 / (av as int);
                &&& post.plus_di == Some(pdi as u64)
                &&& post.minus_di == Some(mdi as u64)
                &&& ADX::spec_dx_part(pre, post, pdi, mdi)
            } else {
                &&& post.plus_di == pre.plus_di
                &&& post.minus_di == pre.minus_di
                &&& post.dx_values@ == pre.dx_values@
                &&& post.current_adx == pre.current_adx
            },
            _ => {
                &&& post.plus_di == pre.plus_di
                &&& post.minus_di == pre.minus_di
                &&& post.dx_values@ == pre.dx_values@
                &&& post.current_adx == pre.current_adx
            },
        }
    }

    /// The DX accumulation and ADX smoothing of one bar.
    pub open spec fn spec_dx_part(pre: ADX, post: ADX, pdi: int, mdi: int) -> bool {
        if pdi + mdi > 0 {
            let diff = if pdi >= mdi {
                pdi - mdi
            } else {
                mdi - pdi
            };
            let dx = diff * 10_000 / (pdi + mdi);
            &&& post.dx_values@ == ring_push(pre.dx_values@, dx as u64, pre.period as int)
            &&& post.current_adx == (if post.dx_values@.len() >= pre.period {
                match pre.current_adx {
                    Some(prev) => Some(
                        (((pre.period - 1) * prev + dx) / (pre.period as int)) as u64,
                    ),
                    None => Some((seq_sum(post.dx_values@) / (pre.period as int)) as u64),
                }
            } else {
                pre.current_adx
            })
        } else {
            &&& post.dx_values@ == pre.dx_values@
            &&& post.current_adx == pre.current_adx
        }
    }

    /// The full relation between the states before and after one bar.
    pub open spec fn spec_stepped(pre: ADX, post: ADX, high: u64, low: u64, close: u64) -> bool {
        let dm = spec_dm(pre.prev_high, pre.prev_low, high as int, low as int);
        &&& post.period == pre.period
        &&& ATR::spec_stepped(pre.atr, post.atr, high as int, low as int, close as int)
        &&& post.plus_dm_ema == pre.plus_dm_ema.spec_step(dm.0 as u64)
        &&& post.minus_dm_ema == pre.minus_dm_ema.spec_step(dm.1 as u64)
        &&& post.prev_high == Some(high)
        &&& post.prev_low == Some(low)
        &&& ADX::spec_di_part(pre, post)
    }

    /// A fresh ADX of the given period.
    pub fn new(period: usize) -> (r: ADX)
        requires
            1 <= period <= 1_000,
        ensures
            r.period == period,
            r.dx_values@ =~= Seq::<u64>::empty(),
            r.prev_high is None,
            r.prev_low is None,
            r.current_adx is None,
            r.plus_di is None,
            r.minus_di is None,
            r.atr.period == period,
            r.atr.values@ =~= Seq::<u64>::empty(),
            r.atr.prev_close is None,
            r.atr.current_atr is None,
            r.plus_dm_ema == (EMA {
                period,
                current: None::<u64>,
                initialized: false,
                warmup_count: 0usize,
            }),
            r.minus_dm_ema == (EMA {
                period,
                current: None::<u64>,
                initialized: false,
                warmup_count: 0usize,
            }),
            r.wf(),
    {
        ADX {
            period,
            atr: ATR::new(period),
            plus_dm_ema: EMA::new(period),
            minus_dm_ema: EMA::new(period),
            dx_values: Vec::new(),
            prev_high: None,
            prev_low: None,
            current_adx: None,
            plus_di: None,
            minus_di: None,
        }
    }

    /// Absorb one bar and return the ADX, or `None` before readiness.
    #[verifier::rlimit(60)]
    pub fn update(&mut self, high: u64, low: u64, close: u64) -> (out: Option<u64>)
        requires
            old(self).wf(),
            1 <= low <= close <= high <= PRICE_MAX,
        ensures
            ADX::spec_stepped(*old(self), *final(self), high, low, close),
            out == final(self).current_adx,
            final(self).wf(),
    {
        let (plus_dm, minus_dm): (u64, u64) = match (self.prev_high, self.prev_low) {
            (Some(prev_h), Some(prev_l)) => {
                let up_pos = high > prev_h;
                let down_pos = prev_l > low;
                let up: u64 = if up_pos {
                    high - prev_h
                } else {
                    0
                };
                let down: u64 = if down_pos {
                    prev_l - low
                } else {
                    0
                };
                let up_raw_gt_down = if up_pos {
                    if down_pos {
                        up > down
                    } else {
                        true
                    }
                } else {
                    false
                };
                let down_raw_gt_up = if down_pos {
                    if up_pos {
                        down > up
                    } else {
                        true
                    }
                } else {
                    false
                };
                let plus = if up_raw_gt_down && up > 0 {
                    up
                } else {
                    0
                };
                let minus = if down_raw_gt_up && down > 0 {
                    down
                } else {
                    0
                };
                (plus, minus)
            },
            _ => (0, 0),
        };
        proof {
            let dm = spec_dm(self.prev_high, self.prev_low, high as int, low as int);
            assert(plus_dm as int == dm.0 && minus_dm as int == dm.1);
        }
        self.prev_high = Some(high);
        self.prev_low = Some(low);
        let atr_out = self.atr.update(high, low, close);
        let smoothed_plus = self.plus_dm_ema.update(plus_dm);
        let smoothed_minus = self.minus_dm_ema.update(minus_dm);
        match (atr_out, smoothed_plus, smoothed_minus) {
            (Some(atr_val), Some(plus_smooth), Some(minus_smooth)) => {
                if atr_val > 0 {
                    let pdi = plus_smooth * 10_000 / atr_val;
                    let mdi = minus_smooth * 10_000 / atr_val;
                    proof {
                        lemma_div_bound_upper(
                            plus_smooth * 10_000,
                            10_000_000_000_000_000int,
                            atr_val as int,
                        );
                        lemma_div_bound_upper(
                            minus_smooth * 10_000,
                            10_000_000_000_000_000int,
                            atr_val as int,
                        );
                        lemma_div_bound_lower(plus_smooth * 10_000, 0, atr_val as int);
                        lemma_div_bound_lower(minus_smooth * 10_000, 0, atr_val as int);
                    }
                    self.plus_di = Some(pdi);
                    self.minus_di = Some(mdi);
                    let di_sum = pdi + mdi;
                    if di_sum > 0 {
                        let di_diff = if pdi >= mdi {
                            pdi - mdi
                        } else {
                            mdi - pdi
                        };
                        let dx_wide: u128 = (di_diff as u128) * 10_000 / (di_sum as u128);
                        proof {
                            assert((di_diff as int) * 10_000 <= (di_sum as int) * 10_000)
                                by (nonlinear_arith)
                                requires
                                    0 <= di_diff as int <= di_sum as int,
                            ;
                            lemma_div_bound_upper(
                                (di_diff as int) * 10_000,
                                10_000,
                                di_sum as int,
                            );
                            lemma_div_bound_lower((di_diff as int) * 10_000, 0, di_sum as int);
                        }
                        let dx = dx_wide as u64;
                        self.dx_values.push(dx);
                        if self.dx_values.len() > self.period {
                            self.dx_values.remove(0);
                        }
                        proof {
                            assert(self.dx_values@ =~= ring_push(
                                old(self).dx_values@,
                                dx,
                                old(self).period as int,
                            ));
                        }
                        if self.dx_values.len() >= self.period {
                            match self.current_adx {
                                Some(prev_adx) => {
                                    let p = self.period as u64;
                                    proof {
                                        assert(((p as int) - 1) * (prev_adx as int) <= 999
                                            * 10_000int) by (nonlinear_arith)
                                            requires
                                                1 <= p <= 1_000,
                                                prev_adx <= 10_000u64,
                                        ;
                                        lemma_convex_bounds(
                                            prev_adx as int,
                                            dx as int,
                                            1,
                                            old(self).period as int,
                                        );
                                        lemma_div_bound_lower(
                                            (old(self).period as int - 1) * prev_adx + dx,
                                            0,
                                            old(self).period as int,
                                        );
                                    }
                                    self.current_adx = Some(((p - 1) * prev_adx + dx) / p);
                                },
                                None => {
                                    let s = sum_u64(&self.dx_values);
                                    proof {
                                        lemma_seq_sum_bound(self.dx_values@, 10_000int);
                                        lemma_div_bound_upper(
                                            seq_sum(self.dx_values@),
                                            10_000,
                                            old(self).period as int,
                                        );
                                        lemma_div_bound_lower(
                                            seq_sum(self.dx_values@),
                                            0,
                                            old(self).period as int,
                                        );
                                    }
                                    self.current_adx = Some(s / (self.period as u64));
                                },
                            }
                        }
                    }
                }
            },
            _ => {},
        }
        self.current_adx
    }

    /// The current ADX, or `None` before readiness.
    pub fn value(&self) -> (r: Option<u64>)
        ensures
            r == self.current_adx,
    {
        self.current_adx
    }

    /// The current `+DI`.
    pub fn plus_di(&self) -> (r: Option<u64>)
        ensures
            r == self.plus_di,
    {
        self.plus_di
    }

    /// The current `-DI`.
    pub fn minus_di(&self) -> (r: Option<u64>)
        ensures
            r == self.minus_di,
    {
        self.minus_di
    }

    /// Trend direction from the DI crossover: bullish when `+DI` exceeds
    /// `-DI`.
    pub fn trend_direction(&self) -> (r: Option<crate::regime::types::TrendDirection>)
        ensures
            r == match (self.plus_di, self.minus_di) {
                (Some(p), Some(m)) => Some(
                    if p > m {
                        crate::regime::types::TrendDirection::Bullish
                    } else {
                        crate::regime::types::TrendDirection::Bearish
                    },
                ),
                _ => None::<crate::regime::types::TrendDirection>,
            },
    {
        match (self.plus_di, self.minus_di) {
            (Some(plus), Some(minus)) => {
                if plus > minus {
                    Some(crate::regime::types::TrendDirection::Bullish)
                } else {
                    Some(crate::regime::types::TrendDirection::Bearish)
                }
            },
            _ => None,
        }
    }

    /// Whether `period` DX values have accumulated.
    pub fn is_ready(&self) -> (r: bool)
        ensures
            r == self.current_adx is Some,
    {
        self.current_adx.is_some()
    }
}

/// Number of elements of `s` strictly below `w`.
pub open spec fn seq_count_lt(s: Seq<u64>, w: int) -> int
    decreases s.len(),
{
    if s.len() == 0 {
        0
    } else {
        seq_count_lt(s.drop_last(), w) + if s.last() < w {
            1int
        } else {
            0int
        }
    }
}

/// The strict-below count never exceeds the length.
pub proof fn lemma_seq_count_lt_bound(s: Seq<u64>, w: int)
    ensures
        0 <= seq_count_lt(s, w) <= s.len(),
    decreases s.len(),
{
    if s.len() > 0 {
        lemma_seq_count_lt_bound(s.drop_last(), w);
    }
}

/// One evaluation of the Bollinger Bands over a full window.
/// `upper` and `middle` are scaled prices, `lower` may run negative, `width`
/// and `width_percentile` are at `PCT_SCALE`, `percent_b` is at `CONF_ONE`
/// and clamped to `[-1000, 1000]` in real terms, `std_dev` is a scaled price.
#[derive(Clone, Copy, Debug, PartialEq, Eq, Structural)]
pub struct BollingerBandsValues {
    pub upper: u64,
    pub middle: u64,
    pub lower: i64,
    pub width: u64,
    pub width_percentile: u64,
    pub percent_b: i64,
    pub std_dev: u64,
}

impl BollingerBandsValues {
    /// Price near or above the upper band: `%B >= 0.95`.
    pub fn is_overbought(&self) -> (r: bool)
        ensures
            r == (self.percent_b >= 950_000),
    {
        self.percent_b >= 950_000
    }

    /// Price near or below the lower band: `%B <= 0.05`.
    pub fn is_oversold(&self) -> (r: bool)
        ensures
            r == (self.percent_b <= 50_000),
    {
        self.percent_b <= 50_000
    }

    /// Bands wide by historical standards.
    pub fn is_high_volatility(&self, threshold_percentile: u64) -> (r: bool)
        ensures
            r == (self.width_percentile >= threshold_percentile),
    {
        self.width_percentile >= threshold_percentile
    }

    /// Bands narrow by historical standards.
    pub fn is_squeeze(&self, threshold_percentile: u64) -> (r: bool)
        ensures
            r == (self.width_percentile <= threshold_percentile),
    {
        self.width_percentile <= threshold_percentile
    }
}

/// `%B` of a price within the bands at scale `CONF_ONE`, pinned to 0.5 when
/// the bands have zero width and clamped to ten times the band span.
pub open spec fn spec_percent_b(price: int, lower: int, upper: int) -> int {
    if upper - lower > 0 {
        let raw = if price >= lower {
            (price - lower) * 1_000_000 / (upper - lower)
        } else {
            -((lower - price) * 1_000_000 / (upper - lower))
        };
        if raw > 1_000_000_000 {
            1_000_000_000
        } else if raw < -1_000_000_000 {
            -1_000_000_000
        } else {
            raw
        }
    } else {
        500_000
    }
}

/// The width percentile always lies within the percent scale.
pub proof fn lemma_width_percentile_bound(hist: Seq<u64>, width: int)
    ensures
        0 <= spec_width_percentile(hist, width) <= 10_000,
{
    if hist.len() < 10 {
    } else {
        lemma_seq_count_lt_bound(hist, width);
        assert(seq_count_lt(hist, width) * 10_000 <= (hist.len() as int) * 10_000)
            by (nonlinear_arith)
            requires
                seq_count_lt(hist, width) <= hist.len() as int,
        ;
        lemma_div_bound_upper(seq_count_lt(hist, width) * 10_000, 10_000, hist.len() as int);
        lemma_div_bound_lower(seq_count_lt(hist, width) * 10_000, 0, hist.len() as int);
    }
}

/// Width percentile: the percent of historical widths strictly below the
/// current one, or 50 when fewer than ten widths are on record.
pub open spec fn spec_width_percentile(hist: Seq<u64>, width: int) -> int {
    if hist.len() < 10 {
        5_000
    } else {
        seq_count_lt(hist, width) * 10_000 / (hist.len() as int)
    }
}

/// Bollinger Bands over the closes of the last `period` bars, with a rolling
/// 100-value history of band widths for the percentile rank.
#[derive(Clone, Debug)]
pub struct BollingerBands {
    /// Averaging period.
    pub period: usize,
    /// Standard-deviation multiplier at `PCT_SCALE` (2.0 is 200).
    pub std_dev_multiplier: u64,
    /// Rolling window of the last `period` closes.
    pub prices: Vec<u64>,
    /// Rolling history of computed widths.
    pub width_history: Vec<u64>,
}

impl BollingerBands {
    /// Structural bounds every band calculator of the core maintains.
    pub open spec fn wf(self) -> bool {
        &&& 1 <= self.period <= 1_000
        &&& 1 <= self.std_dev_multiplier <= 1_000
        &&& self.prices@.len() <= self.period
        &&& (forall|i: int| 0 <= i < self.prices@.len() ==> 1 <= #[trigger] self.prices@[i] <= PRICE_MAX)
        &&& self.width_history@.len() <= 100
    }

    /// The band width over a full window, at `PCT_SCALE`.
    pub open spec fn spec_bb_width(window: Seq<u64>, k: int, p: int) -> int {
        let sma = seq_sum(window) / p;
        let var = seq_sq_dev_sum(window, sma) / p;
        let sd = spec_isqrt(var);
        let dev = k * sd / 100;
        2 * dev * 10_000 / sma
    }

    /// The band values computed from a full window and the width history
    /// after the new width was recorded.
    pub open spec fn spec_values(
        window: Seq<u64>,
        hist_after: Seq<u64>,
        price: int,
        k: int,
        p: int,
    ) -> BollingerBandsValues {
        let sma = seq_sum(window) / p;
        let var = seq_sq_dev_sum(window, sma) / p;
        let sd = spec_isqrt(var);
        let dev = k * sd / 100;
        let upper = sma + dev;
        let lower = sma - dev;
        let width = BollingerBands::spec_bb_width(window, k, p);
        BollingerBandsValues {
            upper: upper as u64,
            middle: sma as u64,
            lower: lower as i64,
            width: width as u64,
            width_percentile: spec_width_percentile(hist_after, width) as u64,
            percent_b: spec_percent_b(price, lower, upper) as i64,
            std_dev: sd as u64,
        }
    }

    /// The full relation between the states before and after one close.
    pub open spec fn spec_stepped(pre: BollingerBands, post: BollingerBands, price: u64) -> bool {
        &&& post.period == pre.period
        &&& post.std_dev_multiplier == pre.std_dev_multiplier
        &&& post.prices@ == ring_push(pre.prices@, price, pre.period as int)
        &&& (post.prices@.len() < pre.period ==> post.width_history@ == pre.width_history@)
        &&& (post.prices@.len() >= pre.period ==> post.width_history@ == ring_push(
            pre.width_history@,
            BollingerBands::spec_bb_width(
                post.prices@,
                pre.std_dev_multiplier as int,
                pre.period as int,
            ) as u64,
            100,
        ))
    }

    /// A fresh band calculator.
    pub fn new(period: usize, std_dev_multiplier: u64) -> (r: BollingerBands)
        requires
            1 <= period <= 1_000,
            1 <= std_dev_multiplier <= 1_000,
        ensures
            r.period == period,
            r.std_dev_multiplier == std_dev_multiplier,
            r.prices@ =~= Seq::<u64>::empty(),
            r.width_history@ =~= Seq::<u64>::empty(),
            r.wf(),
    {
        BollingerBands { period, std_dev_multiplier, prices: Vec::new(), width_history: Vec::new() }
    }

    /// Absorb one close. Returns `None` until the window is full; afterwards
    /// the bands, with the new width recorded in the history.
    pub fn update(&mut self, price: u64) -> (out: Option<BollingerBandsValues>)
        requires
            old(self).wf(),
            1 <= price <= PRICE_MAX,
        ensures
            BollingerBands::spec_stepped(*old(self), *final(self), price),
            final(self).wf(),
            out == (if final(self).prices@.len() < old(self).period {
                None
            } else {
                Some(
                    BollingerBands::spec_values(
                        final(self).prices@,
                        final(self).width_history@,
                        price as int,
                        old(self).std_dev_multiplier as int,
                        old(self).period as int,
                    ),
                )
            }),
    {
        self.prices.push(price);
        if self.prices.len() > self.period {
            self.prices.remove(0);
        }
        proof {
            assert(self.prices@ =~= ring_push(old(self).prices@, price, old(self).period as int));
        }
        if self.prices.len() < self.period {
            return None;
        }
        let p = self.period as u64;
        let s = sum_u64(&self.prices);
        proof {
            lemma_seq_sum_bound(self.prices@, PRICE_MAX as int);
            crate::fixed::lemma_seq_sum_lower(self.prices@, 1);
            lemma_div_bound_upper(seq_sum(self.prices@), PRICE_MAX as int, p as int);
            lemma_div_bound_lower(seq_sum(self.prices@), 1, p as int);
        }
        let sma = s / p;
        let mut acc: u128 = 0;
        let mut i: usize = 0;
        proof {
            crate::fixed::lemma_seq_sq_dev_sum_bound(self.prices@, sma as int, PRICE_MAX as int);
        }
        while i < self.prices.len()
            invariant
                i <= self.prices@.len() <= 1_000,
                forall|j: int| 0 <= j < self.prices@.len() ==> 1 <= #[trigger] self.prices@[j] <= PRICE_MAX,
                sma <= PRICE_MAX,
                acc as int == seq_sq_dev_sum(self.prices@.take(i as int), sma as int),
                acc <= (i as int) * ((PRICE_MAX as int) * (PRICE_MAX as int)),
            decreases self.prices@.len() - i,
        {
            let x = self.prices[i];
            let d: u64 = if x >= sma {
                x - sma
            } else {
                sma - x
            };
            proof {
                assert(self.prices@.take(i as int + 1).drop_last() =~= self.prices@.take(i as int));
                assert(self.prices@.take(i as int + 1).last() == self.prices@[i as int]);
                assert((x as int - sma as int) * (x as int - sma as int) == (d as int) * (d as int)
                    && (d as int) * (d as int) <= (PRICE_MAX as int) * (PRICE_MAX as int))
                    by (nonlinear_arith)
                    requires
                        d as int == if x as int >= sma as int {
                            x as int - sma as int
                        } else {
                            sma as int - x as int
                        },
                        x <= PRICE_MAX,
                        sma <= PRICE_MAX,
                ;
                assert((i as int) * ((PRICE_MAX as int) * (PRICE_MAX as int)) + (PRICE_MAX as int)
                    * (PRICE_MAX as int) == (i as int + 1) * ((PRICE_MAX as int) * (
                PRICE_MAX as int))) by (nonlinear_arith);
            }
            acc = acc + (d as u128) * (d as u128);
            i = i + 1;
        }
        proof {
            assert(self.prices@.take(self.prices@.len() as int) =~= self.prices@);
            lemma_div_bound_upper(
                acc as int,
                (PRICE_MAX as int) * (PRICE_MAX as int),
                p as int,
            );
            lemma_div_bound_lower(acc as int, 0, p as int);
            assert((1_000int) * ((PRICE_MAX as int) * (PRICE_MAX as int))
                <= 1_000_000_000_000_000_000_000_000_000int) by (nonlinear_arith);
        }
        let var: u128 = acc / (p as u128);
        let sd: u64 = crate::fixed::isqrt(var);
        proof {
            if sd > PRICE_MAX {
                assert((sd as int) * (sd as int) > (PRICE_MAX as int) * (PRICE_MAX as int))
                    by (nonlinear_arith)
                    requires
                        sd as int > PRICE_MAX as int,
                ;
                assert(false);
            }
        }
        let k = self.std_dev_multiplier;
        proof {
            assert((k as int) * (sd as int) <= 1_000int * (PRICE_MAX as int)) by (nonlinear_arith)
                requires
                    k <= 1_000u64,
                    sd <= PRICE_MAX,
            ;
            lemma_div_bound_upper((k as int) * (sd as int), 10_000_000_000_000int, 100int);
            lemma_div_bound_lower((k as int) * (sd as int), 0, 100int);
        }
        let dev = k * sd / 100;
        let upper = sma + dev;
        let lower: i64 = sma as i64 - dev as i64;
        proof {
            lemma_div_bound_upper(
                2 * (dev as int) * 10_000,
                200_000_000_000_000_000int,
                sma as int,
            );
            lemma_div_bound_lower(2 * (dev as int) * 10_000, 0, sma as int);
            assert((sma as int) * 200_000_000_000_000_000int >= 2 * (dev as int) * 10_000)
                by (nonlinear_arith)
                requires
                    1 <= sma as int,
                    dev as int <= 10_000_000_000_000int,
            ;
        }
        let width = 2 * dev * 10_000 / sma;
        self.width_history.push(width);
        if self.width_history.len() > 100 {
            self.width_history.remove(0);
        }
        proof {
            assert(self.width_history@ =~= ring_push(old(self).width_history@, width, 100));
        }
        let width_percentile = self.calculate_width_percentile(width);
        let percent_b = percent_b_exec(price, lower, upper);
        Some(
            BollingerBandsValues {
                upper,
                middle: sma,
                lower,
                width,
                width_percentile,
                percent_b,
                std_dev: sd,
            },
        )
    }

    /// Percentile rank of the current width within the recorded history.
    fn calculate_width_percentile(&self, current_width: u64) -> (r: u64)
        requires
            self.width_history@.len() <= 100,
        ensures
            r as int == spec_width_percentile(self.width_history@, current_width as int),
            r <= 10_000,
    {
        if self.width_history.len() < 10 {
            return 5_000;
        }
        let mut count: u64 = 0;
        let mut i: usize = 0;
        while i < self.width_history.len()
            invariant
                i <= self.width_history@.len() <= 100,
                count as int == seq_count_lt(self.width_history@.take(i as int), current_width as int),
                count <= i,
            decreases self.width_history@.len() - i,
        {
            proof {
                assert(self.width_history@.take(i as int + 1).drop_last() =~= self.width_history@.take(
                    i as int,
                ));
                assert(self.width_history@.take(i as int + 1).last() == self.width_history@[i as int]);
            }
            if self.width_history[i] < current_width {
                count = count + 1;
            }
            i = i + 1;
        }
        proof {
            assert(self.width_history@.take(self.width_history@.len() as int)
                =~= self.width_history@);
            lemma_div_bound_upper(
                (count as int) * 10_000,
                10_000,
                self.width_history@.len() as int,
            );
            lemma_div_bound_lower((count as int) * 10_000, 0, self.width_history@.len() as int);
            assert((count as int) * 10_000 <= (self.width_history@.len() as int) * 10_000)
                by (nonlinear_arith)
                requires
                    count as int <= self.width_history@.len() as int,
            ;
        }
        count * 10_000 / (self.width_history.len() as u64)
    }

    /// Whether the window is full.
    pub fn is_ready(&self) -> (r: bool)
        ensures
            r == (self.prices@.len() >= self.period),
    {
        self.prices.len() >= self.period
    }
}

/// Executable `%B`, tied to [`spec_percent_b`].
fn percent_b_exec(price: u64, lower: i64, upper: u64) -> (r: i64)
    requires
        price <= PRICE_MAX,
        -100_000_000_000_000 <= lower as int <= 100_000_000_000_000,
        upper <= 100_000_000_000_000,
    ensures
        r as int == spec_percent_b(price as int, lower as int, upper as int),
        -1_000_000_000 <= r <= 1_000_000_000,
{
    let span: i128 = upper as i128 - lower as i128;
    if span <= 0 {
        return 500_000;
    }
    let diff: i128 = price as i128 - lower as i128;
    if diff >= 0 {
        let q: u128 = (diff as u128) * 1_000_000 / (span as u128);
        proof {
            lemma_div_bound_lower((diff as int) * 1_000_000, 0, span as int);
        }
        if q > 1_000_000_000 {
            1_000_000_000
        } else {
            q as i64
        }
    } else {
        let q: u128 = ((-diff) as u128) * 1_000_000 / (span as u128);
        proof {
            lemma_div_bound_lower((-(diff as int)) * 1_000_000, 0, span as int);
        }
        if q > 1_000_000_000 {
            -1_000_000_000
        } else {
            -(q as i64)
        }
    }
}

/// Arithmetic mean of a set of scaled prices; zero when empty.
pub fn calculate_sma(prices: &Vec<u64>) -> (r: u64)
    requires
        prices@.len() <= 1_000_000,
        forall|i: int| 0 <= i < prices@.len() ==> prices@[i] <= PRICE_MAX,
    ensures
        r as int == if prices@.len() == 0 {
            0int
        } else {
            seq_sum(prices@) / (prices@.len() as int)
        },
{
    if prices.len() == 0 {
        return 0;
    }
    let s = sum_u64(prices);
    s / (prices.len() as u64)
}

} // verus!
