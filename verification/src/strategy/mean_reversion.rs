//! Band-based mean reversion: enter against the move when the price presses
//! an outer Bollinger band and the RSI confirms the extreme, with the bands
//! providing the protective stop and the middle band the target.

use vstd::prelude::*;

verus! {

use crate::fixed::{lemma_convex_bounds, lemma_div_bound_lower, lemma_div_bound_upper, PRICE_MAX};
use crate::regime::indicators::{BollingerBands, BollingerBandsValues};

/// A trading signal.
#[derive(Clone, Copy, Debug, PartialEq, Eq, Structural)]
pub enum Signal {
    Buy,
    Sell,
    Hold,
}

/// Configuration of the mean-reversion strategy. The RSI thresholds are at
/// `PCT_SCALE` (so an RSI of 30 is 3_000).
#[derive(Clone, Copy, Debug, PartialEq, Eq, Structural)]
pub struct MeanReversionConfig {
    /// Bollinger Bands period.
    pub bb_period: usize,
    /// Bollinger Bands standard-deviation multiplier (2.0 is 200).
    pub bb_std_dev: u64,
    /// RSI smoothing period.
    pub rsi_period: usize,
    /// RSI at or below which an oversold entry is allowed.
    pub rsi_oversold: u64,
    /// RSI at or above which an overbought exit is allowed.
    pub rsi_overbought: u64,
}

/// Machine bounds on the strategy configuration.
pub open spec fn spec_mr_config_wf(c: MeanReversionConfig) -> bool {
    &&& 1 <= c.bb_period <= 1_000
    &&& 1 <= c.bb_std_dev <= 1_000
    &&& 1 <= c.rsi_period <= 1_000
    &&& c.rsi_oversold <= 10_000
    &&& c.rsi_overbought <= 10_000
}

impl MeanReversionConfig {
    /// Whether the configuration satisfies the bounds the strategy requires.
    pub fn is_valid(&self) -> (r: bool)
        ensures
            r == spec_mr_config_wf(*self),
    {
        1 <= self.bb_period && self.bb_period <= 1_000 && 1 <= self.bb_std_dev && self.bb_std_dev
            <= 1_000 && 1 <= self.rsi_period && self.rsi_period <= 1_000 && self.rsi_oversold
            <= 10_000 && self.rsi_overbought <= 10_000
    }
}

impl Default for MeanReversionConfig {
    /// Defaults: 20-bar bands at two standard deviations, 14-bar RSI with
    /// the classic 30 / 70 thresholds.
    fn default() -> (r: MeanReversionConfig)
        ensures
            r == (MeanReversionConfig {
                bb_period: 20usize,
                bb_std_dev: 200u64,
                rsi_period: 14usize,
                rsi_oversold: 3_000u64,
                rsi_overbought: 7_000u64,
            }),
            spec_mr_config_wf(r),
    {
        MeanReversionConfig {
            bb_period: 20,
            bb_std_dev: 200,
            rsi_period: 14,
            rsi_oversold: 3_000,
            rsi_overbought: 7_000,
        }
    }
}

/// The Wilder-smoothed averages after one close: gains and losses from the
/// price move, folded into the running averages.
pub open spec fn spec_rsi_next(avg: Option<u64>, x: int, p: int) -> int {
    match avg {
        None => x,
        Some(a) => ((p - 1) * a + x) / p,
    }
}

/// Relative Strength Index over Wilder-smoothed gains and losses.
#[derive(Clone, Copy, Debug, PartialEq, Eq, Structural)]
pub struct Rsi {
    /// Smoothing period.
    pub period: usize,
    /// Close of the previous bar.
    pub prev_close: Option<u64>,
    /// Wilder-smoothed average gain.
    pub avg_gain: Option<u64>,
    /// Wilder-smoothed average loss.
    pub avg_loss: Option<u64>,
    /// Price moves absorbed, counted up to the period.
    pub seen: usize,
}

impl Rsi {
    /// Structural bounds every RSI of the core maintains.
    pub open spec fn wf(self) -> bool {
        &&& 1 <= self.period <= 1_000
        &&& self.seen <= self.period
        &&& (match self.prev_close {
            Some(c) => 1 <= c <= PRICE_MAX,
            None => true,
        })
        &&& (match self.avg_gain {
            Some(g) => g <= PRICE_MAX,
            None => true,
        })
        &&& (match self.avg_loss {
            Some(l) => l <= PRICE_MAX,
            None => true,
        })
    }

    /// A fresh RSI of the given period.
    pub fn new(period: usize) -> (r: Rsi)
        requires
            1 <= period <= 1_000,
        ensures
            r == (Rsi { period, prev_close: None, avg_gain: None, avg_loss: None, seen: 0usize }),
            r.wf(),
    {
        Rsi { period, prev_close: None, avg_gain: None, avg_loss: None, seen: 0 }
    }

    /// The RSI value at `PCT_SCALE`, or `None` until `period` moves have
    /// been absorbed; a flat market reads as 50.
    pub open spec fn spec_value(self) -> Option<u64> {
        if self.seen >= self.period {
            match (self.avg_gain, self.avg_loss) {
                (Some(g), Some(l)) => if g + l == 0 {
                    Some(5_000u64)
                } else {
                    Some((g * 10_000 / (g + l)) as u64)
                },
                _ => None,
            }
        } else {
            None
        }
    }

    /// The full relation between RSI states before and after one close.
    pub open spec fn spec_stepped(pre: Rsi, post: Rsi, close: u64) -> bool {
        &&& post.period == pre.period
        &&& post.prev_close == Some(close)
        &&& (match pre.prev_close {
            None => {
                &&& post.avg_gain == pre.avg_gain
                &&& post.avg_loss == pre.avg_loss
                &&& post.seen == pre.seen
            },
            Some(prev) => {
                let gain = if close > prev {
                    close - prev
                } else {
                    0int
                };
                let loss = if prev > close {
                    prev - close
                } else {
                    0int
                };
                &&& post.avg_gain == Some(
                    spec_rsi_next(pre.avg_gain, gain, pre.period as int) as u64,
                )
                &&& post.avg_loss == Some(
                    spec_rsi_next(pre.avg_loss, loss, pre.period as int) as u64,
                )
                &&& post.seen == (if pre.seen < pre.period {
                    pre.seen + 1
                } else {
                    pre.seen as int
                })
            },
        })
    }

    /// Absorb one close and return the RSI, or `None` before readiness.
    pub fn update(&mut self, close: u64) -> (out: Option<u64>)
        requires
            old(self).wf(),
            1 <= close <= PRICE_MAX,
        ensures
            Rsi::spec_stepped(*old(self), *final(self), close),
            out == final(self).spec_value(),
            final(self).wf(),
    {
        match self.prev_close {
            None => {
                self.prev_close = Some(close);
            },
            Some(prev) => {
                let gain: u64 = if close > prev {
                    close - prev
                } else {
                    0
                };
                let loss: u64 = if prev > close {
                    prev - close
                } else {
                    0
                };
                let p = self.period as u64;
                let new_gain: u64 = match self.avg_gain {
                    None => gain,
                    Some(a) => {
                        proof {
                            assert(((p as int) - 1) * (a as int) <= 999 * 1_000_000_000_000int)
                                by (nonlinear_arith)
                                requires
                                    1 <= p <= 1_000,
                                    a <= 1_000_000_000_000u64,
                            ;
                            lemma_convex_bounds(a as int, gain as int, 1, p as int);
                            lemma_div_bound_lower(
                                ((p as int) - 1) * (a as int) + gain,
                                0,
                                p as int,
                            );
                        }
                        ((p - 1) * a + gain) / p
                    },
                };
                let new_loss: u64 = match self.avg_loss {
                    None => loss,
                    Some(a) => {
                        proof {
                            assert(((p as int) - 1) * (a as int) <= 999 * 1_000_000_000_000int)
                                by (nonlinear_arith)
                                requires
                                    1 <= p <= 1_000,
                                    a <= 1_000_000_000_000u64,
                            ;
                            lemma_convex_bounds(a as int, loss as int, 1, p as int);
                            lemma_div_bound_lower(
                                ((p as int) - 1) * (a as int) + loss,
                                0,
                                p as int,
                            );
                        }
                        ((p - 1) * a + loss) / p
                    },
                };
                self.avg_gain = Some(new_gain);
                self.avg_loss = Some(new_loss);
                self.prev_close = Some(close);
                if self.seen < self.period {
                    self.seen = self.seen + 1;
                }
            },
        }
        self.value()
    }

    /// The RSI value, or `None` before readiness.
    pub fn value(&self) -> (out: Option<u64>)
        requires
            self.wf(),
        ensures
            out == self.spec_value(),
            (match out {
                Some(v) => v <= 10_000,
                None => true,
            }),
    {
        if self.seen >= self.period {
            match (self.avg_gain, self.avg_loss) {
                (Some(g), Some(l)) => {
                    if g + l == 0 {
                        Some(5_000)
                    } else {
                        proof {
                            lemma_div_bound_upper(
                                (g as int) * 10_000,
                                10_000,
                                (g as int) + (l as int),
                            );
                            lemma_div_bound_lower((g as int) * 10_000, 0, (g as int) + (l as int));
                            assert((g as int) * 10_000 <= ((g as int) + (l as int)) * 10_000)
                                by (nonlinear_arith)
                                requires
                                    0 <= g as int,
                                    0 <= l as int,
                            ;
                        }
                        Some(g * 10_000 / (g + l))
                    }
                },
                _ => None,
            }
        } else {
            None
        }
    }
}

/// Outcome of one strategy evaluation.
#[derive(Clone, Copy, Debug, PartialEq, Eq, Structural)]
pub struct StrategyResult {
    /// The signal emitted.
    pub signal: Signal,
    /// Protective stop, when a position was signalled.
    pub stop_loss: Option<u64>,
    /// Profit target, when a position was signalled.
    pub take_profit: Option<u64>,
}

/// The entry decision of the strategy from a band reading and an RSI value:
/// buy an oversold press of the lower band, sell an overbought press of the
/// upper band, otherwise hold.
pub open spec fn spec_mr_decide(
    cfg: MeanReversionConfig,
    bb: BollingerBandsValues,
    rsi: int,
) -> StrategyResult {
    if bb.percent_b <= 50_000 && rsi <= cfg.rsi_oversold {
        StrategyResult {
            signal: Signal::Buy,
            stop_loss: Some(
                (if bb.lower > 0 {
                    bb.lower as int
                } else {
                    0int
                }) as u64,
            ),
            take_profit: Some(bb.middle),
        }
    } else if bb.percent_b >= 950_000 && rsi >= cfg.rsi_overbought {
        StrategyResult { signal: Signal::Sell, stop_loss: Some(bb.upper), take_profit: Some(bb.middle) }
    } else {
        StrategyResult { signal: Signal::Hold, stop_loss: None, take_profit: None }
    }
}

/// Bollinger-plus-RSI mean reversion with stop and target levels.
#[derive(Debug)]
pub struct MeanReversionStrategy {
    /// Configuration.
    pub config: MeanReversionConfig,
    /// Bollinger Bands over closes.
    pub bb: BollingerBands,
    /// RSI over closes.
    pub rsi: Rsi,
    /// Band values of the last evaluated bar.
    pub last_bb: Option<BollingerBandsValues>,
    /// RSI of the last evaluated bar.
    pub last_rsi: Option<u64>,
    /// Result of the last evaluation.
    pub last_result: StrategyResult,
}

impl MeanReversionStrategy {
    /// Structural bounds every strategy instance of the core maintains.
    pub open spec fn wf(self) -> bool {
        &&& spec_mr_config_wf(self.config)
        &&& self.bb.wf() && self.bb.period == self.config.bb_period
            && self.bb.std_dev_multiplier == self.config.bb_std_dev
        &&& self.rsi.wf() && self.rsi.period == self.config.rsi_period
    }

    /// A strategy as it comes out of construction under a configuration.
    pub open spec fn spec_fresh(s: MeanReversionStrategy, config: MeanReversionConfig) -> bool {
        &&& s.config == config
        &&& s.bb.period == config.bb_period
        &&& s.bb.std_dev_multiplier == config.bb_std_dev
        &&& s.bb.prices@.len() == 0
        &&& s.bb.width_history@.len() == 0
        &&& s.rsi == (Rsi {
            period: config.rsi_period,
            prev_close: None::<u64>,
            avg_gain: None::<u64>,
            avg_loss: None::<u64>,
            seen: 0usize,
        })
        &&& s.last_bb is None
        &&& s.last_rsi is None
        &&& s.last_result == (StrategyResult {
            signal: Signal::Hold,
            stop_loss: None::<u64>,
            take_profit: None::<u64>,
        })
    }

    /// A fresh strategy with the given configuration.
    pub fn new(config: MeanReversionConfig) -> (r: MeanReversionStrategy)
        requires
            spec_mr_config_wf(config),
        ensures
            MeanReversionStrategy::spec_fresh(r, config),
            r.wf(),
    {
        MeanReversionStrategy {
            bb: BollingerBands::new(config.bb_period, config.bb_std_dev),
            rsi: Rsi::new(config.rsi_period),
            last_bb: None,
            last_rsi: None,
            last_result: StrategyResult { signal: Signal::Hold, stop_loss: None, take_profit: None },
            config,
        }
    }

    /// The full relation between strategy states and signal across one bar.
    pub open spec fn spec_stepped(
        pre: MeanReversionStrategy,
        post: MeanReversionStrategy,
        high: u64,
        low: u64,
        close: u64,
        out: Signal,
    ) -> bool {
        &&& post.config == pre.config
        &&& BollingerBands::spec_stepped(pre.bb, post.bb, close)
        &&& Rsi::spec_stepped(pre.rsi, post.rsi, close)
        &&& ({
            let bb_out = if post.bb.prices@.len() < pre.config.bb_period {
                None
            } else {
                Some(
                    BollingerBands::spec_values(
                        post.bb.prices@,
                        post.bb.width_history@,
                        close as int,
                        pre.config.bb_std_dev as int,
                        pre.config.bb_period as int,
                    ),
                )
            };
            let rsi_out = post.rsi.spec_value();
            match (bb_out, rsi_out) {
                (Some(b), Some(r)) => {
                    let decision = spec_mr_decide(pre.config, b, r as int);
                    &&& post.last_bb == Some(b)
                    &&& post.last_rsi == Some(r)
                    &&& post.last_result == decision
                    &&& out == decision.signal
                },
                _ => {
                    &&& post.last_bb == pre.last_bb
                    &&& post.last_rsi == pre.last_rsi
                    &&& post.last_result == pre.last_result
                    &&& out == Signal::Hold
                },
            }
        })
    }

    /// Absorb one bar and decide. Before both indicators are ready the
    /// strategy holds and records nothing.
    pub fn update(&mut self, high: u64, low: u64, close: u64) -> (out: Signal)
        requires
            old(self).wf(),
            1 <= low <= close <= high <= PRICE_MAX,
        ensures
            MeanReversionStrategy::spec_stepped(
                *old(self),
                *final(self),
                high,
                low,
                close,
                out,
            ),
            final(self).wf(),
    {
        let bb_out = self.bb.update(close);
        let rsi_out = self.rsi.update(close);
        match (bb_out, rsi_out) {
            (Some(b), Some(r)) => {
                self.last_bb = Some(b);
                self.last_rsi = Some(r);
                let decision = if b.percent_b <= 50_000 && r <= self.config.rsi_oversold {
                    let stop: u64 = if b.lower > 0 {
                        b.lower as u64
                    } else {
                        0
                    };
                    StrategyResult {
                        signal: Signal::Buy,
                        stop_loss: Some(stop),
                        take_profit: Some(b.middle),
                    }
                } else if b.percent_b >= 950_000 && r >= self.config.rsi_overbought {
                    StrategyResult {
                        signal: Signal::Sell,
                        stop_loss: Some(b.upper),
                        take_profit: Some(b.middle),
                    }
                } else {
                    StrategyResult { signal: Signal::Hold, stop_loss: None, take_profit: None }
                };
                self.last_result = decision;
                decision.signal
            },
            _ => Signal::Hold,
        }
    }

    /// Band values of the last evaluated bar.
    pub fn last_bb_values(&self) -> (r: Option<BollingerBandsValues>)
        ensures
            r == self.last_bb,
    {
        self.last_bb
    }

    /// RSI of the last evaluated bar.
    pub fn last_rsi(&self) -> (r: Option<u64>)
        ensures
            r == self.last_rsi,
    {
        self.last_rsi
    }

    /// Protective stop of the last evaluation.
    pub fn stop_loss(&self) -> (r: Option<u64>)
        ensures
            r == self.last_result.stop_loss,
    {
        self.last_result.stop_loss
    }

    /// Profit target of the last evaluation.
    pub fn take_profit(&self) -> (r: Option<u64>)
        ensures
            r == self.last_result.take_profit,
    {
        self.last_result.take_profit
    }
}

} // verus!
