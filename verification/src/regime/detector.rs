//! Rule-based regime detection: scores trending, ranging and volatile
//! hypotheses from indicator readings and applies a hysteresis filter
//! against regime whipsaw.

use vstd::prelude::*;

verus! {

use crate::fixed::{ring_push, sat_add_u64, spec_sat_add_u64, CONF_ONE, PRICE_MAX};
use crate::regime::indicators::{BollingerBands, BollingerBandsValues, ADX, ATR, EMA};
use crate::regime::types::{
    spec_recommended_for,
    spec_regime_config_wf,
    MarketRegime,
    RecommendedStrategy,
    RegimeConfidence,
    RegimeConfig,
    TrendDirection,
};

/// The regime scores of one bar, in tenths: 0.4 is 4.
pub open spec fn spec_scores(
    cfg: RegimeConfig,
    adx: int,
    atr: int,
    bb: BollingerBandsValues,
    ema_short: int,
    ema_long: int,
    close: int,
    atr_avg: Option<u64>,
) -> (int, int, int) {
    let t1 = if adx >= cfg.adx_trending_threshold {
        4int
    } else {
        0int
    };
    let r1 = if adx < cfg.adx_trending_threshold && adx <= cfg.adx_ranging_threshold {
        3int
    } else {
        0int
    };
    let v1 = if bb.width_percentile >= cfg.bb_width_volatility_threshold {
        3int
    } else {
        0int
    };
    let r2 = if bb.width_percentile <= 2_500 {
        2int
    } else {
        0int
    };
    let expansion_ge = match atr_avg {
        Some(avg) => (avg > 0 || atr > 0) && atr * 100 >= cfg.atr_expansion_threshold * avg,
        None => 100 >= cfg.atr_expansion_threshold,
    };
    let expansion_lt = match atr_avg {
        Some(avg) => 5 * atr < 4 * avg,
        None => false,
    };
    let v2 = if expansion_ge {
        3int
    } else {
        0int
    };
    let r3 = if !expansion_ge && expansion_lt {
        2int
    } else {
        0int
    };
    let gap = if ema_short >= ema_long {
        ema_short - ema_long
    } else {
        ema_long - ema_short
    };
    let t2 = if gap * 50 > ema_long {
        3int
    } else {
        0int
    };
    let r4 = if !(gap * 50 > ema_long) && gap * 100 < ema_long {
        2int
    } else {
        0int
    };
    let above = close > ema_short && close > ema_long;
    let below = close < ema_short && close < ema_long;
    let t3 = if above || below {
        2int
    } else {
        0int
    };
    let r5 = if !(above || below) {
        2int
    } else {
        0int
    };
    (t1 + t2 + t3, r1 + r2 + r3 + r4 + r5, v1 + v2)
}

/// The candidate regime and its confidence (at [`CONF_ONE`]) from the
/// scores of one bar.
pub open spec fn spec_classify(
    cfg: RegimeConfig,
    adx: int,
    atr: int,
    bb: BollingerBandsValues,
    ema_short: int,
    ema_long: int,
    close: int,
    atr_avg: Option<u64>,
    di_direction: Option<TrendDirection>,
) -> (MarketRegime, int) {
    let scores = spec_scores(cfg, adx, atr, bb, ema_short, ema_long, close, atr_avg);
    let trending = scores.0;
    let ranging = scores.1;
    let volatile = scores.2;
    let max1 = if trending >= ranging {
        trending
    } else {
        ranging
    };
    let max_score = if max1 >= volatile {
        max1
    } else {
        volatile
    };
    let conf_raw = max_score * (CONF_ONE as int) / 12;
    let conf = if conf_raw > CONF_ONE as int {
        CONF_ONE as int
    } else {
        conf_raw
    };
    let regime = if volatile >= 5 && volatile >= trending {
        MarketRegime::Volatile
    } else if trending > ranging && trending > 3 {
        let dir = if ema_short > ema_long && close > ema_long {
            TrendDirection::Bullish
        } else if ema_short < ema_long && close < ema_long {
            TrendDirection::Bearish
        } else {
            match di_direction {
                Some(d) => d,
                None => TrendDirection::Bullish,
            }
        };
        MarketRegime::Trending(dir)
    } else if ranging > 3 {
        MarketRegime::MeanReverting
    } else {
        MarketRegime::Uncertain
    };
    (regime, conf)
}

/// How many of the last `k` recorded regimes fall in the trending,
/// mean-reverting or volatile category of the candidate (an uncertain
/// record never matches).
pub open spec fn spec_recent_matches(s: Seq<MarketRegime>, cand: MarketRegime, k: int) -> int
    decreases s.len(),
{
    if k <= 0 || s.len() == 0 {
        0
    } else {
        spec_recent_matches(s.drop_last(), cand, k - 1) + if spec_category_match(s.last(), cand) {
            1int
        } else {
            0int
        }
    }
}

/// Category agreement used by the stability filter.
pub open spec fn spec_category_match(a: MarketRegime, b: MarketRegime) -> bool {
    match (a, b) {
        (MarketRegime::Trending(_), MarketRegime::Trending(_)) => true,
        (MarketRegime::MeanReverting, MarketRegime::MeanReverting) => true,
        (MarketRegime::Volatile, MarketRegime::Volatile) => true,
        _ => false,
    }
}

/// The hysteresis filter: hold the current regime on low confidence, demand
/// strong confirmation for early switches, and demand agreement with recent
/// history when the candidate's category has not been stable.
pub open spec fn spec_stability_filter(
    current: MarketRegime,
    bars_in: int,
    history: Seq<MarketRegime>,
    cfg: RegimeConfig,
    cand: MarketRegime,
    conf: int,
) -> MarketRegime {
    if conf < 400_000 {
        current
    } else if bars_in < cfg.min_regime_duration && cand != current && conf < 700_000 {
        current
    } else {
        let matches = spec_recent_matches(history, cand, cfg.regime_stability_bars as int);
        if matches < (cfg.regime_stability_bars as int) / 2 && conf < 600_000 {
            current
        } else {
            cand
        }
    }
}

/// Trend strength metric at [`CONF_ONE`]: EMA alignment in percent, halved
/// when the price sits between the EMAs, scaled by a fifth and capped at 1.
pub open spec fn spec_trend_strength(ema_short: int, ema_long: int, close: int) -> int {
    let gap = if ema_short >= ema_long {
        ema_short - ema_long
    } else {
        ema_long - ema_short
    };
    let full = (close > ema_short && close > ema_long) || (close < ema_short && close < ema_long);
    let raw = if full {
        gap * 20_000_000 / ema_long
    } else {
        gap * 10_000_000 / ema_long
    };
    if raw > CONF_ONE as int {
        CONF_ONE as int
    } else {
        raw
    }
}

/// Rule-based regime detector over scaled OHLC bars.
#[derive(Debug)]
pub struct RegimeDetector {
    /// Configuration.
    pub config: RegimeConfig,
    /// Trend-strength indicator.
    pub adx: ADX,
    /// Volatility indicator.
    pub atr: ATR,
    /// Long-period EMA over ATR values, for expansion measurement.
    pub atr_avg: EMA,
    /// Bollinger Bands over closes.
    pub bb: BollingerBands,
    /// Short EMA over closes.
    pub ema_short: EMA,
    /// Long EMA over closes.
    pub ema_long: EMA,
    /// Currently accepted regime.
    pub current_regime: MarketRegime,
    /// Bounded history of prior regimes.
    pub regime_history: Vec<MarketRegime>,
    /// Bars spent in the current regime, saturating.
    pub bars_in_regime: u64,
    /// Close of the last absorbed bar.
    pub last_close: Option<u64>,
}

impl RegimeDetector {
    /// Structural bounds every detector of the core maintains.
    pub open spec fn wf(self) -> bool {
        &&& spec_regime_config_wf(self.config)
        &&& self.adx.wf() && self.adx.period == self.config.adx_period
        &&& self.atr.wf() && self.atr.period == self.config.atr_period
        &&& self.atr_avg.wf() && self.atr_avg.period == 50
        &&& self.bb.wf() && self.bb.period == self.config.bb_period
            && self.bb.std_dev_multiplier == self.config.bb_std_dev
        &&& self.ema_short.wf() && self.ema_short.period == self.config.ema_short_period
        &&& self.ema_long.wf() && self.ema_long.period == self.config.ema_long_period
        &&& (match self.ema_short.current {
            Some(v) => v >= 1,
            None => true,
        })
        &&& (match self.ema_long.current {
            Some(v) => v >= 1,
            None => true,
        })
        &&& self.regime_history@.len() <= 20
        &&& (match self.last_close {
            Some(c) => 1 <= c <= PRICE_MAX,
            None => true,
        })
    }

    /// Whether all indicators have warmed up.
    pub open spec fn spec_is_ready(self) -> bool {
        &&& self.adx.current_adx is Some
        &&& self.atr.current_atr is Some
        &&& self.bb.prices@.len() >= self.bb.period
        &&& self.ema_short.initialized
        &&& self.ema_long.initialized
    }

    /// A detector as it comes out of construction under a configuration:
    /// all indicators empty, the regime uncertain.
    pub open spec fn spec_fresh(d: RegimeDetector, config: RegimeConfig) -> bool {
        &&& d.config == config
        &&& d.adx.period == config.adx_period
        &&& d.adx.atr.period == config.adx_period
        &&& d.adx.atr.values@.len() == 0
        &&& d.adx.atr.prev_close is None
        &&& d.adx.atr.current_atr is None
        &&& d.adx.plus_dm_ema == (EMA {
            period: config.adx_period,
            current: None::<u64>,
            initialized: false,
            warmup_count: 0usize,
        })
        &&& d.adx.minus_dm_ema == (EMA {
            period: config.adx_period,
            current: None::<u64>,
            initialized: false,
            warmup_count: 0usize,
        })
        &&& d.adx.dx_values@.len() == 0
        &&& d.adx.prev_high is None
        &&& d.adx.prev_low is None
        &&& d.adx.current_adx is None
        &&& d.adx.plus_di is None
        &&& d.adx.minus_di is None
        &&& d.atr.period == config.atr_period
        &&& d.atr.values@.len() == 0
        &&& d.atr.prev_close is None
        &&& d.atr.current_atr is None
        &&& d.atr_avg == (EMA {
            period: 50usize,
            current: None::<u64>,
            initialized: false,
            warmup_count: 0usize,
        })
        &&& d.bb.period == config.bb_period
        &&& d.bb.std_dev_multiplier == config.bb_std_dev
        &&& d.bb.prices@.len() == 0
        &&& d.bb.width_history@.len() == 0
        &&& d.ema_short == (EMA {
            period: config.ema_short_period,
            current: None::<u64>,
            initialized: false,
            warmup_count: 0usize,
        })
        &&& d.ema_long == (EMA {
            period: config.ema_long_period,
            current: None::<u64>,
            initialized: false,
            warmup_count: 0usize,
        })
        &&& d.current_regime == MarketRegime::Uncertain
        &&& d.regime_history@.len() == 0
        &&& d.bars_in_regime == 0
        &&& d.last_close is None
    }

    /// A fresh detector with the given configuration.
    pub fn new(config: RegimeConfig) -> (r: RegimeDetector)
        requires
            spec_regime_config_wf(config),
        ensures
            RegimeDetector::spec_fresh(r, config),
            !r.spec_is_ready(),
            r.wf(),
    {
        RegimeDetector {
            adx: ADX::new(config.adx_period),
            atr: ATR::new(config.atr_period),
            atr_avg: EMA::new(50),
            bb: BollingerBands::new(config.bb_period, config.bb_std_dev),
            ema_short: EMA::new(config.ema_short_period),
            ema_long: EMA::new(config.ema_long_period),
            current_regime: MarketRegime::Uncertain,
            regime_history: Vec::new(),
            bars_in_regime: 0,
            last_close: None,
            config,
        }
    }

    /// Build a detector, rejecting a configuration outside the bounds the
    /// detector requires.
    pub fn try_new(config: RegimeConfig) -> (r: Result<
        RegimeDetector,
        crate::regime::types::ConfigError,
    >)
        ensures
            r is Ok <==> spec_regime_config_wf(config),
            r matches Ok(d) ==> d.config == config && d.current_regime == MarketRegime::Uncertain
                && d.wf(),
            r is Err ==> r == Err::<RegimeDetector, crate::regime::types::ConfigError>(
                crate::regime::types::ConfigError::InvalidConfig,
            ),
    {
        if config.is_valid() {
            Ok(RegimeDetector::new(config))
        } else {
            Err(crate::regime::types::ConfigError::InvalidConfig)
        }
    }

    /// Create with the default configuration.
    pub fn default_config() -> (r: RegimeDetector)
        ensures
            r.wf(),
            r.current_regime == MarketRegime::Uncertain,
            !r.spec_is_ready(),
    {
        RegimeDetector::new(RegimeConfig::default())
    }

    /// Create with the crypto-optimized configuration.
    pub fn crypto_optimized() -> (r: RegimeDetector)
        ensures
            r.wf(),
            r.current_regime == MarketRegime::Uncertain,
            !r.spec_is_ready(),
    {
        RegimeDetector::new(RegimeConfig::crypto_optimized())
    }

    /// The relation between the indicator states before and after one bar.
    pub open spec fn spec_indicators_stepped(
        pre: RegimeDetector,
        post: RegimeDetector,
        high: u64,
        low: u64,
        close: u64,
    ) -> bool {
        &&& post.config == pre.config
        &&& ADX::spec_stepped(pre.adx, post.adx, high, low, close)
        &&& ATR::spec_stepped(pre.atr, post.atr, high as int, low as int, close as int)
        &&& BollingerBands::spec_stepped(pre.bb, post.bb, close)
        &&& post.ema_short == pre.ema_short.spec_step(close)
        &&& post.ema_long == pre.ema_long.spec_step(close)
        &&& (match post.atr.current_atr {
            Some(a) => post.atr_avg == pre.atr_avg.spec_step(a),
            None => post.atr_avg == pre.atr_avg,
        })
        &&& post.last_close == Some(close)
    }

    /// The full relation between detector states and output across one bar.
    pub open spec fn spec_update_relation(
        pre: RegimeDetector,
        post: RegimeDetector,
        high: u64,
        low: u64,
        close: u64,
        out: RegimeConfidence,
    ) -> bool {
        &&& RegimeDetector::spec_indicators_stepped(pre, post, high, low, close)
        &&& (!post.spec_is_ready() ==> {
            &&& out == (RegimeConfidence {
                regime: MarketRegime::Uncertain,
                confidence: 0u64,
                adx_value: 0u64,
                bb_width_percentile: 0u64,
                trend_strength: 0u64,
            })
            &&& post.current_regime == pre.current_regime
            &&& post.regime_history == pre.regime_history
            &&& post.bars_in_regime == pre.bars_in_regime
        })
        &&& (post.spec_is_ready() ==> {
            let bbv = BollingerBands::spec_values(
                post.bb.prices@,
                post.bb.width_history@,
                close as int,
                pre.config.bb_std_dev as int,
                pre.config.bb_period as int,
            );
            let cls = spec_classify(
                pre.config,
                post.adx.current_adx->Some_0 as int,
                post.atr.current_atr->Some_0 as int,
                bbv,
                post.ema_short.current->Some_0 as int,
                post.ema_long.current->Some_0 as int,
                close as int,
                post.atr_avg.spec_value(),
                match (post.adx.plus_di, post.adx.minus_di) {
                    (Some(p), Some(m)) => Some(
                        if p > m {
                            TrendDirection::Bullish
                        } else {
                            TrendDirection::Bearish
                        },
                    ),
                    _ => None::<TrendDirection>,
                },
            );
            let stable = spec_stability_filter(
                pre.current_regime,
                pre.bars_in_regime as int,
                pre.regime_history@,
                pre.config,
                cls.0,
                cls.1,
            );
            &&& post.current_regime == stable
            &&& (stable != pre.current_regime ==> {
                &&& post.regime_history@ == ring_push(
                    pre.regime_history@,
                    pre.current_regime,
                    20,
                )
                &&& post.bars_in_regime == 0
            })
            &&& (stable == pre.current_regime ==> {
                &&& post.regime_history == pre.regime_history
                &&& post.bars_in_regime as int == spec_sat_add_u64(
                    pre.bars_in_regime as int,
                    1,
                )
            })
            &&& out.regime == stable
            &&& out.confidence as int == cls.1
            &&& out.adx_value == post.adx.current_adx->Some_0
            &&& out.bb_width_percentile == bbv.width_percentile
            &&& out.trend_strength as int == spec_trend_strength(
                post.ema_short.current->Some_0 as int,
                post.ema_long.current->Some_0 as int,
                close as int,
            )
        })
    }

    /// The output of one bar as a function of the states around it.
    pub open spec fn spec_update_out(
        pre: RegimeDetector,
        post: RegimeDetector,
        high: u64,
        low: u64,
        close: u64,
    ) -> RegimeConfidence {
        if !post.spec_is_ready() {
            RegimeConfidence {
                regime: MarketRegime::Uncertain,
                confidence: 0u64,
                adx_value: 0u64,
                bb_width_percentile: 0u64,
                trend_strength: 0u64,
            }
        } else {
            let bbv = BollingerBands::spec_values(
                post.bb.prices@,
                post.bb.width_history@,
                close as int,
                pre.config.bb_std_dev as int,
                pre.config.bb_period as int,
            );
            let cls = spec_classify(
                pre.config,
                post.adx.current_adx->Some_0 as int,
                post.atr.current_atr->Some_0 as int,
                bbv,
                post.ema_short.current->Some_0 as int,
                post.ema_long.current->Some_0 as int,
                close as int,
                post.atr_avg.spec_value(),
                match (post.adx.plus_di, post.adx.minus_di) {
                    (Some(p), Some(m)) => Some(
                        if p > m {
                            TrendDirection::Bullish
                        } else {
                            TrendDirection::Bearish
                        },
                    ),
                    _ => None::<TrendDirection>,
                },
            );
            let stable = spec_stability_filter(
                pre.current_regime,
                pre.bars_in_regime as int,
                pre.regime_history@,
                pre.config,
                cls.0,
                cls.1,
            );
            RegimeConfidence {
                regime: stable,
                confidence: cls.1 as u64,
                adx_value: post.adx.current_adx->Some_0,
                bb_width_percentile: bbv.width_percentile,
                trend_strength: spec_trend_strength(
                    post.ema_short.current->Some_0 as int,
                    post.ema_long.current->Some_0 as int,
                    close as int,
                ) as u64,
            }
        }
    }

    /// Absorb one bar: update every indicator, classify once all are ready,
    /// filter the candidate through the hysteresis rules, and report the
    /// accepted regime with its confidence and metrics. Before readiness the
    /// result is `Uncertain` with confidence zero and the regime state is
    /// untouched.
    #[verifier::rlimit(100)]
    pub fn update(&mut self, high: u64, low: u64, close: u64) -> (out: RegimeConfidence)
        requires
            old(self).wf(),
            1 <= low <= close <= high <= PRICE_MAX,
        ensures
            RegimeDetector::spec_update_relation(
                *old(self),
                *final(self),
                high,
                low,
                close,
                out,
            ),
            out == RegimeDetector::spec_update_out(*old(self), *final(self), high, low, close),
            crate::regime::types::spec_confidence_wf(out),
            final(self).wf(),
    {
        let adx_out = self.adx.update(high, low, close);
        let atr_out = self.atr.update(high, low, close);
        let bb_out = self.bb.update(close);
        let es_out = self.ema_short.update(close);
        let el_out = self.ema_long.update(close);
        proof {
            crate::regime::indicators::lemma_ema_next_bounds(
                match old(self).ema_short.current {
                    Some(v) => v as int,
                    None => 1,
                },
                close as int,
                old(self).ema_short.period as int,
            );
            crate::regime::indicators::lemma_ema_next_bounds(
                match old(self).ema_long.current {
                    Some(v) => v as int,
                    None => 1,
                },
                close as int,
                old(self).ema_long.period as int,
            );
        }
        if let Some(atr_val) = atr_out {
            self.atr_avg.update(atr_val);
        }
        self.last_close = Some(close);
        let ready = self.adx.is_ready() && self.atr.is_ready() && self.bb.is_ready()
            && self.ema_short.is_ready() && self.ema_long.is_ready();
        if !ready {
            return RegimeConfidence::new(MarketRegime::Uncertain, 0);
        }
        let adx_val = match adx_out {
            Some(v) => v,
            None => 0,
        };
        let atr_val = match atr_out {
            Some(v) => v,
            None => 0,
        };
        let bbv = match bb_out {
            Some(v) => v,
            None => BollingerBandsValues {
                upper: 0,
                middle: 0,
                lower: 0,
                width: 0,
                width_percentile: 0,
                percent_b: 0,
                std_dev: 0,
            },
        };
        let es = match es_out {
            Some(v) => v,
            None => 1,
        };
        let el = match el_out {
            Some(v) => v,
            None => 1,
        };
        let (candidate, confidence) = self.classify_regime(adx_val, atr_val, &bbv, es, el, close);
        let stable = self.apply_stability_filter(candidate, confidence);
        if !regime_eq(stable, self.current_regime) {
            self.regime_history.push(self.current_regime);
            if self.regime_history.len() > 20 {
                self.regime_history.remove(0);
            }
            proof {
                assert(self.regime_history@ =~= ring_push(
                    old(self).regime_history@,
                    old(self).current_regime,
                    20,
                ));
            }
            self.current_regime = stable;
            self.bars_in_regime = 0;
        } else {
            self.bars_in_regime = sat_add_u64(self.bars_in_regime, 1);
        }
        let ts = trend_strength_exec(es, el, close);
        proof {
            crate::regime::indicators::lemma_width_percentile_bound(
                self.bb.width_history@,
                BollingerBands::spec_bb_width(
                    self.bb.prices@,
                    old(self).config.bb_std_dev as int,
                    old(self).config.bb_period as int,
                ),
            );
        }
        RegimeConfidence::with_metrics(
            stable,
            confidence,
            adx_val,
            bbv.width_percentile,
            ts,
        )
    }

    /// Score the bar and pick the candidate regime, mirroring
    /// [`spec_classify`].
    #[verifier::rlimit(100)]
    fn classify_regime(
        &self,
        adx: u64,
        atr: u64,
        bb: &BollingerBandsValues,
        ema_short: u64,
        ema_long: u64,
        close: u64,
    ) -> (r: (MarketRegime, u64))
        requires
            self.wf(),
            adx <= 10_000,
            atr <= PRICE_MAX,
            1 <= ema_short <= PRICE_MAX,
            1 <= ema_long <= PRICE_MAX,
            1 <= close <= PRICE_MAX,
        ensures
            (r.0, r.1 as int) == spec_classify(
                self.config,
                adx as int,
                atr as int,
                *bb,
                ema_short as int,
                ema_long as int,
                close as int,
                self.atr_avg.spec_value(),
                match (self.adx.plus_di, self.adx.minus_di) {
                    (Some(p), Some(m)) => Some(
                        if p > m {
                            TrendDirection::Bullish
                        } else {
                            TrendDirection::Bearish
                        },
                    ),
                    _ => None::<TrendDirection>,
                },
            ),
            r.1 <= CONF_ONE,
    {
        let mut trending: u64 = 0;
        let mut ranging: u64 = 0;
        let mut volatile: u64 = 0;
        if adx >= self.config.adx_trending_threshold {
            trending = trending + 4;
        } else if adx <= self.config.adx_ranging_threshold {
            ranging = ranging + 3;
        }
        if bb.width_percentile >= self.config.bb_width_volatility_threshold {
            volatile = volatile + 3;
        }
        if bb.width_percentile <= 2_500 {
            ranging = ranging + 2;
        }
        let atr_avg_val = self.atr_avg.value();
        let (expansion_ge, expansion_lt): (bool, bool) = match atr_avg_val {
            Some(avg) => {
                proof {
                    assert((self.config.atr_expansion_threshold as int) * (avg as int)
                        <= 10_000int * 1_000_000_000_000int) by (nonlinear_arith)
                        requires
                            self.config.atr_expansion_threshold <= 10_000u64,
                            avg <= 1_000_000_000_000u64,
                    ;
                }
                let ge = (avg > 0 || atr > 0) && atr * 100
                    >= self.config.atr_expansion_threshold * avg;
                let lt = 5 * atr < 4 * avg;
                (ge, lt)
            },
            None => (100 >= self.config.atr_expansion_threshold, false),
        };
        if expansion_ge {
            volatile = volatile + 3;
        } else if expansion_lt {
            ranging = ranging + 2;
        }
        let gap = if ema_short >= ema_long {
            ema_short - ema_long
        } else {
            ema_long - ema_short
        };
        if gap * 50 > ema_long {
            trending = trending + 3;
        } else if gap * 100 < ema_long {
            ranging = ranging + 2;
        }
        let above = close > ema_short && close > ema_long;
        let below = close < ema_short && close < ema_long;
        if above || below {
            trending = trending + 2;
        } else {
            ranging = ranging + 2;
        }
        proof {
            assert((trending as int, ranging as int, volatile as int) == spec_scores(
                self.config,
                adx as int,
                atr as int,
                *bb,
                ema_short as int,
                ema_long as int,
                close as int,
                self.atr_avg.spec_value(),
            ));
        }
        let max1 = if trending >= ranging {
            trending
        } else {
            ranging
        };
        let max_score = if max1 >= volatile {
            max1
        } else {
            volatile
        };
        let conf_raw = max_score * CONF_ONE / 12;
        let confidence = if conf_raw > CONF_ONE {
            CONF_ONE
        } else {
            conf_raw
        };
        let regime = if volatile >= 5 && volatile >= trending {
            MarketRegime::Volatile
        } else if trending > ranging && trending > 3 {
            let direction = if ema_short > ema_long && close > ema_long {
                TrendDirection::Bullish
            } else if ema_short < ema_long && close < ema_long {
                TrendDirection::Bearish
            } else {
                match self.adx.trend_direction() {
                    Some(d) => d,
                    None => TrendDirection::Bullish,
                }
            };
            MarketRegime::Trending(direction)
        } else if ranging > 3 {
            MarketRegime::MeanReverting
        } else {
            MarketRegime::Uncertain
        };
        (regime, confidence)
    }

    /// Apply the hysteresis rules, mirroring [`spec_stability_filter`].
    fn apply_stability_filter(&self, new_regime: MarketRegime, confidence: u64) -> (r:
        MarketRegime)
        requires
            self.wf(),
        ensures
            r == spec_stability_filter(
                self.current_regime,
                self.bars_in_regime as int,
                self.regime_history@,
                self.config,
                new_regime,
                confidence as int,
            ),
    {
        if confidence < 400_000 {
            return self.current_regime;
        }
        if self.bars_in_regime < self.config.min_regime_duration as u64 && !regime_eq(
            new_regime,
            self.current_regime,
        ) {
            if confidence < 700_000 {
                return self.current_regime;
            }
        }
        let k = self.config.regime_stability_bars;
        let mut matches: u64 = 0;
        let mut taken: usize = 0;
        let len = self.regime_history.len();
        proof {
            assert(self.regime_history@.take(len as int) =~= self.regime_history@);
        }
        while taken < k && taken < len
            invariant
                taken <= len == self.regime_history@.len(),
                taken <= k,
                matches as int == spec_recent_matches(
                    self.regime_history@,
                    new_regime,
                    k as int,
                ) - spec_recent_matches(
                    self.regime_history@.take((len - taken) as int),
                    new_regime,
                    (k - taken) as int,
                ),
                matches <= taken,
            decreases len - taken,
        {
            proof {
                let pre = self.regime_history@.take((len - taken) as int);
                assert(pre.drop_last() =~= self.regime_history@.take((len - taken - 1) as int));
                assert(pre.last() == self.regime_history@[(len - taken - 1) as int]);
                lemma_recent_matches_bounds(
                    self.regime_history@.take((len - taken - 1) as int),
                    new_regime,
                    (k - taken - 1) as int,
                );
                lemma_recent_matches_bounds(self.regime_history@, new_regime, k as int);
            }
            let idx = len - taken - 1;
            let h = self.regime_history[idx];
            let is_match = match (h, new_regime) {
                (MarketRegime::Trending(_), MarketRegime::Trending(_)) => true,
                (MarketRegime::MeanReverting, MarketRegime::MeanReverting) => true,
                (MarketRegime::Volatile, MarketRegime::Volatile) => true,
                _ => false,
            };
            if is_match {
                matches = matches + 1;
            }
            taken = taken + 1;
        }
        proof {
            if taken == k {
                assert(spec_recent_matches(
                    self.regime_history@.take((len - taken) as int),
                    new_regime,
                    0,
                ) == 0);
            } else {
                assert(self.regime_history@.take(0int) =~= Seq::<MarketRegime>::empty());
            }
        }
        if (matches as usize) < k / 2 && confidence < 600_000 {
            return self.current_regime;
        }
        new_regime
    }

    /// Whether all indicators have warmed up.
    pub fn is_ready(&self) -> (r: bool)
        ensures
            r == self.spec_is_ready(),
    {
        self.adx.is_ready() && self.atr.is_ready() && self.bb.is_ready()
            && self.ema_short.is_ready() && self.ema_long.is_ready()
    }

    /// The currently accepted regime.
    pub fn current_regime(&self) -> (r: MarketRegime)
        ensures
            r == self.current_regime,
    {
        self.current_regime
    }

    /// The strategy family recommended for the current regime.
    pub fn recommended_strategy(&self) -> (r: RecommendedStrategy)
        ensures
            r == spec_recommended_for(self.current_regime),
    {
        RecommendedStrategy::from(&self.current_regime)
    }

    /// Bars spent in the current regime.
    pub fn bars_in_current_regime(&self) -> (r: u64)
        ensures
            r == self.bars_in_regime,
    {
        self.bars_in_regime
    }

    /// The current ADX value.
    pub fn adx_value(&self) -> (r: Option<u64>)
        ensures
            r == self.adx.current_adx,
    {
        self.adx.value()
    }

    /// The current ATR value.
    pub fn atr_value(&self) -> (r: Option<u64>)
        ensures
            r == self.atr.current_atr,
    {
        self.atr.value()
    }

    /// The configuration.
    pub fn config(&self) -> (r: &RegimeConfig)
        ensures
            r == &self.config,
    {
        &self.config
    }

    /// Replace the configuration, resetting all internal state.
    pub fn set_config(&mut self, config: RegimeConfig)
        requires
            spec_regime_config_wf(config),
        ensures
            final(self).config == config,
            final(self).current_regime == MarketRegime::Uncertain,
            final(self).wf(),
    {
        *self = RegimeDetector::new(config);
    }
}

/// Regime counts matched by the stability filter lie within the window.
pub proof fn lemma_recent_matches_bounds(s: Seq<MarketRegime>, cand: MarketRegime, k: int)
    ensures
        0 <= spec_recent_matches(s, cand, k),
        spec_recent_matches(s, cand, k) <= s.len(),
        spec_recent_matches(s, cand, k) <= (if k >= 0 { k } else { 0 }),
    decreases s.len(),
{
    if k <= 0 || s.len() == 0 {
    } else {
        lemma_recent_matches_bounds(s.drop_last(), cand, k - 1);
    }
}

/// Equality of regimes as an executable test.
fn regime_eq(a: MarketRegime, b: MarketRegime) -> (r: bool)
    ensures
        r == (a == b),
{
    a == b
}

/// Executable trend strength, tied to [`spec_trend_strength`].
fn trend_strength_exec(ema_short: u64, ema_long: u64, close: u64) -> (r: u64)
    requires
        1 <= ema_short <= PRICE_MAX,
        1 <= ema_long <= PRICE_MAX,
        close <= PRICE_MAX,
    ensures
        r as int == spec_trend_strength(ema_short as int, ema_long as int, close as int),
        r <= CONF_ONE,
{
    let gap: u64 = if ema_short >= ema_long {
        ema_short - ema_long
    } else {
        ema_long - ema_short
    };
    let full = (close > ema_short && close > ema_long) || (close < ema_short && close < ema_long);
    proof {
        crate::fixed::lemma_div_bound_lower(
            (gap as int) * 20_000_000,
            0,
            ema_long as int,
        );
        crate::fixed::lemma_div_bound_lower(
            (gap as int) * 10_000_000,
            0,
            ema_long as int,
        );
    }
    let raw: u128 = if full {
        (gap as u128) * 20_000_000 / (ema_long as u128)
    } else {
        (gap as u128) * 10_000_000 / (ema_long as u128)
    };
    if raw > CONF_ONE as u128 {
        CONF_ONE
    } else {
        raw as u64
    }
}

} // verus!
