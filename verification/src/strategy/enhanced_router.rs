//! Enhanced strategy router: per-asset regime detection through a choice of
//! rule-based, HMM or ensemble detectors, with regime-driven strategy
//! selection.

use vstd::prelude::*;

verus! {

use crate::fixed::{CONF_ONE, PRICE_MAX};
use crate::regime::detector::RegimeDetector;
use crate::regime::ensemble::{
    spec_ensemble_config_wf,
    EnsembleConfig,
    EnsembleRegimeDetector,
    EnsembleResult,
};
use crate::regime::hmm::{spec_hmm_config_wf, HMMConfig, HMMRegimeDetector};
use crate::regime::types::{
    spec_regime_config_wf,
    MarketRegime,
    RegimeConfidence,
    RegimeConfig,
    TrendDirection,
};
use crate::strategy::mean_reversion::{
    spec_mr_config_wf,
    MeanReversionConfig,
    MeanReversionStrategy,
    Signal,
};

/// Which detection method drives the router.
#[derive(Clone, Copy, Debug, PartialEq, Eq, Structural)]
pub enum DetectionMethod {
    /// Rule-based technical indicators.
    Indicators,
    /// Hidden Markov Model over returns.
    HMM,
    /// Ensemble of both.
    Ensemble,
}

impl Default for DetectionMethod {
    /// The ensemble is the recommended default.
    fn default() -> (r: DetectionMethod)
        ensures
            r == DetectionMethod::Ensemble,
    {
        DetectionMethod::Ensemble
    }
}

/// Configuration of the enhanced router.
#[derive(Clone, Copy, Debug, PartialEq, Eq, Structural)]
pub struct EnhancedRouterConfig {
    /// Detection method to instantiate per asset.
    pub detection_method: DetectionMethod,
    /// Rule-based configuration.
    pub indicator_config: RegimeConfig,
    /// HMM configuration, when the HMM method is chosen.
    pub hmm_config: Option<HMMConfig>,
    /// Ensemble configuration, when the ensemble method is chosen.
    pub ensemble_config: Option<EnsembleConfig>,
    /// Mean-reversion strategy configuration.
    pub mean_reversion_config: MeanReversionConfig,
    /// Position factor applied in the volatile regime.
    pub volatile_position_factor: u64,
    /// Confidence below which no strategy is engaged.
    pub min_confidence: u64,
    /// Whether embedding applications should log regime changes.
    pub log_changes: bool,
}

/// Machine bounds on the enhanced-router configuration.
pub open spec fn spec_enh_config_wf(c: EnhancedRouterConfig) -> bool {
    &&& spec_regime_config_wf(c.indicator_config)
    &&& (match c.hmm_config {
        Some(h) => spec_hmm_config_wf(h),
        None => true,
    })
    &&& (match c.ensemble_config {
        Some(e) => spec_ensemble_config_wf(e),
        None => true,
    })
    &&& spec_mr_config_wf(c.mean_reversion_config)
    &&& c.volatile_position_factor <= CONF_ONE
    &&& c.min_confidence <= CONF_ONE
}

impl Default for EnhancedRouterConfig {
    /// Defaults: ensemble detection over crypto-optimized members.
    fn default() -> (r: EnhancedRouterConfig)
        ensures
            r.detection_method == DetectionMethod::Ensemble,
            r.hmm_config is Some,
            r.ensemble_config is Some,
            r.volatile_position_factor == 500_000,
            r.min_confidence == 500_000,
            spec_enh_config_wf(r),
    {
        EnhancedRouterConfig {
            detection_method: DetectionMethod::Ensemble,
            indicator_config: RegimeConfig::crypto_optimized(),
            hmm_config: Some(HMMConfig::crypto_optimized()),
            ensemble_config: Some(EnsembleConfig::default()),
            mean_reversion_config: MeanReversionConfig::default(),
            volatile_position_factor: 500_000,
            min_confidence: 500_000,
            log_changes: true,
        }
    }
}

/// Which strategy is currently engaged for an asset.
#[derive(Clone, Copy, Debug, PartialEq, Eq, Structural)]
pub enum ActiveStrategy {
    /// Trend-following entries.
    TrendFollowing,
    /// Band-based mean reversion.
    MeanReversion,
    /// Staying out of the market.
    NoTrade,
}

impl ActiveStrategy {
    /// Human-readable name of the strategy.
    pub fn label(&self) -> (r: String)
        ensures
            r@ == (match *self {
                ActiveStrategy::TrendFollowing => "Trend Following"@,
                ActiveStrategy::MeanReversion => "Mean Reversion"@,
                ActiveStrategy::NoTrade => "No Trade"@,
            }),
    {
        match self {
            ActiveStrategy::TrendFollowing => String::from_str("Trend Following"),
            ActiveStrategy::MeanReversion => String::from_str("Mean Reversion"),
            ActiveStrategy::NoTrade => String::from_str("No Trade"),
        }
    }
}

/// A routed signal with the detection context of the enhanced router.
#[derive(Clone, Debug)]
pub struct EnhancedSignal {
    /// The trading signal.
    pub signal: Signal,
    /// Which strategy generated the signal.
    pub strategy: ActiveStrategy,
    /// The detected regime.
    pub regime: MarketRegime,
    /// Regime confidence at [`CONF_ONE`].
    pub confidence: u64,
    /// Position-size multiplier at [`CONF_ONE`].
    pub position_factor: u64,
    /// Reasoning behind the signal.
    pub reason: String,
    /// Protective stop, when applicable.
    pub stop_loss: Option<u64>,
    /// Profit target, when applicable.
    pub take_profit: Option<u64>,
    /// Which detection method produced this signal.
    pub detection_method: DetectionMethod,
    /// Whether the ensemble members agreed (ensemble method only).
    pub methods_agree: Option<bool>,
    /// The HMM's filtered distribution (HMM and ensemble methods).
    pub state_probabilities: Option<Vec<u64>>,
    /// Expected bars in the current HMM state, at [`CONF_ONE`].
    pub expected_duration: Option<u64>,
}

/// The detector of one asset.
#[derive(Debug)]
pub enum Detector {
    /// Rule-based detection.
    Indicator(RegimeDetector),
    /// HMM detection.
    HMM(HMMRegimeDetector),
    /// Ensemble detection.
    Ensemble(EnsembleRegimeDetector),
}

impl Detector {
    /// Structural bounds of the wrapped detector.
    pub open spec fn wf(self) -> bool {
        match self {
            Detector::Indicator(d) => d.wf(),
            Detector::HMM(d) => d.wf(),
            Detector::Ensemble(d) => d.wf(),
        }
    }
}

/// Per-asset routing state.
#[derive(Debug)]
pub struct AssetState {
    /// Regime detector for the asset.
    pub detector: Detector,
    /// Mean-reversion strategy for the asset.
    pub mean_reversion: MeanReversionStrategy,
    /// Strategy currently engaged.
    pub current_strategy: ActiveStrategy,
    /// Last regime reported for the asset.
    pub last_regime: MarketRegime,
    /// Number of regime changes observed.
    pub regime_change_count: u32,
}

impl AssetState {
    /// Structural bounds every asset state of the router maintains.
    pub open spec fn wf(self) -> bool {
        &&& self.detector.wf()
        &&& self.mean_reversion.wf()
    }
}

/// An asset state as it comes out of registration: a fresh detector of the
/// configured method, a fresh strategy, no trade engaged.
pub open spec fn spec_fresh_enh_asset(st: AssetState, config: EnhancedRouterConfig) -> bool {
    &&& (match st.detector {
        Detector::Indicator(d) => {
            &&& config.detection_method == DetectionMethod::Indicators
            &&& RegimeDetector::spec_fresh(d, config.indicator_config)
        },
        Detector::HMM(d) => {
            &&& config.detection_method == DetectionMethod::HMM
            &&& HMMRegimeDetector::spec_fresh(
                d,
                match config.hmm_config {
                    Some(c) => c,
                    None => HMMConfig {
                        n_states: 3usize,
                        min_observations: 100u64,
                        learning_rate: 10_000u64,
                        transition_smoothing: 100_000u64,
                        lookback_window: 252usize,
                        min_confidence: 600_000u64,
                    },
                },
            )
        },
        Detector::Ensemble(d) => {
            &&& config.detection_method == DetectionMethod::Ensemble
            &&& EnsembleRegimeDetector::spec_fresh(
                d,
                match config.ensemble_config {
                    Some(c) => c,
                    None => EnsembleConfig {
                        indicator_weight: 600_000u64,
                        hmm_weight: 400_000u64,
                        agreement_threshold: 500_000u64,
                        require_hmm_warmup: true,
                        agreement_confidence_boost: 150_000u64,
                        disagreement_confidence_penalty: 200_000u64,
                    },
                },
                config.indicator_config,
            )
        },
    })
    &&& MeanReversionStrategy::spec_fresh(st.mean_reversion, config.mean_reversion_config)
    &&& st.current_strategy == ActiveStrategy::NoTrade
    &&& st.last_regime == MarketRegime::Uncertain
    &&& st.regime_change_count == 0
}

/// One asset's routing step across one bar in the enhanced router: the
/// detector of the configured method is stepped, the regime change is
/// counted, the strategy is selected, the signal comes from the selected
/// strategy, and the detection context fields are filled per method.
pub open spec fn spec_detector_stepped(
    pre: Detector,
    post: Detector,
    regime: MarketRegime,
    confidence: u64,
    agree: Option<bool>,
    probs: Option<Vec<u64>>,
    duration: Option<u64>,
    high: u64,
    low: u64,
    close: u64,
) -> bool {
    match (pre, post) {
        (Detector::Indicator(d0), Detector::Indicator(d1)) => {
            let rc = RegimeDetector::spec_update_out(d0, d1, high, low, close);
            &&& RegimeDetector::spec_update_relation(d0, d1, high, low, close, rc)
            &&& regime == rc.regime
            &&& confidence == rc.confidence
            &&& agree is None
            &&& probs is None
            &&& duration is None
        },
        (Detector::HMM(d0), Detector::HMM(d1)) => {
            let rc = d1.spec_regime_confidence();
            &&& HMMRegimeDetector::spec_update_relation(d0, d1, close, rc)
            &&& regime == rc.regime
            &&& confidence == rc.confidence
            &&& agree is None
            &&& (probs matches Some(p) && p@ == d1.state_probs@)
            &&& (duration matches Some(dur) && dur as int == d1.spec_expected_duration(
                d1.current_state as int,
            ))
        },
        (Detector::Ensemble(d0), Detector::Ensemble(d1)) => {
            &&& (exists|er: EnsembleResult|
                {
                    &&& #[trigger] EnsembleRegimeDetector::spec_update_relation(
                        d0,
                        d1,
                        high,
                        low,
                        close,
                        er,
                    )
                    &&& regime == er.regime
                    &&& confidence == er.confidence
                    &&& agree == Some(er.methods_agree)
                })
            &&& (probs matches Some(p) && p@ == d1.hmm_detector.state_probs@)
            &&& (duration matches Some(dur) && dur as int
                == d1.hmm_detector.spec_expected_duration(d1.hmm_detector.current_state as int))
        },
        _ => false,
    }
}

pub open spec fn spec_enh_asset_step(
    pre_st: AssetState,
    post_st: AssetState,
    rs: EnhancedSignal,
    config: EnhancedRouterConfig,
    high: u64,
    low: u64,
    close: u64,
) -> bool {
    &&& spec_detector_stepped(
        pre_st.detector,
        post_st.detector,
        rs.regime,
        rs.confidence,
        rs.methods_agree,
        rs.state_probabilities,
        rs.expected_duration,
        high,
        low,
        close,
    )
    &&& post_st.last_regime == rs.regime
    &&& (rs.regime != pre_st.last_regime ==> post_st.regime_change_count as int == (
    if pre_st.regime_change_count < u32::MAX {
        pre_st.regime_change_count + 1
    } else {
        pre_st.regime_change_count as int
    }))
    &&& (rs.regime == pre_st.last_regime ==> post_st.regime_change_count
        == pre_st.regime_change_count)
    &&& (rs.strategy, rs.position_factor) == spec_enh_select(
        rs.regime,
        rs.confidence,
        config.min_confidence,
        config.volatile_position_factor,
    )
    &&& post_st.current_strategy == rs.strategy
    &&& (match rs.strategy {
        ActiveStrategy::TrendFollowing => {
            &&& (rs.signal, rs.stop_loss, rs.take_profit) == spec_enh_trend_signal(
                rs.regime,
                rs.confidence,
                close as int,
            )
            &&& post_st.mean_reversion == pre_st.mean_reversion
        },
        ActiveStrategy::MeanReversion => {
            &&& MeanReversionStrategy::spec_stepped(
                pre_st.mean_reversion,
                post_st.mean_reversion,
                high,
                low,
                close,
                rs.signal,
            )
            &&& rs.stop_loss == post_st.mean_reversion.last_result.stop_loss
            &&& rs.take_profit == post_st.mean_reversion.last_result.take_profit
        },
        ActiveStrategy::NoTrade => {
            &&& rs.signal == Signal::Hold
            &&& rs.stop_loss is None
            &&& rs.take_profit is None
            &&& post_st.mean_reversion == pre_st.mean_reversion
        },
    })
}

/// The strategy and position factor for a regime reading.
pub open spec fn spec_enh_select(
    regime: MarketRegime,
    confidence: u64,
    min_confidence: u64,
    volatile_factor: u64,
) -> (ActiveStrategy, u64) {
    if confidence < min_confidence {
        (ActiveStrategy::NoTrade, 0u64)
    } else {
        match regime {
            MarketRegime::Trending(_) => (ActiveStrategy::TrendFollowing, CONF_ONE),
            MarketRegime::MeanReverting => (ActiveStrategy::MeanReversion, CONF_ONE),
            MarketRegime::Volatile => (ActiveStrategy::MeanReversion, volatile_factor),
            MarketRegime::Uncertain => (ActiveStrategy::NoTrade, 0u64),
        }
    }
}

/// The simplified trend signal of the enhanced router: an ATR estimate of
/// two percent of the close, a stop two estimates below and a target three
/// above for confident bull trends, an exit for confident bear trends.
pub open spec fn spec_enh_trend_signal(regime: MarketRegime, confidence: u64, close: int) -> (
    Signal,
    Option<u64>,
    Option<u64>,
) {
    let atr_estimate = close * 2 / 100;
    match regime {
        MarketRegime::Trending(TrendDirection::Bullish) => if confidence > 600_000 {
            let stop = if close >= 2 * atr_estimate {
                close - 2 * atr_estimate
            } else {
                0int
            };
            (Signal::Buy, Some(stop as u64), Some((close + 3 * atr_estimate) as u64))
        } else {
            (Signal::Hold, None::<u64>, None::<u64>)
        },
        MarketRegime::Trending(TrendDirection::Bearish) => if confidence > 600_000 {
            (Signal::Sell, None::<u64>, None::<u64>)
        } else {
            (Signal::Hold, None::<u64>, None::<u64>)
        },
        _ => (Signal::Hold, None::<u64>, None::<u64>),
    }
}

/// The index of a symbol among the registered assets.
pub open spec fn spec_enh_find(assets: Seq<(String, AssetState)>, sym: Seq<char>) -> Option<int>
    decreases assets.len(),
{
    if assets.len() == 0 {
        None
    } else if assets[0].0@ == sym {
        Some(0int)
    } else {
        match spec_enh_find(assets.skip(1), sym) {
            Some(i) => Some(i + 1),
            None => None,
        }
    }
}

/// Regime-aware router with a pluggable detection method.
pub struct EnhancedRouter {
    /// Configuration shared by all assets.
    pub config: EnhancedRouterConfig,
    /// Registered assets and their routing state, in registration order.
    pub assets: Vec<(String, AssetState)>,
}

impl EnhancedRouter {
    /// Structural bounds every router of the core maintains.
    pub open spec fn wf(self) -> bool {
        &&& spec_enh_config_wf(self.config)
        &&& (forall|i: int| 0 <= i < self.assets@.len() ==> (#[trigger] self.assets@[i]).1.wf())
    }

    /// A fresh router with the given configuration.
    pub fn new(config: EnhancedRouterConfig) -> (r: EnhancedRouter)
        requires
            spec_enh_config_wf(config),
        ensures
            r.config == config,
            r.assets@.len() == 0,
            r.wf(),
    {
        EnhancedRouter { config, assets: Vec::new() }
    }

    /// Create with rule-based detection.
    pub fn with_indicators() -> (r: EnhancedRouter)
        ensures
            r.config.detection_method == DetectionMethod::Indicators,
            r.assets@.len() == 0,
            r.wf(),
    {
        let mut config = EnhancedRouterConfig::default();
        config.detection_method = DetectionMethod::Indicators;
        EnhancedRouter::new(config)
    }

    /// Create with HMM detection.
    pub fn with_hmm() -> (r: EnhancedRouter)
        ensures
            r.config.detection_method == DetectionMethod::HMM,
            r.config.hmm_config is Some,
            r.assets@.len() == 0,
            r.wf(),
    {
        let mut config = EnhancedRouterConfig::default();
        config.detection_method = DetectionMethod::HMM;
        config.hmm_config = Some(HMMConfig::crypto_optimized());
        EnhancedRouter::new(config)
    }

    /// Create with ensemble detection (recommended).
    pub fn with_ensemble() -> (r: EnhancedRouter)
        ensures
            r.config.detection_method == DetectionMethod::Ensemble,
            r.config.ensemble_config is Some,
            r.assets@.len() == 0,
            r.wf(),
    {
        let mut config = EnhancedRouterConfig::default();
        config.detection_method = DetectionMethod::Ensemble;
        config.ensemble_config = Some(EnsembleConfig::default());
        EnhancedRouter::new(config)
    }

    /// The index of a registered symbol, if any.
    fn find_asset(&self, symbol: &str) -> (r: Option<usize>)
        ensures
            (match r {
                Some(i) => {
                    &&& spec_enh_find(self.assets@, symbol@) == Some(i as int)
                    &&& i < self.assets@.len()
                    &&& self.assets@[i as int].0@ == symbol@
                    &&& forall|k: int| 0 <= k < i ==> (#[trigger] self.assets@[k]).0@ != symbol@
                },
                None => {
                    &&& spec_enh_find(self.assets@, symbol@) is None
                    &&& forall|k: int|
                        0 <= k < self.assets@.len() ==> (#[trigger] self.assets@[k]).0@ != symbol@
                },
            }),
    {
        let key: String = symbol.to_owned();
        let mut i: usize = 0;
        while i < self.assets.len()
            invariant
                i <= self.assets@.len(),
                key@ == symbol@,
                forall|k: int| 0 <= k < i ==> (#[trigger] self.assets@[k]).0@ != symbol@,
            decreases self.assets@.len() - i,
        {
            if self.assets[i].0 == key {
                proof {
                    lemma_enh_find_hit(self.assets@, symbol@, i as int);
                }
                return Some(i);
            }
            i = i + 1;
        }
        proof {
            lemma_enh_find_miss(self.assets@, symbol@);
        }
        None
    }

    /// Register an asset with a detector of the configured method; a symbol
    /// already registered is left untouched.
    pub fn register_asset(&mut self, symbol: &str)
        requires
            old(self).wf(),
        ensures
            final(self).config == old(self).config,
            spec_enh_find(old(self).assets@, symbol@) is Some ==> final(self).assets == old(
                self,
            ).assets,
            spec_enh_find(old(self).assets@, symbol@) is None ==> {
                &&& final(self).assets@.len() == old(self).assets@.len() + 1
                &&& final(self).assets@.subrange(0, old(self).assets@.len() as int) == old(
                    self,
                ).assets@
                &&& final(self).assets@.last().0@ == symbol@
                &&& spec_fresh_enh_asset(final(self).assets@.last().1, old(self).config)
            },
            final(self).wf(),
    {
        if self.find_asset(symbol).is_some() {
            return ;
        }
        let detector = match self.config.detection_method {
            DetectionMethod::Indicators => Detector::Indicator(
                RegimeDetector::new(self.config.indicator_config),
            ),
            DetectionMethod::HMM => {
                let hmm_config = match self.config.hmm_config {
                    Some(c) => c,
                    None => HMMConfig::default(),
                };
                Detector::HMM(HMMRegimeDetector::new(hmm_config))
            },
            DetectionMethod::Ensemble => {
                let ens_config = match self.config.ensemble_config {
                    Some(c) => c,
                    None => EnsembleConfig::default(),
                };
                Detector::Ensemble(
                    EnsembleRegimeDetector::new(ens_config, self.config.indicator_config),
                )
            },
        };
        let state = AssetState {
            detector,
            mean_reversion: MeanReversionStrategy::new(self.config.mean_reversion_config),
            current_strategy: ActiveStrategy::NoTrade,
            last_regime: MarketRegime::Uncertain,
            regime_change_count: 0,
        };
        self.assets.push((symbol.to_owned(), state));
        proof {
            assert(self.assets@.subrange(0, old(self).assets@.len() as int) =~= old(self).assets@);
        }
    }

    /// The full relation between router states and output across one bar
    /// for a symbol: a registered symbol's state takes one routing step, a
    /// first-seen symbol takes that step from a freshly registered state at
    /// the end of the table, and every other entry is untouched.
    pub open spec fn spec_update_relation(
        pre: EnhancedRouter,
        post: EnhancedRouter,
        sym: Seq<char>,
        high: u64,
        low: u64,
        close: u64,
        out: Option<EnhancedSignal>,
    ) -> bool {
        &&& post.config == pre.config
        &&& out is Some
        &&& spec_enh_find(post.assets@, sym) is Some
        &&& ({
            let rs = out->Some_0;
            let idx = spec_enh_find(post.assets@, sym)->Some_0;
            let st = post.assets@[idx].1;
            &&& rs.confidence <= CONF_ONE
            &&& rs.detection_method == pre.config.detection_method
            &&& (match spec_enh_find(pre.assets@, sym) {
                Some(oi) => {
                    &&& oi == idx
                    &&& post.assets@.len() == pre.assets@.len()
                    &&& (forall|k: int|
                        0 <= k < post.assets@.len() && k != idx ==> #[trigger] post.assets@[k]
                            == pre.assets@[k])
                    &&& spec_enh_asset_step(
                        pre.assets@[oi].1,
                        st,
                        rs,
                        pre.config,
                        high,
                        low,
                        close,
                    )
                },
                None => {
                    &&& idx == pre.assets@.len()
                    &&& post.assets@.len() == pre.assets@.len() + 1
                    &&& (forall|k: int|
                        0 <= k < pre.assets@.len() ==> #[trigger] post.assets@[k]
                            == pre.assets@[k])
                    &&& (exists|fresh: AssetState|
                        #[trigger] spec_fresh_enh_asset(fresh, pre.config) && spec_enh_asset_step(
                            fresh,
                            st,
                            rs,
                            pre.config,
                            high,
                            low,
                            close,
                        ))
                },
            })
        })
    }

    /// Absorb one bar for a symbol (registering it on first sight), select
    /// the strategy for the detected regime and emit the enhanced signal.
    #[verifier::rlimit(100)]
    #[verifier::spinoff_prover]
    pub fn update(&mut self, symbol: &str, high: u64, low: u64, close: u64) -> (out: Option<
        EnhancedSignal,
    >)
        requires
            old(self).wf(),
            1 <= low <= close <= high <= PRICE_MAX,
        ensures
            EnhancedRouter::spec_update_relation(
                *old(self),
                *final(self),
                symbol@,
                high,
                low,
                close,
                out,
            ),
            final(self).wf(),
    {
        let idx: usize = match self.find_asset(symbol) {
            Some(i) => i,
            None => {
                let ghost pre = self.assets@;
                self.register_asset(symbol);
                proof {
                    assert forall|k: int|
                        0 <= k < self.assets@.len() - 1 implies (#[trigger] self.assets@[k]).0@
                        != symbol@ by {
                        assert(self.assets@.subrange(0, pre.len() as int)[k] == self.assets@[k]);
                        assert(pre[k].0@ != symbol@);
                    }
                    assert forall|k: int|
                        0 <= k < pre.len() implies #[trigger] self.assets@[k] == pre[k] by {
                        assert(self.assets@.subrange(0, pre.len() as int)[k] == self.assets@[k]);
                    }
                }
                self.assets.len() - 1
            },
        };
        proof {
            assert(self.assets@[idx as int].0@ == symbol@);
            assert(forall|k: int| 0 <= k < idx ==> (#[trigger] self.assets@[k]).0@ != symbol@);
        }
        let ghost gassets = self.assets@;
        let (key, mut state) = self.assets.remove(idx);
        let ghost gpre_state = state;
        proof {
            if spec_enh_find(old(self).assets@, symbol@) is None {
                assert(spec_fresh_enh_asset(gpre_state, old(self).config));
            }
        }
        let config = self.config;
        let out = route_asset(&config, &mut state, high, low, close);
        self.assets.insert(idx, (key, state));
        proof {
            assert forall|k: int| 0 <= k < idx implies (#[trigger] self.assets@[k]).0@
                != symbol@ by {
                assert(self.assets@[k] == gassets[k]);
            }
            assert(self.assets@[idx as int].0@ == symbol@);
            lemma_enh_find_hit(self.assets@, symbol@, idx as int);
            if spec_enh_find(old(self).assets@, symbol@) is Some {
                assert(gassets == old(self).assets@);
                assert forall|k: int|
                    0 <= k < self.assets@.len() && k != idx as int implies #[trigger] self.assets@[k]
                    == old(self).assets@[k] by {
                    assert(self.assets@[k] == gassets[k]);
                }
            } else {
                assert forall|k: int|
                    0 <= k < old(self).assets@.len() implies #[trigger] self.assets@[k] == old(
                    self,
                ).assets@[k] by {
                    assert(self.assets@[k] == gassets[k]);
                }
            }
        }
        Some(out)
    }

    /// The last regime reported for a symbol.
    pub fn get_regime(&self, symbol: &str) -> (r: Option<MarketRegime>)
        ensures
            (match spec_enh_find(self.assets@, symbol@) {
                Some(i) => r == Some(self.assets@[i].1.last_regime),
                None => r is None,
            }),
    {
        match self.find_asset(symbol) {
            Some(i) => Some(self.assets[i].1.last_regime),
            None => None,
        }
    }

    /// The strategy currently engaged for a symbol.
    pub fn get_strategy(&self, symbol: &str) -> (r: Option<ActiveStrategy>)
        ensures
            (match spec_enh_find(self.assets@, symbol@) {
                Some(i) => r == Some(self.assets@[i].1.current_strategy),
                None => r is None,
            }),
    {
        match self.find_asset(symbol) {
            Some(i) => Some(self.assets[i].1.current_strategy),
            None => None,
        }
    }

    /// Whether the detector of a symbol has warmed up.
    pub fn is_ready(&self, symbol: &str) -> (r: bool)
        requires
            self.wf(),
        ensures
            (spec_enh_find(self.assets@, symbol@) is None ==> r == false),
    {
        match self.find_asset(symbol) {
            Some(i) => {
                match &self.assets[i].1.detector {
                    Detector::Indicator(d) => d.is_ready(),
                    Detector::HMM(d) => d.is_ready(),
                    Detector::Ensemble(d) => d.is_ready(),
                }
            },
            None => false,
        }
    }

    /// The detection method in use.
    pub fn detection_method(&self) -> (r: DetectionMethod)
        ensures
            r == self.config.detection_method,
    {
        self.config.detection_method
    }

    /// The number of regime changes observed for a symbol; zero when the
    /// symbol is unknown.
    pub fn regime_changes(&self, symbol: &str) -> (r: u32)
        ensures
            r as int == (match spec_enh_find(self.assets@, symbol@) {
                Some(i) => self.assets@[i].1.regime_change_count as int,
                None => 0int,
            }),
    {
        match self.find_asset(symbol) {
            Some(i) => self.assets[i].1.regime_change_count,
            None => 0,
        }
    }
}

/// The HMM leg of the detector step: the update plus the detection context.
fn route_hmm(det: &mut HMMRegimeDetector, high: u64, low: u64, close: u64) -> (r: (
    RegimeConfidence,
    Vec<u64>,
    u64,
))
    requires
        old(det).wf(),
        1 <= low <= close <= high <= PRICE_MAX,
    ensures
        HMMRegimeDetector::spec_update_relation(*old(det), *final(det), close, r.0),
        r.1@ == final(det).state_probs@,
        r.2 as int == final(det).spec_expected_duration(final(det).current_state as int),
        r.0.confidence <= CONF_ONE,
        final(det).wf(),
{
    let result = det.update_ohlc(high, low, close);
    let probs = copy_probs(det.state_probabilities());
    let duration = det.expected_regime_duration(det.current_state_index());
    (result, probs, duration)
}

/// The ensemble leg of the detector step: the update plus the detection
/// context.
fn route_ensemble(det: &mut EnsembleRegimeDetector, high: u64, low: u64, close: u64) -> (r: (
    RegimeConfidence,
    bool,
    Vec<u64>,
    u64,
))
    requires
        old(det).wf(),
        1 <= low <= close <= high <= PRICE_MAX,
    ensures
        (exists|er: EnsembleResult|
            {
                &&& #[trigger] EnsembleRegimeDetector::spec_update_relation(
                    *old(det),
                    *final(det),
                    high,
                    low,
                    close,
                    er,
                )
                &&& r.0.regime == er.regime
                &&& r.0.confidence == er.confidence
                &&& r.1 == er.methods_agree
            }),
        r.2@ == final(det).hmm_detector.state_probs@,
        r.3 as int == final(det).hmm_detector.spec_expected_duration(
            final(det).hmm_detector.current_state as int,
        ),
        r.0.confidence <= CONF_ONE,
        final(det).wf(),
{
    let ens_result = det.update(high, low, close);
    let probs = copy_probs(det.hmm_state_probabilities());
    let duration = det.expected_regime_duration();
    let rc = ens_result.to_regime_confidence();
    proof {
        let ger = ens_result;
        assert(EnsembleRegimeDetector::spec_update_relation(
            *old(det),
            *det,
            high,
            low,
            close,
            ger,
        ) && rc.regime == ger.regime && rc.confidence == ger.confidence && ens_result.methods_agree
            == ger.methods_agree);
    }
    (rc, ens_result.methods_agree, probs, duration)
}

/// One detector's step of the configured method, with the per-method
/// detection context (agreement, state probabilities, expected duration).
#[verifier::rlimit(100)]
#[verifier::spinoff_prover]
fn route_detector(detector: &mut Detector, high: u64, low: u64, close: u64) -> (r: (
    RegimeConfidence,
    Option<bool>,
    Option<Vec<u64>>,
    Option<u64>,
))
    requires
        old(detector).wf(),
        1 <= low <= close <= high <= PRICE_MAX,
    ensures
        spec_detector_stepped(
            *old(detector),
            *final(detector),
            r.0.regime,
            r.0.confidence,
            r.1,
            r.2,
            r.3,
            high,
            low,
            close,
        ),
        r.0.confidence <= CONF_ONE,
        final(detector).wf(),
{
    match detector {
        Detector::Indicator(det) => {
            let result = det.update(high, low, close);
            (result, None, None, None)
        },
        Detector::HMM(det) => {
            let (result, probs, duration) = route_hmm(det, high, low, close);
            (result, None, Some(probs), Some(duration))
        },
        Detector::Ensemble(det) => {
            let (result, agree, probs, duration) = route_ensemble(det, high, low, close);
            (result, Some(agree), Some(probs), Some(duration))
        },
    }
}

/// One asset's routing step: update the detector of the configured method,
/// track the regime change, select the strategy and produce the signal.
#[verifier::rlimit(100)]
#[verifier::spinoff_prover]
fn route_asset(
    config: &EnhancedRouterConfig,
    state: &mut AssetState,
    high: u64,
    low: u64,
    close: u64,
) -> (out: EnhancedSignal)
    requires
        spec_enh_config_wf(*config),
        old(state).wf(),
        1 <= low <= close <= high <= PRICE_MAX,
    ensures
        spec_enh_asset_step(*old(state), *final(state), out, *config, high, low, close),
        out.confidence <= CONF_ONE,
        out.detection_method == config.detection_method,
        final(state).wf(),
{
    let (regime_result, methods_agree, state_probs, expected_duration): (
        RegimeConfidence,
        Option<bool>,
        Option<Vec<u64>>,
        Option<u64>,
    ) = route_detector(&mut state.detector, high, low, close);
    if !regime_eq(regime_result.regime, state.last_regime) {
        if state.regime_change_count < u32::MAX {
            state.regime_change_count = state.regime_change_count + 1;
        }
        state.last_regime = regime_result.regime;
    }
    let (strategy, position_factor): (ActiveStrategy, u64) = if regime_result.confidence
        < config.min_confidence {
        (ActiveStrategy::NoTrade, 0)
    } else {
        match regime_result.regime {
            MarketRegime::Trending(_) => (ActiveStrategy::TrendFollowing, CONF_ONE),
            MarketRegime::MeanReverting => (ActiveStrategy::MeanReversion, CONF_ONE),
            MarketRegime::Volatile => (
                ActiveStrategy::MeanReversion,
                config.volatile_position_factor,
            ),
            MarketRegime::Uncertain => (ActiveStrategy::NoTrade, 0),
        }
    };
    state.current_strategy = strategy;
    let (signal, reason, stop_loss, take_profit): (Signal, String, Option<u64>, Option<u64>) =
        match strategy {
        ActiveStrategy::TrendFollowing => {
            let (sig, stop, tp) = enh_trend_signal(
                regime_result.regime,
                regime_result.confidence,
                close,
            );
            (sig, String::from_str("trend confirmed by the detector"), stop, tp)
        },
        ActiveStrategy::MeanReversion => {
            let mr_signal = state.mean_reversion.update(high, low, close);
            (
                mr_signal,
                String::from_str("band press with RSI confirmation"),
                state.mean_reversion.stop_loss(),
                state.mean_reversion.take_profit(),
            )
        },
        ActiveStrategy::NoTrade => {
            (Signal::Hold, String::from_str("uncertain: staying out"), None, None)
        },
    };
    EnhancedSignal {
        signal,
        strategy,
        regime: regime_result.regime,
        confidence: regime_result.confidence,
        position_factor,
        reason,
        stop_loss,
        take_profit,
        detection_method: config.detection_method,
        methods_agree,
        state_probabilities: state_probs,
        expected_duration,
    }
}

/// A copy of a probability vector.
fn copy_probs(v: &Vec<u64>) -> (r: Vec<u64>)
    ensures
        r@ == v@,
{
    let mut out: Vec<u64> = Vec::new();
    let mut i: usize = 0;
    while i < v.len()
        invariant
            i <= v@.len(),
            out@.len() == i,
            forall|k: int| 0 <= k < i ==> #[trigger] out@[k] == v@[k],
        decreases v@.len() - i,
    {
        out.push(v[i]);
        i = i + 1;
    }
    proof {
        assert(out@ =~= v@);
    }
    out
}

/// Equality of regimes as an executable test.
fn regime_eq(a: MarketRegime, b: MarketRegime) -> (r: bool)
    ensures
        r == (a == b),
{
    a == b
}

/// The simplified trend signal, mirroring [`spec_enh_trend_signal`].
fn enh_trend_signal(regime: MarketRegime, confidence: u64, close: u64) -> (r: (
    Signal,
    Option<u64>,
    Option<u64>,
))
    requires
        1 <= close <= PRICE_MAX,
    ensures
        r == spec_enh_trend_signal(regime, confidence, close as int),
{
    proof {
        crate::fixed::lemma_div_bound_upper((close as int) * 2, PRICE_MAX as int, 100int);
        crate::fixed::lemma_div_bound_lower((close as int) * 2, 0, 100int);
    }
    let atr_estimate = close * 2 / 100;
    match regime {
        MarketRegime::Trending(TrendDirection::Bullish) => {
            if confidence > 600_000 {
                let stop = if close >= 2 * atr_estimate {
                    close - 2 * atr_estimate
                } else {
                    0
                };
                (Signal::Buy, Some(stop), Some(close + 3 * atr_estimate))
            } else {
                (Signal::Hold, None, None)
            }
        },
        MarketRegime::Trending(TrendDirection::Bearish) => {
            if confidence > 600_000 {
                (Signal::Sell, None, None)
            } else {
                (Signal::Hold, None, None)
            }
        },
        _ => (Signal::Hold, None, None),
    }
}

/// A linear scan that stops at `i` witnesses the find result.
proof fn lemma_enh_find_hit(assets: Seq<(String, AssetState)>, sym: Seq<char>, i: int)
    requires
        0 <= i < assets.len(),
        assets[i].0@ == sym,
        forall|k: int| 0 <= k < i ==> (#[trigger] assets[k]).0@ != sym,
    ensures
        spec_enh_find(assets, sym) == Some(i),
    decreases i,
{
    if i == 0 {
    } else {
        lemma_enh_find_hit(assets.skip(1), sym, i - 1);
        assert(assets.skip(1)[i - 1] == assets[i]);
        assert forall|k: int| 0 <= k < i - 1 implies (#[trigger] assets.skip(1)[k]).0@ != sym by {
            assert(assets.skip(1)[k] == assets[k + 1]);
        }
        assert(assets[0].0@ != sym);
    }
}

/// A full scan with no match witnesses a `None` find result.
proof fn lemma_enh_find_miss(assets: Seq<(String, AssetState)>, sym: Seq<char>)
    requires
        forall|k: int| 0 <= k < assets.len() ==> (#[trigger] assets[k]).0@ != sym,
    ensures
        spec_enh_find(assets, sym) is None,
    decreases assets.len(),
{
    if assets.len() == 0 {
    } else {
        assert forall|k: int|
            0 <= k < assets.skip(1).len() implies (#[trigger] assets.skip(1)[k]).0@ != sym by {
            assert(assets.skip(1)[k] == assets[k + 1]);
        }
        lemma_enh_find_miss(assets.skip(1), sym);
    }
}

} // verus!
