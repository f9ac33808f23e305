//! Ensemble regime detection: fuses the rule-based detector and the HMM
//! with agreement-weighted confidence.

use vstd::prelude::*;

verus! {

use crate::fixed::{ring_push, CONF_ONE, PRICE_MAX};
use crate::regime::detector::RegimeDetector;
use crate::regime::hmm::HMMRegimeDetector;
use crate::regime::types::{
    spec_regime_config_wf,
    spec_same_category,
    MarketRegime,
    RegimeConfidence,
    RegimeConfig,
};

/// Configuration of the ensemble detector; weights, thresholds and
/// adjustments are at scale [`CONF_ONE`].
#[derive(Clone, Copy, Debug, PartialEq, Eq, Structural)]
pub struct EnsembleConfig {
    /// Weight of the rule-based detector.
    pub indicator_weight: u64,
    /// Weight of the HMM detector.
    pub hmm_weight: u64,
    /// Combined confidence below which a disagreement yields `Uncertain`.
    pub agreement_threshold: u64,
    /// Report the rule-based result verbatim until the HMM has warmed up.
    pub require_hmm_warmup: bool,
    /// Confidence added when the methods agree.
    pub agreement_confidence_boost: u64,
    /// Confidence removed when the methods disagree.
    pub disagreement_confidence_penalty: u64,
}

/// Scale bounds on the ensemble configuration.
pub open spec fn spec_ensemble_config_wf(c: EnsembleConfig) -> bool {
    &&& c.indicator_weight <= CONF_ONE
    &&& c.hmm_weight <= CONF_ONE
    &&& c.agreement_threshold <= CONF_ONE
    &&& c.agreement_confidence_boost <= CONF_ONE
    &&& c.disagreement_confidence_penalty <= CONF_ONE
}

impl Default for EnsembleConfig {
    /// Defaults favouring the indicators slightly for their faster response.
    fn default() -> (r: EnsembleConfig)
        ensures
            r == (EnsembleConfig {
                indicator_weight: 600_000u64,
                hmm_weight: 400_000u64,
                agreement_threshold: 500_000u64,
                require_hmm_warmup: true,
                agreement_confidence_boost: 150_000u64,
                disagreement_confidence_penalty: 200_000u64,
            }),
            spec_ensemble_config_wf(r),
    {
        EnsembleConfig {
            indicator_weight: 600_000,
            hmm_weight: 400_000,
            agreement_threshold: 500_000,
            require_hmm_warmup: true,
            agreement_confidence_boost: 150_000,
            disagreement_confidence_penalty: 200_000,
        }
    }
}

impl EnsembleConfig {
    /// Equal weighting between the two methods.
    pub fn balanced() -> (r: EnsembleConfig)
        ensures
            r.indicator_weight == 500_000,
            r.hmm_weight == 500_000,
            r.agreement_threshold == 500_000,
            r.require_hmm_warmup,
            spec_ensemble_config_wf(r),
    {
        EnsembleConfig { indicator_weight: 500_000, hmm_weight: 500_000, ..EnsembleConfig::default() }
    }

    /// Favour the HMM.
    pub fn hmm_focused() -> (r: EnsembleConfig)
        ensures
            r.indicator_weight == 300_000,
            r.hmm_weight == 700_000,
            r.agreement_threshold == 600_000,
            spec_ensemble_config_wf(r),
    {
        EnsembleConfig {
            indicator_weight: 300_000,
            hmm_weight: 700_000,
            agreement_threshold: 600_000,
            ..EnsembleConfig::default()
        }
    }

    /// Favour the indicators.
    pub fn indicator_focused() -> (r: EnsembleConfig)
        ensures
            r.indicator_weight == 700_000,
            r.hmm_weight == 300_000,
            r.agreement_threshold == 400_000,
            spec_ensemble_config_wf(r),
    {
        EnsembleConfig {
            indicator_weight: 700_000,
            hmm_weight: 300_000,
            agreement_threshold: 400_000,
            ..EnsembleConfig::default()
        }
    }
}

/// Result of one ensemble update.
#[derive(Clone, Copy, Debug, PartialEq, Eq, Structural)]
pub struct EnsembleResult {
    /// Final regime determination.
    pub regime: MarketRegime,
    /// Combined confidence.
    pub confidence: u64,
    /// Whether the two methods agreed on the regime category.
    pub methods_agree: bool,
    /// The rule-based detector's full result.
    pub indicator_result: RegimeConfidence,
    /// The HMM detector's full result.
    pub hmm_result: RegimeConfidence,
    /// The rule-based detector's regime.
    pub indicator_regime: MarketRegime,
    /// The HMM detector's regime.
    pub hmm_regime: MarketRegime,
}

impl EnsembleResult {
    /// The result as a plain confidence record.
    pub fn to_regime_confidence(&self) -> (r: RegimeConfidence)
        requires
            self.confidence <= CONF_ONE,
        ensures
            r.regime == self.regime,
            r.confidence == self.confidence,
            r.adx_value == 0,
            r.bb_width_percentile == 0,
            r.trend_strength == 0,
    {
        RegimeConfidence::new(self.regime, self.confidence)
    }
}

/// Direction-sensitive agreement: trends must share their direction.
pub open spec fn spec_agree_direction(a: MarketRegime, b: MarketRegime) -> bool {
    match (a, b) {
        (MarketRegime::Trending(d1), MarketRegime::Trending(d2)) => d1 == d2,
        (MarketRegime::MeanReverting, MarketRegime::MeanReverting) => true,
        (MarketRegime::Volatile, MarketRegime::Volatile) => true,
        (MarketRegime::Uncertain, MarketRegime::Uncertain) => true,
        _ => false,
    }
}

/// The combined regime and confidence of the two methods: the weighted
/// confidence, boosted on agreement (further if directions agree) and
/// penalized on disagreement, clamped to `[0, 1]`; the regime is the
/// indicator's on agreement, `Uncertain` on an unconfident conflict, and the
/// higher-weighted method's otherwise.
pub open spec fn spec_combine(
    cfg: EnsembleConfig,
    ind_regime: MarketRegime,
    ind_conf: int,
    hmm_regime: MarketRegime,
    hmm_conf: int,
    agree: bool,
) -> (MarketRegime, int) {
    let base = (cfg.indicator_weight * ind_conf + cfg.hmm_weight * hmm_conf) / (CONF_ONE as int);
    let adjusted = if agree {
        base + cfg.agreement_confidence_boost + (if spec_agree_direction(ind_regime, hmm_regime) {
            50_000int
        } else {
            0int
        })
    } else {
        base - cfg.disagreement_confidence_penalty
    };
    let clamped = if adjusted < 0 {
        0int
    } else if adjusted > CONF_ONE as int {
        CONF_ONE as int
    } else {
        adjusted
    };
    let regime = if agree {
        ind_regime
    } else if clamped < cfg.agreement_threshold {
        MarketRegime::Uncertain
    } else if cfg.indicator_weight >= cfg.hmm_weight {
        ind_regime
    } else {
        hmm_regime
    };
    (regime, clamped)
}

/// Ensemble regime detector combining the rule-based and HMM methods.
#[derive(Debug)]
pub struct EnsembleRegimeDetector {
    /// Configuration.
    pub config: EnsembleConfig,
    /// Rule-based detector.
    pub indicator_detector: RegimeDetector,
    /// HMM detector.
    pub hmm_detector: HMMRegimeDetector,
    /// Current ensemble regime.
    pub current_regime: MarketRegime,
    /// Rolling record of whether the methods agreed.
    pub agreement_history: Vec<bool>,
}

/// Number of `true` entries of an agreement record.
pub open spec fn spec_count_true(s: Seq<bool>) -> int
    decreases s.len(),
{
    if s.len() == 0 {
        0
    } else {
        spec_count_true(s.drop_last()) + if s.last() {
            1int
        } else {
            0int
        }
    }
}

/// The count of agreements never exceeds the record length.
pub proof fn lemma_count_true_bound(s: Seq<bool>)
    ensures
        0 <= spec_count_true(s) <= s.len(),
    decreases s.len(),
{
    if s.len() > 0 {
        lemma_count_true_bound(s.drop_last());
    }
}

impl EnsembleRegimeDetector {
    /// Structural bounds every ensemble of the core maintains.
    pub open spec fn wf(self) -> bool {
        &&& spec_ensemble_config_wf(self.config)
        &&& self.indicator_detector.wf()
        &&& self.hmm_detector.wf()
        &&& self.agreement_history@.len() <= 100
    }

    /// An ensemble as it comes out of construction: fresh members, an
    /// uncertain regime, an empty agreement record. The HMM member carries
    /// the crypto-optimized configuration.
    pub open spec fn spec_fresh(
        r: EnsembleRegimeDetector,
        ensemble_config: EnsembleConfig,
        indicator_config: RegimeConfig,
    ) -> bool {
        &&& r.config == ensemble_config
        &&& RegimeDetector::spec_fresh(r.indicator_detector, indicator_config)
        &&& HMMRegimeDetector::spec_fresh(
            r.hmm_detector,
            crate::regime::hmm::HMMConfig {
                n_states: 3usize,
                min_observations: 50u64,
                learning_rate: 20_000u64,
                transition_smoothing: 50_000u64,
                lookback_window: 100usize,
                min_confidence: 500_000u64,
            },
        )
        &&& r.current_regime == MarketRegime::Uncertain
        &&& r.agreement_history@.len() == 0
    }

    /// A fresh ensemble over the given configurations; the HMM member uses
    /// the crypto-optimized configuration.
    pub fn new(ensemble_config: EnsembleConfig, indicator_config: RegimeConfig) -> (r:
        EnsembleRegimeDetector)
        requires
            spec_ensemble_config_wf(ensemble_config),
            spec_regime_config_wf(indicator_config),
        ensures
            EnsembleRegimeDetector::spec_fresh(r, ensemble_config, indicator_config),
            r.config == ensemble_config,
            r.indicator_detector.config == indicator_config,
            r.current_regime == MarketRegime::Uncertain,
            r.agreement_history@ =~= Seq::<bool>::empty(),
            r.hmm_detector.n_observations == 0,
            !r.indicator_detector.spec_is_ready(),
            r.wf(),
    {
        EnsembleRegimeDetector {
            config: ensemble_config,
            indicator_detector: RegimeDetector::new(indicator_config),
            hmm_detector: HMMRegimeDetector::crypto_optimized(),
            current_regime: MarketRegime::Uncertain,
            agreement_history: Vec::new(),
        }
    }

    /// Create with the default configurations.
    pub fn default_config() -> (r: EnsembleRegimeDetector)
        ensures
            r.wf(),
            r.current_regime == MarketRegime::Uncertain,
            r.hmm_detector.n_observations == 0,
            !r.indicator_detector.spec_is_ready(),
            r.config == (EnsembleConfig {
                indicator_weight: 600_000u64,
                hmm_weight: 400_000u64,
                agreement_threshold: 500_000u64,
                require_hmm_warmup: true,
                agreement_confidence_boost: 150_000u64,
                disagreement_confidence_penalty: 200_000u64,
            }),
    {
        EnsembleRegimeDetector::new(EnsembleConfig::default(), RegimeConfig::crypto_optimized())
    }

    /// Create with balanced weights.
    pub fn balanced() -> (r: EnsembleRegimeDetector)
        ensures
            r.wf(),
            r.current_regime == MarketRegime::Uncertain,
            r.config.indicator_weight == r.config.hmm_weight,
    {
        EnsembleRegimeDetector::new(EnsembleConfig::balanced(), RegimeConfig::crypto_optimized())
    }

    /// The full relation between ensemble states and output across one bar.
    pub open spec fn spec_update_relation(
        pre: Self,
        post: Self,
        high: u64,
        low: u64,
        close: u64,
        out: EnsembleResult,
    ) -> bool {
        &&& post.config == pre.config
        &&& RegimeDetector::spec_update_relation(
            pre.indicator_detector,
            post.indicator_detector,
            high,
            low,
            close,
            out.indicator_result,
        )
        &&& HMMRegimeDetector::spec_update_relation(
            pre.hmm_detector,
            post.hmm_detector,
            close,
            out.hmm_result,
        )
        &&& out.indicator_regime == out.indicator_result.regime
        &&& out.hmm_regime == out.hmm_result.regime
        &&& out.methods_agree == spec_same_category(out.indicator_regime, out.hmm_regime)
        &&& post.agreement_history@ == ring_push(
            pre.agreement_history@,
            out.methods_agree,
            100,
        )
        &&& (out.regime, out.confidence as int) == (if pre.config.require_hmm_warmup && !(
        post.hmm_detector.n_observations >= post.hmm_detector.config.min_observations) {
            (out.indicator_regime, out.indicator_result.confidence as int)
        } else {
            spec_combine(
                pre.config,
                out.indicator_regime,
                out.indicator_result.confidence as int,
                out.hmm_regime,
                out.hmm_result.confidence as int,
                out.methods_agree,
            )
        })
        &&& post.current_regime == out.regime
    }

    /// Absorb one bar with both detectors, record their agreement, and fuse
    /// their results. Until the HMM has warmed up (when so configured) the
    /// rule-based result is returned verbatim.
    pub fn update(&mut self, high: u64, low: u64, close: u64) -> (out: EnsembleResult)
        requires
            old(self).wf(),
            1 <= low <= close <= high <= PRICE_MAX,
        ensures
            EnsembleRegimeDetector::spec_update_relation(
                *old(self),
                *final(self),
                high,
                low,
                close,
                out,
            ),
            out.confidence <= CONF_ONE,
            final(self).wf(),
    {
        let indicator_result = self.indicator_detector.update(high, low, close);
        let hmm_result = self.hmm_detector.update_ohlc(high, low, close);
        let indicator_regime = indicator_result.regime;
        let hmm_regime = hmm_result.regime;
        let hmm_ready = self.hmm_detector.is_ready();
        let methods_agree = self.regimes_agree(indicator_regime, hmm_regime);
        self.agreement_history.push(methods_agree);
        if self.agreement_history.len() > 100 {
            self.agreement_history.remove(0);
        }
        proof {
            assert(self.agreement_history@ =~= ring_push(
                old(self).agreement_history@,
                methods_agree,
                100,
            ));
        }
        let (regime, confidence): (MarketRegime, u64) = if self.config.require_hmm_warmup
            && !hmm_ready {
            (indicator_regime, indicator_result.confidence)
        } else {
            self.combine_results(
                indicator_regime,
                indicator_result.confidence,
                hmm_regime,
                hmm_result.confidence,
                methods_agree,
            )
        };
        self.current_regime = regime;
        EnsembleResult {
            regime,
            confidence,
            methods_agree,
            indicator_result,
            hmm_result,
            indicator_regime,
            hmm_regime,
        }
    }

    /// Whether two regimes agree at the category level (trend direction is
    /// ignored).
    pub fn regimes_agree(&self, r1: MarketRegime, r2: MarketRegime) -> (r: bool)
        ensures
            r == spec_same_category(r1, r2),
    {
        match (r1, r2) {
            (MarketRegime::Trending(_), MarketRegime::Trending(_)) => true,
            (MarketRegime::MeanReverting, MarketRegime::MeanReverting) => true,
            (MarketRegime::Volatile, MarketRegime::Volatile) => true,
            (MarketRegime::Uncertain, MarketRegime::Uncertain) => true,
            _ => false,
        }
    }

    /// Whether two regimes agree on direction as well as category.
    pub fn regimes_agree_direction(&self, r1: MarketRegime, r2: MarketRegime) -> (r: bool)
        ensures
            r == spec_agree_direction(r1, r2),
    {
        match (r1, r2) {
            (MarketRegime::Trending(d1), MarketRegime::Trending(d2)) => {
                match (d1, d2) {
                    (
                        crate::regime::types::TrendDirection::Bullish,
                        crate::regime::types::TrendDirection::Bullish,
                    ) => true,
                    (
                        crate::regime::types::TrendDirection::Bearish,
                        crate::regime::types::TrendDirection::Bearish,
                    ) => true,
                    _ => false,
                }
            },
            (MarketRegime::MeanReverting, MarketRegime::MeanReverting) => true,
            (MarketRegime::Volatile, MarketRegime::Volatile) => true,
            (MarketRegime::Uncertain, MarketRegime::Uncertain) => true,
            _ => false,
        }
    }

    /// Fuse the two methods' results, mirroring [`spec_combine`].
    pub fn combine_results(
        &self,
        indicator_regime: MarketRegime,
        indicator_conf: u64,
        hmm_regime: MarketRegime,
        hmm_conf: u64,
        agree: bool,
    ) -> (r: (MarketRegime, u64))
        requires
            spec_ensemble_config_wf(self.config),
            indicator_conf <= CONF_ONE,
            hmm_conf <= CONF_ONE,
        ensures
            (r.0, r.1 as int) == spec_combine(
                self.config,
                indicator_regime,
                indicator_conf as int,
                hmm_regime,
                hmm_conf as int,
                agree,
            ),
            r.1 <= CONF_ONE,
    {
        proof {
            assert((self.config.indicator_weight as int) * (indicator_conf as int) <= 1_000_000int
                * 1_000_000int && (self.config.hmm_weight as int) * (hmm_conf as int)
                <= 1_000_000int * 1_000_000int) by (nonlinear_arith)
                requires
                    self.config.indicator_weight <= 1_000_000u64,
                    indicator_conf <= 1_000_000u64,
                    self.config.hmm_weight <= 1_000_000u64,
                    hmm_conf <= 1_000_000u64,
            ;
            crate::fixed::lemma_div_bound_upper(
                (self.config.indicator_weight as int) * (indicator_conf as int) + (
                self.config.hmm_weight as int) * (hmm_conf as int),
                2_000_000int,
                CONF_ONE as int,
            );
            crate::fixed::lemma_div_bound_lower(
                (self.config.indicator_weight as int) * (indicator_conf as int) + (
                self.config.hmm_weight as int) * (hmm_conf as int),
                0,
                CONF_ONE as int,
            );
        }
        let base = (self.config.indicator_weight * indicator_conf + self.config.hmm_weight
            * hmm_conf) / CONF_ONE;
        let clamped: u64 = if agree {
            let dir_bonus: u64 = if self.regimes_agree_direction(indicator_regime, hmm_regime) {
                50_000
            } else {
                0
            };
            let adjusted = base + self.config.agreement_confidence_boost + dir_bonus;
            if adjusted > CONF_ONE {
                CONF_ONE
            } else {
                adjusted
            }
        } else {
            let penalty = self.config.disagreement_confidence_penalty;
            if base < penalty {
                0
            } else {
                let adjusted = base - penalty;
                if adjusted > CONF_ONE {
                    CONF_ONE
                } else {
                    adjusted
                }
            }
        };
        let regime = if agree {
            indicator_regime
        } else if clamped < self.config.agreement_threshold {
            MarketRegime::Uncertain
        } else if self.config.indicator_weight >= self.config.hmm_weight {
            indicator_regime
        } else {
            hmm_regime
        };
        (regime, clamped)
    }

    /// The current ensemble regime.
    pub fn current_regime(&self) -> (r: MarketRegime)
        ensures
            r == self.current_regime,
    {
        self.current_regime
    }

    /// Fraction of recent updates on which the methods agreed, at
    /// [`CONF_ONE`]; zero when nothing has been recorded.
    pub fn agreement_rate(&self) -> (r: u64)
        requires
            self.agreement_history@.len() <= 100,
        ensures
            r as int == (if self.agreement_history@.len() == 0 {
                0int
            } else {
                spec_count_true(self.agreement_history@) * (CONF_ONE as int)
                    / (self.agreement_history@.len() as int)
            }),
            r <= CONF_ONE,
    {
        if self.agreement_history.len() == 0 {
            return 0;
        }
        let mut agrees: u64 = 0;
        let mut i: usize = 0;
        while i < self.agreement_history.len()
            invariant
                i <= self.agreement_history@.len() <= 100,
                agrees as int == spec_count_true(self.agreement_history@.take(i as int)),
                agrees <= i,
            decreases self.agreement_history@.len() - i,
        {
            proof {
                assert(self.agreement_history@.take(i as int + 1).drop_last()
                    =~= self.agreement_history@.take(i as int));
                assert(self.agreement_history@.take(i as int + 1).last()
                    == self.agreement_history@[i as int]);
            }
            if self.agreement_history[i] {
                agrees = agrees + 1;
            }
            i = i + 1;
        }
        proof {
            assert(self.agreement_history@.take(self.agreement_history@.len() as int)
                =~= self.agreement_history@);
            assert((agrees as int) * (CONF_ONE as int) <= (self.agreement_history@.len() as int) * (
            CONF_ONE as int)) by (nonlinear_arith)
                requires
                    agrees as int <= self.agreement_history@.len() as int,
            ;
            crate::fixed::lemma_div_bound_upper(
                (agrees as int) * (CONF_ONE as int),
                CONF_ONE as int,
                self.agreement_history@.len() as int,
            );
            crate::fixed::lemma_div_bound_lower(
                (agrees as int) * (CONF_ONE as int),
                0,
                self.agreement_history@.len() as int,
            );
        }
        agrees * CONF_ONE / (self.agreement_history.len() as u64)
    }

    /// Whether both members are ready (the HMM only when its warmup is
    /// required).
    pub fn is_ready(&self) -> (r: bool)
        ensures
            r == (self.indicator_detector.spec_is_ready() && (!self.config.require_hmm_warmup
                || self.hmm_detector.n_observations
                >= self.hmm_detector.config.min_observations)),
    {
        self.indicator_detector.is_ready() && (!self.config.require_hmm_warmup
            || self.hmm_detector.is_ready())
    }

    /// The HMM's filtered state distribution.
    pub fn hmm_state_probabilities(&self) -> (r: &Vec<u64>)
        ensures
            r == &self.hmm_detector.state_probs,
    {
        self.hmm_detector.state_probabilities()
    }

    /// Expected bars remaining in the HMM's most likely state, at
    /// [`CONF_ONE`].
    pub fn expected_regime_duration(&self) -> (r: u64)
        requires
            self.hmm_detector.wf(),
        ensures
            r as int == self.hmm_detector.spec_expected_duration(
                self.hmm_detector.current_state as int,
            ),
    {
        self.hmm_detector.expected_regime_duration(self.hmm_detector.current_state_index())
    }

    /// A snapshot of the ensemble for monitoring.
    pub fn status(&self) -> (r: EnsembleStatus)
        requires
            self.wf(),
        ensures
            r.current_regime == self.current_regime,
            r.indicator_ready == self.indicator_detector.spec_is_ready(),
            r.hmm_ready == (self.hmm_detector.n_observations
                >= self.hmm_detector.config.min_observations),
            r.hmm_state_probs@ == self.hmm_detector.state_probs@,
    {
        let mut probs: Vec<u64> = Vec::new();
        let mut i: usize = 0;
        while i < self.hmm_detector.state_probs.len()
            invariant
                i <= self.hmm_detector.state_probs@.len(),
                probs@.len() == i,
                forall|k: int|
                    0 <= k < i ==> #[trigger] probs@[k] == self.hmm_detector.state_probs@[k],
            decreases self.hmm_detector.state_probs@.len() - i,
        {
            probs.push(self.hmm_detector.state_probs[i]);
            i = i + 1;
        }
        proof {
            assert(probs@ =~= self.hmm_detector.state_probs@);
        }
        EnsembleStatus {
            current_regime: self.current_regime,
            indicator_ready: self.indicator_detector.is_ready(),
            hmm_ready: self.hmm_detector.is_ready(),
            agreement_rate: self.agreement_rate(),
            hmm_state_probs: probs,
            expected_duration: self.expected_regime_duration(),
        }
    }
}

/// Monitoring snapshot of an ensemble detector.
#[derive(Clone, Debug)]
pub struct EnsembleStatus {
    /// Current ensemble regime.
    pub current_regime: MarketRegime,
    /// Whether the rule-based detector has warmed up.
    pub indicator_ready: bool,
    /// Whether the HMM has warmed up.
    pub hmm_ready: bool,
    /// Recent agreement rate at [`CONF_ONE`].
    pub agreement_rate: u64,
    /// The HMM's filtered state distribution.
    pub hmm_state_probs: Vec<u64>,
    /// Expected bars in the current HMM state, at [`CONF_ONE`].
    pub expected_duration: u64,
}

} // verus!
