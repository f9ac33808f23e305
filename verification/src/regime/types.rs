//! Regime classifications, confidence records and detector configuration.

use vstd::prelude::*;

verus! {

use crate::fixed::CONF_ONE;

/// Direction of the trend when the market is trending.
#[derive(Clone, Copy, Debug, PartialEq, Eq, Structural)]
pub enum TrendDirection {
    Bullish,
    Bearish,
}

/// Market regime classification.
#[derive(Clone, Copy, Debug, PartialEq, Eq, Structural)]
pub enum MarketRegime {
    /// Strong directional movement: favour trend-following strategies.
    Trending(TrendDirection),
    /// Price oscillating around a mean: favour mean-reversion strategies.
    MeanReverting,
    /// High volatility without clear direction: reduce exposure.
    Volatile,
    /// Insufficient data or conflicting signals.
    Uncertain,
}

/// Two regimes fall in the same category when they share the outer variant;
/// the direction of a trend is ignored.
pub open spec fn spec_same_category(a: MarketRegime, b: MarketRegime) -> bool {
    match (a, b) {
        (MarketRegime::Trending(_), MarketRegime::Trending(_)) => true,
        (MarketRegime::MeanReverting, MarketRegime::MeanReverting) => true,
        (MarketRegime::Volatile, MarketRegime::Volatile) => true,
        (MarketRegime::Uncertain, MarketRegime::Uncertain) => true,
        _ => false,
    }
}

/// Text form of a regime.
pub open spec fn spec_regime_label(r: MarketRegime) -> Seq<char> {
    match r {
        MarketRegime::Trending(TrendDirection::Bullish) => "Trending (Bullish)"@,
        MarketRegime::Trending(TrendDirection::Bearish) => "Trending (Bearish)"@,
        MarketRegime::MeanReverting => "Mean-Reverting"@,
        MarketRegime::Volatile => "Volatile/Choppy"@,
        MarketRegime::Uncertain => "Uncertain"@,
    }
}

impl MarketRegime {
    /// Human-readable name of the regime.
    pub fn label(&self) -> (r: String)
        ensures
            r@ == spec_regime_label(*self),
    {
        match self {
            MarketRegime::Trending(TrendDirection::Bullish) => String::from_str(
                "Trending (Bullish)",
            ),
            MarketRegime::Trending(TrendDirection::Bearish) => String::from_str(
                "Trending (Bearish)",
            ),
            MarketRegime::MeanReverting => String::from_str("Mean-Reverting"),
            MarketRegime::Volatile => String::from_str("Volatile/Choppy"),
            MarketRegime::Uncertain => String::from_str("Uncertain"),
        }
    }
}

/// Confidence record attached to a regime classification. Confidence and
/// trend strength are at scale [`CONF_ONE`]; the ADX value and the band-width
/// percentile are at scale `PCT_SCALE`.
#[derive(Clone, Copy, Debug, PartialEq, Eq, Structural)]
pub struct RegimeConfidence {
    pub regime: MarketRegime,
    pub confidence: u64,
    pub adx_value: u64,
    pub bb_width_percentile: u64,
    pub trend_strength: u64,
}

/// Scale bounds every confidence record of the core satisfies.
pub open spec fn spec_confidence_wf(c: RegimeConfidence) -> bool {
    &&& c.confidence <= CONF_ONE
    &&& c.adx_value <= 10_000
    &&& c.bb_width_percentile <= 10_000
    &&& c.trend_strength <= CONF_ONE
}

impl RegimeConfidence {
    /// A record carrying only the regime and its confidence.
    pub fn new(regime: MarketRegime, confidence: u64) -> (r: RegimeConfidence)
        requires
            confidence <= CONF_ONE,
        ensures
            r.regime == regime,
            r.confidence == confidence,
            r.adx_value == 0,
            r.bb_width_percentile == 0,
            r.trend_strength == 0,
            spec_confidence_wf(r),
    {
        RegimeConfidence { regime, confidence, adx_value: 0, bb_width_percentile: 0, trend_strength: 0 }
    }

    /// A record carrying the regime together with its diagnostic metrics.
    pub fn with_metrics(
        regime: MarketRegime,
        confidence: u64,
        adx: u64,
        bb_width: u64,
        trend_strength: u64,
    ) -> (r: RegimeConfidence)
        requires
            confidence <= CONF_ONE,
            adx <= 10_000,
            bb_width <= 10_000,
            trend_strength <= CONF_ONE,
        ensures
            r.regime == regime,
            r.confidence == confidence,
            r.adx_value == adx,
            r.bb_width_percentile == bb_width,
            r.trend_strength == trend_strength,
            spec_confidence_wf(r),
    {
        RegimeConfidence {
            regime,
            confidence,
            adx_value: adx,
            bb_width_percentile: bb_width,
            trend_strength,
        }
    }

    /// Whether the confidence is high enough to act on (at least 0.6).
    pub fn is_actionable(&self) -> (r: bool)
        ensures
            r == (self.confidence >= 600_000),
    {
        self.confidence >= 600_000
    }
}

/// Configuration of the rule-based regime detector. Periods are bar counts;
/// thresholds are at scale `PCT_SCALE` (so 25.0 ADX points are 2_500 and an
/// ATR expansion ratio of 1.5 is 150).
#[derive(Clone, Copy, Debug, PartialEq, Eq, Structural)]
pub struct RegimeConfig {
    /// ADX period for trend strength.
    pub adx_period: usize,
    /// ADX level at or above which the market counts as trending.
    pub adx_trending_threshold: u64,
    /// ADX level at or below which the market counts as ranging.
    pub adx_ranging_threshold: u64,
    /// Bollinger Bands period.
    pub bb_period: usize,
    /// Bollinger Bands standard-deviation multiplier (2.0 is 200).
    pub bb_std_dev: u64,
    /// Band-width percentile at or above which volatility counts as high.
    pub bb_width_volatility_threshold: u64,
    /// Short EMA period for trend direction.
    pub ema_short_period: usize,
    /// Long EMA period for trend direction.
    pub ema_long_period: usize,
    /// ATR period for volatility measurement.
    pub atr_period: usize,
    /// ATR expansion ratio (current over average) for the volatile regime.
    pub atr_expansion_threshold: u64,
    /// Lookback length of the regime-history stability check.
    pub regime_stability_bars: usize,
    /// Minimum bars in the current regime before an ordinary switch.
    pub min_regime_duration: usize,
}

/// Machine bounds under which every detector computation stays in range.
pub open spec fn spec_regime_config_wf(c: RegimeConfig) -> bool {
    &&& 1 <= c.adx_period <= 1_000
    &&& 1 <= c.bb_period <= 1_000
    &&& 1 <= c.ema_short_period <= 1_000
    &&& 1 <= c.ema_long_period <= 1_000
    &&& 1 <= c.atr_period <= 1_000
    &&& c.adx_trending_threshold <= 10_000
    &&& c.adx_ranging_threshold <= 10_000
    &&& 1 <= c.bb_std_dev <= 1_000
    &&& c.bb_width_volatility_threshold <= 10_000
    &&& c.atr_expansion_threshold <= 10_000
    &&& c.regime_stability_bars <= 1_000
    &&& c.min_regime_duration <= 1_000_000
}

impl RegimeConfig {
    /// Whether the configuration satisfies the bounds the detector requires.
    pub fn is_valid(&self) -> (r: bool)
        ensures
            r == spec_regime_config_wf(*self),
    {
        1 <= self.adx_period && self.adx_period <= 1_000 && 1 <= self.bb_period && self.bb_period
            <= 1_000 && 1 <= self.ema_short_period && self.ema_short_period <= 1_000 && 1
            <= self.ema_long_period && self.ema_long_period <= 1_000 && 1 <= self.atr_period
            && self.atr_period <= 1_000 && self.adx_trending_threshold <= 10_000
            && self.adx_ranging_threshold <= 10_000 && 1 <= self.bb_std_dev && self.bb_std_dev
            <= 1_000 && self.bb_width_volatility_threshold <= 10_000
            && self.atr_expansion_threshold <= 10_000 && self.regime_stability_bars <= 1_000
            && self.min_regime_duration <= 1_000_000
    }

    /// Configuration optimized for crypto markets: lower trend thresholds,
    /// faster EMAs, shorter stability windows.
    pub fn crypto_optimized() -> (r: RegimeConfig)
        ensures
            r == (RegimeConfig {
                adx_period: 14,
                adx_trending_threshold: 2_000,
                adx_ranging_threshold: 1_500,
                bb_period: 20,
                bb_std_dev: 200,
                bb_width_volatility_threshold: 7_000,
                ema_short_period: 21,
                ema_long_period: 50,
                atr_period: 14,
                atr_expansion_threshold: 130,
                regime_stability_bars: 2,
                min_regime_duration: 3,
            }),
            spec_regime_config_wf(r),
    {
        RegimeConfig {
            adx_period: 14,
            adx_trending_threshold: 2_000,
            adx_ranging_threshold: 1_500,
            bb_period: 20,
            bb_std_dev: 200,
            bb_width_volatility_threshold: 7_000,
            ema_short_period: 21,
            ema_long_period: 50,
            atr_period: 14,
            atr_expansion_threshold: 130,
            regime_stability_bars: 2,
            min_regime_duration: 3,
        }
    }

    /// Conservative configuration: stronger signals are needed to declare a
    /// regime.
    pub fn conservative() -> (r: RegimeConfig)
        ensures
            r == (RegimeConfig {
                adx_period: 14,
                adx_trending_threshold: 3_000,
                adx_ranging_threshold: 1_800,
                bb_period: 20,
                bb_std_dev: 200,
                bb_width_volatility_threshold: 8_000,
                ema_short_period: 50,
                ema_long_period: 200,
                atr_period: 14,
                atr_expansion_threshold: 200,
                regime_stability_bars: 5,
                min_regime_duration: 10,
            }),
            spec_regime_config_wf(r),
    {
        RegimeConfig {
            adx_period: 14,
            adx_trending_threshold: 3_000,
            adx_ranging_threshold: 1_800,
            bb_period: 20,
            bb_std_dev: 200,
            bb_width_volatility_threshold: 8_000,
            ema_short_period: 50,
            ema_long_period: 200,
            atr_period: 14,
            atr_expansion_threshold: 200,
            regime_stability_bars: 5,
            min_regime_duration: 10,
        }
    }
}

impl Default for RegimeConfig {
    /// Defaults tuned for daily bars on traditional markets.
    fn default() -> (r: RegimeConfig)
        ensures
            r == (RegimeConfig {
                adx_period: 14,
                adx_trending_threshold: 2_500,
                adx_ranging_threshold: 2_000,
                bb_period: 20,
                bb_std_dev: 200,
                bb_width_volatility_threshold: 7_500,
                ema_short_period: 50,
                ema_long_period: 200,
                atr_period: 14,
                atr_expansion_threshold: 150,
                regime_stability_bars: 3,
                min_regime_duration: 5,
            }),
            spec_regime_config_wf(r),
    {
        RegimeConfig {
            adx_period: 14,
            adx_trending_threshold: 2_500,
            adx_ranging_threshold: 2_000,
            bb_period: 20,
            bb_std_dev: 200,
            bb_width_volatility_threshold: 7_500,
            ema_short_period: 50,
            ema_long_period: 200,
            atr_period: 14,
            atr_expansion_threshold: 150,
            regime_stability_bars: 3,
            min_regime_duration: 5,
        }
    }
}

/// Rejection of an invalid configuration at construction time.
#[derive(Clone, Copy, Debug, PartialEq, Eq, Structural)]
pub enum ConfigError {
    /// A period of zero, or a weight or threshold out of scale.
    InvalidConfig,
}

/// Strategy family recommended for a regime.
#[derive(Clone, Copy, Debug, PartialEq, Eq, Structural)]
pub enum RecommendedStrategy {
    /// Trend-following entries.
    TrendFollowing,
    /// Band-based mean reversion.
    MeanReversion,
    /// Trade smaller with tight stops.
    ReducedExposure,
    /// Stay in cash and wait for clarity.
    StayCash,
}

/// Regime-to-strategy mapping; the direction of a trend plays no part in it.
pub open spec fn spec_recommended_for(regime: MarketRegime) -> RecommendedStrategy {
    match regime {
        MarketRegime::Trending(_) => RecommendedStrategy::TrendFollowing,
        MarketRegime::MeanReverting => RecommendedStrategy::MeanReversion,
        MarketRegime::Volatile => RecommendedStrategy::ReducedExposure,
        MarketRegime::Uncertain => RecommendedStrategy::StayCash,
    }
}

impl From<&MarketRegime> for RecommendedStrategy {
    /// The strategy family recommended for `regime`.
    fn from(regime: &MarketRegime) -> (r: RecommendedStrategy) {
        match *regime {
            MarketRegime::Trending(_) => RecommendedStrategy::TrendFollowing,
            MarketRegime::MeanReverting => RecommendedStrategy::MeanReversion,
            MarketRegime::Volatile => RecommendedStrategy::ReducedExposure,
            MarketRegime::Uncertain => RecommendedStrategy::StayCash,
        }
    }
}

impl vstd::std_specs::convert::FromSpecImpl<&MarketRegime> for RecommendedStrategy {
    open spec fn obeys_from_spec() -> bool {
        true
    }

    open spec fn from_spec(regime: &MarketRegime) -> RecommendedStrategy {
        spec_recommended_for(*regime)
    }
}

/// The category of a regime, and hence the recommended strategy, is invariant
/// under changes of trend direction.
pub proof fn lemma_regime_type_direction_invariant(d1: TrendDirection, d2: TrendDirection)
    ensures
        spec_recommended_for(MarketRegime::Trending(d1)) == spec_recommended_for(
            MarketRegime::Trending(d2),
        ),
        spec_same_category(MarketRegime::Trending(d1), MarketRegime::Trending(d2)),
{
}

} // verus!
