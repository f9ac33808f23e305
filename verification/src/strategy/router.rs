//! Strategy router: per-asset regime detection and regime-driven strategy
//! selection, emitting routed trade signals with sizing and protective
//! levels.

use vstd::prelude::*;

verus! {

use crate::fixed::{CONF_ONE, PRICE_MAX};
use crate::regime::detector::RegimeDetector;
use crate::regime::types::{
    spec_regime_config_wf,
    MarketRegime,
    RegimeConfidence,
    RegimeConfig,
    TrendDirection,
};
use crate::strategy::mean_reversion::{
    spec_mr_config_wf,
    MeanReversionConfig,
    MeanReversionStrategy,
    Signal,
};

/// Configuration of the strategy router; factors and confidences are at
/// scale [`CONF_ONE`].
#[derive(Clone, Copy, Debug, PartialEq, Eq, Structural)]
pub struct StrategyRouterConfig {
    /// Regime detection configuration.
    pub regime_config: RegimeConfig,
    /// Mean-reversion strategy configuration.
    pub mean_reversion_config: MeanReversionConfig,
    /// Position-size reduction applied in the volatile regime.
    pub volatile_position_size_factor: u64,
    /// Confidence below which no strategy is engaged.
    pub min_regime_confidence: u64,
    /// Whether embedding applications should log regime changes.
    pub log_regime_changes: bool,
    /// Short EMA period reserved for trend-following extensions.
    pub trend_ema_short: usize,
    /// Long EMA period reserved for trend-following extensions.
    pub trend_ema_long: usize,
}

/// Machine bounds on the router configuration.
pub open spec fn spec_router_config_wf(c: StrategyRouterConfig) -> bool {
    &&& spec_regime_config_wf(c.regime_config)
    &&& spec_mr_config_wf(c.mean_reversion_config)
    &&& c.volatile_position_size_factor <= CONF_ONE
    &&& c.min_regime_confidence <= CONF_ONE
}

impl StrategyRouterConfig {
    /// Whether the configuration satisfies the bounds the router requires.
    pub fn is_valid(&self) -> (r: bool)
        ensures
            r == spec_router_config_wf(*self),
    {
        self.regime_config.is_valid() && self.mean_reversion_config.is_valid()
            && self.volatile_position_size_factor <= CONF_ONE && self.min_regime_confidence
            <= CONF_ONE
    }
}

impl Default for StrategyRouterConfig {
    /// Defaults: crypto-optimized detection, half size in volatile markets.
    fn default() -> (r: StrategyRouterConfig)
        ensures
            r.regime_config == (RegimeConfig {
                adx_period: 14usize,
                adx_trending_threshold: 2_000u64,
                adx_ranging_threshold: 1_500u64,
                bb_period: 20usize,
                bb_std_dev: 200u64,
                bb_width_volatility_threshold: 7_000u64,
                ema_short_period: 21usize,
                ema_long_period: 50usize,
                atr_period: 14usize,
                atr_expansion_threshold: 130u64,
                regime_stability_bars: 2usize,
                min_regime_duration: 3usize,
            }),
            r.volatile_position_size_factor == 500_000,
            r.min_regime_confidence == 500_000,
            r.log_regime_changes,
            r.trend_ema_short == 50,
            r.trend_ema_long == 200,
            spec_router_config_wf(r),
    {
        StrategyRouterConfig {
            regime_config: RegimeConfig::crypto_optimized(),
            mean_reversion_config: MeanReversionConfig::default(),
            volatile_position_size_factor: 500_000,
            min_regime_confidence: 500_000,
            log_regime_changes: true,
            trend_ema_short: 50,
            trend_ema_long: 200,
        }
    }
}

/// Which strategy is currently engaged for an asset.
#[derive(Clone, Copy, Debug, PartialEq, Eq, Structural)]
pub enum ActiveStrategy {
    /// Trend-following entries.
    TrendFollowing,
    /// Band-based mean reversion.
    MeanReversion,
    /// Staying out of the market.
    NoTrade,
}

/// Text form of a strategy.
pub open spec fn spec_strategy_label(s: ActiveStrategy) -> Seq<char> {
    match s {
        ActiveStrategy::TrendFollowing => "Trend Following"@,
        ActiveStrategy::MeanReversion => "Mean Reversion"@,
        ActiveStrategy::NoTrade => "No Trade"@,
    }
}

impl ActiveStrategy {
    /// Human-readable name of the strategy.
    pub fn label(&self) -> (r: String)
        ensures
            r@ == spec_strategy_label(*self),
    {
        match self {
            ActiveStrategy::TrendFollowing => String::from_str("Trend Following"),
            ActiveStrategy::MeanReversion => String::from_str("Mean Reversion"),
            ActiveStrategy::NoTrade => String::from_str("No Trade"),
        }
    }
}

/// A trade signal with its routing context.
#[derive(Clone, Debug)]
pub struct RoutedSignal {
    /// The trading signal.
    pub signal: Signal,
    /// Which strategy generated the signal.
    pub source_strategy: ActiveStrategy,
    /// The detected regime.
    pub regime: MarketRegime,
    /// Regime confidence at [`CONF_ONE`].
    pub confidence: u64,
    /// Position-size multiplier at [`CONF_ONE`].
    pub position_size_factor: u64,
    /// Reasoning behind the signal.
    pub reason: String,
    /// Protective stop, when applicable.
    pub stop_loss: Option<u64>,
    /// Profit target, when applicable.
    pub take_profit: Option<u64>,
}

/// The strategy and position factor selected for a regime reading: no trade
/// below the confidence floor or in uncertainty, trend-following in trends,
/// mean reversion in ranges, and reduced-size mean reversion in volatility.
pub open spec fn spec_select_strategy(
    regime: RegimeConfidence,
    min_confidence: u64,
    volatile_factor: u64,
) -> (ActiveStrategy, u64) {
    if regime.confidence < min_confidence {
        (ActiveStrategy::NoTrade, 0u64)
    } else {
        match regime.regime {
            MarketRegime::Trending(_) => (ActiveStrategy::TrendFollowing, CONF_ONE),
            MarketRegime::MeanReverting => (ActiveStrategy::MeanReversion, CONF_ONE),
            MarketRegime::Volatile => (ActiveStrategy::MeanReversion, volatile_factor),
            MarketRegime::Uncertain => (ActiveStrategy::NoTrade, 0u64),
        }
    }
}

/// The trend-following signal for a detector state: enter with the trend
/// when the ADX confirms it, stops two ATRs away and targets three ATRs
/// away (clamped at zero).
pub open spec fn spec_trend_signal(det: RegimeDetector, close: int) -> (
    Signal,
    Option<u64>,
    Option<u64>,
) {
    let adx = match det.adx.current_adx {
        Some(v) => v as int,
        None => 0int,
    };
    let atr = match det.atr.current_atr {
        Some(v) => v as int,
        None => close * 2 / 100,
    };
    match det.current_regime {
        MarketRegime::Trending(TrendDirection::Bullish) => if adx > 2_500 {
            let stop = if close >= 2 * atr {
                close - 2 * atr
            } else {
                0int
            };
            (Signal::Buy, Some(stop as u64), Some((close + 3 * atr) as u64))
        } else {
            (Signal::Hold, None::<u64>, None::<u64>)
        },
        MarketRegime::Trending(TrendDirection::Bearish) => if adx > 2_500 {
            let tp = if close >= 3 * atr {
                close - 3 * atr
            } else {
                0int
            };
            (Signal::Sell, Some((close + 2 * atr) as u64), Some(tp as u64))
        } else {
            (Signal::Hold, None::<u64>, None::<u64>)
        },
        _ => (Signal::Hold, None::<u64>, None::<u64>),
    }
}

/// Per-asset routing state.
#[derive(Debug)]
pub struct AssetState {
    /// Regime detector for the asset.
    pub regime_detector: RegimeDetector,
    /// Mean-reversion strategy for the asset.
    pub mean_reversion: MeanReversionStrategy,
    /// Strategy currently engaged.
    pub current_strategy: ActiveStrategy,
    /// Last regime reported for the asset.
    pub last_regime: MarketRegime,
    /// Number of regime changes observed.
    pub regime_change_count: u32,
}

/// An asset state as it comes out of registration: fresh detector and
/// strategy, no trade engaged, the regime uncertain.
pub open spec fn spec_fresh_asset(st: AssetState, config: StrategyRouterConfig) -> bool {
    &&& RegimeDetector::spec_fresh(st.regime_detector, config.regime_config)
    &&& MeanReversionStrategy::spec_fresh(st.mean_reversion, config.mean_reversion_config)
    &&& st.current_strategy == ActiveStrategy::NoTrade
    &&& st.last_regime == MarketRegime::Uncertain
    &&& st.regime_change_count == 0
}

impl AssetState {
    /// Structural bounds every asset state of the core maintains.
    pub open spec fn wf(self) -> bool {
        &&& self.regime_detector.wf()
        &&& self.mean_reversion.wf()
    }

    /// A fresh asset state under the router configuration.
    pub fn new(config: &StrategyRouterConfig) -> (r: AssetState)
        requires
            spec_router_config_wf(*config),
        ensures
            spec_fresh_asset(r, *config),
            !r.regime_detector.spec_is_ready(),
            r.wf(),
    {
        AssetState {
            regime_detector: RegimeDetector::new(config.regime_config),
            mean_reversion: MeanReversionStrategy::new(config.mean_reversion_config),
            current_strategy: ActiveStrategy::NoTrade,
            last_regime: MarketRegime::Uncertain,
            regime_change_count: 0,
        }
    }
}

/// One asset's routing step across one bar: the detector is stepped and
/// classified, the regime change is counted, the strategy is selected for
/// the reading, and the signal comes from the selected strategy.
pub open spec fn spec_asset_step(
    pre_st: AssetState,
    post_st: AssetState,
    rs: RoutedSignal,
    config: StrategyRouterConfig,
    high: u64,
    low: u64,
    close: u64,
) -> bool {
    let rc = RegimeDetector::spec_update_out(
        pre_st.regime_detector,
        post_st.regime_detector,
        high,
        low,
        close,
    );
    &&& RegimeDetector::spec_update_relation(
        pre_st.regime_detector,
        post_st.regime_detector,
        high,
        low,
        close,
        rc,
    )
    &&& rs.regime == rc.regime
    &&& rs.confidence == rc.confidence
    &&& post_st.last_regime == rc.regime
    &&& (rc.regime != pre_st.last_regime ==> post_st.regime_change_count as int == (
    if pre_st.regime_change_count < u32::MAX {
        pre_st.regime_change_count + 1
    } else {
        pre_st.regime_change_count as int
    }))
    &&& (rc.regime == pre_st.last_regime ==> post_st.regime_change_count
        == pre_st.regime_change_count)
    &&& (rs.source_strategy, rs.position_size_factor) == spec_select_strategy(
        rc,
        config.min_regime_confidence,
        config.volatile_position_size_factor,
    )
    &&& post_st.current_strategy == rs.source_strategy
    &&& (match rs.source_strategy {
        ActiveStrategy::TrendFollowing => {
            &&& (rs.signal, rs.stop_loss, rs.take_profit) == spec_trend_signal(
                post_st.regime_detector,
                close as int,
            )
            &&& post_st.mean_reversion == pre_st.mean_reversion
        },
        ActiveStrategy::MeanReversion => {
            &&& MeanReversionStrategy::spec_stepped(
                pre_st.mean_reversion,
                post_st.mean_reversion,
                high,
                low,
                close,
                rs.signal,
            )
            &&& rs.stop_loss == post_st.mean_reversion.last_result.stop_loss
            &&& rs.take_profit == post_st.mean_reversion.last_result.take_profit
        },
        ActiveStrategy::NoTrade => {
            &&& rs.signal == Signal::Hold
            &&& rs.stop_loss is None
            &&& rs.take_profit is None
            &&& post_st.mean_reversion == pre_st.mean_reversion
        },
    })
}

/// The index of a symbol among the registered assets.
pub open spec fn spec_find_asset(assets: Seq<(String, AssetState)>, sym: Seq<char>) -> Option<
    int,
>
    decreases assets.len(),
{
    if assets.len() == 0 {
        None
    } else if assets[0].0@ == sym {
        Some(0int)
    } else {
        match spec_find_asset(assets.skip(1), sym) {
            Some(i) => Some(i + 1),
            None => None,
        }
    }
}

/// Regime-aware strategy router over multiple assets.
#[derive(Debug)]
pub struct StrategyRouter {
    /// Configuration shared by all assets.
    pub config: StrategyRouterConfig,
    /// Registered assets and their routing state, in registration order.
    pub assets: Vec<(String, AssetState)>,
}

impl StrategyRouter {
    /// Structural bounds every router of the core maintains.
    pub open spec fn wf(self) -> bool {
        &&& spec_router_config_wf(self.config)
        &&& (forall|i: int| 0 <= i < self.assets@.len() ==> (#[trigger] self.assets@[i]).1.wf())
    }

    /// A fresh router with no registered assets.
    pub fn new(config: StrategyRouterConfig) -> (r: StrategyRouter)
        requires
            spec_router_config_wf(config),
        ensures
            r.config == config,
            r.assets@ =~= Seq::<(String, AssetState)>::empty(),
            r.wf(),
    {
        StrategyRouter { config, assets: Vec::new() }
    }

    /// Build a router, rejecting a configuration outside the bounds the
    /// router requires.
    pub fn try_new(config: StrategyRouterConfig) -> (r: Result<
        StrategyRouter,
        crate::regime::types::ConfigError,
    >)
        ensures
            r is Ok <==> spec_router_config_wf(config),
            r matches Ok(router) ==> router.config == config && router.assets@.len() == 0
                && router.wf(),
            r is Err ==> r == Err::<StrategyRouter, crate::regime::types::ConfigError>(
                crate::regime::types::ConfigError::InvalidConfig,
            ),
    {
        if config.is_valid() {
            Ok(StrategyRouter::new(config))
        } else {
            Err(crate::regime::types::ConfigError::InvalidConfig)
        }
    }

    /// Create with the default configuration.
    pub fn default_config() -> (r: StrategyRouter)
        ensures
            r.assets@.len() == 0,
            r.wf(),
    {
        StrategyRouter::new(StrategyRouterConfig::default())
    }

    /// The index of a registered symbol, if any.
    fn find_asset(&self, symbol: &str) -> (r: Option<usize>)
        ensures
            (match r {
                Some(i) => {
                    &&& spec_find_asset(self.assets@, symbol@) == Some(i as int)
                    &&& i < self.assets@.len()
                    &&& self.assets@[i as int].0@ == symbol@
                    &&& forall|k: int| 0 <= k < i ==> (#[trigger] self.assets@[k]).0@ != symbol@
                },
                None => {
                    &&& spec_find_asset(self.assets@, symbol@) is None
                    &&& forall|k: int|
                        0 <= k < self.assets@.len() ==> (#[trigger] self.assets@[k]).0@ != symbol@
                },
            }),
    {
        let key: String = symbol.to_owned();
        let mut i: usize = 0;
        while i < self.assets.len()
            invariant
                i <= self.assets@.len(),
                key@ == symbol@,
                forall|k: int|
                    0 <= k < i ==> (#[trigger] self.assets@[k]).0@ != symbol@,
            decreases self.assets@.len() - i,
        {
            if self.assets[i].0 == key {
                proof {
                    lemma_find_asset_hit(self.assets@, symbol@, i as int);
                }
                return Some(i);
            }
            i = i + 1;
        }
        proof {
            lemma_find_asset_miss(self.assets@, symbol@);
        }
        None
    }

    /// Register an asset; a symbol already registered is left untouched.
    pub fn register_asset(&mut self, symbol: &str)
        requires
            old(self).wf(),
        ensures
            final(self).config == old(self).config,
            spec_find_asset(old(self).assets@, symbol@) is Some ==> final(self).assets == old(
                self,
            ).assets,
            spec_find_asset(old(self).assets@, symbol@) is None ==> {
                &&& final(self).assets@.len() == old(self).assets@.len() + 1
                &&& final(self).assets@.subrange(0, old(self).assets@.len() as int) == old(
                    self,
                ).assets@
                &&& final(self).assets@.last().0@ == symbol@
                &&& spec_fresh_asset(final(self).assets@.last().1, old(self).config)
            },
            final(self).wf(),
    {
        if self.find_asset(symbol).is_none() {
            let state = AssetState::new(&self.config);
            self.assets.push((symbol.to_owned(), state));
            proof {
                assert(self.assets@.subrange(0, old(self).assets@.len() as int) =~= old(
                    self,
                ).assets@);
            }
        }
    }

    /// The full relation between router states and output across one bar
    /// for a symbol: a registered symbol's state takes one routing step, a
    /// first-seen symbol takes that step from a freshly registered state at
    /// the end of the table, and every other entry is untouched.
    pub open spec fn spec_update_relation(
        pre: StrategyRouter,
        post: StrategyRouter,
        sym: Seq<char>,
        high: u64,
        low: u64,
        close: u64,
        out: Option<RoutedSignal>,
    ) -> bool {
        &&& post.config == pre.config
        &&& out is Some
        &&& spec_find_asset(post.assets@, sym) is Some
        &&& ({
            let rs = out->Some_0;
            let idx = spec_find_asset(post.assets@, sym)->Some_0;
            let st = post.assets@[idx].1;
            &&& rs.confidence <= CONF_ONE
            &&& (match spec_find_asset(pre.assets@, sym) {
                Some(oi) => {
                    &&& oi == idx
                    &&& post.assets@.len() == pre.assets@.len()
                    &&& (forall|k: int|
                        0 <= k < post.assets@.len() && k != idx ==> #[trigger] post.assets@[k]
                            == pre.assets@[k])
                    &&& spec_asset_step(
                        pre.assets@[oi].1,
                        st,
                        rs,
                        pre.config,
                        high,
                        low,
                        close,
                    )
                },
                None => {
                    &&& idx == pre.assets@.len()
                    &&& post.assets@.len() == pre.assets@.len() + 1
                    &&& (forall|k: int|
                        0 <= k < pre.assets@.len() ==> #[trigger] post.assets@[k]
                            == pre.assets@[k])
                    &&& (exists|fresh: AssetState|
                        #[trigger] spec_fresh_asset(fresh, pre.config) && spec_asset_step(
                            fresh,
                            st,
                            rs,
                            pre.config,
                            high,
                            low,
                            close,
                        ))
                },
            })
        })
    }

    /// Absorb one bar for a symbol (registering it on first sight), select
    /// the strategy for the detected regime and emit the routed signal.
    #[verifier::rlimit(100)]
    #[verifier::spinoff_prover]
    pub fn update(&mut self, symbol: &str, high: u64, low: u64, close: u64) -> (out: Option<
        RoutedSignal,
    >)
        requires
            old(self).wf(),
            1 <= low <= close <= high <= PRICE_MAX,
        ensures
            StrategyRouter::spec_update_relation(
                *old(self),
                *final(self),
                symbol@,
                high,
                low,
                close,
                out,
            ),
            final(self).wf(),
    {
        let idx: usize = match self.find_asset(symbol) {
            Some(i) => i,
            None => {
                let ghost pre = self.assets@;
                self.register_asset(symbol);
                proof {
                    assert forall|k: int|
                        0 <= k < self.assets@.len() - 1 implies (#[trigger] self.assets@[k]).0@
                        != symbol@ by {
                        assert(self.assets@.subrange(0, pre.len() as int)[k] == self.assets@[k]);
                        assert(pre[k].0@ != symbol@);
                    }
                    assert forall|k: int|
                        0 <= k < pre.len() implies #[trigger] self.assets@[k] == pre[k] by {
                        assert(self.assets@.subrange(0, pre.len() as int)[k] == self.assets@[k]);
                    }
                }
                self.assets.len() - 1
            },
        };
        proof {
            assert(self.assets@[idx as int].0@ == symbol@);
            assert(forall|k: int| 0 <= k < idx ==> (#[trigger] self.assets@[k]).0@ != symbol@);
        }
        let ghost gassets = self.assets@;
        let (key, mut state) = self.assets.remove(idx);
        let ghost gpre_state = state;
        proof {
            if spec_find_asset(old(self).assets@, symbol@) is None {
                assert(spec_fresh_asset(gpre_state, old(self).config));
            }
        }
        let regime_result = state.regime_detector.update(high, low, close);
        if !regime_eq(regime_result.regime, state.last_regime) {
            if state.regime_change_count < u32::MAX {
                state.regime_change_count = state.regime_change_count + 1;
            }
            state.last_regime = regime_result.regime;
        }
        let (active_strategy, position_factor) = StrategyRouter::select_strategy(
            &regime_result,
            self.config.min_regime_confidence,
            self.config.volatile_position_size_factor,
        );
        state.current_strategy = active_strategy;
        let (signal, reason, stop_loss, take_profit): (Signal, String, Option<u64>, Option<u64>) =
            match active_strategy {
            ActiveStrategy::TrendFollowing => {
                let (sig, stop, tp) = trend_following_signal(&state.regime_detector, close);
                (sig, String::from_str("trend entry confirmed by the ADX"), stop, tp)
            },
            ActiveStrategy::MeanReversion => {
                let mr_signal = state.mean_reversion.update(high, low, close);
                (
                    mr_signal,
                    String::from_str("band press with RSI confirmation"),
                    state.mean_reversion.stop_loss(),
                    state.mean_reversion.take_profit(),
                )
            },
            ActiveStrategy::NoTrade => {
                (
                    Signal::Hold,
                    String::from_str("volatile or uncertain: staying out"),
                    None,
                    None,
                )
            },
        };
        let routed = RoutedSignal {
            signal,
            source_strategy: active_strategy,
            regime: regime_result.regime,
            confidence: regime_result.confidence,
            position_size_factor: position_factor,
            reason,
            stop_loss,
            take_profit,
        };
        self.assets.insert(idx, (key, state));
        proof {
            assert forall|k: int| 0 <= k < idx implies (#[trigger] self.assets@[k]).0@
                != symbol@ by {
                assert(self.assets@[k] == gassets[k]);
            }
            assert(self.assets@[idx as int].0@ == symbol@);
            lemma_find_asset_hit(self.assets@, symbol@, idx as int);
            assert(spec_asset_step(
                gpre_state,
                state,
                routed,
                old(self).config,
                high,
                low,
                close,
            ));
            if spec_find_asset(old(self).assets@, symbol@) is Some {
                assert(gassets == old(self).assets@);
                assert forall|k: int|
                    0 <= k < self.assets@.len() && k != idx as int implies #[trigger] self.assets@[k]
                    == old(self).assets@[k] by {
                    assert(self.assets@[k] == gassets[k]);
                }
            } else {
                assert forall|k: int|
                    0 <= k < old(self).assets@.len() implies #[trigger] self.assets@[k] == old(
                    self,
                ).assets@[k] by {
                    assert(self.assets@[k] == gassets[k]);
                }
            }
        }
        Some(routed)
    }

    /// The strategy and position factor for a regime reading.
    pub fn select_strategy(
        regime: &RegimeConfidence,
        min_confidence: u64,
        volatile_factor: u64,
    ) -> (r: (ActiveStrategy, u64))
        requires
            volatile_factor <= CONF_ONE,
        ensures
            r == spec_select_strategy(*regime, min_confidence, volatile_factor),
            r.1 <= CONF_ONE,
    {
        if regime.confidence < min_confidence {
            return (ActiveStrategy::NoTrade, 0);
        }
        match regime.regime {
            MarketRegime::Trending(_) => (ActiveStrategy::TrendFollowing, CONF_ONE),
            MarketRegime::MeanReverting => (ActiveStrategy::MeanReversion, CONF_ONE),
            MarketRegime::Volatile => (ActiveStrategy::MeanReversion, volatile_factor),
            MarketRegime::Uncertain => (ActiveStrategy::NoTrade, 0),
        }
    }

    /// The last regime reported for a symbol.
    pub fn get_regime(&self, symbol: &str) -> (r: Option<MarketRegime>)
        ensures
            (match spec_find_asset(self.assets@, symbol@) {
                Some(i) => r == Some(self.assets@[i].1.last_regime),
                None => r is None,
            }),
    {
        match self.find_asset(symbol) {
            Some(i) => Some(self.assets[i].1.last_regime),
            None => None,
        }
    }

    /// The strategy currently engaged for a symbol.
    pub fn get_active_strategy(&self, symbol: &str) -> (r: Option<ActiveStrategy>)
        ensures
            (match spec_find_asset(self.assets@, symbol@) {
                Some(i) => r == Some(self.assets@[i].1.current_strategy),
                None => r is None,
            }),
    {
        match self.find_asset(symbol) {
            Some(i) => Some(self.assets[i].1.current_strategy),
            None => None,
        }
    }

    /// The registered symbols, in registration order.
    pub fn assets(&self) -> (r: Vec<String>)
        ensures
            r@.len() == self.assets@.len(),
            forall|i: int| 0 <= i < r@.len() ==> (#[trigger] r@[i])@ == self.assets@[i].0@,
    {
        let mut out: Vec<String> = Vec::new();
        let mut i: usize = 0;
        while i < self.assets.len()
            invariant
                i <= self.assets@.len(),
                out@.len() == i,
                forall|k: int| 0 <= k < i ==> (#[trigger] out@[k])@ == self.assets@[k].0@,
            decreases self.assets@.len() - i,
        {
            out.push(self.assets[i].0.clone());
            i = i + 1;
        }
        out
    }

    /// The number of regime changes observed for a symbol.
    pub fn regime_changes(&self, symbol: &str) -> (r: Option<u32>)
        ensures
            (match spec_find_asset(self.assets@, symbol@) {
                Some(i) => r == Some(self.assets@[i].1.regime_change_count),
                None => r is None,
            }),
    {
        match self.find_asset(symbol) {
            Some(i) => Some(self.assets[i].1.regime_change_count),
            None => None,
        }
    }

    /// Whether the detector of a symbol has warmed up.
    pub fn is_ready(&self, symbol: &str) -> (r: bool)
        ensures
            r == (match spec_find_asset(self.assets@, symbol@) {
                Some(i) => self.assets@[i].1.regime_detector.spec_is_ready(),
                None => false,
            }),
    {
        match self.find_asset(symbol) {
            Some(i) => self.assets[i].1.regime_detector.is_ready(),
            None => false,
        }
    }

    /// The configuration.
    pub fn config(&self) -> (r: &StrategyRouterConfig)
        ensures
            r == &self.config,
    {
        &self.config
    }
}

/// A linear scan that stops at `i` witnesses the find result.
proof fn lemma_find_asset_hit(assets: Seq<(String, AssetState)>, sym: Seq<char>, i: int)
    requires
        0 <= i < assets.len(),
        assets[i].0@ == sym,
        forall|k: int| 0 <= k < i ==> (#[trigger] assets[k]).0@ != sym,
    ensures
        spec_find_asset(assets, sym) == Some(i),
    decreases i,
{
    if i == 0 {
    } else {
        lemma_find_asset_hit(assets.skip(1), sym, i - 1);
        assert(assets.skip(1)[i - 1] == assets[i]);
        assert forall|k: int| 0 <= k < i - 1 implies (#[trigger] assets.skip(1)[k]).0@ != sym by {
            assert(assets.skip(1)[k] == assets[k + 1]);
        }
        assert(assets[0].0@ != sym);
    }
}

/// A full scan with no match witnesses a `None` find result.
proof fn lemma_find_asset_miss(assets: Seq<(String, AssetState)>, sym: Seq<char>)
    requires
        forall|k: int| 0 <= k < assets.len() ==> (#[trigger] assets[k]).0@ != sym,
    ensures
        spec_find_asset(assets, sym) is None,
    decreases assets.len(),
{
    if assets.len() == 0 {
    } else {
        assert forall|k: int|
            0 <= k < assets.skip(1).len() implies (#[trigger] assets.skip(1)[k]).0@ != sym by {
            assert(assets.skip(1)[k] == assets[k + 1]);
        }
        lemma_find_asset_miss(assets.skip(1), sym);
    }
}

/// Equality of regimes as an executable test.
fn regime_eq(a: MarketRegime, b: MarketRegime) -> (r: bool)
    ensures
        r == (a == b),
{
    a == b
}

/// The trend-following signal, mirroring [`spec_trend_signal`].
fn trend_following_signal(detector: &RegimeDetector, close: u64) -> (r: (
    Signal,
    Option<u64>,
    Option<u64>,
))
    requires
        detector.wf(),
        1 <= close <= PRICE_MAX,
    ensures
        r == spec_trend_signal(*detector, close as int),
{
    let adx = match detector.adx.current_adx {
        Some(v) => v,
        None => 0,
    };
    let atr = match detector.atr.current_atr {
        Some(v) => v,
        None => close * 2 / 100,
    };
    proof {
        crate::fixed::lemma_div_bound_upper(
            (close as int) * 2,
            PRICE_MAX as int,
            100int,
        );
    }
    match detector.current_regime {
        MarketRegime::Trending(TrendDirection::Bullish) => {
            if adx > 2_500 {
                let stop = if close >= 2 * atr {
                    close - 2 * atr
                } else {
                    0
                };
                (Signal::Buy, Some(stop), Some(close + 3 * atr))
            } else {
                (Signal::Hold, None, None)
            }
        },
        MarketRegime::Trending(TrendDirection::Bearish) => {
            if adx > 2_500 {
                let tp = if close >= 3 * atr {
                    close - 3 * atr
                } else {
                    0
                };
                (Signal::Sell, Some(close + 2 * atr), Some(tp))
            } else {
                (Signal::Hold, None, None)
            }
        },
        _ => (Signal::Hold, None, None),
    }
}

/// Statistics about emitted signals.
#[derive(Clone, Copy, Debug, PartialEq, Eq, Structural)]
pub struct RouterStats {
    pub total_signals: u64,
    pub trend_following_signals: u64,
    pub mean_reversion_signals: u64,
    pub no_trade_periods: u64,
    pub regime_changes: u64,
}

impl Default for RouterStats {
    /// All counters at zero.
    fn default() -> (r: RouterStats)
        ensures
            r == (RouterStats {
                total_signals: 0u64,
                trend_following_signals: 0u64,
                mean_reversion_signals: 0u64,
                no_trade_periods: 0u64,
                regime_changes: 0u64,
            }),
    {
        RouterStats {
            total_signals: 0,
            trend_following_signals: 0,
            mean_reversion_signals: 0,
            no_trade_periods: 0,
            regime_changes: 0,
        }
    }
}

impl RouterStats {
    /// Record one routed signal in the per-strategy counters.
    pub fn record_signal(&mut self, signal: &RoutedSignal)
        ensures
            final(self).total_signals as int == crate::fixed::spec_sat_add_u64(
                old(self).total_signals as int,
                1,
            ),
            final(self).trend_following_signals as int == (if signal.source_strategy
                == ActiveStrategy::TrendFollowing {
                crate::fixed::spec_sat_add_u64(old(self).trend_following_signals as int, 1)
            } else {
                old(self).trend_following_signals as int
            }),
            final(self).mean_reversion_signals as int == (if signal.source_strategy
                == ActiveStrategy::MeanReversion {
                crate::fixed::spec_sat_add_u64(old(self).mean_reversion_signals as int, 1)
            } else {
                old(self).mean_reversion_signals as int
            }),
            final(self).no_trade_periods as int == (if signal.source_strategy
                == ActiveStrategy::NoTrade {
                crate::fixed::spec_sat_add_u64(old(self).no_trade_periods as int, 1)
            } else {
                old(self).no_trade_periods as int
            }),
            final(self).regime_changes == old(self).regime_changes,
    {
        self.total_signals = crate::fixed::sat_add_u64(self.total_signals, 1);
        match signal.source_strategy {
            ActiveStrategy::TrendFollowing => {
                self.trend_following_signals = crate::fixed::sat_add_u64(
                    self.trend_following_signals,
                    1,
                );
            },
            ActiveStrategy::MeanReversion => {
                self.mean_reversion_signals = crate::fixed::sat_add_u64(
                    self.mean_reversion_signals,
                    1,
                );
            },
            ActiveStrategy::NoTrade => {
                self.no_trade_periods = crate::fixed::sat_add_u64(self.no_trade_periods, 1);
            },
        }
    }
}

} // verus!
