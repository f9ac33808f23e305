//! The core of the exchange integration: OHLCV candles, tick-to-candle
//! aggregation, a per-pair timestamp guard against replayed bars, and the
//! conversion of routed signals into trade actions. All transport I/O lives
//! outside the core; this module is a pure state machine over plain values.

use vstd::prelude::*;

verus! {

use crate::fixed::{sat_add_u64, spec_sat_add_u64, PRICE_MAX};
use crate::regime::types::{spec_regime_label, MarketRegime};
use crate::strategy::mean_reversion::Signal;
use crate::strategy::router::{
    spec_router_config_wf,
    ActiveStrategy,
    RoutedSignal,
    StrategyRouter,
    StrategyRouterConfig,
};
use vstd::arithmetic::div_mod::lemma_fundamental_div_mod;

/// An OHLCV candle over scaled prices.
#[derive(Clone, Copy, Debug, PartialEq, Eq, Structural)]
pub struct Candle {
    /// Start of the candle period, seconds since the epoch.
    pub timestamp: i64,
    /// Opening price.
    pub open: u64,
    /// Highest price.
    pub high: u64,
    /// Lowest price.
    pub low: u64,
    /// Closing price.
    pub close: u64,
    /// Volume over the period.
    pub volume: u64,
}

/// The candle invariant: the low and high bracket the open and close.
pub open spec fn spec_candle_wf(c: Candle) -> bool {
    &&& 0 <= c.timestamp
    &&& 1 <= c.low <= c.open <= c.high <= PRICE_MAX
    &&& c.low <= c.close <= c.high
}

/// A trade action ready for execution or notification.
#[derive(Clone, Debug)]
pub struct TradeAction {
    /// The trading pair.
    pub symbol: String,
    /// What to do.
    pub action: TradeType,
    /// Price that triggered the action.
    pub price: u64,
    /// Fraction of the maximum position to commit, at `CONF_ONE`.
    pub size_factor: u64,
    /// Protective stop, when applicable.
    pub stop_loss: Option<u64>,
    /// Profit target, when applicable.
    pub take_profit: Option<u64>,
    /// Name of the strategy that produced the signal.
    pub source_strategy: String,
    /// Name of the detected regime.
    pub regime: String,
    /// Regime confidence at `CONF_ONE`.
    pub confidence: u64,
    /// Reasoning behind the signal.
    pub reason: String,
}

/// The side of a trade action.
#[derive(Clone, Copy, Debug, PartialEq, Eq, Structural)]
pub enum TradeType {
    Buy,
    Sell,
    Hold,
}

/// The one-to-one mapping from signals to trade sides.
pub open spec fn spec_trade_type(s: Signal) -> TradeType {
    match s {
        Signal::Buy => TradeType::Buy,
        Signal::Sell => TradeType::Sell,
        Signal::Hold => TradeType::Hold,
    }
}

/// The envelope relation: a trade action carries exactly the routed
/// signal's content for a pair at a price, with the strategy and regime
/// rendered through their one-to-one labels.
pub open spec fn spec_action_matches(
    a: TradeAction,
    pair: Seq<char>,
    price: u64,
    rs: RoutedSignal,
) -> bool {
    &&& a.symbol@ == pair
    &&& a.action == spec_trade_type(rs.signal)
    &&& a.price == price
    &&& a.size_factor == rs.position_size_factor
    &&& a.stop_loss == rs.stop_loss
    &&& a.take_profit == rs.take_profit
    &&& a.source_strategy@ == crate::strategy::router::spec_strategy_label(rs.source_strategy)
    &&& a.regime@ == spec_regime_label(rs.regime)
    &&& a.confidence == rs.confidence
    &&& a.reason@ == rs.reason@
}

impl From<Signal> for TradeType {
    /// The trade side of a signal.
    fn from(signal: Signal) -> (r: TradeType) {
        match signal {
            Signal::Buy => TradeType::Buy,
            Signal::Sell => TradeType::Sell,
            Signal::Hold => TradeType::Hold,
        }
    }
}

impl vstd::std_specs::convert::FromSpecImpl<Signal> for TradeType {
    open spec fn obeys_from_spec() -> bool {
        true
    }

    open spec fn from_spec(signal: Signal) -> TradeType {
        spec_trade_type(signal)
    }
}

/// Configuration of the integration core. Monetary limits are scaled
/// prices; the risk fraction is at `PCT_SCALE`.
#[derive(Clone, Debug)]
pub struct KrakenIntegrationConfig {
    /// Trading pairs to monitor.
    pub pairs: Vec<String>,
    /// Candle timeframe in minutes.
    pub timeframe_minutes: u32,
    /// Router configuration.
    pub router_config: StrategyRouterConfig,
    /// Whether actions should be executed or only signalled.
    pub live_trading: bool,
    /// Minimum trade value.
    pub min_trade_usd: u64,
    /// Maximum trade value.
    pub max_trade_usd: u64,
    /// Risk per trade as a percentage of the account.
    pub risk_per_trade_pct: u64,
}

/// Machine bounds on the integration configuration.
pub open spec fn spec_integration_config_wf(c: KrakenIntegrationConfig) -> bool {
    &&& spec_router_config_wf(c.router_config)
    &&& 1 <= c.timeframe_minutes <= 100_000
}

impl Default for KrakenIntegrationConfig {
    /// Defaults: the three major pairs on 15-minute candles, signal-only.
    fn default() -> (r: KrakenIntegrationConfig)
        ensures
            r.pairs@.len() == 3,
            r.timeframe_minutes == 15,
            !r.live_trading,
            spec_integration_config_wf(r),
    {
        KrakenIntegrationConfig::default_config()
    }
}

impl KrakenIntegrationConfig {
    /// Whether the configuration satisfies the bounds the core requires.
    pub fn is_valid(&self) -> (r: bool)
        ensures
            r == spec_integration_config_wf(*self),
    {
        self.router_config.is_valid() && 1 <= self.timeframe_minutes && self.timeframe_minutes
            <= 100_000
    }

    /// Defaults: the three major pairs on 15-minute candles, signal-only.
    pub fn default_config() -> (r: KrakenIntegrationConfig)
        ensures
            r.pairs@.len() == 3,
            r.timeframe_minutes == 15,
            !r.live_trading,
            spec_integration_config_wf(r),
    {
        let mut pairs: Vec<String> = Vec::new();
        pairs.push(String::from_str("BTC/USD"));
        pairs.push(String::from_str("ETH/USD"));
        pairs.push(String::from_str("SOL/USD"));
        KrakenIntegrationConfig {
            pairs,
            timeframe_minutes: 15,
            router_config: StrategyRouterConfig::default(),
            live_trading: false,
            min_trade_usd: 100_000,
            max_trade_usd: 2_500_000,
            risk_per_trade_pct: 100,
        }
    }
}

/// A candle being accumulated from ticks.
#[derive(Clone, Copy, Debug, PartialEq, Eq, Structural)]
pub struct PartialCandle {
    /// Start of the candle period.
    pub start_time: i64,
    /// First tick price.
    pub open: u64,
    /// Highest tick price so far.
    pub high: u64,
    /// Lowest tick price so far.
    pub low: u64,
    /// Latest tick price.
    pub close: u64,
    /// Ticks absorbed, saturating.
    pub volume: u64,
}

/// The partial-candle invariant.
pub open spec fn spec_partial_wf(p: PartialCandle) -> bool {
    &&& 0 <= p.start_time
    &&& 1 <= p.low <= p.open <= p.high <= PRICE_MAX
    &&& p.low <= p.close <= p.high
}

/// The candle period a timestamp falls in.
pub open spec fn spec_bucket(ts: int, tf: int) -> int {
    ts / tf * tf
}

/// Builds candles from a stream of ticks: a tick in a new period completes
/// and emits the candle of the previous period.
#[derive(Clone, Copy, Debug, PartialEq, Eq, Structural)]
pub struct CandleBuilder {
    /// Length of a candle period in seconds.
    pub timeframe_secs: i64,
    /// The candle being accumulated, if any tick has been seen.
    pub current_candle: Option<PartialCandle>,
}

impl CandleBuilder {
    /// Structural bounds every builder of the core maintains.
    pub open spec fn wf(self) -> bool {
        &&& 1 <= self.timeframe_secs <= 6_000_000
        &&& (match self.current_candle {
            Some(p) => spec_partial_wf(p),
            None => true,
        })
    }

    /// A fresh builder for the given period length.
    pub fn new(timeframe_secs: i64) -> (r: CandleBuilder)
        requires
            1 <= timeframe_secs <= 6_000_000,
        ensures
            r == (CandleBuilder { timeframe_secs, current_candle: None::<PartialCandle> }),
            r.wf(),
    {
        CandleBuilder { timeframe_secs, current_candle: None }
    }

    /// The candle a tick completes, as a function of the builder state: the
    /// accumulated candle when the tick opens a later period, nothing
    /// otherwise.
    pub open spec fn spec_tick_out(pre: CandleBuilder, price: u64, timestamp: i64) -> Option<
        Candle,
    > {
        let bucket = spec_bucket(timestamp as int, pre.timeframe_secs as int);
        match pre.current_candle {
            None => None,
            Some(p) => if p.start_time == bucket {
                None
            } else {
                Some(
                    Candle {
                        timestamp: p.start_time,
                        open: p.open,
                        high: p.high,
                        low: p.low,
                        close: p.close,
                        volume: p.volume,
                    },
                )
            },
        }
    }

    /// The full relation between builder states and emitted candle across
    /// one tick.
    pub open spec fn spec_stepped(
        pre: CandleBuilder,
        post: CandleBuilder,
        price: u64,
        timestamp: i64,
        out: Option<Candle>,
    ) -> bool {
        let bucket = spec_bucket(timestamp as int, pre.timeframe_secs as int);
        &&& post.timeframe_secs == pre.timeframe_secs
        &&& (match pre.current_candle {
            None => {
                &&& out is None
                &&& post.current_candle == Some(
                    PartialCandle {
                        start_time: bucket as i64,
                        open: price,
                        high: price,
                        low: price,
                        close: price,
                        volume: 1u64,
                    },
                )
            },
            Some(p) => if p.start_time == bucket {
                &&& out is None
                &&& post.current_candle == Some(
                    PartialCandle {
                        start_time: p.start_time,
                        open: p.open,
                        high: (if price > p.high {
                            price
                        } else {
                            p.high
                        }),
                        low: (if price < p.low {
                            price
                        } else {
                            p.low
                        }),
                        close: price,
                        volume: spec_sat_add_u64(p.volume as int, 1) as u64,
                    },
                )
            } else {
                &&& out == Some(
                    Candle {
                        timestamp: p.start_time,
                        open: p.open,
                        high: p.high,
                        low: p.low,
                        close: p.close,
                        volume: p.volume,
                    },
                )
                &&& post.current_candle == Some(
                    PartialCandle {
                        start_time: bucket as i64,
                        open: price,
                        high: price,
                        low: price,
                        close: price,
                        volume: 1u64,
                    },
                )
            },
        })
    }

    /// Absorb one tick. The first tick of a later period completes the
    /// accumulated candle and returns it; ticks of the current period only
    /// update the accumulator.
    pub fn add_tick(&mut self, price: u64, timestamp: i64) -> (out: Option<Candle>)
        requires
            old(self).wf(),
            1 <= price <= PRICE_MAX,
            0 <= timestamp,
        ensures
            CandleBuilder::spec_stepped(*old(self), *final(self), price, timestamp, out),
            final(self).wf(),
            (match out {
                Some(c) => spec_candle_wf(c),
                None => true,
            }),
    {
        let tf = self.timeframe_secs as u64;
        let q = (timestamp as u64) / tf;
        proof {
            lemma_fundamental_div_mod(timestamp as int, tf as int);
            assert((tf as int) * (q as int) <= timestamp as int);
            assert((q as int) * (tf as int) == (tf as int) * (q as int)) by (nonlinear_arith);
        }
        let candle_start = (q * tf) as i64;
        match self.current_candle {
            Some(candle) => {
                if candle.start_time == candle_start {
                    let updated = PartialCandle {
                        start_time: candle.start_time,
                        open: candle.open,
                        high: if price > candle.high {
                            price
                        } else {
                            candle.high
                        },
                        low: if price < candle.low {
                            price
                        } else {
                            candle.low
                        },
                        close: price,
                        volume: sat_add_u64(candle.volume, 1),
                    };
                    self.current_candle = Some(updated);
                    None
                } else {
                    let completed = Candle {
                        timestamp: candle.start_time,
                        open: candle.open,
                        high: candle.high,
                        low: candle.low,
                        close: candle.close,
                        volume: candle.volume,
                    };
                    self.current_candle = Some(
                        PartialCandle {
                            start_time: candle_start,
                            open: price,
                            high: price,
                            low: price,
                            close: price,
                            volume: 1,
                        },
                    );
                    Some(completed)
                }
            },
            None => {
                self.current_candle = Some(
                    PartialCandle {
                        start_time: candle_start,
                        open: price,
                        high: price,
                        low: price,
                        close: price,
                        volume: 1,
                    },
                );
                None
            },
        }
    }
}

/// Status of one monitored pair.
#[derive(Clone, Copy, Debug, PartialEq, Eq, Structural)]
pub struct PairStatus {
    /// Whether the detector for the pair has warmed up.
    pub ready: bool,
    /// Last regime reported for the pair.
    pub regime: Option<MarketRegime>,
    /// Strategy currently engaged for the pair.
    pub strategy: Option<ActiveStrategy>,
    /// Number of regime changes observed.
    pub regime_changes: u32,
}

/// The index of a pair among the per-pair timestamps.
pub open spec fn spec_find_time(times: Seq<(String, i64)>, sym: Seq<char>) -> Option<int>
    decreases times.len(),
{
    if times.len() == 0 {
        None
    } else if times[0].0@ == sym {
        Some(0int)
    } else {
        match spec_find_time(times.skip(1), sym) {
            Some(i) => Some(i + 1),
            None => None,
        }
    }
}

/// The index of a pair among the per-pair candle builders.
pub open spec fn spec_find_builder(
    builders: Seq<(String, CandleBuilder)>,
    sym: Seq<char>,
) -> Option<int>
    decreases builders.len(),
{
    if builders.len() == 0 {
        None
    } else if builders[0].0@ == sym {
        Some(0int)
    } else {
        match spec_find_builder(builders.skip(1), sym) {
            Some(i) => Some(i + 1),
            None => None,
        }
    }
}

/// Whether a candle timestamp is stale for a pair: a timestamp at or before
/// the recorded last processed one. A pair with no record is never stale.
pub open spec fn spec_stale(times: Seq<(String, i64)>, pair: Seq<char>, ts: i64) -> bool {
    match spec_find_time(times, pair) {
        Some(i) => times[i].1 >= ts,
        None => false,
    }
}

/// The router after replaying a candle history for a pair: the fold of the
/// one-bar update relation over the candles, in order.
pub open spec fn spec_replayed(
    pre: StrategyRouter,
    post: StrategyRouter,
    sym: Seq<char>,
    candles: Seq<Candle>,
) -> bool
    decreases candles.len(),
{
    if candles.len() == 0 {
        post == pre
    } else {
        exists|mid: StrategyRouter, rs: RoutedSignal|
            spec_replayed(pre, mid, sym, candles.drop_last())
                && #[trigger] StrategyRouter::spec_update_relation(
                mid,
                post,
                sym,
                candles.last().high,
                candles.last().low,
                candles.last().close,
                Some(rs),
            )
    }
}

/// The full relation of processing one candle against the router and the
/// replay-guard table: a stale candle leaves both untouched and yields
/// nothing; a fresh one records its timestamp, takes one routing step and
/// yields the enveloped action.
pub open spec fn spec_candle_processed(
    pre_router: StrategyRouter,
    pre_times: Seq<(String, i64)>,
    post_router: StrategyRouter,
    post_times: Seq<(String, i64)>,
    pair: Seq<char>,
    candle: Candle,
    out: Option<TradeAction>,
) -> bool {
    &&& (spec_stale(pre_times, pair, candle.timestamp) ==> {
        &&& out is None
        &&& post_router == pre_router
        &&& post_times == pre_times
    })
    &&& (!spec_stale(pre_times, pair, candle.timestamp) ==> {
        let i = spec_find_time(post_times, pair)->Some_0;
        &&& out matches Some(a) && (exists|rs: RoutedSignal|
            StrategyRouter::spec_update_relation(
                pre_router,
                post_router,
                pair,
                candle.high,
                candle.low,
                candle.close,
                Some(rs),
            ) && #[trigger] spec_action_matches(a, pair, candle.close, rs))
        &&& spec_find_time(post_times, pair) is Some
        &&& post_times[i].1 == candle.timestamp
    })
}

/// The full relation of processing one tick: the pair's builder (fresh on
/// first sight) absorbs the tick, and a candle completed by it is routed
/// through the candle path; an incomplete period leaves the router and the
/// replay guard untouched and yields nothing.
pub open spec fn spec_tick_processed(
    pre: KrakenRegimeTrader,
    post: KrakenRegimeTrader,
    pair: Seq<char>,
    price: u64,
    timestamp: i64,
    out: Option<TradeAction>,
) -> bool {
    let pre_b = match spec_find_builder(pre.candle_builders@, pair) {
        Some(i) => pre.candle_builders@[i].1,
        None => CandleBuilder {
            timeframe_secs: ((pre.config.timeframe_minutes as int) * 60) as i64,
            current_candle: None::<PartialCandle>,
        },
    };
    let bi = spec_find_builder(post.candle_builders@, pair)->Some_0;
    let completed = CandleBuilder::spec_tick_out(pre_b, price, timestamp);
    &&& spec_find_builder(post.candle_builders@, pair) is Some
    &&& CandleBuilder::spec_stepped(pre_b, post.candle_builders@[bi].1, price, timestamp, completed)
    &&& (match completed {
        None => {
            &&& out is None
            &&& post.router == pre.router
            &&& post.last_candle_time == pre.last_candle_time
        },
        Some(c) => spec_candle_processed(
            pre.router,
            pre.last_candle_time@,
            post.router,
            post.last_candle_time@,
            pair,
            c,
            out,
        ),
    })
}

/// The regime-aware trading core: a strategy router behind per-pair candle
/// aggregation and a strictly-increasing timestamp guard.
#[derive(Debug)]
pub struct KrakenRegimeTrader {
    /// Configuration.
    pub config: KrakenIntegrationConfig,
    /// The strategy router.
    pub router: StrategyRouter,
    /// Per-pair candle builders for tick input.
    pub candle_builders: Vec<(String, CandleBuilder)>,
    /// Timestamp of the last processed candle per pair.
    pub last_candle_time: Vec<(String, i64)>,
}

impl KrakenRegimeTrader {
    /// Structural bounds every trader of the core maintains.
    pub open spec fn wf(self) -> bool {
        &&& spec_integration_config_wf(self.config)
        &&& self.router.wf()
        &&& (forall|i: int|
            0 <= i < self.candle_builders@.len() ==> (#[trigger] self.candle_builders@[i]).1.wf())
    }

    /// A fresh trader with every configured pair registered.
    pub fn new(config: KrakenIntegrationConfig) -> (r: KrakenRegimeTrader)
        requires
            spec_integration_config_wf(config),
        ensures
            r.config == config,
            r.last_candle_time@.len() == 0,
            r.candle_builders@.len() == 0,
            r.wf(),
    {
        let mut router = StrategyRouter::new(config.router_config);
        let mut i: usize = 0;
        while i < config.pairs.len()
            invariant
                i <= config.pairs@.len(),
                router.wf(),
                router.config == config.router_config,
            decreases config.pairs@.len() - i,
        {
            router.register_asset(config.pairs[i].as_str());
            i = i + 1;
        }
        KrakenRegimeTrader {
            config,
            router,
            candle_builders: Vec::new(),
            last_candle_time: Vec::new(),
        }
    }

    /// Build a trader, rejecting a configuration outside the bounds the
    /// core requires.
    pub fn try_new(config: KrakenIntegrationConfig) -> (r: Result<
        KrakenRegimeTrader,
        crate::regime::types::ConfigError,
    >)
        ensures
            r is Ok <==> spec_integration_config_wf(config),
            r matches Ok(t) ==> t.config == config && t.wf(),
            r is Err ==> r == Err::<KrakenRegimeTrader, crate::regime::types::ConfigError>(
                crate::regime::types::ConfigError::InvalidConfig,
            ),
    {
        if config.is_valid() {
            Ok(KrakenRegimeTrader::new(config))
        } else {
            Err(crate::regime::types::ConfigError::InvalidConfig)
        }
    }

    /// The recorded timestamp of the last processed candle for a pair.
    fn find_last_time(&self, pair: &str) -> (r: Option<usize>)
        ensures
            (match r {
                Some(i) => {
                    &&& spec_find_time(self.last_candle_time@, pair@) == Some(i as int)
                    &&& i < self.last_candle_time@.len()
                    &&& self.last_candle_time@[i as int].0@ == pair@
                },
                None => spec_find_time(self.last_candle_time@, pair@) is None,
            }),
    {
        let key: String = pair.to_owned();
        let mut i: usize = 0;
        while i < self.last_candle_time.len()
            invariant
                i <= self.last_candle_time@.len(),
                key@ == pair@,
                forall|k: int| 0 <= k < i ==> (#[trigger] self.last_candle_time@[k]).0@ != pair@,
            decreases self.last_candle_time@.len() - i,
        {
            if self.last_candle_time[i].0 == key {
                proof {
                    lemma_find_time_hit(self.last_candle_time@, pair@, i as int);
                }
                return Some(i);
            }
            i = i + 1;
        }
        proof {
            lemma_find_time_miss(self.last_candle_time@, pair@);
        }
        None
    }

    /// Process one completed candle for a pair. A candle whose timestamp is
    /// not strictly greater than the last processed one is silently dropped
    /// and the state is left untouched; replays are therefore no-ops.
    pub fn process_candle(&mut self, pair: &str, candle: &Candle) -> (out: Option<TradeAction>)
        requires
            old(self).wf(),
            spec_candle_wf(*candle),
        ensures
            final(self).config == old(self).config,
            final(self).wf(),
            spec_stale(old(self).last_candle_time@, pair@, candle.timestamp) ==> {
                &&& out is None
                &&& *final(self) == *old(self)
            },
            final(self).candle_builders == old(self).candle_builders,
            spec_candle_processed(
                old(self).router,
                old(self).last_candle_time@,
                final(self).router,
                final(self).last_candle_time@,
                pair@,
                *candle,
                out,
            ),
    {
        match self.find_last_time(pair) {
            Some(i) => {
                let last = self.last_candle_time[i].1;
                if candle.timestamp <= last {
                    return None;
                }
                let ghost pre = self.last_candle_time@;
                let (key, _) = self.last_candle_time.remove(i);
                self.last_candle_time.insert(i, (key, candle.timestamp));
                proof {
                    lemma_find_time_prefix(pre, pair@, i as int);
                    assert forall|k: int| 0 <= k < i implies (#[trigger] self.last_candle_time@[k]).0@
                        != pair@ by {
                        assert(self.last_candle_time@[k] == pre[k]);
                        assert(pre[k].0@ != pair@);
                    }
                    assert(self.last_candle_time@[i as int].0@ == pair@);
                    lemma_find_time_hit(self.last_candle_time@, pair@, i as int);
                }
            },
            None => {
                let ghost pre = self.last_candle_time@;
                self.last_candle_time.push((pair.to_owned(), candle.timestamp));
                proof {
                    let n = pre.len() as int;
                    lemma_find_time_none_all(pre, pair@);
                    assert forall|k: int| 0 <= k < n implies (#[trigger] self.last_candle_time@[k]).0@
                        != pair@ by {
                        assert(self.last_candle_time@[k] == pre[k]);
                        assert(pre[k].0@ != pair@);
                    }
                    assert(self.last_candle_time@[n].0@ == pair@);
                    lemma_find_time_hit(self.last_candle_time@, pair@, n);
                }
            },
        }
        let routed = match self.router.update(pair, candle.high, candle.low, candle.close) {
            Some(r) => r,
            None => {
                proof {
                    assert(false);
                }
                return None;
            },
        };
        let ghost grouted = routed;
        let action = self.routed_to_action(pair, candle.close, &routed);
        proof {
            assert(StrategyRouter::spec_update_relation(
                old(self).router,
                self.router,
                pair@,
                candle.high,
                candle.low,
                candle.close,
                Some(grouted),
            ) && spec_action_matches(action, pair@, candle.close, grouted));
        }
        Some(action)
    }

    /// The index of a pair among the candle builders.
    fn find_builder(&self, pair: &str) -> (r: Option<usize>)
        ensures
            (match r {
                Some(i) => {
                    &&& spec_find_builder(self.candle_builders@, pair@) == Some(i as int)
                    &&& i < self.candle_builders@.len()
                    &&& self.candle_builders@[i as int].0@ == pair@
                    &&& forall|k: int|
                        0 <= k < i ==> (#[trigger] self.candle_builders@[k]).0@ != pair@
                },
                None => {
                    &&& spec_find_builder(self.candle_builders@, pair@) is None
                    &&& forall|k: int|
                        0 <= k < self.candle_builders@.len()
                            ==> (#[trigger] self.candle_builders@[k]).0@ != pair@
                },
            }),
    {
        let key: String = pair.to_owned();
        let mut i: usize = 0;
        while i < self.candle_builders.len()
            invariant
                i <= self.candle_builders@.len(),
                key@ == pair@,
                forall|k: int| 0 <= k < i ==> (#[trigger] self.candle_builders@[k]).0@ != pair@,
            decreases self.candle_builders@.len() - i,
        {
            if self.candle_builders[i].0 == key {
                proof {
                    lemma_find_builder_hit(self.candle_builders@, pair@, i as int);
                }
                return Some(i);
            }
            i = i + 1;
        }
        proof {
            lemma_find_builder_miss(self.candle_builders@, pair@);
        }
        None
    }

    /// Process one tick for a pair: the pair's candle builder (created on
    /// first sight with the configured timeframe) absorbs the tick, and a
    /// candle completed by it is routed through the candle path.
    #[verifier::rlimit(100)]
    #[verifier::spinoff_prover]
    pub fn process_tick(&mut self, pair: &str, price: u64, timestamp: i64) -> (out: Option<
        TradeAction,
    >)
        requires
            old(self).wf(),
            1 <= price <= PRICE_MAX,
            0 <= timestamp,
        ensures
            final(self).config == old(self).config,
            final(self).wf(),
            spec_tick_processed(*old(self), *final(self), pair@, price, timestamp, out),
    {
        let timeframe_secs: i64 = (self.config.timeframe_minutes as i64) * 60;
        let idx: usize = match self.find_builder(pair) {
            Some(i) => i,
            None => {
                let ghost pre = self.candle_builders@;
                self.candle_builders.push((pair.to_owned(), CandleBuilder::new(timeframe_secs)));
                proof {
                    assert forall|k: int|
                        0 <= k < self.candle_builders@.len() - 1 implies (
                    #[trigger] self.candle_builders@[k]).0@ != pair@ by {
                        assert(self.candle_builders@[k] == pre[k]);
                    }
                }
                self.candle_builders.len() - 1
            },
        };
        proof {
            assert(self.candle_builders@[idx as int].0@ == pair@);
            assert(forall|k: int|
                0 <= k < idx ==> (#[trigger] self.candle_builders@[k]).0@ != pair@);
        }
        let ghost gbuilders = self.candle_builders@;
        let (bkey, mut builder) = self.candle_builders.remove(idx);
        let ghost gpre_builder = builder;
        proof {
            let pre_b = match spec_find_builder(old(self).candle_builders@, pair@) {
                Some(i) => old(self).candle_builders@[i].1,
                None => CandleBuilder {
                    timeframe_secs: ((old(self).config.timeframe_minutes as int) * 60) as i64,
                    current_candle: None::<PartialCandle>,
                },
            };
            assert(gpre_builder == pre_b);
        }
        let completed = builder.add_tick(price, timestamp);
        proof {
            assert(completed == CandleBuilder::spec_tick_out(gpre_builder, price, timestamp));
        }
        self.candle_builders.insert(idx, (bkey, builder));
        proof {
            assert forall|k: int| 0 <= k < idx implies (#[trigger] self.candle_builders@[k]).0@
                != pair@ by {
                assert(self.candle_builders@[k] == gbuilders[k]);
            }
            assert(self.candle_builders@[idx as int].0@ == pair@);
            lemma_find_builder_hit(self.candle_builders@, pair@, idx as int);
            assert(self.candle_builders@[idx as int].1 == builder);
            assert(CandleBuilder::spec_stepped(gpre_builder, builder, price, timestamp, completed));
        }
        let out: Option<TradeAction> = match completed {
            Some(candle) => self.process_candle(pair, &candle),
            None => None,
        };
        proof {
            assert(spec_find_builder(self.candle_builders@, pair@) == Some(idx as int));
            assert(self.candle_builders@[idx as int].1 == builder);
            assert(CandleBuilder::spec_stepped(
                gpre_builder,
                self.candle_builders@[idx as int].1,
                price,
                timestamp,
                completed,
            ) && (match completed {
                None => {
                    &&& out is None
                    &&& self.router == old(self).router
                    &&& self.last_candle_time == old(self).last_candle_time
                },
                Some(c) => spec_candle_processed(
                    old(self).router,
                    old(self).last_candle_time@,
                    self.router,
                    self.last_candle_time@,
                    pair@,
                    c,
                    out,
                ),
            }));
        }
        out
    }

    /// Wrap a routed signal and its triggering price into a trade action.
    fn routed_to_action(&self, pair: &str, price: u64, routed: &RoutedSignal) -> (a: TradeAction)
        ensures
            spec_action_matches(a, pair@, price, *routed),
    {
        TradeAction {
            symbol: pair.to_owned(),
            action: TradeType::from(routed.signal),
            price,
            size_factor: routed.position_size_factor,
            stop_loss: routed.stop_loss,
            take_profit: routed.take_profit,
            source_strategy: routed.source_strategy.label(),
            regime: routed.regime.label(),
            confidence: routed.confidence,
            reason: routed.reason.clone(),
        }
    }

    /// Replay historical candles through the router to warm it up: the
    /// router afterwards is the fold of its one-bar update over the candles
    /// in order. No signal is emitted, and the replay guard and the candle
    /// builders are left untouched, so the timestamp guard only begins with
    /// live processing.
    pub fn warmup_with_history(&mut self, pair: &str, candles: &Vec<Candle>)
        requires
            old(self).wf(),
            forall|i: int| 0 <= i < candles@.len() ==> spec_candle_wf(#[trigger] candles@[i]),
        ensures
            final(self).config == old(self).config,
            final(self).last_candle_time == old(self).last_candle_time,
            final(self).candle_builders == old(self).candle_builders,
            spec_replayed(old(self).router, final(self).router, pair@, candles@),
            final(self).wf(),
    {
        proof {
            assert(candles@.take(0int) =~= Seq::<Candle>::empty());
        }
        let mut i: usize = 0;
        while i < candles.len()
            invariant
                i <= candles@.len(),
                forall|k: int| 0 <= k < candles@.len() ==> spec_candle_wf(#[trigger] candles@[k]),
                self.wf(),
                self.config == old(self).config,
                self.last_candle_time == old(self).last_candle_time,
                self.candle_builders == old(self).candle_builders,
                spec_replayed(old(self).router, self.router, pair@, candles@.take(i as int)),
            decreases candles@.len() - i,
        {
            let ghost gmid = self.router;
            let c = &candles[i];
            let routed = self.router.update(pair, c.high, c.low, c.close);
            proof {
                let grs = routed->Some_0;
                assert(candles@.take(i as int + 1).drop_last() =~= candles@.take(i as int));
                assert(candles@.take(i as int + 1).last() == candles@[i as int]);
                assert(spec_replayed(old(self).router, gmid, pair@, candles@.take(i as int))
                    && StrategyRouter::spec_update_relation(
                    gmid,
                    self.router,
                    pair@,
                    candles@[i as int].high,
                    candles@[i as int].low,
                    candles@[i as int].close,
                    Some(grs),
                ));
            }
            i = i + 1;
        }
        proof {
            assert(candles@.take(candles@.len() as int) =~= candles@);
        }
    }

    /// The last regime reported for a pair.
    pub fn get_regime(&self, pair: &str) -> (r: Option<MarketRegime>)
    {
        self.router.get_regime(pair)
    }

    /// The strategy currently engaged for a pair.
    pub fn get_active_strategy(&self, pair: &str) -> (r: Option<ActiveStrategy>)
    {
        self.router.get_active_strategy(pair)
    }

    /// Whether the detector for a pair has warmed up.
    pub fn is_ready(&self, pair: &str) -> (r: bool)
        ensures
            r == (match crate::strategy::router::spec_find_asset(self.router.assets@, pair@) {
                Some(i) => self.router.assets@[i].1.regime_detector.spec_is_ready(),
                None => false,
            }),
    {
        self.router.is_ready(pair)
    }

    /// Status of every configured pair.
    pub fn status_summary(&self) -> (r: Vec<(String, PairStatus)>)
        ensures
            r@.len() == self.config.pairs@.len(),
    {
        let mut out: Vec<(String, PairStatus)> = Vec::new();
        let mut i: usize = 0;
        while i < self.config.pairs.len()
            invariant
                i <= self.config.pairs@.len(),
                out@.len() == i,
            decreases self.config.pairs@.len() - i,
        {
            let pair = &self.config.pairs[i];
            let changes = match self.router.regime_changes(pair.as_str()) {
                Some(c) => c,
                None => 0,
            };
            let status = PairStatus {
                ready: self.router.is_ready(pair.as_str()),
                regime: self.router.get_regime(pair.as_str()),
                strategy: self.router.get_active_strategy(pair.as_str()),
                regime_changes: changes,
            };
            out.push((pair.clone(), status));
            i = i + 1;
        }
        out
    }
}

/// A linear scan that stops at `i` witnesses the find result.
proof fn lemma_find_time_hit(times: Seq<(String, i64)>, sym: Seq<char>, i: int)
    requires
        0 <= i < times.len(),
        times[i].0@ == sym,
        forall|k: int| 0 <= k < i ==> (#[trigger] times[k]).0@ != sym,
    ensures
        spec_find_time(times, sym) == Some(i),
    decreases i,
{
    if i == 0 {
    } else {
        lemma_find_time_hit(times.skip(1), sym, i - 1);
        assert(times.skip(1)[i - 1] == times[i]);
        assert forall|k: int| 0 <= k < i - 1 implies (#[trigger] times.skip(1)[k]).0@ != sym by {
            assert(times.skip(1)[k] == times[k + 1]);
        }
        assert(times[0].0@ != sym);
    }
}

/// A full scan with no match witnesses a `None` find result.
proof fn lemma_find_time_miss(times: Seq<(String, i64)>, sym: Seq<char>)
    requires
        forall|k: int| 0 <= k < times.len() ==> (#[trigger] times[k]).0@ != sym,
    ensures
        spec_find_time(times, sym) is None,
    decreases times.len(),
{
    if times.len() == 0 {
    } else {
        assert forall|k: int|
            0 <= k < times.skip(1).len() implies (#[trigger] times.skip(1)[k]).0@ != sym by {
            assert(times.skip(1)[k] == times[k + 1]);
        }
        lemma_find_time_miss(times.skip(1), sym);
    }
}

/// Entries before the found index do not carry the symbol.
proof fn lemma_find_time_prefix(times: Seq<(String, i64)>, sym: Seq<char>, i: int)
    requires
        spec_find_time(times, sym) == Some(i),
        i < times.len(),
    ensures
        forall|k: int| 0 <= k < i ==> (#[trigger] times[k]).0@ != sym,
    decreases times.len(),
{
    if times.len() == 0 {
    } else if times[0].0@ == sym {
    } else {
        assert(spec_find_time(times.skip(1), sym) == Some(i - 1));
        lemma_find_time_prefix(times.skip(1), sym, i - 1);
        assert forall|k: int| 0 <= k < i implies (#[trigger] times[k]).0@ != sym by {
            if k > 0 {
                assert(times.skip(1)[k - 1] == times[k]);
            }
        }
    }
}

/// No entry carries the symbol when the find result is `None`.
proof fn lemma_find_time_none_all(times: Seq<(String, i64)>, sym: Seq<char>)
    requires
        spec_find_time(times, sym) is None,
    ensures
        forall|k: int| 0 <= k < times.len() ==> (#[trigger] times[k]).0@ != sym,
    decreases times.len(),
{
    if times.len() == 0 {
    } else {
        assert(spec_find_time(times.skip(1), sym) is None);
        lemma_find_time_none_all(times.skip(1), sym);
        assert forall|k: int| 0 <= k < times.len() implies (#[trigger] times[k]).0@ != sym by {
            if k > 0 {
                assert(times.skip(1)[k - 1] == times[k]);
            }
        }
    }
}

/// A linear scan that stops at `i` witnesses the builder find result.
proof fn lemma_find_builder_hit(builders: Seq<(String, CandleBuilder)>, sym: Seq<char>, i: int)
    requires
        0 <= i < builders.len(),
        builders[i].0@ == sym,
        forall|k: int| 0 <= k < i ==> (#[trigger] builders[k]).0@ != sym,
    ensures
        spec_find_builder(builders, sym) == Some(i),
    decreases i,
{
    if i == 0 {
    } else {
        lemma_find_builder_hit(builders.skip(1), sym, i - 1);
        assert(builders.skip(1)[i - 1] == builders[i]);
        assert forall|k: int| 0 <= k < i - 1 implies (#[trigger] builders.skip(1)[k]).0@
            != sym by {
            assert(builders.skip(1)[k] == builders[k + 1]);
        }
        assert(builders[0].0@ != sym);
    }
}

/// A full scan with no match witnesses a `None` builder find result.
proof fn lemma_find_builder_miss(builders: Seq<(String, CandleBuilder)>, sym: Seq<char>)
    requires
        forall|k: int| 0 <= k < builders.len() ==> (#[trigger] builders[k]).0@ != sym,
    ensures
        spec_find_builder(builders, sym) is None,
    decreases builders.len(),
{
    if builders.len() == 0 {
    } else {
        assert forall|k: int|
            0 <= k < builders.skip(1).len() implies (#[trigger] builders.skip(1)[k]).0@ != sym by {
            assert(builders.skip(1)[k] == builders[k + 1]);
        }
        lemma_find_builder_miss(builders.skip(1), sym);
    }
}

/// Remove the slash separators from a pair name.
pub open spec fn spec_strip_slash(s: Seq<char>) -> Seq<char>
    decreases s.len(),
{
    if s.len() == 0 {
        Seq::<char>::empty()
    } else if s[0] == '/' {
        spec_strip_slash(s.skip(1))
    } else {
        seq![s[0]] + spec_strip_slash(s.skip(1))
    }
}

/// Rewrite every occurrence of `BTC` as `XBT`, left to right.
pub open spec fn spec_btc_to_xbt(s: Seq<char>) -> Seq<char>
    decreases s.len(),
{
    if s.len() >= 3 && s[0] == 'B' && s[1] == 'T' && s[2] == 'C' {
        seq!['X', 'B', 'T'] + spec_btc_to_xbt(s.skip(3))
    } else if s.len() == 0 {
        Seq::<char>::empty()
    } else {
        seq![s[0]] + spec_btc_to_xbt(s.skip(1))
    }
}

/// Convert a pair name to the exchange's convention: drop the separator and
/// write Bitcoin as `XBT`.
pub fn convert_pair_format(pair: &str) -> (r: String)
    ensures
        r@ == spec_btc_to_xbt(spec_strip_slash(pair@)),
{
    let len = pair.unicode_len();
    let mut stripped = String::new();
    proof {
        assert(pair@.skip(0) =~= pair@);
        assert(stripped@ + spec_strip_slash(pair@) =~= spec_strip_slash(pair@));
    }
    let mut i: usize = 0;
    while i < len
        invariant
            i <= len == pair@.len(),
            stripped@ + spec_strip_slash(pair@.skip(i as int)) == spec_strip_slash(pair@),
        decreases len - i,
    {
        let c = pair.get_char(i);
        proof {
            assert(pair@.skip(i as int)[0] == pair@[i as int]);
            assert(pair@.skip(i as int).skip(1) =~= pair@.skip(i as int + 1));
        }
        if c == '/' {
            proof {
                assert(stripped@ + spec_strip_slash(pair@.skip(i as int + 1)) =~= spec_strip_slash(
                    pair@,
                ));
            }
        } else {
            let piece = pair.substring_char(i, i + 1);
            proof {
                assert(piece@ =~= seq![pair@[i as int]]);
            }
            stripped.append(piece);
            proof {
                assert(stripped@ + spec_strip_slash(pair@.skip(i as int + 1)) =~= spec_strip_slash(
                    pair@,
                ));
            }
        }
        i = i + 1;
    }
    proof {
        assert(pair@.skip(len as int) =~= Seq::<char>::empty());
        assert(stripped@ =~= spec_strip_slash(pair@));
    }
    let slen = stripped.as_str().unicode_len();
    let mut out = String::new();
    proof {
        assert(stripped@.skip(0) =~= stripped@);
        assert(out@ + spec_btc_to_xbt(stripped@) =~= spec_btc_to_xbt(stripped@));
    }
    let mut j: usize = 0;
    while j < slen
        invariant
            j <= slen == stripped@.len(),
            out@ + spec_btc_to_xbt(stripped@.skip(j as int)) == spec_btc_to_xbt(stripped@),
        decreases slen - j,
    {
        let is_btc = if slen - j >= 3 {
            let c0 = stripped.as_str().get_char(j);
            let c1 = stripped.as_str().get_char(j + 1);
            let c2 = stripped.as_str().get_char(j + 2);
            c0 == 'B' && c1 == 'T' && c2 == 'C'
        } else {
            false
        };
        proof {
            assert(stripped@.skip(j as int)[0] == stripped@[j as int]);
            if j + 1 < slen {
                assert(stripped@.skip(j as int)[1] == stripped@[j as int + 1]);
            }
            if j + 2 < slen {
                assert(stripped@.skip(j as int)[2] == stripped@[j as int + 2]);
            }
            assert(stripped@.skip(j as int).skip(1) =~= stripped@.skip(j as int + 1));
        }
        if is_btc {
            out.append("XBT");
            proof {
                reveal_strlit("XBT");
                assert(stripped@.skip(j as int).skip(3) =~= stripped@.skip(j as int + 3));
                assert(out@ + spec_btc_to_xbt(stripped@.skip(j as int + 3)) =~= spec_btc_to_xbt(
                    stripped@,
                ));
            }
            j = j + 3;
        } else {
            let piece = stripped.as_str().substring_char(j, j + 1);
            proof {
                assert(piece@ =~= seq![stripped@[j as int]]);
            }
            out.append(piece);
            proof {
                assert(out@ + spec_btc_to_xbt(stripped@.skip(j as int + 1)) =~= spec_btc_to_xbt(
                    stripped@,
                ));
            }
            j = j + 1;
        }
    }
    proof {
        assert(stripped@.skip(slen as int) =~= Seq::<char>::empty());
        assert(out@ =~= spec_btc_to_xbt(stripped@));
    }
    out
}

} // verus!
