//! Integration core: candle aggregation, the replay guard and the
//! trade-action envelope.

use kraken_regime::integration::kraken::{
    convert_pair_format,
    Candle,
    CandleBuilder,
    KrakenIntegrationConfig,
    KrakenRegimeTrader,
    TradeType,
};
use kraken_regime::strategy::mean_reversion::Signal;

fn scaled(x: f64) -> u64 {
    (x * 10_000.0).round() as u64
}

fn candle(timestamp: i64, close: f64) -> Candle {
    Candle {
        timestamp,
        open: scaled(close),
        high: scaled(close * 1.002),
        low: scaled(close * 0.998),
        close: scaled(close),
        volume: 10,
    }
}

#[test]
fn test_candle_builder() {
    let mut builder = CandleBuilder::new(60);

    assert!(builder.add_tick(scaled(100.0), 0).is_none());

    assert!(builder.add_tick(scaled(101.0), 30).is_none());
    assert!(builder.add_tick(scaled(99.0), 45).is_none());

    let candle = builder.add_tick(scaled(102.0), 60);
    assert!(candle.is_some());

    let c = candle.unwrap();
    assert_eq!(c.open, scaled(100.0));
    assert_eq!(c.high, scaled(101.0));
    assert_eq!(c.low, scaled(99.0));
    assert_eq!(c.close, scaled(99.0));
}

#[test]
fn test_trader_initialization() {
    let config = KrakenIntegrationConfig::default_config();
    let trader = KrakenRegimeTrader::new(config);

    assert!(!trader.is_ready("BTC/USD"));
}

#[test]
fn replayed_candle_timestamp_is_dropped() {
    let config = KrakenIntegrationConfig::default_config();
    let mut trader = KrakenRegimeTrader::new(config);

    let first = trader.process_candle("BTC/USD", &candle(900, 100.0));
    assert!(first.is_some());

    // The same timestamp again: the guard must drop it without any state
    // change.
    let replay = trader.process_candle("BTC/USD", &candle(900, 250.0));
    assert!(replay.is_none());

    // An older timestamp is dropped too.
    let stale = trader.process_candle("BTC/USD", &candle(300, 250.0));
    assert!(stale.is_none());

    // A strictly newer timestamp goes through.
    let next = trader.process_candle("BTC/USD", &candle(960, 100.3));
    assert!(next.is_some());
}

#[test]
fn trade_action_mirrors_the_routed_signal() {
    let config = KrakenIntegrationConfig::default_config();
    let mut trader = KrakenRegimeTrader::new(config);

    let action = trader.process_candle("ETH/USD", &candle(60, 100.0)).unwrap();
    assert_eq!(action.symbol, "ETH/USD".to_string());
    assert_eq!(action.price, scaled(100.0));
    // The first bar cannot be confident: the action must be a hold.
    assert_eq!(action.action, TradeType::Hold);
    assert_eq!(action.size_factor, 0);
}

#[test]
fn signal_maps_one_to_one_onto_trade_type() {
    assert_eq!(TradeType::from(Signal::Buy), TradeType::Buy);
    assert_eq!(TradeType::from(Signal::Sell), TradeType::Sell);
    assert_eq!(TradeType::from(Signal::Hold), TradeType::Hold);
}

#[test]
fn ticks_aggregate_through_the_trader() {
    let config = KrakenIntegrationConfig::default_config();
    let mut trader = KrakenRegimeTrader::new(config);

    // Ticks inside the first 15-minute period produce nothing.
    assert!(trader.process_tick("BTC/USD", scaled(100.0), 0).is_none());
    assert!(trader.process_tick("BTC/USD", scaled(101.0), 300).is_none());
    // The first tick of the next period completes a candle and routes it.
    let action = trader.process_tick("BTC/USD", scaled(100.5), 900);
    assert!(action.is_some());
}

#[test]
fn warmup_processes_history_without_signalling() {
    let config = KrakenIntegrationConfig::default_config();
    let mut trader = KrakenRegimeTrader::new(config);
    let mut history = Vec::new();
    let mut price = 100.0;
    for i in 0..120i64 {
        price *= 1.002;
        history.push(candle(i * 60, price));
    }
    trader.warmup_with_history("BTC/USD", &history);
    assert!(trader.is_ready("BTC/USD"));
}

#[test]
fn status_summary_covers_every_pair() {
    let config = KrakenIntegrationConfig::default_config();
    let trader = KrakenRegimeTrader::new(config);
    let summary = trader.status_summary();
    assert_eq!(summary.len(), 3);
    for (_, status) in summary {
        assert!(!status.ready);
        assert_eq!(status.regime_changes, 0);
    }
}

#[test]
fn pair_format_follows_the_exchange_convention() {
    assert_eq!(convert_pair_format("BTC/USD"), "XBTUSD".to_string());
    assert_eq!(convert_pair_format("ETH/USD"), "ETHUSD".to_string());
    assert_eq!(convert_pair_format("B/TC/USD"), "XBTUSD".to_string());
    assert_eq!(convert_pair_format(""), "".to_string());
}

#[test]
fn trader_rejects_invalid_configuration() {
    let mut config = KrakenIntegrationConfig::default_config();
    config.timeframe_minutes = 0;
    let result = KrakenRegimeTrader::try_new(config);
    assert!(result.is_err());
    assert!(KrakenRegimeTrader::try_new(KrakenIntegrationConfig::default_config()).is_ok());
}
