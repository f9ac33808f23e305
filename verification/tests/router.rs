//! Strategy router: registration, updates and regime-based selection.

use kraken_regime::regime::types::{MarketRegime, RegimeConfidence, TrendDirection};
use kraken_regime::strategy::router::{ActiveStrategy, StrategyRouter};

fn scaled(x: f64) -> u64 {
    (x * 10_000.0).round() as u64
}

#[test]
fn test_router_registration() {
    let mut router = StrategyRouter::default_config();

    router.register_asset("BTC/USD");
    router.register_asset("ETH/USD");
    router.register_asset("SOL/USD");

    assert_eq!(router.assets().len(), 3);
}

#[test]
fn test_router_update() {
    let mut router = StrategyRouter::default_config();

    for i in 0..250u64 {
        let price = scaled(50_000.0 + (i as f64 * 10.0));
        let high = price + scaled(50.0);
        let low = price - scaled(50.0);

        let result = router.update("BTC/USD", high, low, price);

        if router.is_ready("BTC/USD") && result.is_some() {
            let signal = result.unwrap();
            println!(
                "Bar {}: Regime={:?}, Strategy={:?}, Signal={:?}",
                i, signal.regime, signal.source_strategy, signal.signal
            );
        }
    }

    assert!(router.is_ready("BTC/USD"));
}

#[test]
fn test_regime_based_strategy_selection() {
    let trending = RegimeConfidence::new(MarketRegime::Trending(TrendDirection::Bullish), 800_000);
    let (strategy, _) = StrategyRouter::select_strategy(&trending, 500_000, 500_000);
    assert_eq!(strategy, ActiveStrategy::TrendFollowing);

    let ranging = RegimeConfidence::new(MarketRegime::MeanReverting, 800_000);
    let (strategy, _) = StrategyRouter::select_strategy(&ranging, 500_000, 500_000);
    assert_eq!(strategy, ActiveStrategy::MeanReversion);

    let uncertain = RegimeConfidence::new(MarketRegime::Trending(TrendDirection::Bullish), 300_000);
    let (strategy, _) = StrategyRouter::select_strategy(&uncertain, 500_000, 500_000);
    assert_eq!(strategy, ActiveStrategy::NoTrade);
}

#[test]
fn volatile_regime_trades_at_reduced_size() {
    let volatile = RegimeConfidence::new(MarketRegime::Volatile, 800_000);
    let (strategy, factor) = StrategyRouter::select_strategy(&volatile, 500_000, 500_000);
    assert_eq!(strategy, ActiveStrategy::MeanReversion);
    assert_eq!(factor, 500_000);
}

#[test]
fn registering_twice_keeps_one_entry() {
    let mut router = StrategyRouter::default_config();
    router.register_asset("BTC/USD");
    router.register_asset("BTC/USD");
    assert_eq!(router.assets().len(), 1);
}

#[test]
fn no_trade_signal_is_hold_with_no_levels() {
    let mut router = StrategyRouter::default_config();
    // The very first bar cannot be confident: the selection must be
    // no-trade, the signal a hold without protective levels.
    let signal = router.update("ETH/USD", scaled(101.0), scaled(99.0), scaled(100.0)).unwrap();
    assert_eq!(signal.source_strategy, ActiveStrategy::NoTrade);
    assert!(matches!(signal.signal, kraken_regime::strategy::mean_reversion::Signal::Hold));
    assert!(signal.stop_loss.is_none());
    assert!(signal.take_profit.is_none());
    assert_eq!(signal.position_size_factor, 0);
}

#[test]
fn invalid_configuration_is_rejected_at_construction() {
    let mut config = kraken_regime::strategy::router::StrategyRouterConfig::default();
    config.regime_config.adx_period = 0;
    let result = StrategyRouter::try_new(config);
    assert_eq!(
        result.err(),
        Some(kraken_regime::regime::types::ConfigError::InvalidConfig)
    );

    let good = kraken_regime::strategy::router::StrategyRouterConfig::default();
    assert!(StrategyRouter::try_new(good).is_ok());
}
