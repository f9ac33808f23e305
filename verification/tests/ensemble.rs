//! Ensemble detector: agreement bookkeeping and confidence fusion.

use kraken_regime::regime::ensemble::EnsembleRegimeDetector;
use kraken_regime::regime::types::{MarketRegime, TrendDirection};

fn scaled(x: f64) -> u64 {
    (x * 10_000.0).round() as u64
}

#[test]
fn test_ensemble_creation() {
    let ensemble = EnsembleRegimeDetector::default_config();
    assert!(!ensemble.is_ready());
}

#[test]
fn test_regimes_agree() {
    let ensemble = EnsembleRegimeDetector::default_config();

    assert!(ensemble.regimes_agree(
        MarketRegime::Trending(TrendDirection::Bullish),
        MarketRegime::Trending(TrendDirection::Bearish)
    ));

    assert!(!ensemble.regimes_agree(
        MarketRegime::Trending(TrendDirection::Bullish),
        MarketRegime::MeanReverting
    ));
}

#[test]
fn test_agreement_rate() {
    let mut ensemble = EnsembleRegimeDetector::default_config();

    let mut price = 100.0;
    for i in 0..50 {
        price *= if i % 2 == 0 { 1.01 } else { 0.99 };
        ensemble.update(scaled(price * 1.01), scaled(price * 0.99), scaled(price));
    }

    let rate = ensemble.agreement_rate();
    assert!(rate <= 1_000_000);
}

#[test]
fn test_bull_market_agreement() {
    let mut ensemble = EnsembleRegimeDetector::default_config();

    let mut price = 100.0;
    for _ in 0..200 {
        price *= 1.005;
        let high = price * 1.002;
        let low = price * 0.998;
        ensemble.update(scaled(high), scaled(low), scaled(price));
    }

    let result = ensemble.update(scaled(price * 1.002), scaled(price * 0.998), scaled(price));
    println!("Bull market result: {:?}", result);

    assert!(ensemble.agreement_rate() > 300_000);
}

#[test]
fn disagreement_at_even_confidence_reads_uncertain() {
    let ensemble = EnsembleRegimeDetector::default_config();
    // Indicator reads a bull trend at 0.6, the HMM a range at 0.6; with the
    // default 0.6 / 0.4 weights and the 0.2 disagreement penalty the
    // combined confidence is exactly 0.4, under the 0.5 threshold.
    let (regime, confidence) = ensemble.combine_results(
        MarketRegime::Trending(TrendDirection::Bullish),
        600_000,
        MarketRegime::MeanReverting,
        600_000,
        false,
    );
    assert_eq!(confidence, 400_000);
    assert_eq!(regime, MarketRegime::Uncertain);
}

#[test]
fn agreement_boosts_confidence_and_keeps_direction() {
    let ensemble = EnsembleRegimeDetector::default_config();
    let (regime, confidence) = ensemble.combine_results(
        MarketRegime::Trending(TrendDirection::Bullish),
        600_000,
        MarketRegime::Trending(TrendDirection::Bullish),
        600_000,
        true,
    );
    // 0.6 weighted plus the 0.15 agreement boost plus the 0.05 direction
    // bonus.
    assert_eq!(confidence, 800_000);
    assert_eq!(regime, MarketRegime::Trending(TrendDirection::Bullish));
}

#[test]
fn steady_uptrend_reads_trending_in_the_ensemble() {
    let mut ensemble = EnsembleRegimeDetector::default_config();
    let mut price = 100.0;
    let mut last = MarketRegime::Uncertain;
    for _ in 0..200 {
        price *= 1.005;
        let r = ensemble.update(scaled(price * 1.002), scaled(price * 0.998), scaled(price));
        last = r.regime;
    }
    assert!(matches!(last, MarketRegime::Trending(_)));
    assert!(ensemble.agreement_rate() > 300_000);
}
