//! End-to-end scenarios across the whole pipeline.

use kraken_regime::regime::detector::RegimeDetector;
use kraken_regime::regime::ensemble::EnsembleRegimeDetector;
use kraken_regime::regime::hmm::{HMMConfig, HMMRegimeDetector};
use kraken_regime::regime::types::{MarketRegime, RecommendedStrategy, RegimeConfidence, TrendDirection};
use kraken_regime::strategy::router::ActiveStrategy;

fn scaled(x: f64) -> u64 {
    (x * 10_000.0).round() as u64
}

#[test]
fn steady_uptrend_reads_trending_bullish() {
    let mut ensemble = EnsembleRegimeDetector::default_config();
    let mut close = 100.0;
    let mut last = MarketRegime::Uncertain;
    for _ in 0..200 {
        close *= 1.005;
        let high = close * 1.002;
        let low = close * 0.998;
        let r = ensemble.update(scaled(high), scaled(low), scaled(close));
        last = r.regime;
    }
    assert!(matches!(last, MarketRegime::Trending(_)));
    assert!(ensemble.agreement_rate() > 300_000);
}

#[test]
fn sine_wave_range_does_not_read_trending() {
    let mut detector = RegimeDetector::default_config();
    let mut last = MarketRegime::Uncertain;
    for i in 0..300 {
        let close = 100.0 + (0.5 * i as f64).sin() * 2.0;
        let high = close * 1.002;
        let low = close * 0.998;
        let r = detector.update(scaled(high), scaled(low), scaled(close));
        if detector.is_ready() {
            last = r.regime;
        }
    }
    assert!(!matches!(last, MarketRegime::Trending(_)));
}

#[test]
fn three_percent_swings_read_volatile() {
    let mut hmm = HMMRegimeDetector::new(
        HMMConfig { min_observations: 20, n_states: 3, ..Default::default() },
    );
    let mut close = 100.0;
    for i in 0..50 {
        close *= if i % 2 == 0 { 1.03 } else { 0.97 };
        hmm.update(scaled(close));
    }
    assert_eq!(hmm.get_regime_confidence().regime, MarketRegime::Volatile);
}

#[test]
fn recommended_strategy_ignores_trend_direction() {
    let bull = RecommendedStrategy::from(&MarketRegime::Trending(TrendDirection::Bullish));
    let bear = RecommendedStrategy::from(&MarketRegime::Trending(TrendDirection::Bearish));
    assert_eq!(bull, bear);
    assert_eq!(bull, RecommendedStrategy::TrendFollowing);
    assert_eq!(
        RecommendedStrategy::from(&MarketRegime::Volatile),
        RecommendedStrategy::ReducedExposure
    );
    assert_eq!(
        RecommendedStrategy::from(&MarketRegime::Uncertain),
        RecommendedStrategy::StayCash
    );
}

#[test]
fn ensemble_uncertain_before_either_member_is_ready() {
    let mut ensemble = EnsembleRegimeDetector::default_config();
    let r = ensemble.update(scaled(100.2), scaled(99.8), scaled(100.0));
    assert!(!ensemble.is_ready());
    assert_eq!(r.regime, MarketRegime::Uncertain);
    assert_eq!(r.confidence, 0);
}

#[test]
fn confidence_is_actionable_from_sixty_percent() {
    let strong = RegimeConfidence::new(MarketRegime::Volatile, 600_000);
    assert!(strong.is_actionable());
    let weak = RegimeConfidence::new(MarketRegime::Volatile, 599_999);
    assert!(!weak.is_actionable());
}

#[test]
fn regime_and_strategy_labels_read_as_expected() {
    assert_eq!(
        MarketRegime::Trending(TrendDirection::Bullish).label(),
        "Trending (Bullish)".to_string()
    );
    assert_eq!(MarketRegime::MeanReverting.label(), "Mean-Reverting".to_string());
    assert_eq!(MarketRegime::Volatile.label(), "Volatile/Choppy".to_string());
    assert_eq!(ActiveStrategy::NoTrade.label(), "No Trade".to_string());
}
