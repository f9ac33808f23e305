//! Rule-based detector: trending and ranging end-to-end behavior.

use kraken_regime::regime::detector::RegimeDetector;
use kraken_regime::regime::types::MarketRegime;

fn scaled(x: f64) -> u64 {
    (x * 10_000.0).round() as u64
}

/// A small deterministic generator standing in for market noise.
struct Lcg(u64);

impl Lcg {
    fn next_unit(&mut self) -> f64 {
        self.0 = self.0.wrapping_mul(6364136223846793005).wrapping_add(1442695040888963407);
        ((self.0 >> 33) as f64) / ((1u64 << 31) as f64)
    }
}

fn generate_trending_data(bars: usize, start_price: f64, trend_strength: f64) -> Vec<(u64, u64, u64)> {
    let mut data = Vec::new();
    let mut price = start_price;
    let mut rng = Lcg(7);

    for _ in 0..bars {
        let change = trend_strength * (1.0 + (rng.next_unit() - 0.5) * 0.2);
        price += change;

        let high = price + price * 0.005;
        let low = price - price * 0.005;
        let close = price;

        data.push((scaled(high), scaled(low), scaled(close)));
    }

    data
}

fn generate_ranging_data(bars: usize, center_price: f64, range_pct: f64) -> Vec<(u64, u64, u64)> {
    let mut data = Vec::new();

    for i in 0..bars {
        let offset = (i as f64 * 0.5).sin() * center_price * range_pct / 100.0;
        let price = center_price + offset;

        let high = price + price * 0.002;
        let low = price - price * 0.002;
        let close = price;

        data.push((scaled(high), scaled(low), scaled(close)));
    }

    data
}

#[test]
fn test_trending_detection() {
    let mut detector = RegimeDetector::default_config();

    let data = generate_trending_data(300, 100.0, 0.5);

    let mut last_regime = MarketRegime::Uncertain;
    for (high, low, close) in data {
        let result = detector.update(high, low, close);
        if detector.is_ready() {
            last_regime = result.regime;
        }
    }

    println!("Final regime: {:?}", last_regime);
    assert!(matches!(last_regime, MarketRegime::Trending(_)));
}

#[test]
fn test_ranging_detection() {
    let mut detector = RegimeDetector::default_config();

    let data = generate_ranging_data(300, 100.0, 2.0);

    let mut last_regime = MarketRegime::Uncertain;
    for (high, low, close) in data {
        let result = detector.update(high, low, close);
        if detector.is_ready() {
            last_regime = result.regime;
        }
    }

    println!("Final regime: {:?}", last_regime);
    // Ranging data should not read as a strong trend.
    assert!(!matches!(last_regime, MarketRegime::Trending(_)));
}

#[test]
fn detector_uncertain_before_ready() {
    let mut detector = RegimeDetector::default_config();
    for i in 0..10u64 {
        let base = 100.0 + i as f64;
        let result = detector.update(scaled(base + 0.5), scaled(base - 0.5), scaled(base));
        assert!(!detector.is_ready());
        assert_eq!(result.regime, MarketRegime::Uncertain);
        assert_eq!(result.confidence, 0);
    }
}

#[test]
fn regime_stabilizes_under_constant_input() {
    let mut detector = RegimeDetector::crypto_optimized();
    // Warm up on a flat, constant-input stream.
    for _ in 0..120 {
        detector.update(scaled(100.2), scaled(99.8), scaled(100.0));
    }
    let settled = detector.current_regime();
    // Under continued constant input the accepted regime must not
    // oscillate.
    for _ in 0..100 {
        detector.update(scaled(100.2), scaled(99.8), scaled(100.0));
        assert_eq!(detector.current_regime(), settled);
    }
}
