//! Indicator primitives: warmup semantics and value ranges.

use kraken_regime::regime::indicators::{BollingerBands, ADX, EMA};

/// One scaled price unit is 1/10_000 of a currency unit.
fn scaled(x: f64) -> u64 {
    (x * 10_000.0).round() as u64
}

#[test]
fn test_ema_calculation() {
    let mut ema = EMA::new(10);

    for i in 1..=10u64 {
        ema.update(scaled(i as f64 * 10.0));
    }

    assert!(ema.is_ready());
    let value = ema.value().unwrap();
    assert!(value > scaled(50.0) && value < scaled(100.0));
}

#[test]
fn test_bollinger_bands() {
    let mut bb = BollingerBands::new(20, 200);

    for i in 1..=25u64 {
        let price = scaled(100.0 + (i % 5) as f64);
        bb.update(price);
    }

    assert!(bb.is_ready());
}

#[test]
fn test_adx_trending_detection() {
    let mut adx = ADX::new(14);

    for i in 1..=50u64 {
        let high = scaled(100.0 + i as f64 * 2.0);
        let low = scaled(100.0 + i as f64 * 2.0 - 1.0);
        let close = scaled(100.0 + i as f64 * 2.0 - 0.5);
        adx.update(high, low, close);
    }

    if let Some(adx_value) = adx.value() {
        println!("ADX value in uptrend: {}", adx_value);
        assert!(adx_value > 2_000, "ADX should indicate trend");
    }
}

#[test]
fn ema_value_absent_before_period_inputs() {
    let mut ema = EMA::new(5);
    for i in 0..4u64 {
        let out = ema.update(scaled(100.0 + i as f64));
        assert!(out.is_none());
        assert!(ema.value().is_none());
    }
    let out = ema.update(scaled(104.0));
    assert!(out.is_some());
    assert!(ema.is_ready());
}

#[test]
fn adx_unavailable_until_dx_window_filled() {
    let mut adx = ADX::new(14);
    for i in 1..=14u64 {
        let base = 100.0 + i as f64;
        let out = adx.update(scaled(base + 0.5), scaled(base - 0.5), scaled(base));
        assert!(out.is_none(), "ADX must stay unavailable during warmup");
    }
    assert!(!adx.is_ready());
}

#[test]
fn bb_width_percentile_defaults_to_fifty() {
    let mut bb = BollingerBands::new(3, 200);
    let mut last = None;
    for i in 0..8u64 {
        last = bb.update(scaled(100.0 + (i % 3) as f64));
    }
    // Eight updates leave at most six widths on record: under ten, the
    // percentile must read 50 percent.
    let values = last.unwrap();
    assert_eq!(values.width_percentile, 5_000);
}

#[test]
fn bb_percent_b_pinned_on_flat_window() {
    let mut bb = BollingerBands::new(5, 200);
    let mut last = None;
    for _ in 0..5 {
        last = bb.update(scaled(100.0));
    }
    let values = last.unwrap();
    assert_eq!(values.percent_b, 500_000);
    assert_eq!(values.std_dev, 0);
    assert_eq!(values.middle, scaled(100.0));
}
