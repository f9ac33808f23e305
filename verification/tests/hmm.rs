//! HMM detector: warmup, detection and the exact distribution invariants.

use kraken_regime::fixed::{PROB_SCALE, VAR_FLOOR};
use kraken_regime::regime::hmm::{HMMConfig, HMMRegimeDetector};
use kraken_regime::regime::types::MarketRegime;

fn scaled(x: f64) -> u64 {
    (x * 10_000.0).round() as u64
}

#[test]
fn test_hmm_initialization() {
    let hmm = HMMRegimeDetector::default_config();
    assert_eq!(hmm.config.n_states, 3);
    assert!(!hmm.is_ready());
}

#[test]
fn test_hmm_warmup() {
    let mut hmm = HMMRegimeDetector::new(HMMConfig { min_observations: 10, ..Default::default() });

    let prices = [100.0, 101.0, 102.0, 101.5, 103.0, 104.0, 103.5, 105.0, 106.0, 107.0, 108.0];
    for price in prices {
        hmm.update(scaled(price));
    }

    assert!(hmm.is_ready());
}

#[test]
fn test_bull_market_detection() {
    let mut hmm = HMMRegimeDetector::new(
        HMMConfig { min_observations: 20, n_states: 2, ..Default::default() },
    );

    let mut price = 100.0;
    for _ in 0..50 {
        price *= 1.002;
        hmm.update(scaled(price));
    }

    let regime = hmm.get_regime_confidence();
    println!("Bull market regime: {:?}", regime);
}

#[test]
fn test_volatile_market_detection() {
    let mut hmm = HMMRegimeDetector::new(
        HMMConfig { min_observations: 20, n_states: 3, ..Default::default() },
    );

    let mut price = 100.0;
    for i in 0..50 {
        let change = if i % 2 == 0 { 1.03 } else { 0.97 };
        price *= change;
        hmm.update(scaled(price));
    }

    let regime = hmm.get_regime_confidence();
    println!("Volatile market regime: {:?}", regime);
}

#[test]
fn test_state_probabilities_sum_to_one() {
    let mut hmm = HMMRegimeDetector::default_config();

    let mut price = 100.0;
    for _ in 0..150 {
        price *= 1.001;
        hmm.update(scaled(price));
    }

    let probs = hmm.state_probabilities();
    let sum: u64 = probs.iter().sum();
    assert_eq!(sum, PROB_SCALE, "Probabilities should sum to 1");
}

#[test]
fn filtered_distribution_sums_exactly_after_every_step() {
    let mut hmm = HMMRegimeDetector::new(HMMConfig { min_observations: 5, ..Default::default() });
    let closes = [
        100.0, 100.5, 99.8, 101.2, 100.9, 103.0, 97.0, 104.1, 104.2, 104.0, 110.0, 108.0, 107.5,
        111.0, 111.1,
    ];
    for (i, c) in closes.iter().enumerate() {
        hmm.update(scaled(*c));
        if i >= 1 {
            let sum: u64 = hmm.state_probabilities().iter().sum();
            assert_eq!(sum, PROB_SCALE);
        }
    }
}

#[test]
fn variances_stay_at_or_above_floor() {
    let mut hmm = HMMRegimeDetector::new(HMMConfig { min_observations: 5, ..Default::default() });
    let mut price = 100.0;
    for i in 0..200 {
        price *= if i % 7 == 0 { 0.999 } else { 1.0005 };
        hmm.update(scaled(price));
        for (_, variance) in hmm.state_parameters() {
            assert!(variance >= VAR_FLOOR);
        }
    }
}

#[test]
fn transition_rows_sum_exactly_after_every_step() {
    let mut hmm = HMMRegimeDetector::new(HMMConfig { min_observations: 5, ..Default::default() });
    let mut price = 100.0;
    for i in 0..120 {
        price *= if i % 3 == 0 { 1.004 } else { 0.999 };
        hmm.update(scaled(price));
        for row in hmm.transition_matrix() {
            let sum: u64 = row.iter().sum();
            assert_eq!(sum, PROB_SCALE);
        }
    }
}

#[test]
fn underflow_resets_filter_to_uniform_and_continues() {
    let mut hmm = HMMRegimeDetector::new(HMMConfig { min_observations: 5, ..Default::default() });
    for _ in 0..30 {
        hmm.update(scaled(100.0));
    }
    // A four-orders-of-magnitude jump puts the return far outside every
    // state's reach: all forward weights underflow to zero and the filter
    // must reset to the uniform distribution.
    hmm.update(scaled(1_000_000.0));
    let probs = hmm.state_probabilities().clone();
    assert_eq!(probs.len(), 3);
    assert_eq!(probs[1], PROB_SCALE / 3);
    assert_eq!(probs[2], PROB_SCALE / 3);
    assert_eq!(probs[0], PROB_SCALE - 2 * (PROB_SCALE / 3));
    // Filtering continues without incident.
    let after = hmm.update(scaled(1_000_100.0));
    assert!(after.confidence <= 1_000_000);
    let sum: u64 = hmm.state_probabilities().iter().sum();
    assert_eq!(sum, PROB_SCALE);
}

#[test]
fn alternating_three_percent_swings_read_volatile() {
    let mut hmm = HMMRegimeDetector::new(
        HMMConfig { min_observations: 20, n_states: 3, ..Default::default() },
    );
    let mut price = 100.0;
    for i in 0..50 {
        price *= if i % 2 == 0 { 1.03 } else { 0.97 };
        hmm.update(scaled(price));
    }
    let regime = hmm.get_regime_confidence();
    assert_eq!(regime.regime, MarketRegime::Volatile);
}

#[test]
fn hmm_uncertain_with_zero_confidence_before_ready() {
    let mut hmm = HMMRegimeDetector::default_config();
    for i in 0..20u64 {
        let rc = hmm.update(scaled(100.0 + i as f64));
        assert_eq!(rc.regime, MarketRegime::Uncertain);
        assert_eq!(rc.confidence, 0);
    }
}

#[test]
fn hmm_rejects_invalid_configuration() {
    let bad = HMMConfig { n_states: 1, ..Default::default() };
    let result = HMMRegimeDetector::try_new(bad);
    assert_eq!(
        result.err(),
        Some(kraken_regime::regime::types::ConfigError::InvalidConfig)
    );
    assert!(HMMRegimeDetector::try_new(HMMConfig::default()).is_ok());
}

#[test]
fn expected_duration_reflects_state_persistence() {
    let hmm = HMMRegimeDetector::default_config();
    // Fresh diagonal mass is 0.9, so the expected stay is ten bars.
    assert_eq!(hmm.expected_regime_duration(0), 10_000_000);
    // An out-of-range state reads as zero.
    assert_eq!(hmm.expected_regime_duration(99), 0);
}

#[test]
fn predicted_next_state_has_a_valid_index() {
    let mut hmm = HMMRegimeDetector::new(HMMConfig { min_observations: 5, ..Default::default() });
    let mut price = 100.0;
    for _ in 0..30 {
        price *= 1.003;
        hmm.update(scaled(price));
    }
    let (state, prob) = hmm.predict_next_state();
    assert!(state < 3);
    assert!(prob <= 1_000_000_000);
}

#[test]
fn batch_reestimation_moves_the_means_without_online_learning() {
    // With online learning disabled the emission parameters can move only
    // through the periodic batch re-estimation.
    let mut hmm = HMMRegimeDetector::new(HMMConfig {
        min_observations: 10,
        learning_rate: 0,
        lookback_window: 20,
        ..Default::default()
    });
    let mut price = 100.0;
    for _ in 0..40 {
        price *= 1.002;
        hmm.update(scaled(price));
    }
    let params = hmm.state_parameters();
    // The bull state's prior mean of 0.001 is blended toward the observed
    // steady positive returns.
    assert_ne!(params[0].0, 1_000_000);
    assert!(params[0].0 > 1_000_000);
    assert!(params[0].1 >= VAR_FLOOR);
}
