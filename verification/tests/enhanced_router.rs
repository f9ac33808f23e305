//! Enhanced router: detection-method plumbing and asset registration.

use kraken_regime::strategy::enhanced_router::{DetectionMethod, EnhancedRouter};

#[test]
fn test_enhanced_router_creation() {
    let router = EnhancedRouter::with_ensemble();
    assert_eq!(router.detection_method(), DetectionMethod::Ensemble);
}

#[test]
fn test_method_switching() {
    let indicator_router = EnhancedRouter::with_indicators();
    let hmm_router = EnhancedRouter::with_hmm();
    let ensemble_router = EnhancedRouter::with_ensemble();

    assert_eq!(indicator_router.detection_method(), DetectionMethod::Indicators);
    assert_eq!(hmm_router.detection_method(), DetectionMethod::HMM);
    assert_eq!(ensemble_router.detection_method(), DetectionMethod::Ensemble);
}

#[test]
fn test_asset_registration() {
    let mut router = EnhancedRouter::with_ensemble();
    router.register_asset("BTC/USD");
    router.register_asset("ETH/USD");

    assert!(router.get_regime("BTC/USD").is_some());
    assert!(router.get_regime("ETH/USD").is_some());
    assert!(router.get_regime("SOL/USD").is_none());
}

#[test]
fn hmm_routed_update_reports_state_probabilities() {
    let mut router = EnhancedRouter::with_hmm();
    let mut price: u64 = 1_000_000;
    let mut signal = None;
    for i in 0..60u64 {
        price = price + 5_000 + (i % 3) * 100;
        signal = router.update("BTC/USD", price + 2_000, price - 2_000, price);
    }
    let signal = signal.unwrap();
    assert_eq!(signal.detection_method, DetectionMethod::HMM);
    let probs = signal.state_probabilities.unwrap();
    let sum: u64 = probs.iter().sum();
    assert_eq!(sum, 1_000_000_000);
    assert!(signal.expected_duration.is_some());
    assert!(signal.methods_agree.is_none());
}
