//! Regime detection: shared types, indicator primitives, the rule-based
//! detector, the HMM detector and the ensemble that fuses them.

pub mod detector;
pub mod ensemble;
pub mod hmm;
pub mod indicators;
pub mod types;

pub use types::MarketRegime;
pub use types::TrendDirection;
pub use types::RegimeConfidence;
pub use types::RegimeConfig;
pub use types::RecommendedStrategy;
