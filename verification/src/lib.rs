//! Regime-aware trading core.
//!
//! A stateful pipeline that consumes OHLC bars, classifies the prevailing
//! market regime (trending, mean-reverting, volatile or uncertain), selects a
//! strategy appropriate to that regime and emits a routed trade signal with
//! sizing and protective levels.
//!
//! All market quantities are carried as scaled integers (see [`fixed`]), so
//! every state transition of the core is an exact, verified function of its
//! inputs.

pub mod fixed;
pub mod regime;
pub mod strategy;
pub mod integration;
pub mod laws;

pub use regime::MarketRegime;
pub use regime::TrendDirection;
pub use regime::RegimeConfig;
pub use regime::RegimeConfidence;
pub use regime::RecommendedStrategy;
pub use regime::detector::RegimeDetector;
pub use strategy::mean_reversion::MeanReversionStrategy;
pub use strategy::mean_reversion::MeanReversionConfig;
pub use strategy::mean_reversion::Signal;
pub use strategy::router::StrategyRouter;
pub use strategy::router::StrategyRouterConfig;
pub use strategy::router::RoutedSignal;
pub use strategy::router::ActiveStrategy;
pub use integration::KrakenRegimeTrader;
pub use integration::KrakenIntegrationConfig;
pub use integration::Candle;
pub use integration::TradeAction;
pub use integration::TradeType;
