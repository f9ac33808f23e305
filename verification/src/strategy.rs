//! Trading strategies and the regime-aware routers that select among them.

pub mod mean_reversion;
pub mod router;
pub mod enhanced_router;

pub use mean_reversion::MeanReversionStrategy;
pub use mean_reversion::MeanReversionConfig;
pub use mean_reversion::Signal;
pub use mean_reversion::StrategyResult;
pub use router::StrategyRouter;
pub use router::StrategyRouterConfig;
pub use router::RoutedSignal;
pub use router::ActiveStrategy;
pub use router::RouterStats;
pub use enhanced_router::EnhancedRouter;
pub use enhanced_router::EnhancedRouterConfig;
pub use enhanced_router::EnhancedSignal;
pub use enhanced_router::DetectionMethod;
