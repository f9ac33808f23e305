//! Exchange integration core: candle aggregation, the timestamp replay
//! guard, and the trade-action envelope around routed signals.

pub mod kraken;

pub use kraken::KrakenRegimeTrader;
pub use kraken::KrakenIntegrationConfig;
pub use kraken::Candle;
pub use kraken::TradeAction;
pub use kraken::TradeType;
pub use kraken::PairStatus;
pub use kraken::CandleBuilder;
pub use kraken::convert_pair_format;
