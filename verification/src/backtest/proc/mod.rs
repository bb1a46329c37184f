//! The processors of a backtest: the exchange-side order matching and the local side.
pub mod l3nopartialfillexchange;
pub mod local;
pub mod partialfillexchange;

pub use l3nopartialfillexchange::L3NoPartialFillExchange;
pub use local::{Local, Request};
pub use partialfillexchange::PartialFillExchange;
