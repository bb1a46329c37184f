//! A backtesting and live-trading toolkit for high-frequency trading strategies: market depth
//! reconstruction from L2/L3 feeds, event scheduling, order latency and queue position models,
//! and connector configuration.
use vstd::prelude::*;

pub mod backtest;
pub mod connector;
pub mod depth;
pub mod live;
pub mod types;

verus! {
}
