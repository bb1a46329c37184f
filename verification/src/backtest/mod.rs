//! Backtesting: event scheduling, latency and queue models, and the data cache.
pub mod cursor;
pub mod data;
pub mod evs;
pub mod goto;
pub mod models;
pub mod order;
pub mod proc;

pub use evs::{EventIntent, EventIntentKind, EventSet};
pub use goto::{Goto, Step};

use vstd::prelude::*;

verus! {

/// Errors that can occur during backtesting.
#[derive(Debug)]
pub enum BacktestError {
    /// An order with the given order id already exists.
    OrderIdExist,
    /// An order request is in process.
    OrderRequestInProcess,
    /// The order is not found.
    OrderNotFound,
    /// The order request is invalid.
    InvalidOrderRequest,
    /// The order status is invalid to proceed with the request.
    InvalidOrderStatus,
    /// The end of the data is reached.
    EndOfData,
    /// The data could not be read, with the reason.
    DataError(String),
}

} // verus!
