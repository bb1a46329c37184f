//! Queue position models for order fill simulation.
//!
//! A queue position is the quantity, in lots, resting ahead of an order at its price level.
use std::marker::PhantomData;
use vstd::prelude::*;

use crate::depth::MarketDepth;
use crate::types::{Order, Side};

verus! {

/// A conservative queue position model: the order's queue position advances only when trades
/// occur at its price level.
pub struct RiskAdverseQueueModel<MD> {
    _depth: PhantomData<MD>,
}

impl<MD: MarketDepth> RiskAdverseQueueModel<MD> {
    /// Constructs the model.
    pub fn new() -> (r: Self) {
        RiskAdverseQueueModel { _depth: PhantomData }
    }

    /// The queue position of an order the exchange accepts: the whole quantity resting at its
    /// price level is ahead of it.
    pub fn new_order(&self, order: &Order, depth: &MD) -> (front_q_qty: i64)
        ensures
            front_q_qty == (if order.side == Side::Buy {
                depth.bid_qty(order.price_tick)
            } else {
                depth.ask_qty(order.price_tick)
            }),
    {
        if order.side == Side::Buy {
            depth.bid_qty_at_tick(order.price_tick)
        } else {
            depth.ask_qty_at_tick(order.price_tick)
        }
    }

    /// A trade of `qty` lots at the order's price advances the order's queue position.
    pub fn trade(&self, front_q_qty: &mut i64, qty: i64)
        requires
            i64::MIN <= *old(front_q_qty) - qty <= i64::MAX,
        ensures
            *final(front_q_qty) == *old(front_q_qty) - qty,
    {
        *front_q_qty = *front_q_qty - qty;
    }

    /// A depth change at the order's price can only shorten the queue ahead of the order.
    pub fn depth(&self, front_q_qty: &mut i64, _prev_qty: i64, new_qty: i64)
        ensures
            *final(front_q_qty) == (if new_qty < *old(front_q_qty) {
                new_qty
            } else {
                *old(front_q_qty)
            }),
    {
        if new_qty < *front_q_qty {
            *front_q_qty = new_qty;
        }
    }

    /// Returns the quantity filled: once trades have gone past the order's position, the
    /// quantity traded beyond it is filled and the position is reset to the front of the queue.
    pub fn is_filled(&self, front_q_qty: &mut i64) -> (filled: i64)
        requires
            *old(front_q_qty) > i64::MIN,
        ensures
            *old(front_q_qty) < 0 ==> filled == -*old(front_q_qty) && *final(front_q_qty) == 0,
            *old(front_q_qty) >= 0 ==> filled == 0 && *final(front_q_qty) == *old(front_q_qty),
    {
        let exec = -*front_q_qty;
        if exec > 0 {
            *front_q_qty = 0;
            exec
        } else {
            0
        }
    }
}

/// The probability model `f(back) / (f(back) + f(front))` with `f(x) = log(1 + x)`.
#[derive(Default, Clone, Copy, Debug)]
pub struct LogProbQueueFunc;

impl LogProbQueueFunc {
    /// Constructs the model.
    pub fn new() -> (r: Self) {
        LogProbQueueFunc
    }
}

/// The probability model `f(back) / f(back + front)` with `f(x) = log(1 + x)`.
#[derive(Default, Clone, Copy, Debug)]
pub struct LogProbQueueFunc2;

impl LogProbQueueFunc2 {
    /// Constructs the model.
    pub fn new() -> (r: Self) {
        LogProbQueueFunc2
    }
}

} // verus!
