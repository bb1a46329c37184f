//! The order buses between the local and the exchange in a backtest: orders travel with the
//! timestamp at which they arrive, delayed by the order latency model.
use std::collections::VecDeque;
use vstd::prelude::*;

use crate::types::Order;

verus! {

/// The timestamps of the orders in the bus never decrease from front to back.
pub open spec fn ordered(s: Seq<(Order, i64)>) -> bool {
    forall|i: int, j: int| 0 <= i <= j < s.len() ==> #[trigger] s[i].1 <= #[trigger] s[j].1
}

/// A bus carrying orders between the exchange and the local, each with the timestamp at which
/// it arrives.
pub struct OrderBus {
    order_list: VecDeque<(Order, i64)>,
}

impl View for OrderBus {
    type V = Seq<(Order, i64)>;

    closed spec fn view(&self) -> Seq<(Order, i64)> {
        self.order_list@
    }
}

impl OrderBus {
    /// Constructs an empty bus.
    pub fn new() -> (r: Self)
        ensures
            r@ == Seq::<(Order, i64)>::empty(),
    {
        OrderBus { order_list: VecDeque::new() }
    }

    /// Returns the arrival timestamp of the order at the front of the bus.
    pub fn earliest_timestamp(&self) -> (r: Option<i64>)
        ensures
            r == (if self@.len() > 0 {
                Some(self@[0].1)
            } else {
                None::<i64>
            }),
    {
        if self.order_list.len() > 0 {
            Some(self.order_list[0].1)
        } else {
            None
        }
    }

    /// Appends the order to the bus with the timestamp. To keep the bus in timestamp order, a
    /// timestamp earlier than the latest one in the bus is raised to it (requests and responses
    /// are assumed to arrive in order).
    pub fn append(&mut self, order: Order, timestamp: i64)
        ensures
            final(self)@ == old(self)@.push(
                (
                    order,
                    if old(self)@.len() > 0 && old(self)@.last().1 > timestamp {
                        old(self)@.last().1
                    } else if old(self)@.len() == 0 && timestamp < 0 {
                        0
                    } else {
                        timestamp
                    },
                ),
            ),
            ordered(old(self)@) ==> ordered(final(self)@),
    {
        let len = self.order_list.len();
        let latest_timestamp = if len > 0 {
            self.order_list[len - 1].1
        } else {
            0
        };
        let timestamp = if timestamp > latest_timestamp {
            timestamp
        } else {
            latest_timestamp
        };
        self.order_list.push_back((order, timestamp));
    }

    /// Clears the bus.
    pub fn reset(&mut self)
        ensures
            final(self)@ == Seq::<(Order, i64)>::empty(),
    {
        self.order_list.clear();
    }

    /// Returns the number of orders in the bus.
    pub fn len(&self) -> (r: usize)
        ensures
            r == self@.len(),
    {
        self.order_list.len()
    }

    /// Returns `true` if the bus is empty.
    pub fn is_empty(&self) -> (r: bool)
        ensures
            r == (self@.len() == 0),
    {
        self.order_list.len() == 0
    }

    /// Removes the front order and its timestamp and returns it, or `None` if the bus is empty.
    pub fn pop_front(&mut self) -> (r: Option<(Order, i64)>)
        ensures
            old(self)@.len() == 0 ==> r is None && final(self)@ == old(self)@,
            old(self)@.len() > 0 ==> r == Some(old(self)@[0]) && final(self)@ == old(self)@.drop_first(),
            ordered(old(self)@) ==> ordered(final(self)@),
    {
        self.order_list.pop_front()
    }

    /// Takes the front order if it arrives at `receipt_timestamp`; an order arriving later stays.
    /// No order in the bus may arrive before `receipt_timestamp`.
    pub fn receive(&mut self, receipt_timestamp: i64) -> (r: Option<Order>)
        requires
            old(self)@.len() > 0 ==> old(self)@[0].1 >= receipt_timestamp,
        ensures
            old(self)@.len() > 0 && old(self)@[0].1 == receipt_timestamp ==> r == Some(
                old(self)@[0].0,
            ) && final(self)@ == old(self)@.drop_first(),
            !(old(self)@.len() > 0 && old(self)@[0].1 == receipt_timestamp) ==> r is None
                && final(self)@ == old(self)@,
    {
        match self.earliest_timestamp() {
            Some(timestamp) => {
                if timestamp == receipt_timestamp {
                    match self.pop_front() {
                        Some((order, _)) => Some(order),
                        None => None,
                    }
                } else {
                    None
                }
            },
            None => None,
        }
    }
}

/// Where an order request goes after the entry latency: a negative latency means the exchange
/// rejects the order before it reaches the matching engine, and the rejection reaches the local
/// after the latency's magnitude.
pub enum Route {
    /// The request reaches the exchange at the timestamp.
    ToExchange(i64),
    /// The rejection reaches the local at the timestamp.
    Rejected(i64),
}

/// Routes an order request sent at `local_timestamp` with the given entry latency.
pub fn route_request(local_timestamp: i64, entry_latency: i64) -> (r: Route)
    requires
        i64::MIN <= local_timestamp - entry_latency <= i64::MAX,
        i64::MIN <= local_timestamp + entry_latency <= i64::MAX,
    ensures
        entry_latency < 0 ==> r == Route::Rejected((local_timestamp - entry_latency) as i64),
        entry_latency >= 0 ==> r == Route::ToExchange((local_timestamp + entry_latency) as i64),
{
    if entry_latency < 0 {
        Route::Rejected(local_timestamp - entry_latency)
    } else {
        Route::ToExchange(local_timestamp + entry_latency)
    }
}

} // verus!
