//! The local side of an asset in a backtest: the market depth as the local feed shows it, the
//! strategy's orders as the local knows them, the last trades and the last latencies seen.
//!
//! A request (new order, modify, cancel) is recorded on the local order and handed to the
//! caller with the form it takes if the exchange rejects it before it reaches the matching
//! engine; the exchange's responses then update the local orders.
use std::collections::HashMap;
use vstd::prelude::*;
use vstd::std_specs::iter::IteratorSpec;

use crate::backtest::proc::partialfillexchange::{
    all_cleared, ask_level_set, asks_cleared, bid_level_set, bids_cleared,
};
use crate::backtest::order::{ordered, OrderBus};
use crate::backtest::BacktestError;
use crate::depth::{HashMapMarketDepth, INVALID_MAX, INVALID_MIN};
use crate::types::{
    spec_event_is, Event, OrdType, Order, OrderId, Side, Status, TimeInForce,
    LOCAL_ASK_DEPTH_CLEAR_EVENT, LOCAL_ASK_DEPTH_EVENT, LOCAL_ASK_DEPTH_SNAPSHOT_EVENT,
    LOCAL_BID_DEPTH_CLEAR_EVENT, LOCAL_BID_DEPTH_EVENT, LOCAL_BID_DEPTH_SNAPSHOT_EVENT,
    LOCAL_DEPTH_CLEAR_EVENT, LOCAL_TRADE_EVENT,
};

verus! {

broadcast use vstd::std_specs::hash::group_hash_axioms;

/// A request to send to the exchange, and the response that comes back in its place if the
/// exchange rejects it before it reaches the matching engine.
#[derive(Clone, Copy, Debug)]
pub struct Request {
    pub order: Order,
    pub on_reject: Order,
}

/// The order's status no longer changes: it expired, was filled or was canceled.
pub open spec fn inactive(status: Status) -> bool {
    status == Status::Expired || status == Status::Filled || status == Status::Canceled
}

/// The local orders after a response arrives: a rejection of the request the local order is
/// waiting on clears the request (a rejected new order expires); any other response updates the
/// local order, or becomes one if the local does not know the order.
pub open spec fn responded_orders(m: Map<u64, Order>, o: Order) -> Map<u64, Order> {
    if m.contains_key(o.order_id) {
        let l = m[o.order_id];
        if o.req == Status::Rejected {
            if o.local_timestamp == l.local_timestamp {
                if l.req == Status::New {
                    m.insert(o.order_id, Order { req: Status::Nil, status: Status::Expired, ..l })
                } else {
                    m.insert(o.order_id, Order { req: Status::Nil, ..l })
                }
            } else {
                m
            }
        } else {
            m.insert(
                o.order_id,
                Order {
                    exch_timestamp: if o.exch_timestamp > 0 {
                        o.exch_timestamp
                    } else {
                        l.exch_timestamp
                    },
                    local_timestamp: l.local_timestamp,
                    ..o
                },
            )
        }
    } else if o.req != Status::Rejected {
        m.insert(o.order_id, o)
    } else {
        m
    }
}

/// The number of orders at the front of the bus that arrive at `ts`.
pub open spec fn due_count(s: Seq<(Order, i64)>, ts: i64) -> nat
    decreases s.len(),
{
    if s.len() > 0 && s[0].1 == ts {
        1 + due_count(s.drop_first(), ts)
    } else {
        0
    }
}

/// The orders of the first `n` entries of the bus, in order.
pub open spec fn first_orders(s: Seq<(Order, i64)>, n: int) -> Seq<Order> {
    s.take(n).map_values(|e: (Order, i64)| e.0)
}

/// The local orders after the responses arrive one after another.
pub open spec fn responded_all(m: Map<u64, Order>, rs: Seq<Order>) -> Map<u64, Order>
    decreases rs.len(),
{
    if rs.len() == 0 {
        m
    } else {
        responded_orders(responded_all(m, rs.drop_last()), rs.last())
    }
}

/// The last order latency after the responses arrive at `ts` one after another: each response
/// that reached the exchange records its own.
pub open spec fn latency_after(last: Option<(i64, i64, i64)>, rs: Seq<Order>, ts: i64) -> Option<
    (i64, i64, i64),
>
    decreases rs.len(),
{
    if rs.len() == 0 {
        last
    } else if rs.last().exch_timestamp > 0 {
        Some((rs.last().local_timestamp, rs.last().exch_timestamp, ts))
    } else {
        latency_after(last, rs.drop_last(), ts)
    }
}

/// The responses a response handler is shown, in order: each response, except a rejection of
/// an order the local does not know, which is dropped unseen.
pub open spec fn handled_of(m: Map<u64, Order>, rs: Seq<Order>) -> Seq<Order>
    decreases rs.len(),
{
    if rs.len() == 0 {
        Seq::empty()
    } else if responded_all(m, rs.drop_last()).contains_key(rs.last().order_id) || rs.last().req
        != Status::Rejected {
        handled_of(m, rs.drop_last()).push(rs.last())
    } else {
        handled_of(m, rs.drop_last())
    }
}

/// The filled orders among the responses, in order.
pub open spec fn filled_of(rs: Seq<Order>) -> Seq<Order>
    decreases rs.len(),
{
    if rs.len() == 0 {
        Seq::empty()
    } else if rs.last().status == Status::Filled {
        filled_of(rs.drop_last()).push(rs.last())
    } else {
        filled_of(rs.drop_last())
    }
}

/// The kind of a local feed event, by its flag: a clear of the bids, of the asks or of both
/// sides, a bid or ask level (a depth or snapshot event), a trade, or none of these.
pub open spec fn local_event_kind(ev: u64) -> int {
    if spec_event_is(ev, LOCAL_BID_DEPTH_CLEAR_EVENT) {
        1
    } else if spec_event_is(ev, LOCAL_ASK_DEPTH_CLEAR_EVENT) {
        2
    } else if spec_event_is(ev, LOCAL_DEPTH_CLEAR_EVENT) {
        3
    } else if spec_event_is(ev, LOCAL_BID_DEPTH_EVENT) || spec_event_is(
        ev,
        LOCAL_BID_DEPTH_SNAPSHOT_EVENT,
    ) {
        4
    } else if spec_event_is(ev, LOCAL_ASK_DEPTH_EVENT) || spec_event_is(
        ev,
        LOCAL_ASK_DEPTH_SNAPSHOT_EVENT,
    ) {
        5
    } else if spec_event_is(ev, LOCAL_TRADE_EVENT) {
        6
    } else {
        0
    }
}

/// The local side of an asset.
pub struct Local {
    /// The market depth as the local feed shows it.
    pub depth: HashMapMarketDepth,
    /// The strategy's orders by order id.
    pub orders: HashMap<OrderId, Order>,
    /// The trades seen since they were last cleared.
    pub trades: Vec<Event>,
    /// Whether trades are kept: the capacity asked for them is positive.
    pub keeps_trades: bool,
    /// The exchange and local timestamps of the last feed event.
    pub last_feed_latency: Option<(i64, i64)>,
    /// The request, exchange and response timestamps of the last order response that reached
    /// the exchange.
    pub last_order_latency: Option<(i64, i64, i64)>,
}

impl Local {
    /// Constructs the local side over the market depth, keeping trades when `last_trades_cap` is
    /// positive.
    pub fn new(depth: HashMapMarketDepth, last_trades_cap: usize) -> (r: Self)
        ensures
            r.depth == depth,
            r.orders@ == Map::<u64, Order>::empty(),
            r.trades@ == Seq::<Event>::empty(),
            r.keeps_trades == (last_trades_cap > 0),
            r.last_feed_latency is None,
            r.last_order_latency is None,
    {
        Local {
            depth,
            orders: HashMap::new(),
            trades: Vec::new(),
            keeps_trades: last_trades_cap > 0,
            last_feed_latency: None,
            last_order_latency: None,
        }
    }

    /// Processes a local feed event, as [`local_event_kind`] reads its flag: a clear removes
    /// price levels (up to the event's price, or every level when `finite_price` is false), a
    /// depth event sets a level at the local timestamp, and a trade is kept when trades are
    /// kept. The event's timestamps become the last feed latency.
    pub fn process(&mut self, ev: &Event, finite_price: bool)
        requires
            local_event_kind(ev.ev) == 1 && finite_price ==> ev.price_tick > INVALID_MIN,
            local_event_kind(ev.ev) == 2 && finite_price ==> ev.price_tick < INVALID_MAX,
        ensures
            final(self).orders@ == old(self).orders@,
            final(self).keeps_trades == old(self).keeps_trades,
            final(self).last_order_latency == old(self).last_order_latency,
            final(self).last_feed_latency == Some((ev.exch_ts, ev.local_ts)),
            local_event_kind(ev.ev) == 6 && old(self).keeps_trades ==> final(self).trades@ == old(
                self,
            ).trades@.push(*ev),
            !(local_event_kind(ev.ev) == 6 && old(self).keeps_trades) ==> final(self).trades@ == old(
                self,
            ).trades@,
            local_event_kind(ev.ev) == 0 || local_event_kind(ev.ev) == 6 ==> final(self).depth
                == old(self).depth,
            local_event_kind(ev.ev) == 1 ==> bids_cleared(
                old(self).depth,
                final(self).depth,
                if finite_price {
                    Some(ev.price_tick)
                } else {
                    None
                },
            ),
            local_event_kind(ev.ev) == 2 ==> asks_cleared(
                old(self).depth,
                final(self).depth,
                if finite_price {
                    Some(ev.price_tick)
                } else {
                    None
                },
            ),
            local_event_kind(ev.ev) == 3 ==> all_cleared(old(self).depth, final(self).depth),
            local_event_kind(ev.ev) == 4 ==> bid_level_set(
                old(self).depth,
                final(self).depth,
                ev.price_tick,
                ev.qty_lot,
            ),
            local_event_kind(ev.ev) == 5 ==> ask_level_set(
                old(self).depth,
                final(self).depth,
                ev.price_tick,
                ev.qty_lot,
            ),
    {
        let upto = if finite_price {
            Some(ev.price_tick)
        } else {
            None
        };
        if ev.is(LOCAL_BID_DEPTH_CLEAR_EVENT) {
            self.depth.clear_depth(Side::Buy, upto);
        } else if ev.is(LOCAL_ASK_DEPTH_CLEAR_EVENT) {
            self.depth.clear_depth(Side::Sell, upto);
        } else if ev.is(LOCAL_DEPTH_CLEAR_EVENT) {
            self.depth.clear_depth(Side::Nil, None);
        } else if ev.is(LOCAL_BID_DEPTH_EVENT) || ev.is(LOCAL_BID_DEPTH_SNAPSHOT_EVENT) {
            self.depth.update_bid_depth(ev.price_tick, ev.qty_lot, ev.local_ts);
        } else if ev.is(LOCAL_ASK_DEPTH_EVENT) || ev.is(LOCAL_ASK_DEPTH_SNAPSHOT_EVENT) {
            self.depth.update_ask_depth(ev.price_tick, ev.qty_lot, ev.local_ts);
        } else if ev.is(LOCAL_TRADE_EVENT) && self.keeps_trades {
            self.trades.push(*ev);
        }
        self.last_feed_latency = Some((ev.exch_ts, ev.local_ts));
    }

    /// Records a new order at `current_timestamp` and returns the request for it; an order id
    /// in use is an error.
    pub fn submit_order(
        &mut self,
        order_id: OrderId,
        side: Side,
        price_tick: i64,
        qty: i64,
        order_type: OrdType,
        time_in_force: TimeInForce,
        current_timestamp: i64,
    ) -> (r: Result<Request, BacktestError>)
        ensures
            final(self).depth == old(self).depth,
            final(self).trades@ == old(self).trades@,
            final(self).keeps_trades == old(self).keeps_trades,
            final(self).last_feed_latency == old(self).last_feed_latency,
            final(self).last_order_latency == old(self).last_order_latency,
            old(self).orders@.contains_key(order_id) ==> (r matches Err(BacktestError::OrderIdExist))
                && final(self).orders@ == old(self).orders@,
            !old(self).orders@.contains_key(order_id) ==> {
                let o = Order {
                    qty,
                    leaves_qty: qty,
                    exec_qty: 0,
                    exec_price_tick: 0,
                    price_tick,
                    exch_timestamp: 0,
                    local_timestamp: current_timestamp,
                    order_id,
                    maker: false,
                    order_type,
                    req: Status::New,
                    status: Status::Nil,
                    side,
                    time_in_force,
                };
                &&& r matches Ok(q) && q.order == o && q.on_reject == Order {
                    req: Status::Rejected,
                    ..o
                }
                &&& final(self).orders@ == old(self).orders@.insert(order_id, o)
            },
    {
        if self.orders.contains_key(&order_id) {
            return Err(BacktestError::OrderIdExist);
        }
        let mut order = Order::new(order_id, price_tick, qty, side, order_type, time_in_force);
        order.req = Status::New;
        order.local_timestamp = current_timestamp;
        self.orders.insert(order.order_id, order);
        let mut on_reject = order;
        on_reject.req = Status::Rejected;
        Ok(Request { order, on_reject })
    }

    /// Records a modify request at `current_timestamp` to the new price and quantity and returns
    /// it; a rejection restores the price and quantity. An unknown order, or one with a request
    /// in flight, is an error.
    pub fn modify(&mut self, order_id: OrderId, price_tick: i64, qty: i64, current_timestamp: i64)
        -> (r: Result<Request, BacktestError>)
        ensures
            final(self).depth == old(self).depth,
            final(self).trades@ == old(self).trades@,
            final(self).keeps_trades == old(self).keeps_trades,
            final(self).last_feed_latency == old(self).last_feed_latency,
            final(self).last_order_latency == old(self).last_order_latency,
            !old(self).orders@.contains_key(order_id) ==> (r matches Err(BacktestError::OrderNotFound))
                && final(self).orders@ == old(self).orders@,
            old(self).orders@.contains_key(order_id) && old(self).orders@[order_id].req != Status::Nil
                ==> (r matches Err(BacktestError::OrderRequestInProcess)) && final(self).orders@ == old(
                self,
            ).orders@,
            old(self).orders@.contains_key(order_id) && old(self).orders@[order_id].req == Status::Nil
                ==> {
                let l = old(self).orders@[order_id];
                let o = Order {
                    price_tick,
                    qty,
                    req: Status::Replaced,
                    local_timestamp: current_timestamp,
                    ..l
                };
                &&& r matches Ok(q) && q.order == o && q.on_reject == Order {
                    req: Status::Rejected,
                    price_tick: l.price_tick,
                    qty: l.qty,
                    ..o
                }
                &&& final(self).orders@ == old(self).orders@.insert(order_id, o)
            },
    {
        let mut order = match self.orders.get(&order_id) {
            Some(o) => *o,
            None => return Err(BacktestError::OrderNotFound),
        };
        if order.req != Status::Nil {
            return Err(BacktestError::OrderRequestInProcess);
        }
        let orig_price_tick = order.price_tick;
        let orig_qty = order.qty;
        order.price_tick = price_tick;
        order.qty = qty;
        order.req = Status::Replaced;
        order.local_timestamp = current_timestamp;
        self.orders.insert(order_id, order);
        let mut on_reject = order;
        on_reject.req = Status::Rejected;
        on_reject.price_tick = orig_price_tick;
        on_reject.qty = orig_qty;
        Ok(Request { order, on_reject })
    }

    /// Records a cancel request at `current_timestamp` and returns it. An unknown order, or one
    /// with a request in flight, is an error.
    pub fn cancel(&mut self, order_id: OrderId, current_timestamp: i64) -> (r: Result<
        Request,
        BacktestError,
    >)
        ensures
            final(self).depth == old(self).depth,
            final(self).trades@ == old(self).trades@,
            final(self).keeps_trades == old(self).keeps_trades,
            final(self).last_feed_latency == old(self).last_feed_latency,
            final(self).last_order_latency == old(self).last_order_latency,
            !old(self).orders@.contains_key(order_id) ==> (r matches Err(BacktestError::OrderNotFound))
                && final(self).orders@ == old(self).orders@,
            old(self).orders@.contains_key(order_id) && old(self).orders@[order_id].req != Status::Nil
                ==> (r matches Err(BacktestError::OrderRequestInProcess)) && final(self).orders@ == old(
                self,
            ).orders@,
            old(self).orders@.contains_key(order_id) && old(self).orders@[order_id].req == Status::Nil
                ==> {
                let o = Order {
                    req: Status::Canceled,
                    local_timestamp: current_timestamp,
                    ..old(self).orders@[order_id]
                };
                &&& r matches Ok(q) && q.order == o && q.on_reject == Order {
                    req: Status::Rejected,
                    ..o
                }
                &&& final(self).orders@ == old(self).orders@.insert(order_id, o)
            },
    {
        let mut order = match self.orders.get(&order_id) {
            Some(o) => *o,
            None => return Err(BacktestError::OrderNotFound),
        };
        if order.req != Status::Nil {
            return Err(BacktestError::OrderRequestInProcess);
        }
        order.req = Status::Canceled;
        order.local_timestamp = current_timestamp;
        self.orders.insert(order_id, order);
        let mut on_reject = order;
        on_reject.req = Status::Rejected;
        Ok(Request { order, on_reject })
    }

    /// Applies a response received at `timestamp`, as [`responded_orders`] states, and returns
    /// whether it is the response to `wait_resp_order_id`. A response that reached the exchange
    /// (it has an exchange timestamp) records the order latency.
    pub fn receive_response(&mut self, order: Order, timestamp: i64, wait_resp_order_id: Option<
        OrderId,
    >) -> (r: bool)
        ensures
            final(self).depth == old(self).depth,
            final(self).trades@ == old(self).trades@,
            final(self).keeps_trades == old(self).keeps_trades,
            final(self).last_feed_latency == old(self).last_feed_latency,
            final(self).last_order_latency == (if order.exch_timestamp > 0 {
                Some((order.local_timestamp, order.exch_timestamp, timestamp))
            } else {
                old(self).last_order_latency
            }),
            r == (wait_resp_order_id == Some(order.order_id)),
            final(self).orders@ == responded_orders(old(self).orders@, order),
    {
        if order.exch_timestamp > 0 {
            self.last_order_latency = Some((order.local_timestamp, order.exch_timestamp, timestamp));
        }
        let received = match wait_resp_order_id {
            Some(id) => id == order.order_id,
            None => false,
        };
        match self.orders.get(&order.order_id) {
            Some(l) => {
                let mut local_order = *l;
                if order.req == Status::Rejected {
                    if order.local_timestamp == local_order.local_timestamp {
                        if local_order.req == Status::New {
                            local_order.req = Status::Nil;
                            local_order.status = Status::Expired;
                        } else {
                            local_order.req = Status::Nil;
                        }
                        self.orders.insert(order.order_id, local_order);
                    }
                } else {
                    local_order.update(&order);
                    self.orders.insert(order.order_id, local_order);
                }
            },
            None => {
                if order.req != Status::Rejected {
                    self.orders.insert(order.order_id, order);
                }
            },
        }
        received
    }

    /// Receives every response that arrives at `timestamp` at the front of the bus, in order,
    /// applying each as [`Self::receive_response`] does. Returns whether the response to
    /// `wait_resp_order_id` came, the filled orders received, whose fills the account applies,
    /// and the responses to show a response handler, in order, as [`handled_of`] describes. No
    /// response in the bus may arrive before `timestamp`.
    pub fn process_recv_order(
        &mut self,
        bus: &mut OrderBus,
        timestamp: i64,
        wait_resp_order_id: Option<OrderId>,
    ) -> (r: (bool, Vec<Order>, Vec<Order>))
        requires
            ordered(old(bus)@),
            old(bus)@.len() > 0 ==> old(bus)@[0].1 >= timestamp,
        ensures
            ({
                let k = due_count(old(bus)@, timestamp) as int;
                let rs = first_orders(old(bus)@, k);
                &&& k <= old(bus)@.len()
                &&& final(bus)@ == old(bus)@.skip(k)
                &&& final(self).orders@ == responded_all(old(self).orders@, rs)
                &&& final(self).last_order_latency == latency_after(
                    old(self).last_order_latency,
                    rs,
                    timestamp,
                )
                &&& r.0 == exists|j: int|
                    0 <= j < k && wait_resp_order_id == Some(#[trigger] rs[j].order_id)
                &&& r.1@ == filled_of(rs)
                &&& r.2@ == handled_of(old(self).orders@, rs)
            }),
            final(self).depth == old(self).depth,
            final(self).trades@ == old(self).trades@,
            final(self).keeps_trades == old(self).keeps_trades,
            final(self).last_feed_latency == old(self).last_feed_latency,
    {
        let ghost s0 = bus@;
        let ghost k = due_count(s0, timestamp) as int;
        let len = bus.len();
        let mut received = false;
        let mut filled: Vec<Order> = Vec::new();
        let mut handled: Vec<Order> = Vec::new();
        let mut i: usize = 0;
        proof {
            lemma_due_count_bound(s0, timestamp);
        }
        loop
            invariant
                0 <= i <= k <= s0.len(),
                s0.len() == len,
                k == due_count(s0, timestamp),
                bus@ == s0.skip(i as int),
                ordered(s0),
                s0.len() > 0 ==> s0[0].1 >= timestamp,
                due_count(s0.skip(i as int), timestamp) == k - i,
                self.orders@ == responded_all(old(self).orders@, first_orders(s0, i as int)),
                self.last_order_latency == latency_after(
                    old(self).last_order_latency,
                    first_orders(s0, i as int),
                    timestamp,
                ),
                received == exists|j: int|
                    0 <= j < i && wait_resp_order_id == Some(
                        #[trigger] first_orders(s0, k)[j].order_id,
                    ),
                filled@ == filled_of(first_orders(s0, i as int)),
                handled@ == handled_of(old(self).orders@, first_orders(s0, i as int)),
                self.depth == old(self).depth,
                self.trades@ == old(self).trades@,
                self.keeps_trades == old(self).keeps_trades,
                self.last_feed_latency == old(self).last_feed_latency,
            ensures
                i == k,
                bus@ == s0.skip(k),
                self.orders@ == responded_all(old(self).orders@, first_orders(s0, k)),
                self.last_order_latency == latency_after(
                    old(self).last_order_latency,
                    first_orders(s0, k),
                    timestamp,
                ),
                received == exists|j: int|
                    0 <= j < k && wait_resp_order_id == Some(
                        #[trigger] first_orders(s0, k)[j].order_id,
                    ),
                filled@ == filled_of(first_orders(s0, k)),
                handled@ == handled_of(old(self).orders@, first_orders(s0, k)),
                self.depth == old(self).depth,
                self.trades@ == old(self).trades@,
                self.keeps_trades == old(self).keeps_trades,
                self.last_feed_latency == old(self).last_feed_latency,
            decreases k - i,
        {
            proof {
                if i < s0.len() {
                    assert(s0.skip(i as int)[0] == s0[i as int]);
                    assert(s0[i as int].1 >= s0[0].1);
                }
            }
            let got = bus.receive(timestamp);
            match got {
                Some(order) => {
                    proof {
                        assert(s0.skip(i as int).drop_first() =~= s0.skip(i + 1));
                        assert(first_orders(s0, i + 1).drop_last() =~= first_orders(s0, i as int));
                        assert(first_orders(s0, i + 1).last() == order);
                        assert(first_orders(s0, k)[i as int] == order);
                    }
                    let was = received;
                    if order.req != Status::Rejected || self.orders.contains_key(&order.order_id) {
                        handled.push(order);
                    }
                    let hit = self.receive_response(order, timestamp, wait_resp_order_id);
                    if hit {
                        received = true;
                    }
                    if order.status == Status::Filled {
                        filled.push(order);
                    }
                    proof {
                        assert forall|j: int| 0 <= j < i + 1 && wait_resp_order_id == Some(
                            #[trigger] first_orders(s0, k)[j].order_id,
                        ) implies received by {
                            if j < i {
                                assert(was);
                            }
                        }
                        if received && !hit {
                            let j = choose|j: int|
                                0 <= j < i && wait_resp_order_id == Some(
                                    #[trigger] first_orders(s0, k)[j].order_id,
                                );
                            assert(0 <= j < i + 1);
                        }
                    }
                    i = i + 1;
                },
                None => {
                    assert(i == k);
                    break;
                },
            }
        }
        (received, filled, handled)
    }

    /// Removes the orders that expired, were filled or were canceled.
    pub fn clear_inactive_orders(&mut self)
        ensures
            final(self).depth == old(self).depth,
            final(self).trades@ == old(self).trades@,
            final(self).keeps_trades == old(self).keeps_trades,
            final(self).last_feed_latency == old(self).last_feed_latency,
            final(self).last_order_latency == old(self).last_order_latency,
            final(self).orders@ == old(self).orders@.restrict(
                old(self).orders@.dom().filter(|id: u64| !inactive(old(self).orders@[id].status)),
            ),
    {
        let mut ids: Vec<u64> = Vec::new();
        let keys = self.orders.keys();
        let ghost all = IteratorSpec::remaining(&keys);
        assert(all.unref().to_set() == self.orders@.dom());
        assert(all.unref().no_duplicates());
        for id in it: keys
            invariant
                it.seq() == all,
                ids@ == all.unref().take(it.index() as int),
        {
            let ghost i = it.index();
            ids.push(*id);
            assert(ids@ =~= all.unref().take(i + 1));
        }
        assert(ids@ =~= all.unref());
        let ghost m = old(self).orders@;
        let ghost keep = m.dom().filter(|id: u64| !inactive(m[id].status));
        let mut k: usize = 0;
        while k < ids.len()
            invariant
                ids@.to_set() == m.dom(),
                ids@.no_duplicates(),
                k <= ids@.len(),
                self.depth == old(self).depth,
                self.trades@ == old(self).trades@,
                self.keeps_trades == old(self).keeps_trades,
                self.last_feed_latency == old(self).last_feed_latency,
                self.last_order_latency == old(self).last_order_latency,
                m == old(self).orders@,
                keep == m.dom().filter(|id: u64| !inactive(m[id].status)),
                forall|id: u64| #[trigger]
                    self.orders@.contains_key(id) ==> m.contains_key(id) && self.orders@[id] == m[id],
                forall|id: u64|
                    m.contains_key(id) && !ids@.take(k as int).contains(id) ==> #[trigger] self.orders@.contains_key(id),
                forall|id: u64|
                    #[trigger] m.contains_key(id) && ids@.take(k as int).contains(id) ==> (self.orders@.contains_key(id)
                        <==> keep.contains(id)),
            decreases ids@.len() - k,
        {
            let id = ids[k];
            assert(ids@.to_set().contains(id));
            let o = *self.orders.get(&id).unwrap();
            if o.status == Status::Expired || o.status == Status::Filled || o.status == Status::Canceled {
                self.orders.remove(&id);
            }
            proof {
                assert forall|j: u64| m.contains_key(j) && !ids@.take(k + 1).contains(j) implies #[trigger] self.orders@.contains_key(j) by {
                    assert(!ids@.take(k as int).contains(j)) by {
                        if ids@.take(k as int).contains(j) {
                            let x = choose|x: int| 0 <= x < k && #[trigger] ids@.take(k as int)[x] == j;
                            assert(ids@.take(k + 1)[x] == j);
                        }
                    }
                    if j == id {
                        assert(ids@.take(k + 1)[k as int] == j);
                    }
                }
                assert forall|j: u64| #[trigger] m.contains_key(j) && ids@.take(k + 1).contains(j) implies (self.orders@.contains_key(j) <==> keep.contains(j)) by {
                    let x = choose|x: int| 0 <= x < k + 1 && #[trigger] ids@.take(k + 1)[x] == j;
                    if x < k {
                        assert(ids@.take(k as int)[x] == j);
                        assert(ids@.take(k as int).contains(j));
                        if j == id {
                            assert(ids@[x] == ids@[k as int]);
                        }
                    }
                }
            }
            k = k + 1;
        }
        proof {
            assert(ids@.take(ids@.len() as int) =~= ids@);
            assert forall|j: u64| m.contains_key(j) implies ids@.contains(j) by {
                assert(ids@.to_set().contains(j));
            }
            assert(self.orders@ =~= m.restrict(keep));
        }
    }
}

/// A new order that the exchange rejects before it reaches the matching engine expires, and
/// nothing is left in flight on it.
pub proof fn lemma_rejected_new_order_expires(m: Map<u64, Order>, o: Order)
    requires
        m.contains_key(o.order_id),
        m[o.order_id] == o,
        o.req == Status::New,
    ensures
        responded_orders(m, Order { req: Status::Rejected, ..o })[o.order_id].status == Status::Expired,
        responded_orders(m, Order { req: Status::Rejected, ..o })[o.order_id].req == Status::Nil,
{
}

/// A modify that the exchange rejects before it reaches the matching engine leaves nothing in
/// flight on the order, whose status stays as it was.
pub proof fn lemma_rejected_modify_clears_request(
    m: Map<u64, Order>,
    l: Order,
    price_tick: i64,
    qty: i64,
    ts: i64,
)
    requires
        m.contains_key(l.order_id),
        m[l.order_id] == l,
        l.req == Status::Nil,
    ensures
        ({
            let o = Order { price_tick, qty, req: Status::Replaced, local_timestamp: ts, ..l };
            let after = responded_orders(
                m.insert(l.order_id, o),
                Order { req: Status::Rejected, price_tick: l.price_tick, qty: l.qty, ..o },
            )[l.order_id];
            &&& after.req == Status::Nil
            &&& after.status == l.status
        }),
{
}

/// At most every order of the bus is due.
proof fn lemma_due_count_bound(s: Seq<(Order, i64)>, ts: i64)
    ensures
        due_count(s, ts) <= s.len(),
        forall|i: int| 0 <= i <= due_count(s, ts) ==> #[trigger] due_count(s.skip(i), ts) == due_count(s, ts) - i,
    decreases s.len(),
{
    if s.len() > 0 && s[0].1 == ts {
        lemma_due_count_bound(s.drop_first(), ts);
        assert forall|i: int| 0 <= i <= due_count(s, ts) implies #[trigger] due_count(s.skip(i), ts) == due_count(s, ts) - i by {
            if i > 0 {
                assert(s.skip(i) =~= s.drop_first().skip(i - 1));
            } else {
                assert(s.skip(0) =~= s);
            }
        }
    } else {
        assert forall|i: int| 0 <= i <= due_count(s, ts) implies #[trigger] due_count(s.skip(i), ts) == due_count(s, ts) - i by {
            assert(s.skip(0) =~= s);
        }
    }
}

} // verus!
