//! The exchange model without partial fills, driven by a Level 3 Market-By-Order feed.
//!
//! A resting buy order is filled entirely when the best ask reaches its price, or when an order
//! of the market feed behind it in its queue is filled (see [`L3FIFOQueueModel`]); sell orders
//! mirror this. An order that crosses the book on arrival is filled entirely at the best
//! opposite price, whatever the quantity there.
//!
//! Each execution is appended to the exchange's fill log, from which the account state is
//! updated; responses to the local are appended to the response log in the order they are made.
use vstd::prelude::*;

use crate::backtest::models::l3queue::{
    event_side, best_ask_lowered, best_bid_raised, feed_order_added, feed_order_canceled, feed_order_filled,
    feed_order_modified, opposite, queue_at, queues_cleared, L3FIFOQueueModel, L3OrderSource,
    QueueEntry,
};
use crate::backtest::proc::partialfillexchange::{accepted_order, expired_order, unfillable};
use crate::backtest::BacktestError;
use crate::depth::hashmapmarketdepth::{
    buy_order_added, order_deleted, order_modified, orders_cleared, sell_order_added,
};
use crate::depth::hashmapmarketdepth::sub_qty;
use crate::depth::{
    lemma_level_above, lemma_level_below, qty_at, HashMapMarketDepth, MarketDepth, INVALID_MAX,
    INVALID_MIN,
};
use crate::types::{
    spec_event_is, Event, OrdType, Order, Side, Status, TimeInForce, BUY_EVENT,
    EXCH_ASK_ADD_ORDER_EVENT, EXCH_ASK_DEPTH_CLEAR_EVENT, EXCH_BID_ADD_ORDER_EVENT,
    EXCH_BID_DEPTH_CLEAR_EVENT, EXCH_CANCEL_ORDER_EVENT, EXCH_DEPTH_CLEAR_EVENT, EXCH_FILL_EVENT,
    EXCH_MODIFY_ORDER_EVENT, SELL_EVENT,
};

verus! {

/// The order filled entirely at `ts`, as a maker at its own price or as a taker at `tick`.
pub open spec fn fully_filled(o: Order, ts: i64, maker: bool, tick: i64) -> Order {
    Order {
        maker: maker,
        exec_price_tick: if maker {
            o.price_tick
        } else {
            tick
        },
        exec_qty: o.leaves_qty,
        leaves_qty: 0,
        status: Status::Filled,
        exch_timestamp: ts,
        ..o
    }
}

/// The order expired by the exchange at `ts` with nothing executed or left.
pub open spec fn expired_unfilled(o: Order, ts: i64) -> Order {
    Order { exec_qty: 0, leaves_qty: 0, status: Status::Expired, exch_timestamp: ts, ..o }
}

/// A new order that takes liquidity is filled entirely at the best opposite price, unless its
/// status cannot be filled.
pub open spec fn taken(o: Order, ts: i64, best: i64) -> (Option<Order>, Order, Option<BacktestError>) {
    if unfillable(o.status) {
        (None, o, Some(BacktestError::InvalidOrderStatus))
    } else {
        let f = fully_filled(o, ts, false, best);
        (Some(f), f, None)
    }
}

/// The outcome of a new order on arrival: its execution if any, the order afterwards, and the
/// error if the request fails. An order that rests in the book is the one whose outcome is
/// accepted.
pub open spec fn l3_new_order_outcome<MD: MarketDepth>(depth: MD, o: Order, ts: i64) -> (
    Option<Order>,
    Order,
    Option<BacktestError>,
) {
    let best = if o.side == Side::Buy {
        depth.best_ask()
    } else {
        depth.best_bid()
    };
    let crossing = if o.side == Side::Buy {
        o.price_tick >= best
    } else {
        o.price_tick <= best
    };
    match o.order_type {
        OrdType::Limit => if crossing {
            match o.time_in_force {
                TimeInForce::GTX => (None, expired_order(o, ts), None),
                TimeInForce::Unsupported => (None, o, Some(BacktestError::InvalidOrderRequest)),
                _ => taken(o, ts, best),
            }
        } else {
            match o.time_in_force {
                TimeInForce::GTC | TimeInForce::GTX => (None, accepted_order(o, ts), None),
                TimeInForce::FOK | TimeInForce::IOC => (None, expired_order(o, ts), None),
                TimeInForce::Unsupported => (None, o, Some(BacktestError::InvalidOrderRequest)),
            }
        },
        OrdType::Market => taken(o, ts, best),
        OrdType::Unsupported => (None, o, Some(BacktestError::InvalidOrderRequest)),
    }
}

/// The new order rests in the book.
pub open spec fn l3_rests<MD: MarketDepth>(depth: MD, o: Order) -> bool {
    &&& o.order_type == OrdType::Limit
    &&& (if o.side == Side::Buy {
        o.price_tick < depth.best_ask()
    } else {
        o.price_tick > depth.best_bid()
    })
    &&& (o.time_in_force == TimeInForce::GTC || o.time_in_force == TimeInForce::GTX)
}


/// The kind of an exchange event of the Level 3 feed, by its flag: a clear of the bids, of the
/// asks or of both sides, a new bid or ask order, a modify, a cancel, a fill, or none of these.
pub open spec fn l3_event_kind(ev: u64) -> int {
    if spec_event_is(ev, EXCH_BID_DEPTH_CLEAR_EVENT) {
        1
    } else if spec_event_is(ev, EXCH_ASK_DEPTH_CLEAR_EVENT) {
        2
    } else if spec_event_is(ev, EXCH_DEPTH_CLEAR_EVENT) {
        3
    } else if spec_event_is(ev, EXCH_BID_ADD_ORDER_EVENT) {
        4
    } else if spec_event_is(ev, EXCH_ASK_ADD_ORDER_EVENT) {
        5
    } else if spec_event_is(ev, EXCH_MODIFY_ORDER_EVENT) {
        6
    } else if spec_event_is(ev, EXCH_CANCEL_ORDER_EVENT) {
        7
    } else if spec_event_is(ev, EXCH_FILL_EVENT) {
        8
    } else {
        0
    }
}

/// The orders filled entirely as makers at their own prices at `ts`.
pub open spec fn maker_fills(orders: Seq<Order>, ts: i64) -> Seq<Order> {
    Seq::new(orders.len(), |i: int| fully_filled(orders[i], ts, true, orders[i].price_tick))
}

/// The orders expired at `ts`.
pub open spec fn expired_all(orders: Seq<Order>, ts: i64) -> Seq<Order> {
    Seq::new(orders.len(), |i: int| expired_unfilled(orders[i], ts))
}

/// The first position, from `i` on, of an order whose status cannot be filled.
pub open spec fn unfillable_from(orders: Seq<Order>, i: int) -> Option<int>
    decreases orders.len() - i,
{
    if i >= orders.len() {
        None
    } else if unfillable(orders[i].status) {
        Some(i)
    } else {
        unfillable_from(orders, i + 1)
    }
}

/// Filling the orders in turn, each entirely as a maker at its price at `ts` and responded to
/// the local, takes the fill log `f0` to `f` and the response log `r0` to `rs`; it stops with
/// an error at the first order whose status cannot be filled.
pub open spec fn filled_in_turn(
    f0: Seq<Order>,
    r0: Seq<Order>,
    f: Seq<Order>,
    rs: Seq<Order>,
    orders: Seq<Order>,
    ts: i64,
    r: Result<(), BacktestError>,
) -> bool {
    match unfillable_from(orders, 0) {
        Some(k) => {
            &&& r == Err::<(), BacktestError>(BacktestError::InvalidOrderStatus)
            &&& f == f0 + maker_fills(orders.take(k), ts)
            &&& rs == r0 + maker_fills(orders.take(k), ts)
        },
        None => {
            &&& r is Ok
            &&& f == f0 + maker_fills(orders, ts)
            &&& rs == r0 + maker_fills(orders, ts)
        },
    }
}

/// No partial fills on arrival: a new order either executes nothing and keeps its whole
/// quantity, resting (a good-till-cancel or post-only limit order that does not cross) or
/// expiring, or it is filled entirely in one taker execution of its whole leaves quantity at
/// the best opposite price. A crossing limit order other than a post-only one, and a market
/// order, are the ones filled; a crossing post-only order and a non-crossing fill-or-kill or
/// immediate-or-cancel order expire.
pub proof fn lemma_l3_no_partial_fill<MD: MarketDepth>(depth: MD, o: Order, ts: i64)
    requires
        !unfillable(o.status),
        o.order_type != OrdType::Unsupported,
        o.time_in_force != TimeInForce::Unsupported,
    ensures
        ({
            let out = l3_new_order_outcome(depth, o, ts);
            let best = if o.side == Side::Buy {
                depth.best_ask()
            } else {
                depth.best_bid()
            };
            let crossing = if o.side == Side::Buy {
                o.price_tick >= best
            } else {
                o.price_tick <= best
            };
            let fills = o.order_type == OrdType::Market || (crossing && o.time_in_force
                != TimeInForce::GTX);
            &&& out.2 is None
            &&& fills ==> {
                &&& out.0 == Some(out.1)
                &&& out.1.status == Status::Filled
                &&& out.1.exec_qty == o.leaves_qty
                &&& out.1.leaves_qty == 0
                &&& !out.1.maker
                &&& out.1.exec_price_tick == best
            }
            &&& !fills ==> {
                &&& out.0 is None
                &&& out.1.leaves_qty == o.leaves_qty
                &&& out.1.exec_qty == o.exec_qty
                &&& out.1.status == (if !crossing && (o.time_in_force == TimeInForce::GTC
                    || o.time_in_force == TimeInForce::GTX) {
                    Status::New
                } else {
                    Status::Expired
                })
            }
        }),
{
}

/// A resting order filled by the book is filled entirely: each order of a batch executes its
/// whole leaves quantity as a maker at its own price and ends filled with nothing left.
pub proof fn lemma_maker_fills_whole(orders: Seq<Order>, ts: i64)
    ensures
        maker_fills(orders, ts).len() == orders.len(),
        forall|i: int|
            0 <= i < orders.len() ==> {
                let f = #[trigger] maker_fills(orders, ts)[i];
                &&& f.order_id == orders[i].order_id
                &&& f.exec_qty == orders[i].leaves_qty
                &&& f.leaves_qty == 0
                &&& f.status == Status::Filled
                &&& f.maker
                &&& f.exec_price_tick == orders[i].price_tick
            },
{
}

proof fn lemma_unfillable_from(orders: Seq<Order>, i: int, k: int)
    requires
        0 <= i <= k <= orders.len(),
        forall|j: int| i <= j < k ==> !unfillable(#[trigger] orders[j].status),
    ensures
        unfillable_from(orders, i) == unfillable_from(orders, k),
    decreases k - i,
{
    if i < k {
        lemma_unfillable_from(orders, i + 1, k);
    }
}

/// The flag of a new bid order names the buy side, and that of a new ask order that is not a
/// bid order the sell side.
proof fn lemma_add_event_side(ev: u64)
    ensures
        spec_event_is(ev, EXCH_BID_ADD_ORDER_EVENT) ==> event_side(ev) == Side::Buy,
        spec_event_is(ev, EXCH_ASK_ADD_ORDER_EVENT) && !spec_event_is(ev, EXCH_BID_ADD_ORDER_EVENT)
            ==> event_side(ev) == Side::Sell,
{
    assert(EXCH_BID_ADD_ORDER_EVENT == 0xA000_000Au64) by (bit_vector);
    assert(EXCH_ASK_ADD_ORDER_EVENT == 0x9000_000Au64) by (bit_vector);
    assert(BUY_EVENT == 0x2000_0000u64 && SELL_EVENT == 0x1000_0000u64);
    assert((ev & 0xA000_000Au64) == 0xA000_000Au64 ==> (ev & 0x2000_0000u64) == 0x2000_0000u64)
        by (bit_vector);
    assert((ev & 0x9000_000Au64) == 0x9000_000Au64 ==> (ev & 0x1000_0000u64) == 0x1000_0000u64)
        by (bit_vector);
    assert((ev & 0x9000_000Au64) == 0x9000_000Au64 && (ev & 0x2000_0000u64) == 0x2000_0000u64 ==> (
    ev & 0xA000_000Au64) == 0xA000_000Au64) by (bit_vector);
    assert((0x2000_0000u64 & 0xffu64) == 0 && (0x1000_0000u64 & 0xffu64) == 0) by (bit_vector);
    assert((0xA000_000Au64 & 0xffu64) == 10 && (0x9000_000Au64 & 0xffu64) == 10) by (bit_vector);
}

/// After the best bid moved from `prev` to `new`: if it rose, the ask orders that it reached
/// are taken out of the queues and filled in turn; otherwise nothing more happens.
pub open spec fn after_bid_move(
    qm1: L3FIFOQueueModel,
    qm2: L3FIFOQueueModel,
    prev: i64,
    new: i64,
    f0: Seq<Order>,
    r0: Seq<Order>,
    f: Seq<Order>,
    rs: Seq<Order>,
    ts: i64,
    r: Result<(), BacktestError>,
) -> bool {
    if new > prev {
        exists|x: Result<Vec<Order>, BacktestError>|
            #[trigger] best_bid_raised(qm1, qm2, prev, new, x) && (x matches Ok(v) && filled_in_turn(
                f0,
                r0,
                f,
                rs,
                v@,
                ts,
                r,
            ))
    } else {
        &&& r is Ok
        &&& qm2 == qm1
        &&& f == f0
        &&& rs == r0
    }
}

/// After the best ask moved from `prev` to `new`: if it fell, the bid orders that it reached
/// are taken out of the queues and filled in turn; otherwise nothing more happens.
pub open spec fn after_ask_move(
    qm1: L3FIFOQueueModel,
    qm2: L3FIFOQueueModel,
    prev: i64,
    new: i64,
    f0: Seq<Order>,
    r0: Seq<Order>,
    f: Seq<Order>,
    rs: Seq<Order>,
    ts: i64,
    r: Result<(), BacktestError>,
) -> bool {
    if new < prev {
        exists|x: Result<Vec<Order>, BacktestError>|
            #[trigger] best_ask_lowered(qm1, qm2, prev, new, x) && (x matches Ok(v) && filled_in_turn(
                f0,
                r0,
                f,
                rs,
                v@,
                ts,
                r,
            ))
    } else {
        &&& r is Ok
        &&& qm2 == qm1
        &&& f == f0
        &&& rs == r0
    }
}

/// `d2`, `qm2` and the logs `f` and `rs` are `d`, `qm`, `f0` and `r0` after the side (both
/// sides for `Side::Nil`) was cleared at `ts`: the queued backtest orders expire.
pub open spec fn side_cleared(
    d: HashMapMarketDepth,
    d2: HashMapMarketDepth,
    qm: L3FIFOQueueModel,
    qm2: L3FIFOQueueModel,
    f0: Seq<Order>,
    r0: Seq<Order>,
    f: Seq<Order>,
    rs: Seq<Order>,
    side: Side,
    ts: i64,
) -> bool {
    &&& orders_cleared(d, d2, side)
    &&& f == f0
    &&& exists|x: Vec<Order>| #[trigger] queues_cleared(qm, qm2, side, x) && rs == r0 + expired_all(x@, ts)
}

/// The exchange model without partial fills, over a market depth `MD`.
pub struct L3NoPartialFillExchange<MD> {
    /// The market depth as the market data replays it.
    pub depth: MD,
    /// The queues of the orders at each price.
    pub queue_model: L3FIFOQueueModel,
    /// Every execution, in order: the order as it stands after the execution.
    pub fills: Vec<Order>,
    /// The responses to the local, in order.
    pub responses: Vec<Order>,
}

impl<MD: MarketDepth> L3NoPartialFillExchange<MD> {
    /// Constructs an exchange over the market depth and the queue model.
    pub fn new(depth: MD, queue_model: L3FIFOQueueModel) -> (r: Self)
        ensures
            r.depth == depth,
            r.queue_model == queue_model,
            r.fills@ == Seq::<Order>::empty(),
            r.responses@ == Seq::<Order>::empty(),
    {
        L3NoPartialFillExchange { depth, queue_model, fills: Vec::new(), responses: Vec::new() }
    }

    /// Responds to the local that the order expired at `timestamp`.
    fn expired(&mut self, order: Order, timestamp: i64)
        ensures
            final(self).responses@ == old(self).responses@.push(expired_unfilled(order, timestamp)),
            final(self).fills@ == old(self).fills@,
            final(self).depth == old(self).depth,
            final(self).queue_model == old(self).queue_model,
    {
        let mut order = order;
        order.exec_qty = 0;
        order.leaves_qty = 0;
        order.status = Status::Expired;
        order.exch_timestamp = timestamp;
        self.responses.push(order);
    }

    /// Fills the orders in turn at `timestamp`, each entirely as a maker at its own price, and
    /// responds to the local, as [`filled_in_turn`] states.
    fn fill_in_turn(&mut self, orders: Vec<Order>, timestamp: i64) -> (r: Result<(), BacktestError>)
        ensures
            final(self).depth == old(self).depth,
            final(self).queue_model == old(self).queue_model,
            filled_in_turn(
                old(self).fills@,
                old(self).responses@,
                final(self).fills@,
                final(self).responses@,
                orders@,
                timestamp,
                r,
            ),
    {
        let mut i: usize = 0;
        while i < orders.len()
            invariant
                i <= orders@.len(),
                self.depth == old(self).depth,
                self.queue_model == old(self).queue_model,
                forall|j: int| 0 <= j < i ==> !unfillable(#[trigger] orders@[j].status),
                self.fills@ == old(self).fills@ + maker_fills(orders@.take(i as int), timestamp),
                self.responses@ == old(self).responses@ + maker_fills(orders@.take(i as int), timestamp),
            decreases orders@.len() - i,
        {
            let mut order = orders[i];
            let price_tick = order.price_tick;
            let ghost before_f = self.fills@;
            let ghost before_r = self.responses@;
            match self.fill(&mut order, timestamp, true, price_tick, true) {
                Ok(()) => {},
                Err(e) => {
                    proof {
                        lemma_unfillable_from(orders@, 0, i as int);
                        assert(maker_fills(orders@.take(i as int), timestamp) =~= maker_fills(
                            orders@.take(i as int),
                            timestamp,
                        ));
                    }
                    return Err(e);
                },
            }
            assert(maker_fills(orders@.take(i + 1), timestamp) =~= maker_fills(
                orders@.take(i as int),
                timestamp,
            ).push(fully_filled(orders@[i as int], timestamp, true, orders@[i as int].price_tick)));
            i = i + 1;
        }
        proof {
            lemma_unfillable_from(orders@, 0, orders@.len() as int);
            assert(orders@.take(orders@.len() as int) =~= orders@);
        }
        Ok(())
    }

    /// Responds to the local that each of the orders expired at `timestamp`.
    fn expire_all(&mut self, orders: Vec<Order>, timestamp: i64)
        ensures
            final(self).depth == old(self).depth,
            final(self).queue_model == old(self).queue_model,
            final(self).fills@ == old(self).fills@,
            final(self).responses@ == old(self).responses@ + expired_all(orders@, timestamp),
    {
        let mut i: usize = 0;
        while i < orders.len()
            invariant
                i <= orders@.len(),
                self.depth == old(self).depth,
                self.queue_model == old(self).queue_model,
                self.fills@ == old(self).fills@,
                self.responses@ == old(self).responses@ + expired_all(orders@.take(i as int), timestamp),
            decreases orders@.len() - i,
        {
            self.expired(orders[i], timestamp);
            assert(expired_all(orders@.take(i + 1), timestamp) =~= expired_all(
                orders@.take(i as int),
                timestamp,
            ).push(expired_unfilled(orders@[i as int], timestamp)));
            i = i + 1;
        }
        assert(orders@.take(orders@.len() as int) =~= orders@);
    }

    /// Fills the order entirely at `timestamp` (a maker execution is at the order's own price)
    /// and logs the execution, responding to the local when `respond` is set. An order that is
    /// expired, canceled or filled cannot be filled.
    fn fill(&mut self, order: &mut Order, timestamp: i64, maker: bool, exec_price_tick: i64, respond: bool) -> (r: Result<(), BacktestError>)
        ensures
            final(self).depth == old(self).depth,
            final(self).queue_model == old(self).queue_model,
            unfillable(old(order).status) ==> r == Err::<(), BacktestError>(BacktestError::InvalidOrderStatus)
                && *final(order) == *old(order) && final(self).fills@ == old(self).fills@
                && final(self).responses@ == old(self).responses@,
            !unfillable(old(order).status) ==> {
                let f = fully_filled(*old(order), timestamp, maker, exec_price_tick);
                &&& r is Ok
                &&& *final(order) == f
                &&& final(self).fills@ == old(self).fills@.push(f)
                &&& final(self).responses@ == (if respond {
                    old(self).responses@.push(f)
                } else {
                    old(self).responses@
                })
            },
    {
        if order.status == Status::Expired || order.status == Status::Canceled || order.status
            == Status::Filled {
            return Err(BacktestError::InvalidOrderStatus);
        }
        order.maker = maker;
        if maker {
            order.exec_price_tick = order.price_tick;
        } else {
            order.exec_price_tick = exec_price_tick;
        }
        order.exec_qty = order.leaves_qty;
        order.leaves_qty = 0;
        order.status = Status::Filled;
        order.exch_timestamp = timestamp;
        self.fills.push(*order);
        if respond {
            self.responses.push(*order);
        }
        Ok(())
    }

    /// Processes a new order request at `timestamp`: an order id already in the book is an
    /// error; otherwise the order is filled entirely at the best opposite price, rests in the
    /// book, or expires, as [`l3_new_order_outcome`] states.
    pub fn ack_new(&mut self, order: &mut Order, timestamp: i64) -> (r: Result<(), BacktestError>)
        requires
            old(self).queue_model.wf(),
            l3_rests(old(self).depth, *old(order)) ==> old(order).side == Side::Buy || old(order).side == Side::Sell,
        ensures
            final(self).depth == old(self).depth,
            final(self).responses@ == old(self).responses@,
            final(self).queue_model.wf(),
            old(self).queue_model.backtest_orders@.contains_key(old(order).order_id) ==> {
                &&& r == Err::<(), BacktestError>(BacktestError::OrderIdExist)
                &&& *final(order) == *old(order)
                &&& final(self).queue_model == old(self).queue_model
                &&& final(self).fills@ == old(self).fills@
            },
            !old(self).queue_model.backtest_orders@.contains_key(old(order).order_id) ==> {
                let out = l3_new_order_outcome(old(self).depth, *old(order), timestamp);
                &&& (out.2 is None ==> r is Ok)
                &&& (out.2 is Some ==> r == Err::<(), BacktestError>(out.2->0))
                &&& *final(order) == out.1
                &&& final(self).fills@ == (match out.0 {
                    Some(f) => old(self).fills@.push(f),
                    None => old(self).fills@,
                })
                &&& if l3_rests(old(self).depth, *old(order)) {
                    &&& final(self).queue_model.queues(out.1.side) == old(self).queue_model.queues(out.1.side).insert(
                        out.1.price_tick,
                        queue_at(old(self).queue_model.queues(out.1.side), out.1.price_tick).push((out.1, L3OrderSource::Backtest)),
                    )
                    &&& final(self).queue_model.queues(opposite(out.1.side)) == old(self).queue_model.queues(opposite(out.1.side))
                    &&& final(self).queue_model.backtest_orders@ == old(self).queue_model.backtest_orders@.insert(
                        out.1.order_id,
                        (out.1.side, out.1.price_tick),
                    )
                    &&& final(self).queue_model.mkt_feed_orders@ == old(self).queue_model.mkt_feed_orders@
                } else {
                    final(self).queue_model == old(self).queue_model
                }
            },
    {
        if self.queue_model.contains_backtest_order(order.order_id) {
            return Err(BacktestError::OrderIdExist);
        }
        let best = if order.side == Side::Buy {
            self.depth.best_ask_tick()
        } else {
            self.depth.best_bid_tick()
        };
        let crossing = if order.side == Side::Buy {
            order.price_tick >= best
        } else {
            order.price_tick <= best
        };
        match order.order_type {
            OrdType::Limit => {
                if crossing {
                    match order.time_in_force {
                        TimeInForce::GTX => {
                            order.status = Status::Expired;
                            order.exch_timestamp = timestamp;
                            Ok(())
                        },
                        TimeInForce::Unsupported => Err(BacktestError::InvalidOrderRequest),
                        _ => self.fill(order, timestamp, false, best, false),
                    }
                } else {
                    match order.time_in_force {
                        TimeInForce::GTC | TimeInForce::GTX => {
                            order.status = Status::New;
                            order.exch_timestamp = timestamp;
                            let r = self.queue_model.add_backtest_order(*order, &self.depth);
                            match r {
                                Ok(()) => Ok(()),
                                Err(e) => {
                                    assert(false);
                                    Err(e)
                                },
                            }
                        },
                        TimeInForce::FOK | TimeInForce::IOC => {
                            order.status = Status::Expired;
                            order.exch_timestamp = timestamp;
                            Ok(())
                        },
                        TimeInForce::Unsupported => Err(BacktestError::InvalidOrderRequest),
                    }
                }
            },
            OrdType::Market => self.fill(order, timestamp, false, best, false),
            OrdType::Unsupported => Err(BacktestError::InvalidOrderRequest),
        }
    }

    /// Processes a cancel request at `timestamp`: an order in the book leaves it and the request
    /// gets the book's order, canceled; an order not in the book (already filled or expired)
    /// gets the request rejected.
    pub fn ack_cancel(&mut self, order: &mut Order, timestamp: i64) -> (r: Result<(), BacktestError>)
        requires
            old(self).queue_model.wf(),
        ensures
            r is Ok,
            final(self).queue_model.wf(),
            final(self).depth == old(self).depth,
            final(self).fills@ == old(self).fills@,
            final(self).responses@ == old(self).responses@,
            final(self).queue_model.mkt_feed_orders@ == old(self).queue_model.mkt_feed_orders@,
            final(self).queue_model.backtest_orders@ == old(self).queue_model.backtest_orders@.remove(old(order).order_id),
            !old(self).queue_model.backtest_orders@.contains_key(old(order).order_id) ==> {
                &&& *final(order) == Order { req: Status::Rejected, exch_timestamp: timestamp, ..*old(order) }
                &&& final(self).queue_model.queues(Side::Buy) == old(self).queue_model.queues(Side::Buy)
                &&& final(self).queue_model.queues(Side::Sell) == old(self).queue_model.queues(Side::Sell)
            },
            old(self).queue_model.backtest_orders@.contains_key(old(order).order_id) ==> {
                let (side, t) = old(self).queue_model.backtest_orders@[old(order).order_id];
                let q = old(self).queue_model.queues(side)[t];
                let i = crate::backtest::models::l3queue::first_index(q, old(order).order_id, L3OrderSource::Backtest);
                &&& *final(order) == Order { status: Status::Canceled, exch_timestamp: timestamp, ..q[i].0 }
                &&& final(self).queue_model.queues(side) == old(self).queue_model.queues(side).insert(t, q.remove(i))
                &&& final(self).queue_model.queues(opposite(side)) == old(self).queue_model.queues(opposite(side))
            },
    {
        match self.queue_model.cancel_backtest_order(order.order_id, &self.depth) {
            Ok(exch_order) => {
                *order = exch_order;
                order.status = Status::Canceled;
                order.exch_timestamp = timestamp;
                Ok(())
            },
            Err(_) => {
                assert(self.queue_model.backtest_orders@ =~= old(self).queue_model.backtest_orders@.remove(old(order).order_id));
                order.req = Status::Rejected;
                order.exch_timestamp = timestamp;
                Ok(())
            },
        }
    }

    /// Processes a modify request at `timestamp`, as
    /// [`L3FIFOQueueModel::modify_backtest_order`] states; the order's leaves quantity becomes its
    /// quantity. An order not in the book gets the request rejected.
    pub fn ack_modify(&mut self, order: &mut Order, timestamp: i64) -> (r: Result<(), BacktestError>)
        requires
            old(self).queue_model.wf(),
        ensures
            r is Ok,
            final(self).queue_model.wf(),
            final(self).depth == old(self).depth,
            final(self).fills@ == old(self).fills@,
            final(self).responses@ == old(self).responses@,
            final(self).queue_model.mkt_feed_orders@ == old(self).queue_model.mkt_feed_orders@,
            !old(self).queue_model.backtest_orders@.contains_key(old(order).order_id) ==> {
                &&& *final(order) == Order { req: Status::Rejected, exch_timestamp: timestamp, ..*old(order) }
                &&& final(self).queue_model.backtest_orders@ == old(self).queue_model.backtest_orders@
                &&& final(self).queue_model.queues(Side::Buy) == old(self).queue_model.queues(Side::Buy)
                &&& final(self).queue_model.queues(Side::Sell) == old(self).queue_model.queues(Side::Sell)
            },
            old(self).queue_model.backtest_orders@.contains_key(old(order).order_id) ==> {
                let (side, t) = old(self).queue_model.backtest_orders@[old(order).order_id];
                let q = old(self).queue_model.queues(side)[t];
                let i = crate::backtest::models::l3queue::first_index(q, old(order).order_id, L3OrderSource::Backtest);
                let prev = q[i].0;
                &&& *final(order) == Order { leaves_qty: old(order).qty, exch_timestamp: timestamp, ..*old(order) }
                &&& final(self).queue_model.wf()
                &&& final(self).queue_model.queues(opposite(side)) == old(self).queue_model.queues(opposite(side))
                &&& if prev.price_tick != old(order).price_tick || prev.leaves_qty < old(order).qty {
                    let p = old(order).price_tick;
                    let removed = old(self).queue_model.queues(side).insert(t, q.remove(i));
                    &&& final(self).queue_model.queues(side) == removed.insert(
                        p,
                        queue_at(removed, p).push(
                            (crate::backtest::models::l3queue::modified_backtest(prev, *old(order)), L3OrderSource::Backtest),
                        ),
                    )
                    &&& final(self).queue_model.backtest_orders@ == old(self).queue_model.backtest_orders@.insert(
                        old(order).order_id,
                        (side, p),
                    )
                } else {
                    &&& final(self).queue_model.queues(side) == old(self).queue_model.queues(side).insert(
                        t,
                        q.update(
                            i,
                            (
                                crate::backtest::models::l3queue::resized(prev, old(order).qty, old(order).exch_timestamp),
                                L3OrderSource::Backtest,
                            ),
                        ),
                    )
                    &&& final(self).queue_model.backtest_orders@ == old(self).queue_model.backtest_orders@
                }
            },
    {
        let order_id = order.order_id;
        match self.queue_model.modify_backtest_order(order_id, order, &self.depth) {
            Ok(()) => {
                order.leaves_qty = order.qty;
                order.exch_timestamp = timestamp;
                Ok(())
            },
            Err(_) => {
                order.req = Status::Rejected;
                order.exch_timestamp = timestamp;
                Ok(())
            },
        }
    }

    /// Processes an order request received at `timestamp` and responds to the local with the
    /// order as processed: a new order, a cancel or a modify, by the request status, which is
    /// reset; any other request fails without a response.
    pub fn process_recv_order(&mut self, order: Order, timestamp: i64) -> (r: Result<(), BacktestError>)
        requires
            old(self).queue_model.wf(),
            order.req == Status::New && l3_rests(old(self).depth, order) ==> order.side == Side::Buy || order.side == Side::Sell,
        ensures
            final(self).queue_model.wf(),
            final(self).depth == old(self).depth,
            order.req != Status::New && order.req != Status::Canceled && order.req != Status::Replaced
                ==> r == Err::<(), BacktestError>(BacktestError::InvalidOrderRequest) && final(self).queue_model
                == old(self).queue_model && final(self).fills@ == old(self).fills@ && final(self).responses@
                == old(self).responses@,
            order.req == Status::New ==> {
                let o = Order { req: Status::Nil, ..order };
                let out = l3_new_order_outcome(old(self).depth, o, timestamp);
                if old(self).queue_model.backtest_orders@.contains_key(order.order_id) {
                    r == Err::<(), BacktestError>(BacktestError::OrderIdExist) && final(self).responses@ == old(self).responses@
                } else {
                    &&& (out.2 is None ==> r is Ok && final(self).responses@ == old(self).responses@.push(out.1))
                    &&& (out.2 is Some ==> r == Err::<(), BacktestError>(out.2->0))
                    &&& final(self).fills@ == (match out.0 {
                        Some(f) => old(self).fills@.push(f),
                        None => old(self).fills@,
                    })
                }
            },
            order.req == Status::Canceled ==> {
                let o = Order { req: Status::Nil, ..order };
                &&& r is Ok
                &&& final(self).fills@ == old(self).fills@
                &&& final(self).responses@ == old(self).responses@.push(
                    if old(self).queue_model.backtest_orders@.contains_key(order.order_id) {
                        let (side, t) = old(self).queue_model.backtest_orders@[order.order_id];
                        let q = old(self).queue_model.queues(side)[t];
                        let i = crate::backtest::models::l3queue::first_index(q, order.order_id, L3OrderSource::Backtest);
                        Order { status: Status::Canceled, exch_timestamp: timestamp, ..q[i].0 }
                    } else {
                        Order { req: Status::Rejected, exch_timestamp: timestamp, ..o }
                    },
                )
            },
            order.req == Status::Replaced ==> {
                let o = Order { req: Status::Nil, ..order };
                &&& r is Ok
                &&& final(self).fills@ == old(self).fills@
                &&& final(self).responses@ == old(self).responses@.push(
                    if old(self).queue_model.backtest_orders@.contains_key(order.order_id) {
                        Order { leaves_qty: o.qty, exch_timestamp: timestamp, ..o }
                    } else {
                        Order { req: Status::Rejected, exch_timestamp: timestamp, ..o }
                    },
                )
            },
    {
        let mut order = order;
        if order.req == Status::New {
            order.req = Status::Nil;
            match self.ack_new(&mut order, timestamp) {
                Err(e) => {
                    return Err(e);
                },
                Ok(()) => {},
            }
        } else if order.req == Status::Canceled {
            order.req = Status::Nil;
            let _ = self.ack_cancel(&mut order, timestamp);
        } else if order.req == Status::Replaced {
            order.req = Status::Nil;
            let _ = self.ack_modify(&mut order, timestamp);
        } else {
            return Err(BacktestError::InvalidOrderRequest);
        }
        self.responses.push(order);
        Ok(())
    }
}

impl L3NoPartialFillExchange<HashMapMarketDepth> {
    /// Clears a side (both sides for `Side::Nil`) of the depth and of the queues at
    /// `timestamp`; the backtest orders that were queued expire.
    fn clear_side(&mut self, side: Side, timestamp: i64)
        requires
            old(self).queue_model.wf(),
            side != Side::Unsupported,
        ensures
            side_cleared(
                old(self).depth,
                final(self).depth,
                old(self).queue_model,
                final(self).queue_model,
                old(self).fills@,
                old(self).responses@,
                final(self).fills@,
                final(self).responses@,
                side,
                timestamp,
            ),
    {
        self.depth.clear_orders(side);
        let expired = self.queue_model.clear_orders(side);
        let ghost xs = expired;
        let ghost qm1 = self.queue_model;
        self.expire_all(expired, timestamp);
        assert(queues_cleared(old(self).queue_model, qm1, side, xs));
        assert(self.responses@ =~= old(self).responses@ + expired_all(xs@, timestamp));
    }

    /// Processes an exchange event of the Level 3 feed at its exchange timestamp, by its flag as
    /// [`l3_event_kind`] reads it. A clear removes the side's orders from the depth and the
    /// queues, and the backtest orders that were queued expire. A new, modified or canceled
    /// order of the feed changes the depth and its queue; when a new or modified order moves
    /// the best price of its side across resting backtest orders of the other side, these are
    /// filled in turn. A fill of a feed order fills the backtest orders that its price went
    /// past and those ahead of it in its queue. Any other event changes nothing.
    pub fn process(&mut self, ev: &Event) -> (r: Result<(), BacktestError>)
        requires
            old(self).queue_model.wf(),
            l3_event_kind(ev.ev) == 4 && !old(self).depth.orders@.contains_key(ev.order_id) ==> i64::MIN
                <= qty_at(old(self).depth.bid_depth@, ev.price_tick) + ev.qty_lot <= i64::MAX,
            l3_event_kind(ev.ev) == 5 && !old(self).depth.orders@.contains_key(ev.order_id) ==> i64::MIN
                <= qty_at(old(self).depth.ask_depth@, ev.price_tick) + ev.qty_lot <= i64::MAX,
            l3_event_kind(ev.ev) == 6 && old(self).depth.orders@.contains_key(ev.order_id)
                ==> old(self).depth.modifiable(ev.order_id, ev.price_tick, ev.qty_lot),
            l3_event_kind(ev.ev) == 7 && old(self).depth.orders@.contains_key(ev.order_id)
                ==> old(self).depth.removable(ev.order_id),
            4 <= l3_event_kind(ev.ev) <= 6 && old(self).depth.best_bid_tick != INVALID_MIN
                ==> ev.price_tick - old(self).depth.best_bid_tick <= i64::MAX,
            4 <= l3_event_kind(ev.ev) <= 6 && old(self).depth.best_ask_tick != INVALID_MAX
                ==> old(self).depth.best_ask_tick - ev.price_tick <= i64::MAX,
            l3_event_kind(ev.ev) == 8 && old(self).queue_model.mkt_feed_orders@.contains_key(ev.order_id)
                && old(self).queue_model.mkt_feed_orders@[ev.order_id].0 == Side::Buy && ev.price_tick
                < old(self).depth.best_bid_tick ==> old(self).depth.best_bid_tick - (ev.price_tick + 1)
                <= i64::MAX,
            l3_event_kind(ev.ev) == 8 && old(self).queue_model.mkt_feed_orders@.contains_key(ev.order_id)
                && old(self).queue_model.mkt_feed_orders@[ev.order_id].0 != Side::Buy && ev.price_tick
                > old(self).depth.best_ask_tick ==> (ev.price_tick - 1) - old(self).depth.best_ask_tick
                <= i64::MAX,
        ensures
            r is Ok ==> final(self).queue_model.wf(),
            l3_event_kind(ev.ev) == 0 || (l3_event_kind(ev.ev) == 8 && !spec_event_is(ev.ev, BUY_EVENT)
                && !spec_event_is(ev.ev, SELL_EVENT)) ==> {
                &&& r is Ok
                &&& final(self).depth == old(self).depth
                &&& final(self).queue_model == old(self).queue_model
                &&& final(self).fills@ == old(self).fills@
                &&& final(self).responses@ == old(self).responses@
            },
            l3_event_kind(ev.ev) == 1 ==> r is Ok && side_cleared(
                old(self).depth,
                final(self).depth,
                old(self).queue_model,
                final(self).queue_model,
                old(self).fills@,
                old(self).responses@,
                final(self).fills@,
                final(self).responses@,
                Side::Buy,
                ev.exch_ts,
            ),
            l3_event_kind(ev.ev) == 2 ==> r is Ok && side_cleared(
                old(self).depth,
                final(self).depth,
                old(self).queue_model,
                final(self).queue_model,
                old(self).fills@,
                old(self).responses@,
                final(self).fills@,
                final(self).responses@,
                Side::Sell,
                ev.exch_ts,
            ),
            l3_event_kind(ev.ev) == 3 ==> r is Ok && side_cleared(
                old(self).depth,
                final(self).depth,
                old(self).queue_model,
                final(self).queue_model,
                old(self).fills@,
                old(self).responses@,
                final(self).fills@,
                final(self).responses@,
                Side::Nil,
                ev.exch_ts,
            ),
            4 <= l3_event_kind(ev.ev) <= 5 && old(self).depth.orders@.contains_key(ev.order_id) ==> {
                &&& r == Err::<(), BacktestError>(BacktestError::OrderIdExist)
                &&& final(self).depth == old(self).depth
                &&& final(self).queue_model == old(self).queue_model
                &&& final(self).fills@ == old(self).fills@
                &&& final(self).responses@ == old(self).responses@
            },
            6 <= l3_event_kind(ev.ev) <= 7 && !old(self).depth.orders@.contains_key(ev.order_id) ==> {
                &&& r == Err::<(), BacktestError>(BacktestError::OrderNotFound)
                &&& final(self).depth == old(self).depth
                &&& final(self).queue_model == old(self).queue_model
                &&& final(self).fills@ == old(self).fills@
                &&& final(self).responses@ == old(self).responses@
            },
            l3_event_kind(ev.ev) == 4 && !old(self).depth.orders@.contains_key(ev.order_id) ==> {
                &&& buy_order_added(
                    old(self).depth,
                    final(self).depth,
                    ev.order_id,
                    ev.price_tick,
                    ev.qty_lot,
                    ev.exch_ts,
                    Ok((old(self).depth.best_bid_tick, final(self).depth.best_bid_tick)),
                )
                &&& exists|qm1: L3FIFOQueueModel, r1: Result<(), BacktestError>|
                    #[trigger] feed_order_added(old(self).queue_model, qm1, *ev, r1) && (match r1 {
                        Err(e) => r == Err::<(), BacktestError>(e) && final(self).queue_model == qm1
                            && final(self).fills@ == old(self).fills@ && final(self).responses@ == old(
                            self,
                        ).responses@,
                        Ok(()) => after_bid_move(
                            qm1,
                            final(self).queue_model,
                            old(self).depth.best_bid_tick,
                            final(self).depth.best_bid_tick,
                            old(self).fills@,
                            old(self).responses@,
                            final(self).fills@,
                            final(self).responses@,
                            ev.exch_ts,
                            r,
                        ),
                    })
            },
            l3_event_kind(ev.ev) == 5 && !old(self).depth.orders@.contains_key(ev.order_id) ==> {
                &&& sell_order_added(
                    old(self).depth,
                    final(self).depth,
                    ev.order_id,
                    ev.price_tick,
                    ev.qty_lot,
                    ev.exch_ts,
                    Ok((old(self).depth.best_ask_tick, final(self).depth.best_ask_tick)),
                )
                &&& exists|qm1: L3FIFOQueueModel, r1: Result<(), BacktestError>|
                    #[trigger] feed_order_added(old(self).queue_model, qm1, *ev, r1) && (match r1 {
                        Err(e) => r == Err::<(), BacktestError>(e) && final(self).queue_model == qm1
                            && final(self).fills@ == old(self).fills@ && final(self).responses@ == old(
                            self,
                        ).responses@,
                        Ok(()) => after_ask_move(
                            qm1,
                            final(self).queue_model,
                            old(self).depth.best_ask_tick,
                            final(self).depth.best_ask_tick,
                            old(self).fills@,
                            old(self).responses@,
                            final(self).fills@,
                            final(self).responses@,
                            ev.exch_ts,
                            r,
                        ),
                    })
            },
            l3_event_kind(ev.ev) == 6 && old(self).depth.orders@.contains_key(ev.order_id) ==> {
                let buy = old(self).depth.orders@[ev.order_id].side == Side::Buy;
                &&& order_modified(
                    old(self).depth,
                    final(self).depth,
                    ev.order_id,
                    ev.price_tick,
                    ev.qty_lot,
                    ev.exch_ts,
                    if buy {
                        Ok((Side::Buy, old(self).depth.best_bid_tick, final(self).depth.best_bid_tick))
                    } else {
                        Ok((Side::Sell, old(self).depth.best_ask_tick, final(self).depth.best_ask_tick))
                    },
                )
                &&& exists|qm1: L3FIFOQueueModel, r1: Result<(), BacktestError>|
                    #[trigger] feed_order_modified(old(self).queue_model, qm1, ev.order_id, *ev, r1) && (
                    match r1 {
                        Err(e) => r == Err::<(), BacktestError>(e) && final(self).queue_model == qm1
                            && final(self).fills@ == old(self).fills@ && final(self).responses@ == old(
                            self,
                        ).responses@,
                        Ok(()) => if buy {
                            after_bid_move(
                                qm1,
                                final(self).queue_model,
                                old(self).depth.best_bid_tick,
                                final(self).depth.best_bid_tick,
                                old(self).fills@,
                                old(self).responses@,
                                final(self).fills@,
                                final(self).responses@,
                                ev.exch_ts,
                                r,
                            )
                        } else {
                            after_ask_move(
                                qm1,
                                final(self).queue_model,
                                old(self).depth.best_ask_tick,
                                final(self).depth.best_ask_tick,
                                old(self).fills@,
                                old(self).responses@,
                                final(self).fills@,
                                final(self).responses@,
                                ev.exch_ts,
                                r,
                            )
                        },
                    })
            },
            l3_event_kind(ev.ev) == 7 && old(self).depth.orders@.contains_key(ev.order_id) ==> {
                &&& exists|rd: Result<(Side, i64, i64), BacktestError>|
                    #[trigger] order_deleted(old(self).depth, final(self).depth, ev.order_id, rd)
                &&& feed_order_canceled(old(self).queue_model, final(self).queue_model, ev.order_id, r)
                &&& final(self).fills@ == old(self).fills@
                &&& final(self).responses@ == old(self).responses@
            },
            l3_event_kind(ev.ev) == 8 && (spec_event_is(ev.ev, BUY_EVENT) || spec_event_is(
                ev.ev,
                SELL_EVENT,
            )) ==> {
                &&& final(self).depth == old(self).depth
                &&& exists|x: Result<Vec<Order>, BacktestError>|
                    #[trigger] feed_order_filled(
                        old(self).queue_model,
                        final(self).queue_model,
                        ev.order_id,
                        *ev,
                        old(self).depth,
                        false,
                        x,
                    ) && (match x {
                        Err(e) => r == Err::<(), BacktestError>(e) && final(self).fills@ == old(
                            self,
                        ).fills@ && final(self).responses@ == old(self).responses@,
                        Ok(v) => filled_in_turn(
                            old(self).fills@,
                            old(self).responses@,
                            final(self).fills@,
                            final(self).responses@,
                            v@,
                            ev.exch_ts,
                            r,
                        ),
                    })
            },
    {
        proof {
            lemma_add_event_side(ev.ev);
        }
        let ts = ev.exch_ts;
        if ev.is(EXCH_BID_DEPTH_CLEAR_EVENT) {
            self.clear_side(Side::Buy, ts);
            Ok(())
        } else if ev.is(EXCH_ASK_DEPTH_CLEAR_EVENT) {
            self.clear_side(Side::Sell, ts);
            Ok(())
        } else if ev.is(EXCH_DEPTH_CLEAR_EVENT) {
            self.clear_side(Side::Nil, ts);
            Ok(())
        } else if ev.is(EXCH_BID_ADD_ORDER_EVENT) {
            let (prev, best) = match self.depth.add_buy_order(ev.order_id, ev.price_tick, ev.qty_lot, ts) {
                Ok(x) => x,
                Err(e) => return Err(e),
            };
            let ghost qm0 = self.queue_model;
            let r1 = self.queue_model.add_market_feed_order(ev, &self.depth);
            let ghost qm1 = self.queue_model;
            match r1 {
                Ok(()) => {},
                Err(e) => {
                    assert(feed_order_added(qm0, qm1, *ev, r1));
                    return Err(e);
                },
            }
            assert(feed_order_added(qm0, qm1, *ev, r1));
            if best > prev {
                let x = self.queue_model.on_best_bid_update(prev, best);
                assert(best_bid_raised(qm1, self.queue_model, prev, best, x));
                match x {
                    Ok(filled) => self.fill_in_turn(filled, ts),
                    Err(e) => Err(e),
                }
            } else {
                Ok(())
            }
        } else if ev.is(EXCH_ASK_ADD_ORDER_EVENT) {
            let (prev, best) = match self.depth.add_sell_order(ev.order_id, ev.price_tick, ev.qty_lot, ts) {
                Ok(x) => x,
                Err(e) => return Err(e),
            };
            let ghost qm0 = self.queue_model;
            let r1 = self.queue_model.add_market_feed_order(ev, &self.depth);
            let ghost qm1 = self.queue_model;
            match r1 {
                Ok(()) => {},
                Err(e) => {
                    assert(feed_order_added(qm0, qm1, *ev, r1));
                    return Err(e);
                },
            }
            assert(feed_order_added(qm0, qm1, *ev, r1));
            if best < prev {
                let x = self.queue_model.on_best_ask_update(prev, best);
                assert(best_ask_lowered(qm1, self.queue_model, prev, best, x));
                match x {
                    Ok(filled) => self.fill_in_turn(filled, ts),
                    Err(e) => Err(e),
                }
            } else {
                Ok(())
            }
        } else if ev.is(EXCH_MODIFY_ORDER_EVENT) {
            let ghost d0 = self.depth;
            let (side, prev, best) = match self.depth.modify_order(ev.order_id, ev.price_tick, ev.qty_lot, ts) {
                Ok(x) => x,
                Err(e) => return Err(e),
            };
            proof {
                let o = d0.orders@[ev.order_id];
                if o.side == Side::Buy {
                    lemma_level_below(sub_qty(d0.bid_depth@, o.price_tick, o.qty), d0.best_bid_tick, d0.low_bid_tick);
                } else {
                    lemma_level_above(sub_qty(d0.ask_depth@, o.price_tick, o.qty), d0.best_ask_tick, d0.high_ask_tick);
                }
            }
            let ghost qm0 = self.queue_model;
            let r1 = self.queue_model.modify_market_feed_order(ev.order_id, ev, &self.depth);
            let ghost qm1 = self.queue_model;
            match r1 {
                Ok(()) => {},
                Err(e) => {
                    assert(feed_order_modified(qm0, qm1, ev.order_id, *ev, r1));
                    return Err(e);
                },
            }
            assert(feed_order_modified(qm0, qm1, ev.order_id, *ev, r1));
            if side == Side::Buy {
                if best > prev {
                    let x = self.queue_model.on_best_bid_update(prev, best);
                    assert(best_bid_raised(qm1, self.queue_model, prev, best, x));
                    match x {
                        Ok(filled) => self.fill_in_turn(filled, ts),
                        Err(e) => Err(e),
                    }
                } else {
                    Ok(())
                }
            } else if best < prev {
                let x = self.queue_model.on_best_ask_update(prev, best);
                assert(best_ask_lowered(qm1, self.queue_model, prev, best, x));
                match x {
                    Ok(filled) => self.fill_in_turn(filled, ts),
                    Err(e) => Err(e),
                }
            } else {
                Ok(())
            }
        } else if ev.is(EXCH_CANCEL_ORDER_EVENT) {
            let ghost d0 = self.depth;
            let rd = self.depth.delete_order(ev.order_id, ts);
            assert(order_deleted(d0, self.depth, ev.order_id, rd));
            match rd {
                Ok(_) => {},
                Err(e) => return Err(e),
            }
            self.queue_model.cancel_market_feed_order(ev.order_id, &self.depth)
        } else if ev.is(EXCH_FILL_EVENT) {
            if ev.is(BUY_EVENT) || ev.is(SELL_EVENT) {
                let ghost qm0 = self.queue_model;
                let x = self.queue_model.fill_market_feed_order(ev.order_id, ev, &self.depth, false);
                assert(feed_order_filled(qm0, self.queue_model, ev.order_id, *ev, self.depth, false, x));
                match x {
                    Ok(filled) => self.fill_in_turn(filled, ts),
                    Err(e) => Err(e),
                }
            } else {
                Ok(())
            }
        } else {
            Ok(())
        }
    }
}

} // verus!
