//! The exchange model with partial fills.
//!
//! Supported order types are limit and market orders; supported time-in-force values are GTC,
//! GTX (post-only), FOK and IOC.
//!
//! A resting buy order is filled entirely when the best ask reaches its price or a sell trade
//! prints below it, and partially, by the traded quantity beyond its queue position, when a sell
//! trade prints at its price. Sell orders mirror this. An order that crosses the book on arrival
//! takes liquidity level by level from the book as it stands; the book itself is not changed by
//! the backtest's own executions.
//!
//! Each execution is appended to the exchange's fill log, from which the account state is
//! updated; responses to the local are appended to the response log in the order they are made.
use std::collections::HashMap;
use vstd::prelude::*;
use vstd::std_specs::iter::IteratorSpec;

use crate::backtest::models::RiskAdverseQueueModel;
use crate::backtest::BacktestError;
use crate::depth::{
    level_above, level_below, tick_range, HashMapMarketDepth, MarketDepth, INVALID_MAX, INVALID_MIN,
};
use crate::types::{
    spec_event_is, OrdType, Order, Side, Status, TimeInForce, EXCH_ASK_DEPTH_CLEAR_EVENT,
    EXCH_ASK_DEPTH_EVENT, EXCH_ASK_DEPTH_SNAPSHOT_EVENT, EXCH_BID_DEPTH_CLEAR_EVENT,
    EXCH_BID_DEPTH_EVENT, EXCH_BID_DEPTH_SNAPSHOT_EVENT, EXCH_BUY_TRADE_EVENT,
    EXCH_DEPTH_CLEAR_EVENT, EXCH_SELL_TRADE_EVENT, event_is,
};

verus! {

broadcast use vstd::std_specs::hash::group_hash_axioms;

/// A status from which an order cannot be filled.
pub open spec fn unfillable(s: Status) -> bool {
    s == Status::Expired || s == Status::Canceled || s == Status::Filled
}

/// The order after an execution of `qty` lots at `tick` (a maker execution is at the order's own
/// price): partially filled while lots are left, filled otherwise.
pub open spec fn filled_order(o: Order, ts: i64, maker: bool, tick: i64, qty: i64) -> Order {
    Order {
        maker: maker,
        exec_price_tick: if maker {
            o.price_tick
        } else {
            tick
        },
        exec_qty: qty,
        leaves_qty: (o.leaves_qty - qty) as i64,
        status: if o.leaves_qty - qty > 0 {
            Status::PartiallyFilled
        } else {
            Status::Filled
        },
        exch_timestamp: ts,
        ..o
    }
}

/// The order expired by the exchange at `ts`.
pub open spec fn expired_order(o: Order, ts: i64) -> Order {
    Order { status: Status::Expired, exch_timestamp: ts, ..o }
}

/// The order accepted into the book at `ts`.
pub open spec fn accepted_order(o: Order, ts: i64) -> Order {
    Order { status: Status::New, exch_timestamp: ts, ..o }
}

/// The smaller of a level's quantity and the order's leaves quantity.
pub open spec fn exec_qty_at(level_qty: i64, leaves: i64) -> i64 {
    if level_qty < leaves {
        level_qty
    } else {
        leaves
    }
}

/// A taker order walking the ask side up from tick `t` to `end` inclusive: at each level holding
/// a positive quantity it executes the smaller of that quantity and its leaves quantity, and it
/// stops once filled. When `every_level` is set, a filled status also stops it at an empty level.
///
/// The result is the executions (the order after each), the order afterwards, whether an
/// execution was refused for the order's status, and whether the walk stopped on a filled order.
pub open spec fn sweep_asks<MD: MarketDepth>(
    depth: MD,
    o: Order,
    t: int,
    end: int,
    ts: i64,
    every_level: bool,
) -> (Seq<Order>, Order, bool, bool)
    decreases end - t + 1,
{
    if t > end {
        (Seq::empty(), o, false, false)
    } else {
        let q = depth.ask_qty(t as i64);
        if q > 0 {
            if unfillable(o.status) {
                (Seq::empty(), o, true, false)
            } else {
                let o2 = filled_order(o, ts, false, t as i64, exec_qty_at(q, o.leaves_qty));
                if o2.status == Status::Filled {
                    (seq![o2], o2, false, true)
                } else {
                    let r = sweep_asks(depth, o2, t + 1, end, ts, every_level);
                    (seq![o2] + r.0, r.1, r.2, r.3)
                }
            }
        } else if every_level && o.status == Status::Filled {
            (Seq::empty(), o, false, true)
        } else {
            sweep_asks(depth, o, t + 1, end, ts, every_level)
        }
    }
}

/// A taker order walking the bid side down from tick `t` to `end` inclusive, as [`sweep_asks`]
/// does on the ask side.
pub open spec fn sweep_bids<MD: MarketDepth>(
    depth: MD,
    o: Order,
    t: int,
    end: int,
    ts: i64,
    every_level: bool,
) -> (Seq<Order>, Order, bool, bool)
    decreases t - end + 1,
{
    if t < end {
        (Seq::empty(), o, false, false)
    } else {
        let q = depth.bid_qty(t as i64);
        if q > 0 {
            if unfillable(o.status) {
                (Seq::empty(), o, true, false)
            } else {
                let o2 = filled_order(o, ts, false, t as i64, exec_qty_at(q, o.leaves_qty));
                if o2.status == Status::Filled {
                    (seq![o2], o2, false, true)
                } else {
                    let r = sweep_bids(depth, o2, t - 1, end, ts, every_level);
                    (seq![o2] + r.0, r.1, r.2, r.3)
                }
            }
        } else if every_level && o.status == Status::Filled {
            (Seq::empty(), o, false, true)
        } else {
            sweep_bids(depth, o, t - 1, end, ts, every_level)
        }
    }
}

/// The ask quantity accumulated from tick `t` up to `end` reaches `qty` at some level, starting
/// from `cum` lots.
pub open spec fn asks_cover<MD: MarketDepth>(depth: MD, t: int, end: int, cum: int, qty: int) -> bool
    decreases end - t + 1,
{
    if t > end {
        false
    } else {
        let c = cum + depth.ask_qty(t as i64);
        c >= qty || asks_cover(depth, t + 1, end, c, qty)
    }
}

/// The bid quantity accumulated from tick `t` down to `end` reaches `qty` at some level, starting
/// from `cum` lots.
pub open spec fn bids_cover<MD: MarketDepth>(depth: MD, t: int, end: int, cum: int, qty: int) -> bool
    decreases t - end + 1,
{
    if t < end {
        false
    } else {
        let c = cum + depth.bid_qty(t as i64);
        c >= qty || bids_cover(depth, t - 1, end, c, qty)
    }
}

/// Turns the outcome of a walk into the outcome of the request: a refused execution is an
/// error; an order that walked the whole range unfilled expires.
pub open spec fn expire_unfilled(s: (Seq<Order>, Order, bool, bool), ts: i64) -> (
    Seq<Order>,
    Order,
    Option<BacktestError>,
) {
    if s.2 {
        (s.0, s.1, Some(BacktestError::InvalidOrderStatus))
    } else if s.3 {
        (s.0, s.1, None)
    } else {
        (s.0, expired_order(s.1, ts), None)
    }
}

/// Turns the outcome of a walk into the outcome of a GTC request: an order that walked the whole
/// range unfilled executes what it has left at its own price.
pub open spec fn fill_rest_at_price(s: (Seq<Order>, Order, bool, bool), ts: i64) -> (
    Seq<Order>,
    Order,
    Option<BacktestError>,
) {
    if s.2 {
        (s.0, s.1, Some(BacktestError::InvalidOrderStatus))
    } else if s.3 {
        (s.0, s.1, None)
    } else if unfillable(s.1.status) {
        (s.0, s.1, Some(BacktestError::InvalidOrderStatus))
    } else {
        let f = filled_order(s.1, ts, false, s.1.price_tick, s.1.leaves_qty);
        (s.0.push(f), f, None)
    }
}

/// A new order has a time-in-force that the exchange cannot serve.
pub open spec fn no_outcome(o: Order) -> (Seq<Order>, Order, Option<BacktestError>) {
    (Seq::empty(), o, Some(BacktestError::InvalidOrderRequest))
}

/// The outcome of a new buy order that crosses or meets the best ask.
pub open spec fn taking_buy<MD: MarketDepth>(depth: MD, o: Order, ts: i64) -> (
    Seq<Order>,
    Order,
    Option<BacktestError>,
) {
    let best = depth.best_ask() as int;
    match o.time_in_force {
        TimeInForce::GTX => (Seq::empty(), expired_order(o, ts), None),
        TimeInForce::FOK => if asks_cover(depth, best, o.price_tick as int, 0, o.qty as int) {
            let s = sweep_asks(depth, o, best, o.price_tick as int, ts, false);
            (s.0, s.1, if s.2 { Some(BacktestError::InvalidOrderStatus) } else { None })
        } else {
            (Seq::empty(), expired_order(o, ts), None)
        },
        TimeInForce::IOC => expire_unfilled(
            sweep_asks(depth, o, best, o.price_tick as int, ts, true),
            ts,
        ),
        TimeInForce::GTC => fill_rest_at_price(
            sweep_asks(depth, o, best, o.price_tick - 1, ts, true),
            ts,
        ),
        TimeInForce::Unsupported => no_outcome(o),
    }
}

/// The outcome of a new sell order that crosses or meets the best bid.
pub open spec fn taking_sell<MD: MarketDepth>(depth: MD, o: Order, ts: i64) -> (
    Seq<Order>,
    Order,
    Option<BacktestError>,
) {
    let best = depth.best_bid() as int;
    match o.time_in_force {
        TimeInForce::GTX => (Seq::empty(), expired_order(o, ts), None),
        TimeInForce::FOK => if bids_cover(depth, best, o.price_tick as int, 0, o.qty as int) {
            let s = sweep_bids(depth, o, best, o.price_tick as int, ts, false);
            (s.0, s.1, if s.2 { Some(BacktestError::InvalidOrderStatus) } else { None })
        } else {
            (Seq::empty(), expired_order(o, ts), None)
        },
        TimeInForce::IOC => expire_unfilled(
            sweep_bids(depth, o, best, o.price_tick as int, ts, true),
            ts,
        ),
        TimeInForce::GTC => fill_rest_at_price(
            sweep_bids(depth, o, best, o.price_tick as int, ts, true),
            ts,
        ),
        TimeInForce::Unsupported => no_outcome(o),
    }
}

/// The new order is a buy order: any side but a sell is served as a buy.
pub open spec fn is_buy(o: Order) -> bool {
    o.side == Side::Buy
}

/// The new order crosses or meets the opposite best price.
pub open spec fn crosses<MD: MarketDepth>(depth: MD, o: Order) -> bool {
    if is_buy(o) {
        o.price_tick >= depth.best_ask()
    } else {
        o.price_tick <= depth.best_bid()
    }
}

/// The outcome of a new order on arrival: the executions, the order afterwards, and the error if
/// the request fails. An order that rests in the book is the one whose outcome is accepted.
pub open spec fn new_order_outcome<MD: MarketDepth>(depth: MD, o: Order, ts: i64) -> (
    Seq<Order>,
    Order,
    Option<BacktestError>,
) {
    match o.order_type {
        OrdType::Limit => if crosses(depth, o) {
            if is_buy(o) {
                taking_buy(depth, o, ts)
            } else {
                taking_sell(depth, o, ts)
            }
        } else {
            match o.time_in_force {
                TimeInForce::GTC | TimeInForce::GTX => (Seq::empty(), accepted_order(o, ts), None),
                TimeInForce::FOK | TimeInForce::IOC => (Seq::empty(), expired_order(o, ts), None),
                TimeInForce::Unsupported => no_outcome(o),
            }
        },
        OrdType::Market => if is_buy(o) {
            let best = depth.best_ask() as int;
            expire_unfilled(sweep_asks(depth, o, best, best + 99, ts, true), ts)
        } else {
            let best = depth.best_bid() as int;
            expire_unfilled(sweep_bids(depth, o, best, best - 100, ts, true), ts)
        },
        OrdType::Unsupported => no_outcome(o),
    }
}

/// The new order rests in the book.
pub open spec fn rests<MD: MarketDepth>(depth: MD, o: Order) -> bool {
    &&& o.order_type == OrdType::Limit
    &&& !crosses(depth, o)
    &&& (o.time_in_force == TimeInForce::GTC || o.time_in_force == TimeInForce::GTX)
}

/// The queue position of an order accepted into the book: the quantity resting at its price.
pub open spec fn initial_queue<MD: MarketDepth>(depth: MD, o: Order) -> i64 {
    if o.side == Side::Buy {
        depth.bid_qty(o.price_tick)
    } else {
        depth.ask_qty(o.price_tick)
    }
}

/// A crossing fill-or-kill order whose quantity the book covers up to its limit is filled by
/// the sweep over those levels, or fails for its status: the sweep does not run out of levels
/// with lots still left.
pub open spec fn fok_completes<MD: MarketDepth>(depth: MD, o: Order, ts: i64) -> bool {
    if is_buy(o) {
        let best = depth.best_ask() as int;
        let s = sweep_asks(depth, o, best, o.price_tick as int, ts, false);
        asks_cover(depth, best, o.price_tick as int, 0, o.qty as int) ==> s.2 || s.3
    } else {
        let best = depth.best_bid() as int;
        let s = sweep_bids(depth, o, best, o.price_tick as int, ts, false);
        bids_cover(depth, best, o.price_tick as int, 0, o.qty as int) ==> s.2 || s.3
    }
}

/// The inputs on which the exchange has no defined behaviour, for an order arriving at `ts`: a
/// crossing fill-or-kill order must be completed by its sweep once the book covers it, a market
/// order needs a best price from which its hundred price levels are representable, a crossing
/// sell order needs a supported time-in-force, and the quantity at the price of an order that
/// rests is not negative.
pub open spec fn servable<MD: MarketDepth>(depth: MD, o: Order, ts: i64) -> bool {
    &&& (o.order_type == OrdType::Limit && crosses(depth, o) && o.time_in_force == TimeInForce::FOK
        ==> fok_completes(depth, o, ts))
    &&& (o.order_type == OrdType::Market && is_buy(o) ==> depth.best_ask() <= i64::MAX - 100)
    &&& (o.order_type == OrdType::Market && !is_buy(o) ==> depth.best_bid() >= i64::MIN + 100)
    &&& (o.order_type == OrdType::Limit && crosses(depth, o) && !is_buy(o)
        ==> o.time_in_force != TimeInForce::Unsupported)
    &&& (rests(depth, o) ==> initial_queue(depth, o) >= 0)
}

/// A market data change that resting orders react to.
#[derive(Clone, Copy, Debug)]
pub enum BookEvent {
    /// The bid quantity at the tick changed to the quantity.
    BidQty(i64, i64),
    /// The ask quantity at the tick changed to the quantity.
    AskQty(i64, i64),
    /// The best bid rose to the tick.
    BestBidUp(i64),
    /// The best ask fell to the tick.
    BestAskDown(i64),
    /// A buyer-initiated trade printed at the tick for the quantity.
    BuyTrade(i64, i64),
    /// A seller-initiated trade printed at the tick for the quantity.
    SellTrade(i64, i64),
}

/// The whole leaves quantity of a resting order executed as a maker at its own price.
pub open spec fn maker_fill(o: Order, ts: i64) -> Order {
    filled_order(o, ts, true, o.price_tick, o.leaves_qty)
}

/// A resting order reached by the price: it executes its whole leaves quantity, or the
/// execution is refused for its status. The result is the book entry afterwards (none once the
/// order is gone), the execution, and whether the execution was refused.
pub open spec fn full_fill(e: (Order, i64), ts: i64) -> (Option<(Order, i64)>, Option<Order>, bool) {
    if unfillable(e.0.status) {
        (Some(e), None, true)
    } else {
        (None, Some(maker_fill(e.0, ts)), false)
    }
}

/// A resting order at the price of a trade of `qty` lots: the trade advances its queue position,
/// and the quantity traded beyond it, if any, executes, the order going to the front of the
/// queue. The order leaves the book only when more was traded beyond it than it has left;
/// an order whose execution takes exactly its leaves quantity stays in the book, filled.
pub open spec fn queue_fill(e: (Order, i64), qty: i64, ts: i64) -> (
    Option<(Order, i64)>,
    Option<Order>,
    bool,
) {
    let front = e.1 - qty;
    if front < 0 {
        if unfillable(e.0.status) {
            (Some((e.0, 0)), None, true)
        } else if -front > e.0.leaves_qty {
            (None, Some(maker_fill(e.0, ts)), false)
        } else {
            let f = filled_order(e.0, ts, true, e.0.price_tick, (-front) as i64);
            (Some((f, 0)), Some(f), false)
        }
    } else {
        (Some((e.0, front as i64)), None, false)
    }
}

/// A resting order after the book event at `ts`: the entry afterwards (none once the order is
/// gone), the execution, and whether an execution was refused for the order's status.
pub open spec fn entry_after(e: (Order, i64), ev: BookEvent, ts: i64) -> (
    Option<(Order, i64)>,
    Option<Order>,
    bool,
) {
    let o = e.0;
    let same = (Some(e), None::<Order>, false);
    match ev {
        BookEvent::BidQty(t, q) => if o.side == Side::Buy && o.price_tick == t && q < e.1 {
            (Some((o, q)), None, false)
        } else {
            same
        },
        BookEvent::AskQty(t, q) => if !is_buy(o) && o.price_tick == t && q < e.1 {
            (Some((o, q)), None, false)
        } else {
            same
        },
        BookEvent::BestBidUp(b) => if !is_buy(o) && o.price_tick <= b {
            full_fill(e, ts)
        } else {
            same
        },
        BookEvent::BestAskDown(a) => if is_buy(o) && o.price_tick >= a {
            full_fill(e, ts)
        } else {
            same
        },
        BookEvent::BuyTrade(p, q) => if !is_buy(o) && o.price_tick < p {
            full_fill(e, ts)
        } else if !is_buy(o) && o.price_tick == p {
            queue_fill(e, q, ts)
        } else {
            same
        },
        BookEvent::SellTrade(p, q) => if is_buy(o) && o.price_tick > p {
            full_fill(e, ts)
        } else if is_buy(o) && o.price_tick == p {
            queue_fill(e, q, ts)
        } else {
            same
        },
    }
}

/// The book after the event, once the entries in `done` have reacted to it.
pub open spec fn book_partly_after(
    m: Map<u64, (Order, i64)>,
    done: Set<u64>,
    ev: BookEvent,
    ts: i64,
) -> Map<u64, (Order, i64)> {
    Map::new(
        |id: u64| m.contains_key(id) && (done.contains(id) ==> entry_after(m[id], ev, ts).0 is Some),
        |id: u64|
            if done.contains(id) {
                entry_after(m[id], ev, ts).0->0
            } else {
                m[id]
            },
    )
}

/// The book after every resting order has reacted to the event.
pub open spec fn book_after(m: Map<u64, (Order, i64)>, ev: BookEvent, ts: i64) -> Map<
    u64,
    (Order, i64),
> {
    book_partly_after(m, m.dom(), ev, ts)
}

/// The executions of the resting orders `ids`, in that order, on the event.
pub open spec fn fills_on(m: Map<u64, (Order, i64)>, ids: Seq<u64>, ev: BookEvent, ts: i64) -> Seq<
    Order,
>
    decreases ids.len(),
{
    if ids.len() == 0 {
        Seq::empty()
    } else {
        let prev = fills_on(m, ids.drop_last(), ev, ts);
        match entry_after(m[ids.last()], ev, ts).1 {
            Some(f) => prev.push(f),
            None => prev,
        }
    }
}

/// Some resting order cannot execute on the event for its status.
pub open spec fn refused_on(m: Map<u64, (Order, i64)>, ev: BookEvent, ts: i64) -> bool {
    exists|id: u64| m.contains_key(id) && #[trigger] entry_after(m[id], ev, ts).2
}

/// Each resting order is a GTC or GTX limit order kept under its own id, with a queue position
/// that is never negative.
pub open spec fn book_wf(m: Map<u64, (Order, i64)>) -> bool {
    forall|id: u64| #[trigger]
        m.contains_key(id) ==> {
            &&& m[id].1 >= 0
            &&& m[id].0.order_id == id
            &&& m[id].0.order_type == OrdType::Limit
            &&& (m[id].0.time_in_force == TimeInForce::GTC || m[id].0.time_in_force
                == TimeInForce::GTX)
        }
}

/// The outcome `r` of every resting order of book `m` reacting to the event, with fill log `f0`
/// and response log `r0`, is book `m2` with logs `f2` and `r2`: the event fails exactly when an
/// order that must execute cannot be filled for its status; otherwise the book is as
/// [`book_after`] states and the executions are logged and responded in the order the orders
/// are visited, each order once.
pub open spec fn reacted(
    m: Map<u64, (Order, i64)>,
    f0: Seq<Order>,
    r0: Seq<Order>,
    m2: Map<u64, (Order, i64)>,
    f2: Seq<Order>,
    r2: Seq<Order>,
    ev: BookEvent,
    ts: i64,
    r: Result<(), BacktestError>,
) -> bool {
    &&& (r is Err <==> refused_on(m, ev, ts))
    &&& (r is Err ==> r == Err::<(), BacktestError>(BacktestError::InvalidOrderStatus))
    &&& (r is Ok ==> {
        &&& m2 == book_after(m, ev, ts)
        &&& book_wf(m2)
        &&& exists|ids: Seq<u64>|
            #![trigger fills_on(m, ids, ev, ts)]
            {
                &&& ids.no_duplicates()
                &&& ids.to_set() == m.dom()
                &&& f2 == f0 + fills_on(m, ids, ev, ts)
                &&& r2 == r0 + fills_on(m, ids, ev, ts)
            }
    })
}

/// A quantity change at a price level executes nothing and refuses nothing.
pub proof fn lemma_qty_change_fills_nothing(
    m: Map<u64, (Order, i64)>,
    ids: Seq<u64>,
    ev: BookEvent,
    ts: i64,
)
    requires
        ev is BidQty || ev is AskQty,
    ensures
        fills_on(m, ids, ev, ts) == Seq::<Order>::empty(),
        !refused_on(m, ev, ts),
    decreases ids.len(),
{
    if ids.len() > 0 {
        lemma_qty_change_fills_nothing(m, ids.drop_last(), ev, ts);
    }
}

/// A trade of `qty` lots printed at a resting order's own price, by the side it trades against:
/// a buyer-initiated trade for a sell order, a seller-initiated one for a buy order.
pub open spec fn trade_at_price(o: Order, qty: i64) -> BookEvent {
    if is_buy(o) {
        BookEvent::SellTrade(o.price_tick, qty)
    } else {
        BookEvent::BuyTrade(o.price_tick, qty)
    }
}

/// A trade at a resting order's price that does not reach past the order moves it up the queue
/// by exactly the traded quantity and executes nothing, leaving the order as it was.
pub proof fn lemma_trade_advances_queue(e: (Order, i64), qty: i64, ts: i64)
    requires
        0 <= qty <= e.1,
    ensures
        entry_after(e, trade_at_price(e.0, qty), ts).0 == Some((e.0, (e.1 - qty) as i64)),
        entry_after(e, trade_at_price(e.0, qty), ts).1 is None,
        !entry_after(e, trade_at_price(e.0, qty), ts).2,
{
}

/// When the quantity at a resting order's price level changes to `q`, the order's queue position
/// becomes the smaller of its position and `q` (the lots that left are taken as ahead of it),
/// and nothing executes; a change at another price or on the other side leaves it as it was.
pub proof fn lemma_level_change_caps_queue(e: (Order, i64), t: i64, q: i64, ts: i64)
    ensures
        ({
            let ev = if is_buy(e.0) {
                BookEvent::BidQty(t, q)
            } else {
                BookEvent::AskQty(t, q)
            };
            let a = entry_after(e, ev, ts);
            &&& a.1 is None
            &&& !a.2
            &&& t == e.0.price_tick ==> a.0 == Some((e.0, if q < e.1 {
                q
            } else {
                e.1
            }))
            &&& t != e.0.price_tick ==> a.0 == Some(e)
        }),
        entry_after(e, if is_buy(e.0) {
            BookEvent::AskQty(t, q)
        } else {
            BookEvent::BidQty(t, q)
        }, ts) == (Some(e), None::<Order>, false),
{
}

/// A trade printed through a resting order's price (a buyer-initiated trade above a sell order,
/// a seller-initiated one below a buy order) fills the order's whole leaves quantity as a maker
/// at its own price, and the order leaves the book.
pub proof fn lemma_trade_through_fills(e: (Order, i64), p: i64, qty: i64, ts: i64)
    requires
        !unfillable(e.0.status),
        if is_buy(e.0) {
            p < e.0.price_tick
        } else {
            p > e.0.price_tick
        },
    ensures
        ({
            let ev = if is_buy(e.0) {
                BookEvent::SellTrade(p, qty)
            } else {
                BookEvent::BuyTrade(p, qty)
            };
            let a = entry_after(e, ev, ts);
            &&& a.0 is None
            &&& !a.2
            &&& a.1 is Some
            &&& a.1->0.exec_qty == e.0.leaves_qty
            &&& a.1->0.leaves_qty == 0
            &&& a.1->0.status == Status::Filled
            &&& a.1->0.maker
            &&& a.1->0.exec_price_tick == e.0.price_tick
        }),
{
}

/// Trades at a resting order's price accumulate: after a first trade of `q1` lots that does not
/// reach past the order, a second one of `q2` lots leaves it `e.1 - q1 - q2` lots from the front
/// when the two together do not reach past it; when they go past it by `x` lots, the order
/// executes `x` lots (all it has left, if fewer) as a maker at its own price, goes to the front
/// of the queue, and leaves the book only once nothing is left of it.
pub proof fn lemma_trades_accumulate(e: (Order, i64), q1: i64, q2: i64, ts1: i64, ts2: i64)
    requires
        0 <= q1 <= e.1,
        0 <= q2,
        e.1 - q1 - q2 >= i64::MIN,
        !unfillable(e.0.status),
        0 < e.0.leaves_qty,
    ensures
        ({
            let a = entry_after(e, trade_at_price(e.0, q1), ts1);
            let b = entry_after(a.0->0, trade_at_price(e.0, q2), ts2);
            let past = q1 + q2 - e.1;
            &&& !b.2
            &&& past <= 0 ==> b.0 == Some((e.0, (e.1 - q1 - q2) as i64)) && b.1 is None
            &&& past > 0 ==> {
                &&& b.1 is Some
                &&& b.1->0.exec_qty == (if past < e.0.leaves_qty {
                    past
                } else {
                    e.0.leaves_qty as int
                })
                &&& b.1->0.maker
                &&& b.1->0.exec_price_tick == e.0.price_tick
                &&& b.1->0.leaves_qty == e.0.leaves_qty - b.1->0.exec_qty
                &&& (b.0 is None <==> past > e.0.leaves_qty)
                &&& b.0 matches Some(x) ==> x.1 == 0 && x.0 == b.1->0
            }
        }),
{
    lemma_trade_advances_queue(e, q1, ts1);
    let a = entry_after(e, trade_at_price(e.0, q1), ts1);
    assert(a.0->0 == (e.0, (e.1 - q1) as i64));
}

/// How the exchange reads an event flag, in the order it tests the flags: 1 a bid clear, 2 an
/// ask clear, 3 a clear of both sides, 4 a bid depth change, 5 an ask depth change, 6 a buy
/// trade, 7 a sell trade, 0 anything else.
pub open spec fn exch_event_kind(ev: u64) -> int {
    if spec_event_is(ev, EXCH_BID_DEPTH_CLEAR_EVENT) {
        1
    } else if spec_event_is(ev, EXCH_ASK_DEPTH_CLEAR_EVENT) {
        2
    } else if spec_event_is(ev, EXCH_DEPTH_CLEAR_EVENT) {
        3
    } else if spec_event_is(ev, EXCH_BID_DEPTH_EVENT) || spec_event_is(
        ev,
        EXCH_BID_DEPTH_SNAPSHOT_EVENT,
    ) {
        4
    } else if spec_event_is(ev, EXCH_ASK_DEPTH_EVENT) || spec_event_is(
        ev,
        EXCH_ASK_DEPTH_SNAPSHOT_EVENT,
    ) {
        5
    } else if spec_event_is(ev, EXCH_BUY_TRADE_EVENT) {
        6
    } else if spec_event_is(ev, EXCH_SELL_TRADE_EVENT) {
        7
    } else {
        0
    }
}

/// `d2` is `d` after its bid side at `p` is set to `q` lots, as
/// [`HashMapMarketDepth::update_bid_depth`] does it.
pub open spec fn bid_level_set(d: HashMapMarketDepth, d2: HashMapMarketDepth, p: i64, q: i64) -> bool {
    &&& d2.bid_depth@ == (if q > 0 {
        d.bid_depth@.insert(p, q)
    } else {
        d.bid_depth@.remove(p)
    })
    &&& d2.ask_depth@ == d.ask_depth@
    &&& d2.orders@ == d.orders@
    &&& d2.timestamp == d.timestamp
    &&& d2.high_ask_tick == d.high_ask_tick
    &&& (q == 0 && p == d.best_bid_tick ==> {
        &&& d2.best_bid_tick == level_below(d2.bid_depth@, d.best_bid_tick, d.low_bid_tick)
        &&& d2.low_bid_tick == (if d2.best_bid_tick == INVALID_MIN {
            INVALID_MAX
        } else {
            d.low_bid_tick
        })
        &&& d2.best_ask_tick == d.best_ask_tick
    })
    &&& (q == 0 && p != d.best_bid_tick ==> {
        &&& d2.best_bid_tick == d.best_bid_tick
        &&& d2.low_bid_tick == d.low_bid_tick
        &&& d2.best_ask_tick == d.best_ask_tick
    })
    &&& (q != 0 ==> {
        &&& d2.best_bid_tick == (if p > d.best_bid_tick {
            p
        } else {
            d.best_bid_tick
        })
        &&& d2.low_bid_tick == (if p < d.low_bid_tick {
            p
        } else {
            d.low_bid_tick
        })
        &&& d2.best_ask_tick == (if p > d.best_bid_tick && p >= d.best_ask_tick {
            level_above(d.ask_depth@, p, d.high_ask_tick)
        } else {
            d.best_ask_tick
        })
    })
}

/// `d2` is `d` after its ask side at `p` is set to `q` lots, as
/// [`HashMapMarketDepth::update_ask_depth`] does it.
pub open spec fn ask_level_set(d: HashMapMarketDepth, d2: HashMapMarketDepth, p: i64, q: i64) -> bool {
    &&& d2.ask_depth@ == (if q > 0 {
        d.ask_depth@.insert(p, q)
    } else {
        d.ask_depth@.remove(p)
    })
    &&& d2.bid_depth@ == d.bid_depth@
    &&& d2.orders@ == d.orders@
    &&& d2.timestamp == d.timestamp
    &&& d2.low_bid_tick == d.low_bid_tick
    &&& (q == 0 && p == d.best_ask_tick ==> {
        &&& d2.best_ask_tick == level_above(d2.ask_depth@, d.best_ask_tick, d.high_ask_tick)
        &&& d2.high_ask_tick == (if d2.best_ask_tick == INVALID_MAX {
            INVALID_MIN
        } else {
            d.high_ask_tick
        })
        &&& d2.best_bid_tick == d.best_bid_tick
    })
    &&& (q == 0 && p != d.best_ask_tick ==> {
        &&& d2.best_ask_tick == d.best_ask_tick
        &&& d2.high_ask_tick == d.high_ask_tick
        &&& d2.best_bid_tick == d.best_bid_tick
    })
    &&& (q != 0 ==> {
        &&& d2.best_ask_tick == (if p < d.best_ask_tick {
            p
        } else {
            d.best_ask_tick
        })
        &&& d2.high_ask_tick == (if p > d.high_ask_tick {
            p
        } else {
            d.high_ask_tick
        })
        &&& d2.best_bid_tick == (if p < d.best_ask_tick && p <= d.best_bid_tick {
            level_below(d.bid_depth@, p, d.low_bid_tick)
        } else {
            d.best_bid_tick
        })
    })
}

/// `d2` is `d` after a clear of the bid side from `upto` up (every level for `None`), as
/// [`HashMapMarketDepth::clear_depth`] does it.
pub open spec fn bids_cleared(d: HashMapMarketDepth, d2: HashMapMarketDepth, upto: Option<i64>) -> bool {
    &&& d2.orders@ == d.orders@
    &&& d2.timestamp == d.timestamp
    &&& d2.ask_depth@ == d.ask_depth@
    &&& d2.best_ask_tick == d.best_ask_tick
    &&& d2.high_ask_tick == d.high_ask_tick
    &&& match upto {
        Some(c) => {
            &&& d2.bid_depth@ == (if d.best_bid_tick != INVALID_MIN {
                d.bid_depth@.remove_keys(tick_range(c, d.best_bid_tick))
            } else {
                d.bid_depth@
            })
            &&& d2.best_bid_tick == level_below(d2.bid_depth@, (c - 1) as i64, d.low_bid_tick)
        },
        None => {
            &&& d2.bid_depth@ == Map::<i64, i64>::empty()
            &&& d2.best_bid_tick == INVALID_MIN
        },
    }
    &&& d2.low_bid_tick == (if d2.best_bid_tick == INVALID_MIN {
        INVALID_MAX
    } else {
        d.low_bid_tick
    })
}

/// `d2` is `d` after a clear of the ask side from `upto` down (every level for `None`), as
/// [`HashMapMarketDepth::clear_depth`] does it.
pub open spec fn asks_cleared(d: HashMapMarketDepth, d2: HashMapMarketDepth, upto: Option<i64>) -> bool {
    &&& d2.orders@ == d.orders@
    &&& d2.timestamp == d.timestamp
    &&& d2.bid_depth@ == d.bid_depth@
    &&& d2.best_bid_tick == d.best_bid_tick
    &&& d2.low_bid_tick == d.low_bid_tick
    &&& match upto {
        Some(c) => {
            &&& d2.ask_depth@ == (if d.best_ask_tick != INVALID_MAX {
                d.ask_depth@.remove_keys(tick_range(d.best_ask_tick, c))
            } else {
                d.ask_depth@
            })
            &&& d2.best_ask_tick == level_above(d2.ask_depth@, (c + 1) as i64, d.high_ask_tick)
        },
        None => {
            &&& d2.ask_depth@ == Map::<i64, i64>::empty()
            &&& d2.best_ask_tick == INVALID_MAX
        },
    }
    &&& d2.high_ask_tick == (if d2.best_ask_tick == INVALID_MAX {
        INVALID_MIN
    } else {
        d.high_ask_tick
    })
}

/// `d2` is `d` with both sides cleared.
pub open spec fn all_cleared(d: HashMapMarketDepth, d2: HashMapMarketDepth) -> bool {
    &&& d2.orders@ == d.orders@
    &&& d2.timestamp == d.timestamp
    &&& d2.bid_depth@ == Map::<i64, i64>::empty()
    &&& d2.ask_depth@ == Map::<i64, i64>::empty()
    &&& d2.best_bid_tick == INVALID_MIN
    &&& d2.best_ask_tick == INVALID_MAX
    &&& d2.low_bid_tick == INVALID_MAX
    &&& d2.high_ask_tick == INVALID_MIN
}

/// The order with `qty` lots executed as a maker at its price.
fn maker_exec(o: Order, ts: i64, qty: i64) -> (r: Order)
    requires
        i64::MIN <= o.leaves_qty - qty <= i64::MAX,
    ensures
        r == filled_order(o, ts, true, o.price_tick, qty),
{
    let leaves_qty = o.leaves_qty - qty;
    Order {
        maker: true,
        exec_price_tick: o.price_tick,
        exec_qty: qty,
        leaves_qty,
        status: if leaves_qty > 0 {
            Status::PartiallyFilled
        } else {
            Status::Filled
        },
        exch_timestamp: ts,
        ..o
    }
}

/// The reaction of one resting order to the book event, as [`entry_after`] states.
fn react(e: (Order, i64), ev: BookEvent, ts: i64) -> (r: (Option<(Order, i64)>, Option<Order>, bool))
    requires
        e.1 >= 0,
        ev matches BookEvent::BuyTrade(_, q) ==> q >= 0,
        ev matches BookEvent::SellTrade(_, q) ==> q >= 0,
    ensures
        r == entry_after(e, ev, ts),
{
    let o = e.0;
    let bad = o.status == Status::Expired || o.status == Status::Canceled || o.status
        == Status::Filled;
    let full = if bad {
        (Some(e), None, true)
    } else {
        (None, Some(maker_exec(o, ts, o.leaves_qty)), false)
    };
    match ev {
        BookEvent::BidQty(t, q) => if o.side == Side::Buy && o.price_tick == t && q < e.1 {
            (Some((o, q)), None, false)
        } else {
            (Some(e), None, false)
        },
        BookEvent::AskQty(t, q) => if o.side != Side::Buy && o.price_tick == t && q < e.1 {
            (Some((o, q)), None, false)
        } else {
            (Some(e), None, false)
        },
        BookEvent::BestBidUp(b) => if o.side != Side::Buy && o.price_tick <= b {
            full
        } else {
            (Some(e), None, false)
        },
        BookEvent::BestAskDown(a) => if o.side == Side::Buy && o.price_tick >= a {
            full
        } else {
            (Some(e), None, false)
        },
        BookEvent::BuyTrade(p, q) => if o.side != Side::Buy && o.price_tick < p {
            full
        } else if o.side != Side::Buy && o.price_tick == p {
            react_in_queue(e, q, ts)
        } else {
            (Some(e), None, false)
        },
        BookEvent::SellTrade(p, q) => if o.side == Side::Buy && o.price_tick > p {
            full
        } else if o.side == Side::Buy && o.price_tick == p {
            react_in_queue(e, q, ts)
        } else {
            (Some(e), None, false)
        },
    }
}

/// The reaction of a resting order to a trade at its price, as [`queue_fill`] states.
fn react_in_queue(e: (Order, i64), qty: i64, ts: i64) -> (r: (
    Option<(Order, i64)>,
    Option<Order>,
    bool,
))
    requires
        e.1 >= 0,
        qty >= 0,
    ensures
        r == queue_fill(e, qty, ts),
{
    let o = e.0;
    let front = e.1 - qty;
    if front < 0 {
        let filled = -front;
        if o.status == Status::Expired || o.status == Status::Canceled || o.status
            == Status::Filled {
            (Some((o, 0)), None, true)
        } else if filled > o.leaves_qty {
            (None, Some(maker_exec(o, ts, o.leaves_qty)), false)
        } else {
            let f = maker_exec(o, ts, filled);
            (Some((f, 0)), Some(f), false)
        }
    } else {
        (Some((o, front)), None, false)
    }
}

/// The total quantity of a sequence of executions.
pub open spec fn executed(s: Seq<Order>) -> int
    decreases s.len(),
{
    if s.len() == 0 {
        0
    } else {
        executed(s.drop_last()) + s.last().exec_qty
    }
}

proof fn lemma_executed_prepend(o: Order, s: Seq<Order>)
    ensures
        executed(seq![o] + s) == o.exec_qty + executed(s),
    decreases s.len(),
{
    let t = seq![o] + s;
    if s.len() == 0 {
        assert(t.drop_last() =~= Seq::<Order>::empty());
        assert(t.last() == o);
        assert(executed(t) == executed(t.drop_last()) + t.last().exec_qty);
    } else {
        lemma_executed_prepend(o, s.drop_last());
        assert(t.drop_last() =~= seq![o] + s.drop_last());
        assert(t.last() == s.last());
        assert(executed(t) == executed(t.drop_last()) + t.last().exec_qty);
        assert(executed(s) == executed(s.drop_last()) + s.last().exec_qty);
    }
}

/// Walking the ask side conserves quantity: what is executed plus what is left is what the
/// order had left, and every execution is a taker execution at a level within the walked range.
pub proof fn lemma_sweep_asks_conserves<MD: MarketDepth>(
    depth: MD,
    o: Order,
    t: int,
    end: int,
    ts: i64,
    every_level: bool,
)
    requires
        i64::MIN <= t,
        end <= i64::MAX,
    ensures
        ({
            let s = sweep_asks(depth, o, t, end, ts, every_level);
            &&& executed(s.0) + s.1.leaves_qty == o.leaves_qty
            &&& forall|i: int|
                0 <= i < s.0.len() ==> t <= (#[trigger] s.0[i]).exec_price_tick <= end
                    && !s.0[i].maker
        }),
    decreases end - t + 1,
{
    if t <= end {
        let q = depth.ask_qty(t as i64);
        if q > 0 && !unfillable(o.status) {
            let o2 = filled_order(o, ts, false, t as i64, exec_qty_at(q, o.leaves_qty));
            if o2.status != Status::Filled {
                lemma_sweep_asks_conserves(depth, o2, t + 1, end, ts, every_level);
                let r = sweep_asks(depth, o2, t + 1, end, ts, every_level);
                lemma_executed_prepend(o2, r.0);
                assert forall|i: int| 0 < i < 1 + r.0.len() implies t <= (#[trigger] (seq![o2]
                    + r.0)[i]).exec_price_tick <= end by {
                    assert((seq![o2] + r.0)[i] == r.0[i - 1]);
                }
            } else {
                lemma_executed_prepend(o2, Seq::<Order>::empty());
                assert(seq![o2] + Seq::<Order>::empty() =~= seq![o2]);
            }
        } else if q <= 0 && !(every_level && o.status == Status::Filled) {
            lemma_sweep_asks_conserves(depth, o, t + 1, end, ts, every_level);
        }
    }
}

/// Walking the bid side conserves quantity: what is executed plus what is left is what the
/// order had left, and every execution is a taker execution at a level within the walked range.
pub proof fn lemma_sweep_bids_conserves<MD: MarketDepth>(
    depth: MD,
    o: Order,
    t: int,
    end: int,
    ts: i64,
    every_level: bool,
)
    requires
        t <= i64::MAX,
        i64::MIN <= end,
    ensures
        ({
            let s = sweep_bids(depth, o, t, end, ts, every_level);
            &&& executed(s.0) + s.1.leaves_qty == o.leaves_qty
            &&& forall|i: int|
                0 <= i < s.0.len() ==> end <= (#[trigger] s.0[i]).exec_price_tick <= t
                    && !s.0[i].maker
        }),
    decreases t - end + 1,
{
    if t >= end {
        let q = depth.bid_qty(t as i64);
        if q > 0 && !unfillable(o.status) {
            let o2 = filled_order(o, ts, false, t as i64, exec_qty_at(q, o.leaves_qty));
            if o2.status != Status::Filled {
                lemma_sweep_bids_conserves(depth, o2, t - 1, end, ts, every_level);
                let r = sweep_bids(depth, o2, t - 1, end, ts, every_level);
                lemma_executed_prepend(o2, r.0);
                assert forall|i: int| 0 < i < 1 + r.0.len() implies end <= (#[trigger] (seq![o2]
                    + r.0)[i]).exec_price_tick <= t by {
                    assert((seq![o2] + r.0)[i] == r.0[i - 1]);
                }
            } else {
                lemma_executed_prepend(o2, Seq::<Order>::empty());
                assert(seq![o2] + Seq::<Order>::empty() =~= seq![o2]);
            }
        } else if q <= 0 && !(every_level && o.status == Status::Filled) {
            lemma_sweep_bids_conserves(depth, o, t - 1, end, ts, every_level);
        }
    }
}

proof fn lemma_covered_asks_fill<MD: MarketDepth>(
    depth: MD,
    o: Order,
    t: int,
    end: int,
    cum: int,
    qty: int,
    ts: i64,
)
    requires
        asks_cover(depth, t, end, cum, qty),
        0 < o.leaves_qty <= qty - cum,
        !unfillable(o.status),
    ensures
        !sweep_asks(depth, o, t, end, ts, false).2,
        sweep_asks(depth, o, t, end, ts, false).3,
        sweep_asks(depth, o, t, end, ts, false).1.status == Status::Filled,
        sweep_asks(depth, o, t, end, ts, false).1.leaves_qty == 0,
    decreases end - t + 1,
{
    let q = depth.ask_qty(t as i64);
    if q > 0 {
        let o2 = filled_order(o, ts, false, t as i64, exec_qty_at(q, o.leaves_qty));
        if o2.status != Status::Filled {
            lemma_covered_asks_fill(depth, o2, t + 1, end, cum + q, qty, ts);
        }
    } else {
        lemma_covered_asks_fill(depth, o, t + 1, end, cum + q, qty, ts);
    }
}

proof fn lemma_covered_bids_fill<MD: MarketDepth>(
    depth: MD,
    o: Order,
    t: int,
    end: int,
    cum: int,
    qty: int,
    ts: i64,
)
    requires
        bids_cover(depth, t, end, cum, qty),
        0 < o.leaves_qty <= qty - cum,
        !unfillable(o.status),
    ensures
        !sweep_bids(depth, o, t, end, ts, false).2,
        sweep_bids(depth, o, t, end, ts, false).3,
        sweep_bids(depth, o, t, end, ts, false).1.status == Status::Filled,
        sweep_bids(depth, o, t, end, ts, false).1.leaves_qty == 0,
    decreases t - end + 1,
{
    let q = depth.bid_qty(t as i64);
    if q > 0 {
        let o2 = filled_order(o, ts, false, t as i64, exec_qty_at(q, o.leaves_qty));
        if o2.status != Status::Filled {
            lemma_covered_bids_fill(depth, o2, t - 1, end, cum + q, qty, ts);
        }
    } else {
        lemma_covered_bids_fill(depth, o, t - 1, end, cum + q, qty, ts);
    }
}

/// A fill-or-kill order is executed immediately in its entirety or not at all: a crossing
/// fill-or-kill order either expires with no execution, or is filled with executions that add up
/// to its whole leaves quantity, each at a price no worse than its limit.
pub proof fn lemma_fill_or_kill<MD: MarketDepth>(depth: MD, o: Order, ts: i64)
    requires
        o.order_type == OrdType::Limit,
        o.time_in_force == TimeInForce::FOK,
        crosses(depth, o),
        0 < o.leaves_qty <= o.qty,
        !unfillable(o.status),
    ensures
        ({
            let out = new_order_outcome(depth, o, ts);
            &&& out.2 is None
            &&& (out.0.len() == 0 && out.1.status == Status::Expired) || (out.1.status
                == Status::Filled && executed(out.0) == o.leaves_qty && out.1.leaves_qty == 0)
            &&& forall|i: int|
                0 <= i < out.0.len() ==> (if is_buy(o) {
                    (#[trigger] out.0[i]).exec_price_tick <= o.price_tick
                } else {
                    out.0[i].exec_price_tick >= o.price_tick
                })
        }),
{
    if is_buy(o) {
        let best = depth.best_ask() as int;
        if asks_cover(depth, best, o.price_tick as int, 0, o.qty as int) {
            lemma_covered_asks_fill(depth, o, best, o.price_tick as int, 0, o.qty as int, ts);
            lemma_sweep_asks_conserves(depth, o, best, o.price_tick as int, ts, false);
        }
    } else {
        let best = depth.best_bid() as int;
        if bids_cover(depth, best, o.price_tick as int, 0, o.qty as int) {
            lemma_covered_bids_fill(depth, o, best, o.price_tick as int, 0, o.qty as int, ts);
            lemma_sweep_bids_conserves(depth, o, best, o.price_tick as int, ts, false);
        }
    }
}

/// Only GTC and GTX limit orders that do not cross rest in the book; a post-only (GTX) order
/// never takes liquidity; an IOC or market order never rests and ends filled or expired.
pub proof fn lemma_time_in_force<MD: MarketDepth>(depth: MD, o: Order, ts: i64)
    requires
        !unfillable(o.status),
    ensures
        o.time_in_force == TimeInForce::GTX && o.order_type == OrdType::Limit ==> new_order_outcome(
            depth,
            o,
            ts,
        ).0.len() == 0,
        (o.time_in_force == TimeInForce::IOC && o.order_type == OrdType::Limit)
            || o.order_type == OrdType::Market ==> {
            let out = new_order_outcome(depth, o, ts);
            &&& !rests(depth, o)
            &&& out.2 is None
            &&& out.1.status == Status::Filled || out.1.status == Status::Expired
        },
{
    let out = new_order_outcome(depth, o, ts);
    if o.order_type == OrdType::Market {
        if is_buy(o) {
            let best = depth.best_ask() as int;
            lemma_sweep_status_asks(depth, o, best, best + 99, ts);
        } else {
            let best = depth.best_bid() as int;
            lemma_sweep_status_bids(depth, o, best, best - 100, ts);
        }
    } else if o.time_in_force == TimeInForce::IOC && o.order_type == OrdType::Limit && crosses(
        depth,
        o,
    ) {
        if is_buy(o) {
            lemma_sweep_status_asks(depth, o, depth.best_ask() as int, o.price_tick as int, ts);
        } else {
            lemma_sweep_status_bids(depth, o, depth.best_bid() as int, o.price_tick as int, ts);
        }
    }
}

/// A walk that stops at every level keeps the order's price, never refuses a fillable order, and
/// ends either filled with nothing left or still fillable.
proof fn lemma_sweep_ends_asks<MD: MarketDepth>(depth: MD, o: Order, t: int, end: int, ts: i64)
    requires
        !unfillable(o.status),
        o.leaves_qty >= 0,
    ensures
        ({
            let s = sweep_asks(depth, o, t, end, ts, true);
            &&& !s.2
            &&& s.1.price_tick == o.price_tick
            &&& s.3 ==> s.1.status == Status::Filled && s.1.leaves_qty == 0
            &&& !s.3 ==> !unfillable(s.1.status)
        }),
    decreases end - t + 1,
{
    if t <= end {
        let q = depth.ask_qty(t as i64);
        if q > 0 {
            let o2 = filled_order(o, ts, false, t as i64, exec_qty_at(q, o.leaves_qty));
            if o2.status != Status::Filled {
                lemma_sweep_ends_asks(depth, o2, t + 1, end, ts);
            }
        } else {
            lemma_sweep_ends_asks(depth, o, t + 1, end, ts);
        }
    }
}

/// The bid-side walk of [`lemma_sweep_ends_asks`].
proof fn lemma_sweep_ends_bids<MD: MarketDepth>(depth: MD, o: Order, t: int, end: int, ts: i64)
    requires
        !unfillable(o.status),
        o.leaves_qty >= 0,
    ensures
        ({
            let s = sweep_bids(depth, o, t, end, ts, true);
            &&& !s.2
            &&& s.1.price_tick == o.price_tick
            &&& s.3 ==> s.1.status == Status::Filled && s.1.leaves_qty == 0
            &&& !s.3 ==> !unfillable(s.1.status)
        }),
    decreases t - end + 1,
{
    if t >= end {
        let q = depth.bid_qty(t as i64);
        if q > 0 {
            let o2 = filled_order(o, ts, false, t as i64, exec_qty_at(q, o.leaves_qty));
            if o2.status != Status::Filled {
                lemma_sweep_ends_bids(depth, o2, t - 1, end, ts);
            }
        } else {
            lemma_sweep_ends_bids(depth, o, t - 1, end, ts);
        }
    }
}

/// The lots resting on the ask side from tick `t` up to `end` inclusive (levels holding a positive
/// quantity).
pub open spec fn asks_total<MD: MarketDepth>(depth: MD, t: int, end: int) -> int
    decreases end - t + 1,
{
    if t > end {
        0
    } else {
        let q = depth.ask_qty(t as i64);
        (if q > 0 {
            q as int
        } else {
            0
        }) + asks_total(depth, t + 1, end)
    }
}

/// The lots resting on the bid side from tick `t` down to `end` inclusive (levels holding a
/// positive quantity).
pub open spec fn bids_total<MD: MarketDepth>(depth: MD, t: int, end: int) -> int
    decreases t - end + 1,
{
    if t < end {
        0
    } else {
        let q = depth.bid_qty(t as i64);
        (if q > 0 {
            q as int
        } else {
            0
        }) + bids_total(depth, t - 1, end)
    }
}

/// The smaller of two quantities.
pub open spec fn min_qty(a: int, b: int) -> int {
    if a < b {
        a
    } else {
        b
    }
}

proof fn lemma_asks_total_nonneg<MD: MarketDepth>(depth: MD, t: int, end: int)
    ensures
        asks_total(depth, t, end) >= 0,
    decreases end - t + 1,
{
    if t <= end {
        lemma_asks_total_nonneg(depth, t + 1, end);
    }
}

proof fn lemma_bids_total_nonneg<MD: MarketDepth>(depth: MD, t: int, end: int)
    ensures
        bids_total(depth, t, end) >= 0,
    decreases t - end + 1,
{
    if t >= end {
        lemma_bids_total_nonneg(depth, t - 1, end);
    }
}

/// A walk over the ask side executes the smaller of the order's leaves quantity and the lots
/// resting over the walked range.
proof fn lemma_sweep_asks_total<MD: MarketDepth>(depth: MD, o: Order, t: int, end: int, ts: i64)
    requires
        !unfillable(o.status),
        o.leaves_qty >= 0,
    ensures
        executed(sweep_asks(depth, o, t, end, ts, true).0) == min_qty(
            o.leaves_qty as int,
            asks_total(depth, t, end),
        ),
        asks_total(depth, t, end) >= 0,
        !sweep_asks(depth, o, t, end, ts, true).3 && o.leaves_qty > 0 ==> sweep_asks(
            depth,
            o,
            t,
            end,
            ts,
            true,
        ).1.leaves_qty > 0,
    decreases end - t + 1,
{
    if t > end {
        assert(executed(Seq::<Order>::empty()) == 0);
    } else {
        let q = depth.ask_qty(t as i64);
        if q > 0 {
            let o2 = filled_order(o, ts, false, t as i64, exec_qty_at(q, o.leaves_qty));
            if o2.status == Status::Filled {
                lemma_asks_total_nonneg(depth, t + 1, end);
                lemma_executed_prepend(o2, Seq::<Order>::empty());
                assert(seq![o2] + Seq::<Order>::empty() =~= seq![o2]);
                assert(executed(Seq::<Order>::empty()) == 0);
            } else {
                lemma_sweep_asks_total(depth, o2, t + 1, end, ts);
                let r = sweep_asks(depth, o2, t + 1, end, ts, true);
                lemma_executed_prepend(o2, r.0);
            }
        } else {
            lemma_sweep_asks_total(depth, o, t + 1, end, ts);
        }
    }
}

/// A walk over the bid side executes the smaller of the order's leaves quantity and the lots
/// resting over the walked range.
proof fn lemma_sweep_bids_total<MD: MarketDepth>(depth: MD, o: Order, t: int, end: int, ts: i64)
    requires
        !unfillable(o.status),
        o.leaves_qty >= 0,
    ensures
        executed(sweep_bids(depth, o, t, end, ts, true).0) == min_qty(
            o.leaves_qty as int,
            bids_total(depth, t, end),
        ),
        bids_total(depth, t, end) >= 0,
        !sweep_bids(depth, o, t, end, ts, true).3 && o.leaves_qty > 0 ==> sweep_bids(
            depth,
            o,
            t,
            end,
            ts,
            true,
        ).1.leaves_qty > 0,
    decreases t - end + 1,
{
    if t < end {
        assert(executed(Seq::<Order>::empty()) == 0);
    } else {
        let q = depth.bid_qty(t as i64);
        if q > 0 {
            let o2 = filled_order(o, ts, false, t as i64, exec_qty_at(q, o.leaves_qty));
            if o2.status == Status::Filled {
                lemma_bids_total_nonneg(depth, t - 1, end);
                lemma_executed_prepend(o2, Seq::<Order>::empty());
                assert(seq![o2] + Seq::<Order>::empty() =~= seq![o2]);
                assert(executed(Seq::<Order>::empty()) == 0);
            } else {
                lemma_sweep_bids_total(depth, o2, t - 1, end, ts);
                let r = sweep_bids(depth, o2, t - 1, end, ts, true);
                lemma_executed_prepend(o2, r.0);
            }
        } else {
            lemma_sweep_bids_total(depth, o, t - 1, end, ts);
        }
    }
}

/// The lots an order that takes liquidity at once can reach: for a limit order, those resting
/// from the opposite best up to its limit; for a market order, those over the hundred levels from
/// the opposite best away from the spread (the best and the 99 above it for a buy, the best and
/// the 100 below it for a sell).
pub open spec fn reachable_qty<MD: MarketDepth>(depth: MD, o: Order) -> int {
    if is_buy(o) {
        let best = depth.best_ask() as int;
        asks_total(
            depth,
            best,
            if o.order_type == OrdType::Market {
                best + 99
            } else {
                o.price_tick as int
            },
        )
    } else {
        let best = depth.best_bid() as int;
        bids_total(
            depth,
            best,
            if o.order_type == OrdType::Market {
                best - 100
            } else {
                o.price_tick as int
            },
        )
    }
}

/// An immediate-or-cancel limit order that crosses, or a market order, takes all it can at once
/// and expires with the rest: it executes the smaller of its leaves quantity and the lots it can
/// reach, each at a price within its reach, and ends filled when those lots cover it, expired
/// with the remaining quantity otherwise.
pub proof fn lemma_immediate_order_takes_reachable<MD: MarketDepth>(depth: MD, o: Order, ts: i64)
    requires
        (o.order_type == OrdType::Limit && o.time_in_force == TimeInForce::IOC && crosses(depth, o))
            || o.order_type == OrdType::Market,
        o.order_type == OrdType::Market && is_buy(o) ==> depth.best_ask() <= i64::MAX - 100,
        o.order_type == OrdType::Market && !is_buy(o) ==> depth.best_bid() >= i64::MIN + 100,
        0 < o.leaves_qty,
        !unfillable(o.status),
    ensures
        ({
            let out = new_order_outcome(depth, o, ts);
            let reach = reachable_qty(depth, o);
            &&& out.2 is None
            &&& executed(out.0) == min_qty(o.leaves_qty as int, reach)
            &&& out.1.leaves_qty == o.leaves_qty - executed(out.0)
            &&& reach >= o.leaves_qty ==> out.1.status == Status::Filled
            &&& reach < o.leaves_qty ==> out.1.status == Status::Expired
            &&& forall|i: int|
                0 <= i < out.0.len() ==> !(#[trigger] out.0[i]).maker && (if is_buy(o) {
                    depth.best_ask() <= out.0[i].exec_price_tick
                } else {
                    out.0[i].exec_price_tick <= depth.best_bid()
                })
        }),
{
    if is_buy(o) {
        let best = depth.best_ask() as int;
        let end = if o.order_type == OrdType::Market {
            best + 99
        } else {
            o.price_tick as int
        };
        lemma_sweep_ends_asks(depth, o, best, end, ts);
        lemma_sweep_asks_total(depth, o, best, end, ts);
        lemma_sweep_asks_conserves(depth, o, best, end, ts, true);
    } else {
        let best = depth.best_bid() as int;
        let end = if o.order_type == OrdType::Market {
            best - 100
        } else {
            o.price_tick as int
        };
        lemma_sweep_ends_bids(depth, o, best, end, ts);
        lemma_sweep_bids_total(depth, o, best, end, ts);
        lemma_sweep_bids_conserves(depth, o, best, end, ts, true);
    }
}

/// A crossing good-till-cancel limit order never ends unfilled or expired: it takes the book up
/// to its limit and executes what remains at its own limit price, so its executions add up to
/// its whole leaves quantity, each at a price no worse than its limit, and it ends filled.
pub proof fn lemma_crossing_gtc_fills<MD: MarketDepth>(depth: MD, o: Order, ts: i64)
    requires
        o.order_type == OrdType::Limit,
        o.time_in_force == TimeInForce::GTC,
        crosses(depth, o),
        0 < o.leaves_qty,
        !unfillable(o.status),
    ensures
        ({
            let out = new_order_outcome(depth, o, ts);
            &&& out.2 is None
            &&& out.1.status == Status::Filled
            &&& out.1.leaves_qty == 0
            &&& executed(out.0) == o.leaves_qty
            &&& forall|i: int|
                0 <= i < out.0.len() ==> (if is_buy(o) {
                    (#[trigger] out.0[i]).exec_price_tick <= o.price_tick
                } else {
                    out.0[i].exec_price_tick >= o.price_tick
                })
        }),
{
    let out = new_order_outcome(depth, o, ts);
    if is_buy(o) {
        let best = depth.best_ask() as int;
        let end = o.price_tick - 1;
        let s = sweep_asks(depth, o, best, end, ts, true);
        lemma_sweep_ends_asks(depth, o, best, end, ts);
        lemma_sweep_asks_conserves(depth, o, best, end, ts, true);
        assert(out == fill_rest_at_price(s, ts));
        if !s.3 {
            let f = filled_order(s.1, ts, false, s.1.price_tick, s.1.leaves_qty);
            assert(s.0.push(f).drop_last() =~= s.0);
            assert(executed(s.0.push(f)) == executed(s.0) + f.exec_qty);
            assert forall|i: int| 0 <= i < out.0.len() implies (#[trigger] out.0[i]).exec_price_tick
                <= o.price_tick by {
                if i < s.0.len() {
                    assert(out.0[i] == s.0[i]);
                }
            }
        }
    } else {
        let best = depth.best_bid() as int;
        let end = o.price_tick as int;
        let s = sweep_bids(depth, o, best, end, ts, true);
        lemma_sweep_ends_bids(depth, o, best, end, ts);
        lemma_sweep_bids_conserves(depth, o, best, end, ts, true);
        assert(out == fill_rest_at_price(s, ts));
        if !s.3 {
            let f = filled_order(s.1, ts, false, s.1.price_tick, s.1.leaves_qty);
            assert(s.0.push(f).drop_last() =~= s.0);
            assert(executed(s.0.push(f)) == executed(s.0) + f.exec_qty);
            assert forall|i: int| 0 <= i < out.0.len() implies (#[trigger] out.0[i]).exec_price_tick
                >= o.price_tick by {
                if i < s.0.len() {
                    assert(out.0[i] == s.0[i]);
                }
            }
        }
    }
}

proof fn lemma_sweep_status_asks<MD: MarketDepth>(depth: MD, o: Order, t: int, end: int, ts: i64)
    requires
        !unfillable(o.status),
    ensures
        !sweep_asks(depth, o, t, end, ts, true).2,
        sweep_asks(depth, o, t, end, ts, true).3 ==> sweep_asks(depth, o, t, end, ts, true).1.status
            == Status::Filled,
    decreases end - t + 1,
{
    if t <= end {
        let q = depth.ask_qty(t as i64);
        if q > 0 {
            let o2 = filled_order(o, ts, false, t as i64, exec_qty_at(q, o.leaves_qty));
            if o2.status != Status::Filled {
                lemma_sweep_status_asks(depth, o2, t + 1, end, ts);
            }
        } else {
            lemma_sweep_status_asks(depth, o, t + 1, end, ts);
        }
    }
}

proof fn lemma_sweep_status_bids<MD: MarketDepth>(depth: MD, o: Order, t: int, end: int, ts: i64)
    requires
        !unfillable(o.status),
    ensures
        !sweep_bids(depth, o, t, end, ts, true).2,
        sweep_bids(depth, o, t, end, ts, true).3 ==> sweep_bids(depth, o, t, end, ts, true).1.status
            == Status::Filled,
    decreases t - end + 1,
{
    if t >= end {
        let q = depth.bid_qty(t as i64);
        if q > 0 {
            let o2 = filled_order(o, ts, false, t as i64, exec_qty_at(q, o.leaves_qty));
            if o2.status != Status::Filled {
                lemma_sweep_status_bids(depth, o2, t - 1, end, ts);
            }
        } else {
            lemma_sweep_status_bids(depth, o, t - 1, end, ts);
        }
    }
}

/// Executes `qty` lots of the order at `exec_price_tick` (a maker execution is at the order's own
/// price) and logs the execution. An order that is expired, canceled or filled cannot be filled.
fn fill(
    order: &mut Order,
    fills: &mut Vec<Order>,
    timestamp: i64,
    maker: bool,
    exec_price_tick: i64,
    exec_qty: i64,
) -> (r: Result<(), BacktestError>)
    requires
        i64::MIN <= old(order).leaves_qty - exec_qty <= i64::MAX,
    ensures
        unfillable(old(order).status) ==> r == Err::<(), BacktestError>(
            BacktestError::InvalidOrderStatus,
        ) && *final(order) == *old(order) && final(fills)@ == old(fills)@,
        !unfillable(old(order).status) ==> r is Ok && *final(order) == filled_order(
            *old(order),
            timestamp,
            maker,
            exec_price_tick,
            exec_qty,
        ) && final(fills)@ == old(fills)@.push(*final(order)),
{
    if order.status == Status::Expired || order.status == Status::Canceled || order.status
        == Status::Filled {
        return Err(BacktestError::InvalidOrderStatus);
    }
    order.maker = maker;
    if maker {
        order.exec_price_tick = order.price_tick;
    } else {
        order.exec_price_tick = exec_price_tick;
    }
    order.exec_qty = exec_qty;
    order.leaves_qty = order.leaves_qty - exec_qty;
    if order.leaves_qty > 0 {
        order.status = Status::PartiallyFilled;
    } else {
        order.status = Status::Filled;
    }
    order.exch_timestamp = timestamp;
    fills.push(*order);
    Ok(())
}

/// Walks the ask side up from `from` to `to` inclusive, as [`sweep_asks`] states; returns whether
/// the walk stopped on a filled order.
fn take_asks<MD: MarketDepth>(
    depth: &MD,
    order: &mut Order,
    fills: &mut Vec<Order>,
    from: i64,
    to: i64,
    timestamp: i64,
    every_level: bool,
) -> (r: Result<bool, BacktestError>)
    ensures
        ({
            let s = sweep_asks(*depth, *old(order), from as int, to as int, timestamp, every_level);
            &&& (s.2 ==> r == Err::<bool, BacktestError>(BacktestError::InvalidOrderStatus))
            &&& (!s.2 ==> r == Ok::<bool, BacktestError>(s.3))
            &&& *final(order) == s.1
            &&& final(fills)@ == old(fills)@ + s.0
        }),
{
    let ghost o0 = *order;
    let ghost f0 = fills@;
    if from > to {
        assert(fills@ =~= f0 + Seq::<Order>::empty());
        return Ok(false);
    }
    let ghost s0 = sweep_asks(*depth, o0, from as int, to as int, timestamp, every_level);
    let ghost mut added: Seq<Order> = Seq::empty();
    let mut t = from;
    loop
        invariant
            from <= t <= to,
            o0 == *old(order),
            f0 == old(fills)@,
            s0 == sweep_asks(*depth, o0, from as int, to as int, timestamp, every_level),
            fills@ == f0 + added,
            ({
                let sc = sweep_asks(*depth, *order, t as int, to as int, timestamp, every_level);
                &&& s0.0 == added + sc.0
                &&& s0.1 == sc.1
                &&& s0.2 == sc.2
                &&& s0.3 == sc.3
            }),
        decreases to - t,
    {
        let ghost oc = *order;
        let ghost sc = sweep_asks(*depth, oc, t as int, to as int, timestamp, every_level);
        let q = depth.ask_qty_at_tick(t);
        if q > 0 {
            let e = if q < order.leaves_qty {
                q
            } else {
                order.leaves_qty
            };
            match fill(order, fills, timestamp, false, t, e) {
                Err(err) => {
                    assert(unfillable(oc.status));
                    assert(sc.2);
                    assert(sc.0 =~= Seq::<Order>::empty());
                    assert(s0.0 =~= added + Seq::<Order>::empty());
                    assert(fills@ =~= f0 + s0.0);
                    return Err(err);
                },
                Ok(()) => {},
            }
            proof {
                let o2 = *order;
                if o2.status != Status::Filled {
                    let r = sweep_asks(*depth, o2, t + 1, to as int, timestamp, every_level);
                    assert(added + (seq![o2] + r.0) =~= added.push(o2) + r.0);
                }
                added = added.push(o2);
            }
            if order.status == Status::Filled {
                assert(s0.0 =~= added);
                assert(fills@ =~= f0 + s0.0);
                return Ok(true);
            }
        } else if every_level && order.status == Status::Filled {
            assert(s0.0 =~= added + Seq::<Order>::empty());
            assert(fills@ =~= f0 + s0.0);
            return Ok(true);
        }
        if t == to {
            proof {
                let r = sweep_asks(*depth, *order, t + 1, to as int, timestamp, every_level);
                assert(r == (Seq::<Order>::empty(), *order, false, false));
            }
            assert(s0.0 =~= added + Seq::<Order>::empty());
            assert(fills@ =~= f0 + s0.0);
            return Ok(false);
        }
        t = t + 1;
    }
}

/// Walks the bid side down from `from` to `to` inclusive, as [`sweep_bids`] states; returns
/// whether the walk stopped on a filled order.
fn take_bids<MD: MarketDepth>(
    depth: &MD,
    order: &mut Order,
    fills: &mut Vec<Order>,
    from: i64,
    to: i64,
    timestamp: i64,
    every_level: bool,
) -> (r: Result<bool, BacktestError>)
    ensures
        ({
            let s = sweep_bids(*depth, *old(order), from as int, to as int, timestamp, every_level);
            &&& (s.2 ==> r == Err::<bool, BacktestError>(BacktestError::InvalidOrderStatus))
            &&& (!s.2 ==> r == Ok::<bool, BacktestError>(s.3))
            &&& *final(order) == s.1
            &&& final(fills)@ == old(fills)@ + s.0
        }),
{
    let ghost o0 = *order;
    let ghost f0 = fills@;
    if from < to {
        assert(fills@ =~= f0 + Seq::<Order>::empty());
        return Ok(false);
    }
    let ghost s0 = sweep_bids(*depth, o0, from as int, to as int, timestamp, every_level);
    let ghost mut added: Seq<Order> = Seq::empty();
    let mut t = from;
    loop
        invariant
            to <= t <= from,
            o0 == *old(order),
            f0 == old(fills)@,
            s0 == sweep_bids(*depth, o0, from as int, to as int, timestamp, every_level),
            fills@ == f0 + added,
            ({
                let sc = sweep_bids(*depth, *order, t as int, to as int, timestamp, every_level);
                &&& s0.0 == added + sc.0
                &&& s0.1 == sc.1
                &&& s0.2 == sc.2
                &&& s0.3 == sc.3
            }),
        decreases t - to,
    {
        let ghost oc = *order;
        let q = depth.bid_qty_at_tick(t);
        if q > 0 {
            let e = if q < order.leaves_qty {
                q
            } else {
                order.leaves_qty
            };
            match fill(order, fills, timestamp, false, t, e) {
                Err(err) => {
                    assert(s0.0 =~= added + Seq::<Order>::empty());
                    assert(fills@ =~= f0 + s0.0);
                    return Err(err);
                },
                Ok(()) => {},
            }
            proof {
                let o2 = *order;
                if o2.status != Status::Filled {
                    let r = sweep_bids(*depth, o2, t - 1, to as int, timestamp, every_level);
                    assert(added + (seq![o2] + r.0) =~= added.push(o2) + r.0);
                }
                added = added.push(o2);
            }
            if order.status == Status::Filled {
                assert(s0.0 =~= added);
                assert(fills@ =~= f0 + s0.0);
                return Ok(true);
            }
        } else if every_level && order.status == Status::Filled {
            assert(s0.0 =~= added + Seq::<Order>::empty());
            assert(fills@ =~= f0 + s0.0);
            return Ok(true);
        }
        if t == to {
            proof {
                let r = sweep_bids(*depth, *order, t - 1, to as int, timestamp, every_level);
                assert(r == (Seq::<Order>::empty(), *order, false, false));
            }
            assert(s0.0 =~= added + Seq::<Order>::empty());
            assert(fills@ =~= f0 + s0.0);
            return Ok(false);
        }
        t = t - 1;
    }
}

/// Returns whether the ask quantity accumulated from `from` up to `to` reaches `qty`, as
/// [`asks_cover`] states.
fn asks_reach<MD: MarketDepth>(depth: &MD, from: i64, to: i64, qty: i64) -> (r: bool)
    ensures
        r == asks_cover(*depth, from as int, to as int, 0, qty as int),
{
    if from > to {
        return false;
    }
    let mut cum: i128 = 0;
    let mut t = from;
    loop
        invariant
            from <= t <= to,
            -(t - from) * 0x8000_0000_0000_0000 <= cum <= i64::MAX,
            asks_cover(*depth, from as int, to as int, 0, qty as int) == asks_cover(
                *depth,
                t as int,
                to as int,
                cum as int,
                qty as int,
            ),
        decreases to - t,
    {
        cum = cum + depth.ask_qty_at_tick(t) as i128;
        if cum >= qty as i128 {
            return true;
        }
        if t == to {
            assert(!asks_cover(*depth, t + 1, to as int, cum as int, qty as int));
            return false;
        }
        t = t + 1;
    }
}

/// Returns whether the bid quantity accumulated from `from` down to `to` reaches `qty`, as
/// [`bids_cover`] states.
fn bids_reach<MD: MarketDepth>(depth: &MD, from: i64, to: i64, qty: i64) -> (r: bool)
    ensures
        r == bids_cover(*depth, from as int, to as int, 0, qty as int),
{
    if from < to {
        return false;
    }
    let mut cum: i128 = 0;
    let mut t = from;
    loop
        invariant
            to <= t <= from,
            -(from - t) * 0x8000_0000_0000_0000 <= cum <= i64::MAX,
            bids_cover(*depth, from as int, to as int, 0, qty as int) == bids_cover(
                *depth,
                t as int,
                to as int,
                cum as int,
                qty as int,
            ),
        decreases t - to,
    {
        cum = cum + depth.bid_qty_at_tick(t) as i128;
        if cum >= qty as i128 {
            return true;
        }
        if t == to {
            assert(!bids_cover(*depth, t - 1, to as int, cum as int, qty as int));
            return false;
        }
        t = t - 1;
    }
}

/// The exchange model with partial fills, over a market depth `MD`.
pub struct PartialFillExchange<MD> {
    /// The orders resting in the book by order id, each with its queue position: the lots
    /// resting ahead of it at its price.
    pub orders: HashMap<u64, (Order, i64)>,
    /// The market depth as the market data replays it.
    pub depth: MD,
    /// The queue position model.
    pub queue_model: RiskAdverseQueueModel<MD>,
    /// Every execution, in order: the order as it stands after the execution.
    pub fills: Vec<Order>,
    /// The responses to the local, in order.
    pub responses: Vec<Order>,
}

impl<MD: MarketDepth> PartialFillExchange<MD> {
    /// Constructs an exchange with an empty book over the market depth.
    pub fn new(depth: MD, queue_model: RiskAdverseQueueModel<MD>) -> (r: Self)
        ensures
            r.orders@ == Map::<u64, (Order, i64)>::empty(),
            r.depth == depth,
            r.fills@ == Seq::<Order>::empty(),
            r.responses@ == Seq::<Order>::empty(),
    {
        PartialFillExchange {
            orders: HashMap::new(),
            depth,
            queue_model,
            fills: Vec::new(),
            responses: Vec::new(),
        }
    }

    /// Processes a new order request at `timestamp`: an order id already in the book is an
    /// error; otherwise the order takes liquidity, rests in the book, or expires, as
    /// [`new_order_outcome`] states. Executions are logged in the fill log.
    pub fn ack_new(&mut self, order: &mut Order, timestamp: i64) -> (r: Result<(), BacktestError>)
        requires
            servable(old(self).depth, *old(order), timestamp),
            book_wf(old(self).orders@),
        ensures
            book_wf(final(self).orders@),
            final(self).depth == old(self).depth,
            final(self).responses@ == old(self).responses@,
            old(self).orders@.contains_key(old(order).order_id) ==> {
                &&& r == Err::<(), BacktestError>(BacktestError::OrderIdExist)
                &&& *final(order) == *old(order)
                &&& final(self).orders@ == old(self).orders@
                &&& final(self).fills@ == old(self).fills@
            },
            !old(self).orders@.contains_key(old(order).order_id) ==> {
                let out = new_order_outcome(old(self).depth, *old(order), timestamp);
                &&& (out.2 is None ==> r is Ok)
                &&& (out.2 is Some ==> r == Err::<(), BacktestError>(out.2->0))
                &&& *final(order) == out.1
                &&& final(self).fills@ == old(self).fills@ + out.0
                &&& final(self).orders@ == (if rests(old(self).depth, *old(order)) {
                    old(self).orders@.insert(
                        old(order).order_id,
                        (out.1, initial_queue(old(self).depth, *old(order))),
                    )
                } else {
                    old(self).orders@
                })
            },
    {
        if self.orders.contains_key(&order.order_id) {
            return Err(BacktestError::OrderIdExist);
        }
        let ghost f0 = self.fills@;
        match order.order_type {
            OrdType::Limit => {
                if order.side == Side::Buy {
                    let best = self.depth.best_ask_tick();
                    if order.price_tick >= best {
                        return self.take_buy(order, timestamp);
                    }
                } else {
                    let best = self.depth.best_bid_tick();
                    if order.price_tick <= best {
                        return self.take_sell(order, timestamp);
                    }
                }
                match order.time_in_force {
                    TimeInForce::GTC | TimeInForce::GTX => {
                        let q = self.queue_model.new_order(order, &self.depth);
                        order.status = Status::New;
                        order.exch_timestamp = timestamp;
                        self.orders.insert(order.order_id, (*order, q));
                        assert(self.fills@ =~= f0 + Seq::<Order>::empty());
                        Ok(())
                    },
                    TimeInForce::FOK | TimeInForce::IOC => {
                        order.status = Status::Expired;
                        order.exch_timestamp = timestamp;
                        assert(self.fills@ =~= f0 + Seq::<Order>::empty());
                        Ok(())
                    },
                    TimeInForce::Unsupported => {
                        assert(self.fills@ =~= f0 + Seq::<Order>::empty());
                        Err(BacktestError::InvalidOrderRequest)
                    },
                }
            },
            OrdType::Market => {
                let done = if order.side == Side::Buy {
                    let best = self.depth.best_ask_tick();
                    take_asks(&self.depth, order, &mut self.fills, best, best + 99, timestamp, true)
                } else {
                    let best = self.depth.best_bid_tick();
                    take_bids(&self.depth, order, &mut self.fills, best, best - 100, timestamp, true)
                };
                match done {
                    Err(e) => Err(e),
                    Ok(true) => Ok(()),
                    Ok(false) => {
                        order.status = Status::Expired;
                        order.exch_timestamp = timestamp;
                        Ok(())
                    },
                }
            },
            OrdType::Unsupported => {
                assert(self.fills@ =~= f0 + Seq::<Order>::empty());
                Err(BacktestError::InvalidOrderRequest)
            },
        }
    }

    /// The ids of the resting orders, each once.
    fn resting_ids(&self) -> (ids: Vec<u64>)
        ensures
            ids@.no_duplicates(),
            ids@.to_set() == self.orders@.dom(),
    {
        let mut ids: Vec<u64> = Vec::new();
        let keys = self.orders.keys();
        let ghost all = IteratorSpec::remaining(&keys);
        assert(all.unref().to_set() == self.orders@.dom());
        assert(all.unref().no_duplicates());
        for id in it: keys
            invariant
                it.seq() == all,
                ids@ == all.unref().take(it.index() as int),
        {
            let ghost i = it.index();
            ids.push(*id);
            assert(ids@ =~= all.unref().take(i + 1));
        }
        assert(ids@ =~= all.unref());
        ids
    }

    /// Lets every resting order react to the book event at `timestamp`, as [`entry_after`]
    /// states: executions are logged and responded to the local, in the order the orders are
    /// visited, and orders that leave the book are removed. The event fails if an order that
    /// must execute is in a status that cannot be filled.
    pub fn apply_event(&mut self, ev: BookEvent, timestamp: i64) -> (r: Result<(), BacktestError>)
        requires
            book_wf(old(self).orders@),
            ev matches BookEvent::BuyTrade(_, q) ==> q >= 0,
            ev matches BookEvent::SellTrade(_, q) ==> q >= 0,
            ev matches BookEvent::BidQty(_, q) ==> q >= 0,
            ev matches BookEvent::AskQty(_, q) ==> q >= 0,
        ensures
            final(self).depth == old(self).depth,
            reacted(
                old(self).orders@,
                old(self).fills@,
                old(self).responses@,
                final(self).orders@,
                final(self).fills@,
                final(self).responses@,
                ev,
                timestamp,
                r,
            ),
    {
        let ids = self.resting_ids();
        let ghost m0 = self.orders@;
        let ghost f0 = self.fills@;
        let ghost r0 = self.responses@;
        let mut i: usize = 0;
        assert(ids@.take(0).to_set() =~= Set::<u64>::empty());
        assert(self.orders@ =~= book_partly_after(m0, Set::<u64>::empty(), ev, timestamp));
        assert(fills_on(m0, ids@.take(0), ev, timestamp) =~= Seq::<Order>::empty());
        assert(self.fills@ =~= f0 + Seq::<Order>::empty());
        assert(self.responses@ =~= r0 + Seq::<Order>::empty());
        while i < ids.len()
            invariant
                0 <= i <= ids.len(),
                ids@.no_duplicates(),
                ids@.to_set() == m0.dom(),
                m0 == old(self).orders@,
                f0 == old(self).fills@,
                r0 == old(self).responses@,
                book_wf(m0),
                ev matches BookEvent::BuyTrade(_, q) ==> q >= 0,
                ev matches BookEvent::SellTrade(_, q) ==> q >= 0,
                self.depth == old(self).depth,
                self.orders@ == book_partly_after(m0, ids@.take(i as int).to_set(), ev, timestamp),
                forall|j: int| 0 <= j < i ==> !(#[trigger] entry_after(m0[ids@[j]], ev, timestamp)).2,
                self.fills@ == f0 + fills_on(m0, ids@.take(i as int), ev, timestamp),
                self.responses@ == r0 + fills_on(m0, ids@.take(i as int), ev, timestamp),
            decreases ids.len() - i,
        {
            let id = ids[i];
            let ghost done = ids@.take(i as int).to_set();
            assert(ids@.to_set().contains(id));
            assert(!done.contains(id)) by {
                if done.contains(id) {
                    let j = choose|j: int| 0 <= j < i && ids@.take(i as int)[j] == id;
                    assert(ids@[j] == ids@[i as int]);
                }
            }
            assert(self.orders@.contains_key(id));
            assert(self.orders@[id] == m0[id]);
            let e = *self.orders.get(&id).unwrap();
            let (after, fill, refused) = react(e, ev, timestamp);
            if refused {
                assert(m0.contains_key(id) && entry_after(m0[id], ev, timestamp).2);
                return Err(BacktestError::InvalidOrderStatus);
            }
            match after {
                Some(e2) => {
                    self.orders.insert(id, e2);
                },
                None => {
                    self.orders.remove(&id);
                },
            }
            let ghost fprev = self.fills@;
            let ghost rprev = self.responses@;
            match fill {
                Some(f) => {
                    self.fills.push(f);
                    self.responses.push(f);
                },
                None => {},
            }
            proof {
                let t1 = ids@.take(i + 1);
                assert(t1.drop_last() =~= ids@.take(i as int));
                assert(t1.last() == id);
                assert(t1.to_set() =~= done.insert(id)) by {
                    assert forall|k: u64| t1.to_set().contains(k) implies done.insert(k).contains(
                        k,
                    ) by {}
                    assert forall|k: u64| #[trigger] t1.to_set().contains(k) == done.insert(
                        id,
                    ).contains(k) by {
                        if t1.contains(k) && k != id {
                            let j = choose|j: int| 0 <= j < t1.len() && t1[j] == k;
                            assert(ids@.take(i as int)[j] == k);
                        }
                        if done.contains(k) {
                            let j = choose|j: int| 0 <= j < i && ids@.take(i as int)[j] == k;
                            assert(t1[j] == k);
                        }
                        if k == id {
                            assert(t1[i as int] == k);
                        }
                    }
                }
                assert(self.orders@ =~= book_partly_after(m0, t1.to_set(), ev, timestamp));
                assert(self.fills@ =~= f0 + fills_on(m0, t1, ev, timestamp));
                assert(self.responses@ =~= r0 + fills_on(m0, t1, ev, timestamp));
            }
            i = i + 1;
        }
        proof {
            assert(ids@.take(ids@.len() as int) =~= ids@);
            assert(self.orders@ =~= book_after(m0, ev, timestamp));
            assert(!refused_on(m0, ev, timestamp)) by {
                if refused_on(m0, ev, timestamp) {
                    let id = choose|id: u64| m0.contains_key(id) && #[trigger] entry_after(m0[id], ev, timestamp).2;
                    assert(ids@.to_set().contains(id));
                    let j = choose|j: int| 0 <= j < ids@.len() && ids@[j] == id;
                    assert(!entry_after(m0[ids@[j]], ev, timestamp).2);
                }
            }
            assert(fills_on(m0, ids@, ev, timestamp) == fills_on(m0, ids@.take(ids@.len() as int), ev, timestamp));
        }
        Ok(())
    }

    /// Processes a cancel request at `timestamp`: an order in the book leaves it and the request
    /// gets the book's order, canceled; an order not in the book (already filled or expired) gets
    /// the request rejected.
    pub fn ack_cancel(&mut self, order: &mut Order, timestamp: i64) -> (r: Result<(), BacktestError>)
        ensures
            r is Ok,
            final(self).depth == old(self).depth,
            final(self).fills@ == old(self).fills@,
            final(self).responses@ == old(self).responses@,
            final(self).orders@ == old(self).orders@.remove(old(order).order_id),
            *final(order) == (if old(self).orders@.contains_key(old(order).order_id) {
                Order {
                    status: Status::Canceled,
                    exch_timestamp: timestamp,
                    ..old(self).orders@[old(order).order_id].0
                }
            } else {
                Order { req: Status::Rejected, exch_timestamp: timestamp, ..*old(order) }
            }),
    {
        match self.orders.remove(&order.order_id) {
            None => {
                order.req = Status::Rejected;
                order.exch_timestamp = timestamp;
            },
            Some((exch_order, _)) => {
                *order = exch_order;
                order.status = Status::Canceled;
                order.exch_timestamp = timestamp;
            },
        }
        Ok(())
    }

    /// Processes a modify request at `timestamp`. An order not in the book gets the request
    /// rejected. A new price or a quantity above the leaves quantity cancels the order in the
    /// book and submits the canceled order again, which loses its queue position; otherwise the
    /// order keeps its place and its quantity and leaves quantity become the requested quantity.
    pub fn ack_modify(&mut self, order: &mut Order, timestamp: i64) -> (r: Result<(), BacktestError>)
        requires
            book_wf(old(self).orders@),
            old(self).orders@.contains_key(old(order).order_id) ==> servable(
                old(self).depth,
                Order {
                    status: Status::Canceled,
                    exch_timestamp: timestamp,
                    ..old(self).orders@[old(order).order_id].0
                },
                timestamp,
            ),
        ensures
            book_wf(final(self).orders@),
            final(self).depth == old(self).depth,
            final(self).responses@ == old(self).responses@,
            !old(self).orders@.contains_key(old(order).order_id) ==> {
                &&& r is Ok
                &&& *final(order) == Order {
                    req: Status::Rejected,
                    exch_timestamp: timestamp,
                    ..*old(order)
                }
                &&& final(self).orders@ == old(self).orders@
                &&& final(self).fills@ == old(self).fills@
            },
            old(self).orders@.contains_key(old(order).order_id) ==> {
                let id = old(order).order_id;
                let e = old(self).orders@[id];
                let canceled = Order { status: Status::Canceled, exch_timestamp: timestamp, ..e.0 };
                let out = new_order_outcome(old(self).depth, canceled, timestamp);
                if e.0.price_tick != old(order).price_tick || old(order).qty > e.0.leaves_qty {
                    &&& (out.2 is None ==> r is Ok)
                    &&& (out.2 is Some ==> r == Err::<(), BacktestError>(out.2->0))
                    &&& *final(order) == out.1
                    &&& final(self).fills@ == old(self).fills@ + out.0
                    &&& final(self).orders@ == (if rests(old(self).depth, canceled) {
                        old(self).orders@.insert(
                            id,
                            (out.1, initial_queue(old(self).depth, canceled)),
                        )
                    } else {
                        old(self).orders@.remove(id)
                    })
                } else {
                    &&& r is Ok
                    &&& *final(order) == Order {
                        leaves_qty: old(order).qty,
                        exch_timestamp: timestamp,
                        ..*old(order)
                    }
                    &&& final(self).orders@ == old(self).orders@.insert(
                        id,
                        (
                            Order {
                                qty: old(order).qty,
                                leaves_qty: old(order).qty,
                                exch_timestamp: timestamp,
                                ..e.0
                            },
                            e.1,
                        ),
                    )
                    &&& final(self).fills@ == old(self).fills@
                }
            },
    {
        let entry = match self.orders.get(&order.order_id) {
            None => {
                order.req = Status::Rejected;
                order.exch_timestamp = timestamp;
                return Ok(());
            },
            Some(e) => *e,
        };
        let (exch_order, front_q_qty) = entry;
        if exch_order.price_tick != order.price_tick || order.qty > exch_order.leaves_qty {
            let _ = self.ack_cancel(order, timestamp);
            assert(!self.orders@.contains_key(order.order_id));
            self.ack_new(order, timestamp)
        } else {
            let modified = Order {
                qty: order.qty,
                leaves_qty: order.qty,
                exch_timestamp: timestamp,
                ..exch_order
            };
            self.orders.insert(order.order_id, (modified, front_q_qty));
            order.leaves_qty = order.qty;
            order.exch_timestamp = timestamp;
            Ok(())
        }
    }

    /// Processes an order request received at `timestamp` and responds to the local with the
    /// order as processed: a new order, a cancel or a modify, by the request status, which is
    /// reset; any other request fails without a response.
    pub fn process_recv_order(&mut self, order: Order, timestamp: i64) -> (r: Result<
        (),
        BacktestError,
    >)
        requires
            book_wf(old(self).orders@),
            order.req == Status::New ==> servable(
                old(self).depth,
                Order { req: Status::Nil, ..order },
                timestamp,
            ),
            order.req == Status::Replaced && old(self).orders@.contains_key(order.order_id)
                ==> servable(
                old(self).depth,
                Order {
                    status: Status::Canceled,
                    exch_timestamp: timestamp,
                    ..old(self).orders@[order.order_id].0
                },
                timestamp,
            ),
        ensures
            book_wf(final(self).orders@),
            final(self).depth == old(self).depth,
            order.req != Status::New && order.req != Status::Canceled && order.req
                != Status::Replaced ==> r == Err::<(), BacktestError>(
                BacktestError::InvalidOrderRequest,
            ) && final(self).orders@ == old(self).orders@ && final(self).fills@ == old(
                self,
            ).fills@ && final(self).responses@ == old(self).responses@,
            order.req == Status::New ==> {
                let o = Order { req: Status::Nil, ..order };
                let out = new_order_outcome(old(self).depth, o, timestamp);
                if old(self).orders@.contains_key(order.order_id) {
                    &&& r == Err::<(), BacktestError>(BacktestError::OrderIdExist)
                    &&& final(self).orders@ == old(self).orders@
                    &&& final(self).fills@ == old(self).fills@
                    &&& final(self).responses@ == old(self).responses@
                } else {
                    &&& (out.2 is None ==> r is Ok && final(self).responses@ == old(
                        self,
                    ).responses@.push(out.1))
                    &&& (out.2 is Some ==> r == Err::<(), BacktestError>(out.2->0))
                    &&& final(self).fills@ == old(self).fills@ + out.0
                    &&& final(self).orders@ == (if rests(old(self).depth, o) {
                        old(self).orders@.insert(
                            order.order_id,
                            (out.1, initial_queue(old(self).depth, o)),
                        )
                    } else {
                        old(self).orders@
                    })
                }
            },
            order.req == Status::Canceled ==> {
                &&& r is Ok
                &&& final(self).orders@ == old(self).orders@.remove(order.order_id)
                &&& final(self).fills@ == old(self).fills@
                &&& final(self).responses@ == old(self).responses@.push(
                    if old(self).orders@.contains_key(order.order_id) {
                        Order {
                            status: Status::Canceled,
                            exch_timestamp: timestamp,
                            ..old(self).orders@[order.order_id].0
                        }
                    } else {
                        Order {
                            req: Status::Rejected,
                            exch_timestamp: timestamp,
                            ..Order { req: Status::Nil, ..order }
                        }
                    },
                )
            },
    {
        let mut order = order;
        if order.req == Status::New {
            order.req = Status::Nil;
            match self.ack_new(&mut order, timestamp) {
                Err(e) => {
                    return Err(e);
                },
                Ok(()) => {},
            }
        } else if order.req == Status::Canceled {
            order.req = Status::Nil;
            let _ = self.ack_cancel(&mut order, timestamp);
        } else if order.req == Status::Replaced {
            order.req = Status::Nil;
            match self.ack_modify(&mut order, timestamp) {
                Err(e) => {
                    return Err(e);
                },
                Ok(()) => {},
            }
        } else {
            return Err(BacktestError::InvalidOrderRequest);
        }
        self.responses.push(order);
        Ok(())
    }

    /// A new buy limit order at or above the best ask takes liquidity, as [`taking_buy`]
    /// states.
    fn take_buy(&mut self, order: &mut Order, timestamp: i64) -> (r: Result<(), BacktestError>)
        requires
            old(order).price_tick >= old(self).depth.best_ask(),
            old(order).time_in_force == TimeInForce::FOK ==> fok_completes(
                old(self).depth,
                *old(order),
                timestamp,
            ),
        ensures
            final(self).depth == old(self).depth,
            final(self).orders@ == old(self).orders@,
            final(self).responses@ == old(self).responses@,
            ({
                let out = taking_buy(old(self).depth, *old(order), timestamp);
                &&& (out.2 is None ==> r is Ok)
                &&& (out.2 is Some ==> r == Err::<(), BacktestError>(out.2->0))
                &&& *final(order) == out.1
                &&& final(self).fills@ == old(self).fills@ + out.0
            }),
    {
        let ghost f0 = self.fills@;
        let best = self.depth.best_ask_tick();
        match order.time_in_force {
            TimeInForce::GTX => {
                order.status = Status::Expired;
                order.exch_timestamp = timestamp;
                assert(self.fills@ =~= f0 + Seq::<Order>::empty());
                Ok(())
            },
            TimeInForce::FOK => {
                if asks_reach(&self.depth, best, order.price_tick, order.qty) {
                    match take_asks(
                        &self.depth,
                        order,
                        &mut self.fills,
                        best,
                        order.price_tick,
                        timestamp,
                        false,
                    ) {
                        Err(e) => Err(e),
                        Ok(_) => Ok(()),
                    }
                } else {
                    order.status = Status::Expired;
                    order.exch_timestamp = timestamp;
                    assert(self.fills@ =~= f0 + Seq::<Order>::empty());
                    Ok(())
                }
            },
            TimeInForce::IOC => {
                match take_asks(
                    &self.depth,
                    order,
                    &mut self.fills,
                    best,
                    order.price_tick,
                    timestamp,
                    true,
                ) {
                    Err(e) => Err(e),
                    Ok(true) => Ok(()),
                    Ok(false) => {
                        order.status = Status::Expired;
                        order.exch_timestamp = timestamp;
                        Ok(())
                    },
                }
            },
            TimeInForce::GTC => {
                let done = if order.price_tick > best {
                    take_asks(
                        &self.depth,
                        order,
                        &mut self.fills,
                        best,
                        order.price_tick - 1,
                        timestamp,
                        true,
                    )
                } else {
                    assert(self.fills@ =~= f0 + Seq::<Order>::empty());
                    Ok(false)
                };
                match done {
                    Err(e) => Err(e),
                    Ok(true) => Ok(()),
                    Ok(false) => {
                        let ghost f1 = self.fills@;
                        let price_tick = order.price_tick;
                        let leaves_qty = order.leaves_qty;
                        let r = fill(order, &mut self.fills, timestamp, false, price_tick, leaves_qty);
                        assert(self.fills@ =~= f0 + (f1.subrange(f0.len() as int, f1.len() as int)
                            + self.fills@.subrange(f1.len() as int, self.fills@.len() as int)));
                        r
                    },
                }
            },
            TimeInForce::Unsupported => {
                assert(self.fills@ =~= f0 + Seq::<Order>::empty());
                Err(BacktestError::InvalidOrderRequest)
            },
        }
    }

    /// A new sell limit order at or below the best bid takes liquidity, as [`taking_sell`]
    /// states.
    fn take_sell(&mut self, order: &mut Order, timestamp: i64) -> (r: Result<(), BacktestError>)
        requires
            old(order).price_tick <= old(self).depth.best_bid(),
            old(order).time_in_force == TimeInForce::FOK ==> fok_completes(
                old(self).depth,
                *old(order),
                timestamp,
            ),
        ensures
            final(self).depth == old(self).depth,
            final(self).orders@ == old(self).orders@,
            final(self).responses@ == old(self).responses@,
            ({
                let out = taking_sell(old(self).depth, *old(order), timestamp);
                &&& (out.2 is None ==> r is Ok)
                &&& (out.2 is Some ==> r == Err::<(), BacktestError>(out.2->0))
                &&& *final(order) == out.1
                &&& final(self).fills@ == old(self).fills@ + out.0
            }),
    {
        let ghost f0 = self.fills@;
        let best = self.depth.best_bid_tick();
        match order.time_in_force {
            TimeInForce::GTX => {
                order.status = Status::Expired;
                order.exch_timestamp = timestamp;
                assert(self.fills@ =~= f0 + Seq::<Order>::empty());
                Ok(())
            },
            TimeInForce::FOK => {
                if bids_reach(&self.depth, best, order.price_tick, order.qty) {
                    match take_bids(
                        &self.depth,
                        order,
                        &mut self.fills,
                        best,
                        order.price_tick,
                        timestamp,
                        false,
                    ) {
                        Err(e) => Err(e),
                        Ok(_) => Ok(()),
                    }
                } else {
                    order.status = Status::Expired;
                    order.exch_timestamp = timestamp;
                    assert(self.fills@ =~= f0 + Seq::<Order>::empty());
                    Ok(())
                }
            },
            TimeInForce::IOC => {
                match take_bids(
                    &self.depth,
                    order,
                    &mut self.fills,
                    best,
                    order.price_tick,
                    timestamp,
                    true,
                ) {
                    Err(e) => Err(e),
                    Ok(true) => Ok(()),
                    Ok(false) => {
                        order.status = Status::Expired;
                        order.exch_timestamp = timestamp;
                        Ok(())
                    },
                }
            },
            TimeInForce::GTC => {
                match take_bids(
                    &self.depth,
                    order,
                    &mut self.fills,
                    best,
                    order.price_tick,
                    timestamp,
                    true,
                ) {
                    Err(e) => Err(e),
                    Ok(true) => Ok(()),
                    Ok(false) => {
                        let ghost f1 = self.fills@;
                        let price_tick = order.price_tick;
                        let leaves_qty = order.leaves_qty;
                        let r = fill(order, &mut self.fills, timestamp, false, price_tick, leaves_qty);
                        assert(self.fills@ =~= f0 + (f1.subrange(f0.len() as int, f1.len() as int)
                            + self.fills@.subrange(f1.len() as int, self.fills@.len() as int)));
                        r
                    },
                }
            },
            TimeInForce::Unsupported => {
                assert(self.fills@ =~= f0 + Seq::<Order>::empty());
                Err(BacktestError::InvalidOrderRequest)
            },
        }
    }
}

impl PartialFillExchange<HashMapMarketDepth> {
    /// Processes a market data event on the exchange side, by its flag as
    /// [`exch_event_kind`] reads it: a clear removes price levels (up to `price_tick`, or every
    /// level when it is `None`); a depth change updates the level, the queue positions of the
    /// resting orders at the level, and fills the resting orders that a new best price reaches;
    /// a trade fills the resting orders that it reaches or that are ahead of it in the queue.
    /// Other events change nothing.
    pub fn process(&mut self, ev: u64, exch_ts: i64, price_tick: Option<i64>, qty_lot: i64) -> (r:
        Result<(), BacktestError>)
        requires
            book_wf(old(self).orders@),
            qty_lot >= 0,
            4 <= exch_event_kind(ev) <= 7 ==> price_tick is Some,
            exch_event_kind(ev) == 1 && price_tick is Some ==> price_tick->0 > INVALID_MIN,
            exch_event_kind(ev) == 2 && price_tick is Some ==> price_tick->0 < INVALID_MAX,
        ensures
            r is Ok ==> book_wf(final(self).orders@),
            exch_event_kind(ev) == 0 ==> r is Ok && final(self).depth == old(self).depth
                && final(self).orders@ == old(self).orders@ && final(self).fills@ == old(
                self,
            ).fills@ && final(self).responses@ == old(self).responses@,
            1 <= exch_event_kind(ev) <= 3 ==> {
                &&& r is Ok
                &&& final(self).orders@ == old(self).orders@
                &&& final(self).fills@ == old(self).fills@
                &&& final(self).responses@ == old(self).responses@
                &&& exch_event_kind(ev) == 1 ==> bids_cleared(
                    old(self).depth,
                    final(self).depth,
                    price_tick,
                )
                &&& exch_event_kind(ev) == 2 ==> asks_cleared(
                    old(self).depth,
                    final(self).depth,
                    price_tick,
                )
                &&& exch_event_kind(ev) == 3 ==> all_cleared(old(self).depth, final(self).depth)
            },
            exch_event_kind(ev) == 4 ==> {
                let p = price_tick->0;
                let m1 = book_after(old(self).orders@, BookEvent::BidQty(p, qty_lot), exch_ts);
                &&& bid_level_set(old(self).depth, final(self).depth, p, qty_lot)
                &&& if final(self).depth.best_bid_tick > old(self).depth.best_bid_tick {
                    reacted(
                        m1,
                        old(self).fills@,
                        old(self).responses@,
                        final(self).orders@,
                        final(self).fills@,
                        final(self).responses@,
                        BookEvent::BestBidUp(final(self).depth.best_bid_tick),
                        exch_ts,
                        r,
                    )
                } else {
                    &&& r is Ok
                    &&& final(self).orders@ == m1
                    &&& final(self).fills@ == old(self).fills@
                    &&& final(self).responses@ == old(self).responses@
                }
            },
            exch_event_kind(ev) == 5 ==> {
                let p = price_tick->0;
                let m1 = book_after(old(self).orders@, BookEvent::AskQty(p, qty_lot), exch_ts);
                &&& ask_level_set(old(self).depth, final(self).depth, p, qty_lot)
                &&& if final(self).depth.best_ask_tick < old(self).depth.best_ask_tick {
                    reacted(
                        m1,
                        old(self).fills@,
                        old(self).responses@,
                        final(self).orders@,
                        final(self).fills@,
                        final(self).responses@,
                        BookEvent::BestAskDown(final(self).depth.best_ask_tick),
                        exch_ts,
                        r,
                    )
                } else {
                    &&& r is Ok
                    &&& final(self).orders@ == m1
                    &&& final(self).fills@ == old(self).fills@
                    &&& final(self).responses@ == old(self).responses@
                }
            },
            exch_event_kind(ev) == 6 ==> final(self).depth == old(self).depth && reacted(
                old(self).orders@,
                old(self).fills@,
                old(self).responses@,
                final(self).orders@,
                final(self).fills@,
                final(self).responses@,
                BookEvent::BuyTrade(price_tick->0, qty_lot),
                exch_ts,
                r,
            ),
            exch_event_kind(ev) == 7 ==> final(self).depth == old(self).depth && reacted(
                old(self).orders@,
                old(self).fills@,
                old(self).responses@,
                final(self).orders@,
                final(self).fills@,
                final(self).responses@,
                BookEvent::SellTrade(price_tick->0, qty_lot),
                exch_ts,
                r,
            ),
    {
        if event_is(ev, EXCH_BID_DEPTH_CLEAR_EVENT) {
            self.depth.clear_depth(Side::Buy, price_tick);
            Ok(())
        } else if event_is(ev, EXCH_ASK_DEPTH_CLEAR_EVENT) {
            self.depth.clear_depth(Side::Sell, price_tick);
            Ok(())
        } else if event_is(ev, EXCH_DEPTH_CLEAR_EVENT) {
            self.depth.clear_depth(Side::Nil, None);
            Ok(())
        } else if event_is(ev, EXCH_BID_DEPTH_EVENT) || event_is(ev, EXCH_BID_DEPTH_SNAPSHOT_EVENT) {
            let p = price_tick.unwrap();
            let (t, prev_best, best, _prev_qty, new_qty, timestamp) = self.depth.update_bid_depth(
                p,
                qty_lot,
                exch_ts,
            );
            let ghost f0 = self.fills@;
            let ghost r0 = self.responses@;
            let ghost m0 = self.orders@;
            let _ = self.apply_event(BookEvent::BidQty(t, new_qty), timestamp);
            proof {
                let ids = choose|ids: Seq<u64>|
                    #![trigger fills_on(m0, ids, BookEvent::BidQty(t, new_qty), timestamp)]
                    {
                        &&& ids.no_duplicates()
                        &&& ids.to_set() == m0.dom()
                        &&& self.fills@ == f0 + fills_on(m0, ids, BookEvent::BidQty(t, new_qty), timestamp)
                        &&& self.responses@ == r0 + fills_on(m0, ids, BookEvent::BidQty(t, new_qty), timestamp)
                    };
                lemma_qty_change_fills_nothing(m0, ids, BookEvent::BidQty(t, new_qty), timestamp);
                assert(self.fills@ =~= f0);
                assert(self.responses@ =~= r0);
            }
            if best > prev_best {
                self.apply_event(BookEvent::BestBidUp(best), timestamp)
            } else {
                Ok(())
            }
        } else if event_is(ev, EXCH_ASK_DEPTH_EVENT) || event_is(ev, EXCH_ASK_DEPTH_SNAPSHOT_EVENT) {
            let p = price_tick.unwrap();
            let (t, prev_best, best, _prev_qty, new_qty, timestamp) = self.depth.update_ask_depth(
                p,
                qty_lot,
                exch_ts,
            );
            let ghost f0 = self.fills@;
            let ghost r0 = self.responses@;
            let ghost m0 = self.orders@;
            let _ = self.apply_event(BookEvent::AskQty(t, new_qty), timestamp);
            proof {
                let ids = choose|ids: Seq<u64>|
                    #![trigger fills_on(m0, ids, BookEvent::AskQty(t, new_qty), timestamp)]
                    {
                        &&& ids.no_duplicates()
                        &&& ids.to_set() == m0.dom()
                        &&& self.fills@ == f0 + fills_on(m0, ids, BookEvent::AskQty(t, new_qty), timestamp)
                        &&& self.responses@ == r0 + fills_on(m0, ids, BookEvent::AskQty(t, new_qty), timestamp)
                    };
                lemma_qty_change_fills_nothing(m0, ids, BookEvent::AskQty(t, new_qty), timestamp);
                assert(self.fills@ =~= f0);
                assert(self.responses@ =~= r0);
            }
            if best < prev_best {
                self.apply_event(BookEvent::BestAskDown(best), timestamp)
            } else {
                Ok(())
            }
        } else if event_is(ev, EXCH_BUY_TRADE_EVENT) {
            self.apply_event(BookEvent::BuyTrade(price_tick.unwrap(), qty_lot), exch_ts)
        } else if event_is(ev, EXCH_SELL_TRADE_EVENT) {
            self.apply_event(BookEvent::SellTrade(price_tick.unwrap(), qty_lot), exch_ts)
        } else {
            Ok(())
        }
    }
}

} // verus!
