//! L2/L3 market depth kept in hash maps.
//!
//! The best bid and best ask are tracked as the latest known best prices and refreshed by a scan
//! bounded by the lowest bid and the highest ask seen, which lets the book refresh naturally even
//! when some depth feeds are missing.
use std::collections::HashMap;
use vstd::prelude::*;
use vstd::std_specs::iter::IteratorSpec;

use crate::depth::{
    MarketDepth,
    depth_above, depth_below, level_above, level_below, lemma_level_above, lemma_level_below,
    occupied, qty_at, qty_at_tick, remove_levels, tick_range, INVALID_MAX, INVALID_MIN,
};
use crate::backtest::BacktestError;
use crate::types::{
    Event, OrderId, Side, BUY_EVENT, DEPTH_SNAPSHOT_EVENT, EXCH_EVENT, LOCAL_EVENT, SELL_EVENT,
};

verus! {

broadcast use vstd::std_specs::hash::group_hash_axioms;

/// A level-3 order from the market feed, its price in ticks and its quantity in lots.
#[derive(Clone, Copy, Debug)]
pub struct L3Order {
    pub order_id: OrderId,
    pub side: Side,
    pub price_tick: i64,
    pub qty: i64,
    pub timestamp: i64,
}

/// L2/L3 market depth based on hash maps.
pub struct HashMapMarketDepth {
    pub timestamp: i64,
    pub ask_depth: HashMap<i64, i64>,
    pub bid_depth: HashMap<i64, i64>,
    pub best_bid_tick: i64,
    pub best_ask_tick: i64,
    pub low_bid_tick: i64,
    pub high_ask_tick: i64,
    pub orders: HashMap<OrderId, L3Order>,
}

/// The side's level at `t` after `q` lots are added to it.
pub open spec fn add_qty(m: Map<i64, i64>, t: i64, q: i64) -> Map<i64, i64> {
    m.insert(t, (qty_at(m, t) + q) as i64)
}

/// The side's level at `t` after `q` lots are taken from it: the level is removed when nothing
/// is left.
pub open spec fn sub_qty(m: Map<i64, i64>, t: i64, q: i64) -> Map<i64, i64> {
    if m[t] - q == 0 {
        m.remove(t)
    } else {
        m.insert(t, (m[t] - q) as i64)
    }
}

/// Adds `q` lots to the level at `t`.
fn add_to_level(depth: &mut HashMap<i64, i64>, t: i64, q: i64)
    requires
        i64::MIN <= qty_at(old(depth)@, t) + q <= i64::MAX,
    ensures
        final(depth)@ == add_qty(old(depth)@, t, q),
{
    let cur = qty_at_tick(depth, t);
    depth.insert(t, cur + q);
}

/// Takes `q` lots from the level at `t`, removing the level when nothing is left; returns whether
/// it was removed.
fn sub_from_level(depth: &mut HashMap<i64, i64>, t: i64, q: i64) -> (removed: bool)
    requires
        old(depth)@.contains_key(t),
        i64::MIN <= old(depth)@[t] - q <= i64::MAX,
    ensures
        final(depth)@ == sub_qty(old(depth)@, t, q),
        removed == (old(depth)@[t] - q == 0),
{
    let cur = qty_at_tick(depth, t);
    let left = cur - q;
    if left == 0 {
        depth.remove(&t);
        true
    } else {
        depth.insert(t, left);
        false
    }
}

/// Returns the ids of the orders of the given side.
pub(crate) fn order_ids_of_side(orders: &HashMap<OrderId, L3Order>, side: Side) -> (ids: Vec<OrderId>)
    ensures
        forall|id: OrderId| #[trigger] ids@.contains(id) <==> (orders@.contains_key(id)
            && orders@[id].side == side),
{
    let mut ids: Vec<OrderId> = Vec::new();
    let keys = orders.keys();
    let ghost all = IteratorSpec::remaining(&keys);
    assert(all.unref().to_set() == orders@.dom());
    for id in it: keys
        invariant
            it.seq() == all,
            all.unref().to_set() == orders@.dom(),
            forall|k: OrderId| #[trigger] ids@.contains(k) ==> orders@.contains_key(k)
                && orders@[k].side == side,
            forall|j: int|
                0 <= j < it.index() && orders@[*all[j]].side == side ==> #[trigger] ids@.contains(
                    *all[j],
                ),
    {
        let ghost prev = ids@;
        let ghost i = it.index();
        assert(*id == *all[i]);
        assert(all.unref()[i] == *id);
        assert(all.unref().to_set().contains(*id));
        assert(orders@.contains_key(*id));
        match orders.get(id) {
            Some(o) => {
                if o.side == side {
                    ids.push(*id);
                    assert(ids@ == prev.push(*id));
                    assert forall|k: OrderId| #[trigger] ids@.contains(k) implies prev.contains(k)
                        || k == *id by {
                        let n = choose|n: int| 0 <= n < ids@.len() && ids@[n] == k;
                        if n < prev.len() {
                            assert(prev[n] == k);
                        }
                    }
                    assert(ids@[prev.len() as int] == *id);
                }
            },
            None => {},
        }
        assert forall|j: int|
            0 <= j < i + 1 && orders@[*all[j]].side == side implies #[trigger] ids@.contains(
            *all[j],
        ) by {
            if j < i {
                assert(prev.contains(*all[j]));
                let n = choose|n: int| 0 <= n < prev.len() && prev[n] == *all[j];
                assert(ids@[n] == *all[j]);
            }
        }
    }
    assert forall|k: OrderId| orders@.contains_key(k) && orders@[k].side == side implies #[trigger] ids@.contains(k) by {
        assert(all.unref().to_set().contains(k));
        let j = choose|j: int| 0 <= j < all.unref().len() && all.unref()[j] == k;
        assert(*all[j] == k);
    }
    ids
}

/// Removes the orders with the given ids.
pub(crate) fn remove_orders(orders: &mut HashMap<OrderId, L3Order>, ids: &Vec<OrderId>)
    ensures
        final(orders)@ == old(orders)@.remove_keys(ids@.to_set()),
{
    let ghost m0 = orders@;
    let mut i: usize = 0;
    while i < ids.len()
        invariant
            i <= ids@.len(),
            orders@ == m0.remove_keys(ids@.take(i as int).to_set()),
        decreases ids@.len() - i,
    {
        orders.remove(&ids[i]);
        assert(ids@.take(i + 1) =~= ids@.take(i as int).push(ids@[i as int]));
        proof {
            ids@.take(i as int).lemma_push_to_set_commute(ids@[i as int]);
        }
        i = i + 1;
        assert(orders@ =~= m0.remove_keys(ids@.take(i as int).to_set()));
    }
    assert(ids@.take(ids@.len() as int) =~= ids@);
}

/// The ids of the orders of `side`.
pub open spec fn ids_of_side(orders: Map<OrderId, L3Order>, side: Side) -> Set<OrderId> {
    Set::new(|id: OrderId| orders.contains_key(id) && orders[id].side == side)
}

/// A row of a depth snapshot: the event flag, the price in ticks and the quantity in lots.
#[derive(Clone, Copy, Debug)]
pub struct SnapshotLevel {
    pub ev: u64,
    pub price_tick: i64,
    pub qty: i64,
}

/// The book built from snapshot rows: (bid side, ask side, best bid, best ask, lowest bid,
/// highest ask). Rows flagged as buys set bid levels, rows flagged as sells set ask levels, other
/// rows are skipped; the best prices and the bounds are the extremes of the rows' prices.
pub open spec fn snapshot_book(rows: Seq<SnapshotLevel>) -> (
    Map<i64, i64>,
    Map<i64, i64>,
    i64,
    i64,
    i64,
    i64,
)
    decreases rows.len(),
{
    if rows.len() == 0 {
        (Map::empty(), Map::empty(), INVALID_MIN, INVALID_MAX, INVALID_MAX, INVALID_MIN)
    } else {
        let (bid, ask, bb, ba, low, high) = snapshot_book(rows.drop_last());
        let row = rows.last();
        let t = row.price_tick;
        if row.ev & BUY_EVENT == BUY_EVENT {
            (
                bid.insert(t, row.qty),
                ask,
                if t > bb {
                    t
                } else {
                    bb
                },
                ba,
                if t < low {
                    t
                } else {
                    low
                },
                high,
            )
        } else if row.ev & SELL_EVENT == SELL_EVENT {
            (
                bid,
                ask.insert(t, row.qty),
                bb,
                if t < ba {
                    t
                } else {
                    ba
                },
                low,
                if t > high {
                    t
                } else {
                    high
                },
            )
        } else {
            (bid, ask, bb, ba, low, high)
        }
    }
}

/// `d2` is `d` after [`HashMapMarketDepth::add_buy_order`] of the order at `timestamp`, which
/// returned `r`.
pub open spec fn buy_order_added(d: HashMapMarketDepth, d2: HashMapMarketDepth, order_id: OrderId, price_tick: i64, qty: i64, timestamp: i64, r: Result<(i64, i64), BacktestError>) -> bool {
    &&& (d.orders@.contains_key(order_id) ==> (r matches Err(
        BacktestError::OrderIdExist,
    )) && d2 == d)
    &&& (!d.orders@.contains_key(order_id) ==> {
        &&& r == Ok::<(i64, i64), BacktestError>(
            (d.best_bid_tick, d2.best_bid_tick),
        )
        &&& d2.orders@ == d.orders@.insert(
            order_id,
            L3Order { order_id, side: Side::Buy, price_tick, qty, timestamp },
        )
        &&& d2.bid_depth@ == add_qty(d.bid_depth@, price_tick, qty)
        &&& d2.ask_depth@ == d.ask_depth@
        &&& d2.timestamp == d.timestamp
        &&& d2.high_ask_tick == d.high_ask_tick
        &&& d2.best_bid_tick == (if price_tick > d.best_bid_tick {
            price_tick
        } else {
            d.best_bid_tick
        })
        &&& d2.low_bid_tick == (if price_tick < d.low_bid_tick {
            price_tick
        } else {
            d.low_bid_tick
        })
        &&& d2.best_ask_tick == (if price_tick > d.best_bid_tick
            && price_tick >= d.best_ask_tick {
            level_above(d.ask_depth@, price_tick, d.high_ask_tick)
        } else {
            d.best_ask_tick
        })
    })
    &&& (d.bbo_valid() && qty > 0 && qty_at(d.bid_depth@, price_tick) >= 0
        && INVALID_MIN < price_tick < INVALID_MAX ==> d2.bbo_valid())
    &&& (d.orders_rest_on_levels() ==> d2.orders_rest_on_levels())
}

/// `d2` is `d` after [`HashMapMarketDepth::add_sell_order`] of the order at `timestamp`, which
/// returned `r`.
pub open spec fn sell_order_added(d: HashMapMarketDepth, d2: HashMapMarketDepth, order_id: OrderId, price_tick: i64, qty: i64, timestamp: i64, r: Result<(i64, i64), BacktestError>) -> bool {
    &&& (d.orders@.contains_key(order_id) ==> (r matches Err(
        BacktestError::OrderIdExist,
    )) && d2 == d)
    &&& (!d.orders@.contains_key(order_id) ==> {
        &&& r == Ok::<(i64, i64), BacktestError>(
            (d.best_ask_tick, d2.best_ask_tick),
        )
        &&& d2.orders@ == d.orders@.insert(
            order_id,
            L3Order { order_id, side: Side::Sell, price_tick, qty, timestamp },
        )
        &&& d2.ask_depth@ == add_qty(d.ask_depth@, price_tick, qty)
        &&& d2.bid_depth@ == d.bid_depth@
        &&& d2.timestamp == d.timestamp
        &&& d2.low_bid_tick == d.low_bid_tick
        &&& d2.best_ask_tick == (if price_tick < d.best_ask_tick {
            price_tick
        } else {
            d.best_ask_tick
        })
        &&& d2.high_ask_tick == (if price_tick > d.high_ask_tick {
            price_tick
        } else {
            d.high_ask_tick
        })
        &&& d2.best_bid_tick == (if price_tick < d.best_ask_tick
            && d.best_bid_tick >= price_tick {
            level_below(d.bid_depth@, price_tick, d.low_bid_tick)
        } else {
            d.best_bid_tick
        })
    })
    &&& (d.bbo_valid() && qty > 0 && qty_at(d.ask_depth@, price_tick) >= 0
        && INVALID_MIN < price_tick < INVALID_MAX ==> d2.bbo_valid())
    &&& (d.orders_rest_on_levels() ==> d2.orders_rest_on_levels())
}

/// `d2` is `d` after [`HashMapMarketDepth::delete_order`] of the order, which returned `r`.
pub open spec fn order_deleted(d: HashMapMarketDepth, d2: HashMapMarketDepth, order_id: OrderId, r: Result<(Side, i64, i64), BacktestError>) -> bool {
    &&& (!d.orders@.contains_key(order_id) ==> (r matches Err(
        BacktestError::OrderNotFound,
    )) && d2 == d)
    &&& (d.orders@.contains_key(order_id) ==> {
        let o = d.orders@[order_id];
        let emptied = d.side_depth(o.side)[o.price_tick] - o.qty == 0;
        &&& d2.orders@ == d.orders@.remove(order_id)
        &&& d2.timestamp == d.timestamp
        &&& if o.side == Side::Buy {
            &&& r == Ok::<(Side, i64, i64), BacktestError>(
                (Side::Buy, d.best_bid_tick, d2.best_bid_tick),
            )
            &&& d2.bid_depth@ == sub_qty(d.bid_depth@, o.price_tick, o.qty)
            &&& d2.ask_depth@ == d.ask_depth@
            &&& d2.best_ask_tick == d.best_ask_tick
            &&& d2.high_ask_tick == d.high_ask_tick
            &&& if emptied && o.price_tick == d.best_bid_tick {
                &&& d2.best_bid_tick == level_below(
                    d2.bid_depth@,
                    d.best_bid_tick,
                    d.low_bid_tick,
                )
                &&& d2.low_bid_tick == (if d2.best_bid_tick
                    == INVALID_MIN {
                    INVALID_MAX
                } else {
                    d.low_bid_tick
                })
            } else {
                &&& d2.best_bid_tick == d.best_bid_tick
                &&& d2.low_bid_tick == d.low_bid_tick
            }
        } else {
            &&& r == Ok::<(Side, i64, i64), BacktestError>(
                (Side::Sell, d.best_ask_tick, d2.best_ask_tick),
            )
            &&& d2.ask_depth@ == sub_qty(d.ask_depth@, o.price_tick, o.qty)
            &&& d2.bid_depth@ == d.bid_depth@
            &&& d2.best_bid_tick == d.best_bid_tick
            &&& d2.low_bid_tick == d.low_bid_tick
            &&& if emptied && o.price_tick == d.best_ask_tick {
                &&& d2.best_ask_tick == level_above(
                    d2.ask_depth@,
                    d.best_ask_tick,
                    d.high_ask_tick,
                )
                &&& d2.high_ask_tick == (if d2.best_ask_tick
                    == INVALID_MAX {
                    INVALID_MIN
                } else {
                    d.high_ask_tick
                })
            } else {
                &&& d2.best_ask_tick == d.best_ask_tick
                &&& d2.high_ask_tick == d.high_ask_tick
            }
        }
    })
    &&& (d.bbo_valid() && d.orders@.contains_key(order_id) && d.side_depth(d.orders@[order_id].side)[d.orders@[order_id].price_tick]
        - d.orders@[order_id].qty >= 0 ==> d2.bbo_valid())
}

/// `d2` is `d` after [`HashMapMarketDepth::modify_order`] of the order to the price and the
/// quantity at `timestamp`, which returned `r`.
pub open spec fn order_modified(d: HashMapMarketDepth, d2: HashMapMarketDepth, order_id: OrderId, price_tick: i64, qty: i64, timestamp: i64, r: Result<(Side, i64, i64), BacktestError>) -> bool {
    &&& (!d.orders@.contains_key(order_id) ==> (r matches Err(
        BacktestError::OrderNotFound,
    )) && d2 == d)
    &&& (d.orders@.contains_key(order_id) ==> {
        let o = d.orders@[order_id];
        &&& d2.timestamp == d.timestamp
        &&& price_tick == o.price_tick ==> {
            &&& d2.orders@ == d.orders@.insert(
                order_id,
                L3Order { qty, ..o },
            )
            &&& d2.best_bid_tick == d.best_bid_tick
            &&& d2.best_ask_tick == d.best_ask_tick
            &&& d2.low_bid_tick == d.low_bid_tick
            &&& d2.high_ask_tick == d.high_ask_tick
            &&& if o.side == Side::Buy {
                &&& r == Ok::<(Side, i64, i64), BacktestError>(
                    (Side::Buy, d.best_bid_tick, d.best_bid_tick),
                )
                &&& d2.bid_depth@ == d.bid_depth@.insert(
                    o.price_tick,
                    (d.bid_depth@[o.price_tick] + (qty - o.qty)) as i64,
                )
                &&& d2.ask_depth@ == d.ask_depth@
            } else {
                &&& r == Ok::<(Side, i64, i64), BacktestError>(
                    (Side::Sell, d.best_ask_tick, d.best_ask_tick),
                )
                &&& d2.ask_depth@ == d.ask_depth@.insert(
                    o.price_tick,
                    (d.ask_depth@[o.price_tick] + (qty - o.qty)) as i64,
                )
                &&& d2.bid_depth@ == d.bid_depth@
            }
        }
        &&& price_tick != o.price_tick ==> {
            &&& d2.orders@ == d.orders@.insert(
                order_id,
                L3Order { price_tick, qty, timestamp, ..o },
            )
            &&& if o.side == Side::Buy {
                let bid1 = sub_qty(d.bid_depth@, o.price_tick, o.qty);
                let emptied_best = d.bid_depth@[o.price_tick] - o.qty == 0
                    && o.price_tick == d.best_bid_tick;
                let best1 = if emptied_best {
                    level_below(bid1, d.best_bid_tick, d.low_bid_tick)
                } else {
                    d.best_bid_tick
                };
                let low1 = if emptied_best && best1 == INVALID_MIN {
                    INVALID_MAX
                } else {
                    d.low_bid_tick
                };
                &&& r == Ok::<(Side, i64, i64), BacktestError>(
                    (Side::Buy, d.best_bid_tick, d2.best_bid_tick),
                )
                &&& d2.bid_depth@ == add_qty(bid1, price_tick, qty)
                &&& d2.ask_depth@ == d.ask_depth@
                &&& d2.high_ask_tick == d.high_ask_tick
                &&& d2.best_bid_tick == (if price_tick > best1 {
                    price_tick
                } else {
                    best1
                })
                &&& d2.low_bid_tick == (if price_tick < low1 {
                    price_tick
                } else {
                    low1
                })
                &&& d2.best_ask_tick == (if price_tick > best1 && price_tick
                    >= d.best_ask_tick {
                    level_above(d.ask_depth@, price_tick, d.high_ask_tick)
                } else {
                    d.best_ask_tick
                })
            } else {
                let ask1 = sub_qty(d.ask_depth@, o.price_tick, o.qty);
                let emptied_best = d.ask_depth@[o.price_tick] - o.qty == 0
                    && o.price_tick == d.best_ask_tick;
                let best1 = if emptied_best {
                    level_above(ask1, d.best_ask_tick, d.high_ask_tick)
                } else {
                    d.best_ask_tick
                };
                let high1 = if emptied_best && best1 == INVALID_MAX {
                    INVALID_MIN
                } else {
                    d.high_ask_tick
                };
                &&& r == Ok::<(Side, i64, i64), BacktestError>(
                    (Side::Sell, d.best_ask_tick, d2.best_ask_tick),
                )
                &&& d2.ask_depth@ == add_qty(ask1, price_tick, qty)
                &&& d2.bid_depth@ == d.bid_depth@
                &&& d2.low_bid_tick == d.low_bid_tick
                &&& d2.best_ask_tick == (if price_tick < best1 {
                    price_tick
                } else {
                    best1
                })
                &&& d2.high_ask_tick == (if price_tick > high1 {
                    price_tick
                } else {
                    high1
                })
                &&& d2.best_bid_tick == (if price_tick < best1
                    && d.best_bid_tick >= price_tick {
                    level_below(d.bid_depth@, price_tick, d.low_bid_tick)
                } else {
                    d.best_bid_tick
                })
            }
        }
    })
}

/// The lots the order `id` of the book contributes to the level at `p` of a side: `bid` for the
/// bid side, which buy orders rest on; the ask side holds the others.
pub open spec fn order_part(orders: Map<OrderId, L3Order>, id: OrderId, bid: bool, p: i64) -> int {
    if orders.contains_key(id) && (orders[id].side == Side::Buy) == bid && orders[id].price_tick
        == p {
        orders[id].qty as int
    } else {
        0
    }
}

/// The quantity of the level at `p` of a side (`bid` for the bid side), 0 where there is none.
pub open spec fn level_of(d: HashMapMarketDepth, bid: bool, p: i64) -> int {
    qty_at(
        if bid {
            d.bid_depth@
        } else {
            d.ask_depth@
        },
        p,
    ) as int
}

/// `d2` differs from `d` in the order `id` alone, and every level of either side changed by
/// exactly the change in what that order contributes to it. So when every level holds the total
/// of the orders resting on it in `d`, it does in `d2` too.
pub open spec fn levels_follow_order(d: HashMapMarketDepth, d2: HashMapMarketDepth, id: OrderId) -> bool {
    &&& d2.orders@.remove(id) == d.orders@.remove(id)
    &&& forall|bid: bool, p: i64|
        #[trigger] level_of(d2, bid, p) - level_of(d, bid, p) == order_part(d2.orders@, id, bid, p)
            - order_part(d.orders@, id, bid, p)
}

/// Adding a buy order adds its quantity to its level and changes nothing else of the depth.
pub proof fn lemma_add_buy_order_levels(
    d: HashMapMarketDepth,
    d2: HashMapMarketDepth,
    id: OrderId,
    price_tick: i64,
    qty: i64,
    timestamp: i64,
    r: Result<(i64, i64), BacktestError>,
)
    requires
        !d.orders@.contains_key(id),
        i64::MIN <= qty_at(d.bid_depth@, price_tick) + qty <= i64::MAX,
        buy_order_added(d, d2, id, price_tick, qty, timestamp, r),
    ensures
        levels_follow_order(d, d2, id),
{
    assert(d2.orders@.remove(id) =~= d.orders@.remove(id));
}

/// Adding a sell order adds its quantity to its level and changes nothing else of the depth.
pub proof fn lemma_add_sell_order_levels(
    d: HashMapMarketDepth,
    d2: HashMapMarketDepth,
    id: OrderId,
    price_tick: i64,
    qty: i64,
    timestamp: i64,
    r: Result<(i64, i64), BacktestError>,
)
    requires
        !d.orders@.contains_key(id),
        i64::MIN <= qty_at(d.ask_depth@, price_tick) + qty <= i64::MAX,
        sell_order_added(d, d2, id, price_tick, qty, timestamp, r),
    ensures
        levels_follow_order(d, d2, id),
{
    assert(d2.orders@.remove(id) =~= d.orders@.remove(id));
}

/// Deleting an order takes its quantity from its level and changes nothing else of the depth.
pub proof fn lemma_delete_order_levels(
    d: HashMapMarketDepth,
    d2: HashMapMarketDepth,
    id: OrderId,
    r: Result<(Side, i64, i64), BacktestError>,
)
    requires
        d.orders@.contains_key(id),
        d.removable(id),
        order_deleted(d, d2, id, r),
    ensures
        levels_follow_order(d, d2, id),
{
    assert(d2.orders@.remove(id) =~= d.orders@.remove(id));
}

/// Modifying an order moves its quantity: at the same price its level changes by the change in
/// its quantity; at a new price its old level loses its old quantity and the new level gains
/// its new one. Nothing else of the depth changes.
pub proof fn lemma_modify_order_levels(
    d: HashMapMarketDepth,
    d2: HashMapMarketDepth,
    id: OrderId,
    price_tick: i64,
    qty: i64,
    timestamp: i64,
    r: Result<(Side, i64, i64), BacktestError>,
)
    requires
        d.orders@.contains_key(id),
        d.modifiable(id, price_tick, qty),
        order_modified(d, d2, id, price_tick, qty, timestamp, r),
    ensures
        levels_follow_order(d, d2, id),
{
    assert(d2.orders@.remove(id) =~= d.orders@.remove(id));
}

/// `d2` is `d` after [`HashMapMarketDepth::clear_orders`] of the side.
pub open spec fn orders_cleared(d: HashMapMarketDepth, d2: HashMapMarketDepth, side: Side) -> bool {
    &&& (d2.timestamp == d.timestamp)
    &&& (side == Side::Buy ==> {
        &&& d2.orders@ == d.orders@.remove_keys(
            ids_of_side(d.orders@, Side::Buy),
        )
        &&& d2.bid_depth@ == Map::<i64, i64>::empty()
        &&& d2.best_bid_tick == INVALID_MIN
        &&& d2.low_bid_tick == INVALID_MAX
        &&& d2.ask_depth@ == d.ask_depth@
        &&& d2.best_ask_tick == d.best_ask_tick
        &&& d2.high_ask_tick == d.high_ask_tick
    })
    &&& (side == Side::Sell ==> {
        &&& d2.orders@ == d.orders@.remove_keys(
            ids_of_side(d.orders@, Side::Sell),
        )
        &&& d2.ask_depth@ == Map::<i64, i64>::empty()
        &&& d2.best_ask_tick == INVALID_MAX
        &&& d2.high_ask_tick == INVALID_MIN
        &&& d2.bid_depth@ == d.bid_depth@
        &&& d2.best_bid_tick == d.best_bid_tick
        &&& d2.low_bid_tick == d.low_bid_tick
    })
    &&& (side == Side::Nil ==> {
        &&& d2.orders@ == Map::<OrderId, L3Order>::empty()
        &&& d2.bid_depth@ == Map::<i64, i64>::empty()
        &&& d2.ask_depth@ == Map::<i64, i64>::empty()
        &&& d2.best_bid_tick == INVALID_MIN
        &&& d2.best_ask_tick == INVALID_MAX
        &&& d2.low_bid_tick == INVALID_MAX
        &&& d2.high_ask_tick == INVALID_MIN
    })
}

impl HashMapMarketDepth {
    /// The best bid and best ask are each an occupied level or the sentinel, and the book is not
    /// crossed.
    pub open spec fn bbo_valid(&self) -> bool {
        &&& (self.best_bid_tick == INVALID_MIN || occupied(self.bid_depth@, self.best_bid_tick))
        &&& (self.best_ask_tick == INVALID_MAX || occupied(self.ask_depth@, self.best_ask_tick))
        &&& self.best_bid_tick < self.best_ask_tick
    }

    /// Constructs an empty market depth.
    pub fn new() -> (r: Self)
        ensures
            r.bid_depth@ == Map::<i64, i64>::empty(),
            r.ask_depth@ == Map::<i64, i64>::empty(),
            r.orders@ == Map::<OrderId, L3Order>::empty(),
            r.timestamp == 0,
            r.best_bid_tick == INVALID_MIN,
            r.best_ask_tick == INVALID_MAX,
            r.low_bid_tick == INVALID_MAX,
            r.high_ask_tick == INVALID_MIN,
            r.bbo_valid(),
    {
        HashMapMarketDepth {
            timestamp: 0,
            ask_depth: HashMap::new(),
            bid_depth: HashMap::new(),
            best_bid_tick: INVALID_MIN,
            best_ask_tick: INVALID_MAX,
            low_bid_tick: INVALID_MAX,
            high_ask_tick: INVALID_MIN,
            orders: HashMap::new(),
        }
    }

    /// Updates the bid side at `price_tick` to `qty_lot` lots and returns (the price in ticks, the
    /// previous best bid, the current best bid, the previous quantity at the price, the current
    /// quantity at the price, the timestamp).
    ///
    /// A positive quantity sets the level and raises the best bid if it is higher; a crossed best
    /// ask is then moved up to the next occupied ask level. Any other quantity removes the level;
    /// a zero quantity at the best bid moves the best bid down to the next occupied bid level.
    pub fn update_bid_depth(&mut self, price_tick: i64, qty_lot: i64, timestamp: i64) -> (r: (
        i64,
        i64,
        i64,
        i64,
        i64,
        i64,
    ))
        ensures
            r == (
                price_tick,
                old(self).best_bid_tick,
                final(self).best_bid_tick,
                qty_at(old(self).bid_depth@, price_tick),
                qty_lot,
                timestamp,
            ),
            final(self).bid_depth@ == (if qty_lot > 0 {
                old(self).bid_depth@.insert(price_tick, qty_lot)
            } else {
                old(self).bid_depth@.remove(price_tick)
            }),
            final(self).ask_depth@ == old(self).ask_depth@,
            final(self).orders@ == old(self).orders@,
            final(self).timestamp == old(self).timestamp,
            final(self).high_ask_tick == old(self).high_ask_tick,
            qty_lot == 0 && price_tick == old(self).best_bid_tick ==> {
                &&& final(self).best_bid_tick == level_below(
                    final(self).bid_depth@,
                    old(self).best_bid_tick,
                    old(self).low_bid_tick,
                )
                &&& final(self).low_bid_tick == (if final(self).best_bid_tick == INVALID_MIN {
                    INVALID_MAX
                } else {
                    old(self).low_bid_tick
                })
                &&& final(self).best_ask_tick == old(self).best_ask_tick
            },
            qty_lot == 0 && price_tick != old(self).best_bid_tick ==> {
                &&& final(self).best_bid_tick == old(self).best_bid_tick
                &&& final(self).low_bid_tick == old(self).low_bid_tick
                &&& final(self).best_ask_tick == old(self).best_ask_tick
            },
            qty_lot != 0 ==> {
                &&& final(self).best_bid_tick == (if price_tick > old(self).best_bid_tick {
                    price_tick
                } else {
                    old(self).best_bid_tick
                })
                &&& final(self).low_bid_tick == (if price_tick < old(self).low_bid_tick {
                    price_tick
                } else {
                    old(self).low_bid_tick
                })
                &&& final(self).best_ask_tick == (if price_tick > old(self).best_bid_tick
                    && price_tick >= old(self).best_ask_tick {
                    level_above(old(self).ask_depth@, price_tick, old(self).high_ask_tick)
                } else {
                    old(self).best_ask_tick
                })
            },
            old(self).bbo_valid() && qty_lot >= 0 && INVALID_MIN < price_tick < INVALID_MAX
                ==> final(self).bbo_valid(),
    {
        let prev_best_bid_tick = self.best_bid_tick;
        let prev_qty = qty_at_tick(&self.bid_depth, price_tick);
        if qty_lot > 0 {
            self.bid_depth.insert(price_tick, qty_lot);
        } else {
            self.bid_depth.remove(&price_tick);
        }
        if qty_lot == 0 {
            if price_tick == self.best_bid_tick {
                self.best_bid_tick = depth_below(&self.bid_depth, self.best_bid_tick, self.low_bid_tick);
                if self.best_bid_tick == INVALID_MIN {
                    self.low_bid_tick = INVALID_MAX;
                }
                proof {
                    lemma_level_below(self.bid_depth@, prev_best_bid_tick, old(self).low_bid_tick);
                }
            }
        } else {
            if price_tick > self.best_bid_tick {
                self.best_bid_tick = price_tick;
                if self.best_bid_tick >= self.best_ask_tick {
                    self.best_ask_tick = depth_above(&self.ask_depth, self.best_bid_tick, self.high_ask_tick);
                    proof {
                        lemma_level_above(self.ask_depth@, price_tick, self.high_ask_tick);
                    }
                }
            }
            if price_tick < self.low_bid_tick {
                self.low_bid_tick = price_tick;
            }
        }
        (price_tick, prev_best_bid_tick, self.best_bid_tick, prev_qty, qty_lot, timestamp)
    }

    /// Updates the ask side at `price_tick` to `qty_lot` lots and returns (the price in ticks, the
    /// previous best ask, the current best ask, the previous quantity at the price, the current
    /// quantity at the price, the timestamp).
    ///
    /// A positive quantity sets the level and lowers the best ask if it is lower; a crossed best
    /// bid is then moved down to the next occupied bid level. Any other quantity removes the level;
    /// a zero quantity at the best ask moves the best ask up to the next occupied ask level.
    pub fn update_ask_depth(&mut self, price_tick: i64, qty_lot: i64, timestamp: i64) -> (r: (
        i64,
        i64,
        i64,
        i64,
        i64,
        i64,
    ))
        ensures
            r == (
                price_tick,
                old(self).best_ask_tick,
                final(self).best_ask_tick,
                qty_at(old(self).ask_depth@, price_tick),
                qty_lot,
                timestamp,
            ),
            final(self).ask_depth@ == (if qty_lot > 0 {
                old(self).ask_depth@.insert(price_tick, qty_lot)
            } else {
                old(self).ask_depth@.remove(price_tick)
            }),
            final(self).bid_depth@ == old(self).bid_depth@,
            final(self).orders@ == old(self).orders@,
            final(self).timestamp == old(self).timestamp,
            final(self).low_bid_tick == old(self).low_bid_tick,
            qty_lot == 0 && price_tick == old(self).best_ask_tick ==> {
                &&& final(self).best_ask_tick == level_above(
                    final(self).ask_depth@,
                    old(self).best_ask_tick,
                    old(self).high_ask_tick,
                )
                &&& final(self).high_ask_tick == (if final(self).best_ask_tick == INVALID_MAX {
                    INVALID_MIN
                } else {
                    old(self).high_ask_tick
                })
                &&& final(self).best_bid_tick == old(self).best_bid_tick
            },
            qty_lot == 0 && price_tick != old(self).best_ask_tick ==> {
                &&& final(self).best_ask_tick == old(self).best_ask_tick
                &&& final(self).high_ask_tick == old(self).high_ask_tick
                &&& final(self).best_bid_tick == old(self).best_bid_tick
            },
            qty_lot != 0 ==> {
                &&& final(self).best_ask_tick == (if price_tick < old(self).best_ask_tick {
                    price_tick
                } else {
                    old(self).best_ask_tick
                })
                &&& final(self).high_ask_tick == (if price_tick > old(self).high_ask_tick {
                    price_tick
                } else {
                    old(self).high_ask_tick
                })
                &&& final(self).best_bid_tick == (if price_tick < old(self).best_ask_tick
                    && old(self).best_bid_tick >= price_tick {
                    level_below(old(self).bid_depth@, price_tick, old(self).low_bid_tick)
                } else {
                    old(self).best_bid_tick
                })
            },
            old(self).bbo_valid() && qty_lot >= 0 && INVALID_MIN < price_tick < INVALID_MAX
                ==> final(self).bbo_valid(),
    {
        let prev_best_ask_tick = self.best_ask_tick;
        let prev_qty = qty_at_tick(&self.ask_depth, price_tick);
        if qty_lot > 0 {
            self.ask_depth.insert(price_tick, qty_lot);
        } else {
            self.ask_depth.remove(&price_tick);
        }
        if qty_lot == 0 {
            if price_tick == self.best_ask_tick {
                self.best_ask_tick = depth_above(&self.ask_depth, self.best_ask_tick, self.high_ask_tick);
                if self.best_ask_tick == INVALID_MAX {
                    self.high_ask_tick = INVALID_MIN;
                }
                proof {
                    lemma_level_above(self.ask_depth@, prev_best_ask_tick, old(self).high_ask_tick);
                }
            }
        } else {
            if price_tick < self.best_ask_tick {
                self.best_ask_tick = price_tick;
                if self.best_bid_tick >= self.best_ask_tick {
                    self.best_bid_tick = depth_below(&self.bid_depth, self.best_ask_tick, self.low_bid_tick);
                    proof {
                        lemma_level_below(self.bid_depth@, price_tick, self.low_bid_tick);
                    }
                }
            }
            if price_tick > self.high_ask_tick {
                self.high_ask_tick = price_tick;
            }
        }
        (price_tick, prev_best_ask_tick, self.best_ask_tick, prev_qty, qty_lot, timestamp)
    }

    /// Clears the market depth. `Side::Buy` removes the bid levels from `clear_upto` up to the best
    /// bid (all bid levels when `clear_upto` is `None`, which stands for an unbounded price), then
    /// takes the highest occupied bid level below `clear_upto - 1` as the best bid; `Side::Sell`
    /// does the same on the ask side upwards, from above `clear_upto + 1`; `Side::Nil` clears both
    /// sides.
    pub fn clear_depth(&mut self, side: Side, clear_upto: Option<i64>)
        requires
            side != Side::Unsupported,
            side == Side::Buy && clear_upto is Some ==> clear_upto->0 > INVALID_MIN,
            side == Side::Sell && clear_upto is Some ==> clear_upto->0 < INVALID_MAX,
        ensures
            final(self).orders@ == old(self).orders@,
            final(self).timestamp == old(self).timestamp,
            side == Side::Buy ==> {
                &&& final(self).ask_depth@ == old(self).ask_depth@
                &&& final(self).best_ask_tick == old(self).best_ask_tick
                &&& final(self).high_ask_tick == old(self).high_ask_tick
                &&& match clear_upto {
                    Some(c) => {
                        &&& final(self).bid_depth@ == (if old(self).best_bid_tick != INVALID_MIN {
                            old(self).bid_depth@.remove_keys(tick_range(c, old(self).best_bid_tick))
                        } else {
                            old(self).bid_depth@
                        })
                        &&& final(self).best_bid_tick == level_below(
                            final(self).bid_depth@,
                            (c - 1) as i64,
                            old(self).low_bid_tick,
                        )
                    },
                    None => {
                        &&& final(self).bid_depth@ == Map::<i64, i64>::empty()
                        &&& final(self).best_bid_tick == INVALID_MIN
                    },
                }
                &&& final(self).low_bid_tick == (if final(self).best_bid_tick == INVALID_MIN {
                    INVALID_MAX
                } else {
                    old(self).low_bid_tick
                })
            },
            side == Side::Sell ==> {
                &&& final(self).bid_depth@ == old(self).bid_depth@
                &&& final(self).best_bid_tick == old(self).best_bid_tick
                &&& final(self).low_bid_tick == old(self).low_bid_tick
                &&& match clear_upto {
                    Some(c) => {
                        &&& final(self).ask_depth@ == (if old(self).best_ask_tick != INVALID_MAX {
                            old(self).ask_depth@.remove_keys(tick_range(old(self).best_ask_tick, c))
                        } else {
                            old(self).ask_depth@
                        })
                        &&& final(self).best_ask_tick == level_above(
                            final(self).ask_depth@,
                            (c + 1) as i64,
                            old(self).high_ask_tick,
                        )
                    },
                    None => {
                        &&& final(self).ask_depth@ == Map::<i64, i64>::empty()
                        &&& final(self).best_ask_tick == INVALID_MAX
                    },
                }
                &&& final(self).high_ask_tick == (if final(self).best_ask_tick == INVALID_MAX {
                    INVALID_MIN
                } else {
                    old(self).high_ask_tick
                })
            },
            side == Side::Nil ==> {
                &&& final(self).bid_depth@ == Map::<i64, i64>::empty()
                &&& final(self).ask_depth@ == Map::<i64, i64>::empty()
                &&& final(self).best_bid_tick == INVALID_MIN
                &&& final(self).best_ask_tick == INVALID_MAX
                &&& final(self).low_bid_tick == INVALID_MAX
                &&& final(self).high_ask_tick == INVALID_MIN
            },
    {
        match side {
            Side::Buy => {
                match clear_upto {
                    Some(c) => {
                        if self.best_bid_tick != INVALID_MIN {
                            remove_levels(&mut self.bid_depth, c, self.best_bid_tick);
                        }
                        self.best_bid_tick = depth_below(&self.bid_depth, c - 1, self.low_bid_tick);
                    },
                    None => {
                        self.bid_depth.clear();
                        self.best_bid_tick = INVALID_MIN;
                    },
                }
                if self.best_bid_tick == INVALID_MIN {
                    self.low_bid_tick = INVALID_MAX;
                }
            },
            Side::Sell => {
                match clear_upto {
                    Some(c) => {
                        if self.best_ask_tick != INVALID_MAX {
                            remove_levels(&mut self.ask_depth, self.best_ask_tick, c);
                        }
                        self.best_ask_tick = depth_above(&self.ask_depth, c + 1, self.high_ask_tick);
                    },
                    None => {
                        self.ask_depth.clear();
                        self.best_ask_tick = INVALID_MAX;
                    },
                }
                if self.best_ask_tick == INVALID_MAX {
                    self.high_ask_tick = INVALID_MIN;
                }
            },
            _ => {
                self.bid_depth.clear();
                self.ask_depth.clear();
                self.best_bid_tick = INVALID_MIN;
                self.best_ask_tick = INVALID_MAX;
                self.low_bid_tick = INVALID_MAX;
                self.high_ask_tick = INVALID_MIN;
            },
        }
    }

    /// The depth of the side an order of `side` rests on: the bid side for a buy, the ask side
    /// otherwise.
    pub open spec fn side_depth(&self, side: Side) -> Map<i64, i64> {
        if side == Side::Buy {
            self.bid_depth@
        } else {
            self.ask_depth@
        }
    }

    /// Every order of the book rests on a level of its side (deleting or modifying an order
    /// takes its quantity from that level).
    pub open spec fn orders_rest_on_levels(&self) -> bool {
        forall|id: OrderId| #[trigger]
            self.orders@.contains_key(id) ==> self.side_depth(self.orders@[id].side).contains_key(
                self.orders@[id].price_tick,
            )
    }

    fn add(&mut self, order: L3Order) -> (r: Result<(), BacktestError>)
        requires
            !old(self).orders@.contains_key(order.order_id) ==> i64::MIN <= qty_at(
                old(self).side_depth(order.side),
                order.price_tick,
            ) + order.qty <= i64::MAX,
        ensures
            old(self).orders@.contains_key(order.order_id) ==> (r matches Err(
                BacktestError::OrderIdExist,
            )) && *final(self) == *old(self),
            !old(self).orders@.contains_key(order.order_id) ==> {
                &&& r is Ok
                &&& final(self).orders@ == old(self).orders@.insert(order.order_id, order)
                &&& order.side == Side::Buy ==> final(self).bid_depth@ == add_qty(
                    old(self).bid_depth@,
                    order.price_tick,
                    order.qty,
                ) && final(self).ask_depth@ == old(self).ask_depth@
                &&& order.side != Side::Buy ==> final(self).ask_depth@ == add_qty(
                    old(self).ask_depth@,
                    order.price_tick,
                    order.qty,
                ) && final(self).bid_depth@ == old(self).bid_depth@
                &&& final(self).timestamp == old(self).timestamp
                &&& final(self).best_bid_tick == old(self).best_bid_tick
                &&& final(self).best_ask_tick == old(self).best_ask_tick
                &&& final(self).low_bid_tick == old(self).low_bid_tick
                &&& final(self).high_ask_tick == old(self).high_ask_tick
            },
    {
        if self.orders.contains_key(&order.order_id) {
            return Err(BacktestError::OrderIdExist);
        }
        self.orders.insert(order.order_id, order);
        if order.side == Side::Buy {
            add_to_level(&mut self.bid_depth, order.price_tick, order.qty);
        } else {
            add_to_level(&mut self.ask_depth, order.price_tick, order.qty);
        }
        Ok(())
    }

    /// Adds a buy order to the order book and returns (the previous best bid, the current best
    /// bid); an order id already in the book is an error.
    pub fn add_buy_order(&mut self, order_id: OrderId, price_tick: i64, qty: i64, timestamp: i64)
        -> (r: Result<(i64, i64), BacktestError>)
        requires
            !old(self).orders@.contains_key(order_id) ==> i64::MIN <= qty_at(
                old(self).bid_depth@,
                price_tick,
            ) + qty <= i64::MAX,
        ensures
            buy_order_added(*old(self), *final(self), order_id, price_tick, qty, timestamp, r),
    {
        let r = self.add(L3Order { order_id, side: Side::Buy, price_tick, qty, timestamp });
        if r.is_err() {
            return Err(BacktestError::OrderIdExist);
        }
        let prev_best_tick = self.best_bid_tick;
        if price_tick > self.best_bid_tick {
            self.best_bid_tick = price_tick;
            if self.best_bid_tick >= self.best_ask_tick {
                self.best_ask_tick = depth_above(&self.ask_depth, self.best_bid_tick, self.high_ask_tick);
                proof {
                    lemma_level_above(self.ask_depth@, price_tick, self.high_ask_tick);
                }
            }
        }
        if price_tick < self.low_bid_tick {
            self.low_bid_tick = price_tick;
        }
        proof {
            assert forall|id: OrderId| #[trigger] self.orders@.contains_key(id)
                && old(self).orders_rest_on_levels() implies self.side_depth(
                self.orders@[id].side,
            ).contains_key(self.orders@[id].price_tick) by {
                if id != order_id {
                    assert(old(self).orders@.contains_key(id));
                }
            }
        }
        Ok((prev_best_tick, self.best_bid_tick))
    }

    /// Adds a sell order to the order book and returns (the previous best ask, the current best
    /// ask); an order id already in the book is an error.
    pub fn add_sell_order(&mut self, order_id: OrderId, price_tick: i64, qty: i64, timestamp: i64)
        -> (r: Result<(i64, i64), BacktestError>)
        requires
            !old(self).orders@.contains_key(order_id) ==> i64::MIN <= qty_at(
                old(self).ask_depth@,
                price_tick,
            ) + qty <= i64::MAX,
        ensures
            sell_order_added(*old(self), *final(self), order_id, price_tick, qty, timestamp, r),
    {
        let r = self.add(L3Order { order_id, side: Side::Sell, price_tick, qty, timestamp });
        if r.is_err() {
            return Err(BacktestError::OrderIdExist);
        }
        let prev_best_tick = self.best_ask_tick;
        if price_tick < self.best_ask_tick {
            self.best_ask_tick = price_tick;
            if self.best_bid_tick >= self.best_ask_tick {
                self.best_bid_tick = depth_below(&self.bid_depth, self.best_ask_tick, self.low_bid_tick);
                proof {
                    lemma_level_below(self.bid_depth@, price_tick, self.low_bid_tick);
                }
            }
        }
        if price_tick > self.high_ask_tick {
            self.high_ask_tick = price_tick;
        }
        proof {
            assert forall|id: OrderId| #[trigger] self.orders@.contains_key(id)
                && old(self).orders_rest_on_levels() implies self.side_depth(
                self.orders@[id].side,
            ).contains_key(self.orders@[id].price_tick) by {
                if id != order_id {
                    assert(old(self).orders@.contains_key(id));
                }
            }
        }
        Ok((prev_best_tick, self.best_ask_tick))
    }

    /// The order `order_id` of the book, which rests on a level of its side holding room for
    /// its quantity to be taken away.
    pub open spec fn removable(&self, order_id: OrderId) -> bool {
        let o = self.orders@[order_id];
        &&& self.side_depth(o.side).contains_key(o.price_tick)
        &&& i64::MIN <= self.side_depth(o.side)[o.price_tick] - o.qty <= i64::MAX
    }

    /// Deletes the order from the order book and returns (its side, the previous best of that
    /// side, the current best of that side); an order id not in the book is an error.
    ///
    /// The order's quantity is taken from its level; a level left empty is removed, and if it was
    /// the best of its side, the best moves to the next occupied level away from the spread.
    pub fn delete_order(&mut self, order_id: OrderId, timestamp: i64) -> (r: Result<
        (Side, i64, i64),
        BacktestError,
    >)
        requires
            old(self).orders@.contains_key(order_id) ==> old(self).removable(order_id),
        ensures
            order_deleted(*old(self), *final(self), order_id, r),
    {
        let order = match self.orders.get(&order_id) {
            Some(o) => *o,
            None => {
                return Err(BacktestError::OrderNotFound);
            },
        };
        self.orders.remove(&order_id);
        if order.side == Side::Buy {
            let prev_best_tick = self.best_bid_tick;
            let emptied = sub_from_level(&mut self.bid_depth, order.price_tick, order.qty);
            if emptied {
                if order.price_tick == self.best_bid_tick {
                    self.best_bid_tick = depth_below(&self.bid_depth, self.best_bid_tick, self.low_bid_tick);
                    if self.best_bid_tick == INVALID_MIN {
                        self.low_bid_tick = INVALID_MAX;
                    }
                    proof {
                        lemma_level_below(self.bid_depth@, prev_best_tick, old(self).low_bid_tick);
                    }
                }
            }
            Ok((Side::Buy, prev_best_tick, self.best_bid_tick))
        } else {
            let prev_best_tick = self.best_ask_tick;
            let emptied = sub_from_level(&mut self.ask_depth, order.price_tick, order.qty);
            if emptied {
                if order.price_tick == self.best_ask_tick {
                    self.best_ask_tick = depth_above(&self.ask_depth, self.best_ask_tick, self.high_ask_tick);
                    if self.best_ask_tick == INVALID_MAX {
                        self.high_ask_tick = INVALID_MIN;
                    }
                    proof {
                        lemma_level_above(self.ask_depth@, prev_best_tick, old(self).high_ask_tick);
                    }
                }
            }
            Ok((Side::Sell, prev_best_tick, self.best_ask_tick))
        }
    }

    /// The order `order_id` of the book can be moved to `price_tick` with `qty` lots: it rests on
    /// a level of its side, and the levels' quantities stay within range.
    pub open spec fn modifiable(&self, order_id: OrderId, price_tick: i64, qty: i64) -> bool {
        let o = self.orders@[order_id];
        let m = self.side_depth(o.side);
        &&& m.contains_key(o.price_tick)
        &&& price_tick != o.price_tick ==> {
            &&& i64::MIN <= m[o.price_tick] - o.qty <= i64::MAX
            &&& i64::MIN <= qty_at(sub_qty(m, o.price_tick, o.qty), price_tick) + qty <= i64::MAX
        }
        &&& price_tick == o.price_tick ==> {
            &&& i64::MIN <= qty - o.qty <= i64::MAX
            &&& i64::MIN <= m[o.price_tick] + (qty - o.qty) <= i64::MAX
        }
    }

    /// Modifies the order in the order book and returns (its side, the previous best of that
    /// side, the current best of that side); an order id not in the book is an error.
    ///
    /// At a new price, the order leaves its level (removed when left empty, the best moving away
    /// from the spread if it was the best) and joins the level at the new price with its new
    /// quantity and timestamp, which may make it the best and move a crossed opposite best. At
    /// the same price, only the quantity changes, and the level changes by the difference.
    pub fn modify_order(&mut self, order_id: OrderId, price_tick: i64, qty: i64, timestamp: i64)
        -> (r: Result<(Side, i64, i64), BacktestError>)
        requires
            old(self).orders@.contains_key(order_id) ==> old(self).modifiable(
                order_id,
                price_tick,
                qty,
            ),
        ensures
            order_modified(*old(self), *final(self), order_id, price_tick, qty, timestamp, r),
    {
        let order = match self.orders.get(&order_id) {
            Some(o) => *o,
            None => {
                return Err(BacktestError::OrderNotFound);
            },
        };
        if order.side == Side::Buy {
            let prev_best_tick = self.best_bid_tick;
            if price_tick != order.price_tick {
                let emptied = sub_from_level(&mut self.bid_depth, order.price_tick, order.qty);
                if emptied {
                    if order.price_tick == self.best_bid_tick {
                        self.best_bid_tick = depth_below(&self.bid_depth, self.best_bid_tick, self.low_bid_tick);
                        if self.best_bid_tick == INVALID_MIN {
                            self.low_bid_tick = INVALID_MAX;
                        }
                    }
                }
                self.orders.insert(
                    order_id,
                    L3Order { price_tick, qty, timestamp, ..order },
                );
                add_to_level(&mut self.bid_depth, price_tick, qty);
                if price_tick > self.best_bid_tick {
                    self.best_bid_tick = price_tick;
                    if self.best_bid_tick >= self.best_ask_tick {
                        self.best_ask_tick = depth_above(&self.ask_depth, self.best_bid_tick, self.high_ask_tick);
                    }
                }
                if price_tick < self.low_bid_tick {
                    self.low_bid_tick = price_tick;
                }
                Ok((Side::Buy, prev_best_tick, self.best_bid_tick))
            } else {
                let cur = qty_at_tick(&self.bid_depth, order.price_tick);
                self.bid_depth.insert(order.price_tick, cur + (qty - order.qty));
                self.orders.insert(order_id, L3Order { qty, ..order });
                Ok((Side::Buy, self.best_bid_tick, self.best_bid_tick))
            }
        } else {
            let prev_best_tick = self.best_ask_tick;
            if price_tick != order.price_tick {
                let emptied = sub_from_level(&mut self.ask_depth, order.price_tick, order.qty);
                if emptied {
                    if order.price_tick == self.best_ask_tick {
                        self.best_ask_tick = depth_above(&self.ask_depth, self.best_ask_tick, self.high_ask_tick);
                        if self.best_ask_tick == INVALID_MAX {
                            self.high_ask_tick = INVALID_MIN;
                        }
                    }
                }
                self.orders.insert(
                    order_id,
                    L3Order { price_tick, qty, timestamp, ..order },
                );
                add_to_level(&mut self.ask_depth, price_tick, qty);
                if price_tick < self.best_ask_tick {
                    self.best_ask_tick = price_tick;
                    if self.best_bid_tick >= self.best_ask_tick {
                        self.best_bid_tick = depth_below(&self.bid_depth, self.best_ask_tick, self.low_bid_tick);
                    }
                }
                if price_tick > self.high_ask_tick {
                    self.high_ask_tick = price_tick;
                }
                Ok((Side::Sell, prev_best_tick, self.best_ask_tick))
            } else {
                let cur = qty_at_tick(&self.ask_depth, order.price_tick);
                self.ask_depth.insert(order.price_tick, cur + (qty - order.qty));
                self.orders.insert(order_id, L3Order { qty, ..order });
                Ok((Side::Sell, self.best_ask_tick, self.best_ask_tick))
            }
        }
    }

    /// Clears the orders of a side and that side of the depth; `Side::Nil` clears both sides and
    /// every order.
    pub fn clear_orders(&mut self, side: Side)
        requires
            side != Side::Unsupported,
        ensures
            orders_cleared(*old(self), *final(self), side),
    {
        match side {
            Side::Buy => {
                self.clear_depth(Side::Buy, None);
                let ids = order_ids_of_side(&self.orders, Side::Buy);
                remove_orders(&mut self.orders, &ids);
                assert(ids@.to_set() =~= ids_of_side(old(self).orders@, Side::Buy));
            },
            Side::Sell => {
                self.clear_depth(Side::Sell, None);
                let ids = order_ids_of_side(&self.orders, Side::Sell);
                remove_orders(&mut self.orders, &ids);
                assert(ids@.to_set() =~= ids_of_side(old(self).orders@, Side::Sell));
            },
            _ => {
                self.clear_depth(Side::Nil, None);
                self.orders.clear();
            },
        }
    }

    /// Returns the orders held in the order book.
    pub fn orders(&self) -> (r: &HashMap<OrderId, L3Order>)
        ensures
            r@ == self.orders@,
    {
        &self.orders
    }

    /// Replaces the depth with the given snapshot (such as a start-of-day snapshot); the orders
    /// are kept.
    pub fn apply_snapshot(&mut self, data: &Vec<SnapshotLevel>)
        ensures
            (
                final(self).bid_depth@,
                final(self).ask_depth@,
                final(self).best_bid_tick,
                final(self).best_ask_tick,
                final(self).low_bid_tick,
                final(self).high_ask_tick,
            ) == snapshot_book(data@),
            final(self).orders@ == old(self).orders@,
            final(self).timestamp == old(self).timestamp,
    {
        self.best_bid_tick = INVALID_MIN;
        self.best_ask_tick = INVALID_MAX;
        self.low_bid_tick = INVALID_MAX;
        self.high_ask_tick = INVALID_MIN;
        self.bid_depth.clear();
        self.ask_depth.clear();
        let mut row_num: usize = 0;
        while row_num < data.len()
            invariant
                row_num <= data@.len(),
                (
                    self.bid_depth@,
                    self.ask_depth@,
                    self.best_bid_tick,
                    self.best_ask_tick,
                    self.low_bid_tick,
                    self.high_ask_tick,
                ) == snapshot_book(data@.take(row_num as int)),
                self.orders@ == old(self).orders@,
                self.timestamp == old(self).timestamp,
            decreases data@.len() - row_num,
        {
            let row = data[row_num];
            let price_tick = row.price_tick;
            assert(data@.take(row_num + 1).drop_last() =~= data@.take(row_num as int));
            if row.ev & BUY_EVENT == BUY_EVENT {
                if price_tick > self.best_bid_tick {
                    self.best_bid_tick = price_tick;
                }
                if price_tick < self.low_bid_tick {
                    self.low_bid_tick = price_tick;
                }
                self.bid_depth.insert(price_tick, row.qty);
            } else if row.ev & SELL_EVENT == SELL_EVENT {
                if price_tick < self.best_ask_tick {
                    self.best_ask_tick = price_tick;
                }
                if price_tick > self.high_ask_tick {
                    self.high_ask_tick = price_tick;
                }
                self.ask_depth.insert(price_tick, row.qty);
            }
            row_num = row_num + 1;
        }
        assert(data@.take(data@.len() as int) =~= data@);
    }
}


impl MarketDepth for HashMapMarketDepth {
    open spec fn best_bid(&self) -> i64 {
        self.best_bid_tick
    }

    open spec fn best_ask(&self) -> i64 {
        self.best_ask_tick
    }

    open spec fn bid_qty(&self, price_tick: i64) -> i64 {
        qty_at(self.bid_depth@, price_tick)
    }

    open spec fn ask_qty(&self, price_tick: i64) -> i64 {
        qty_at(self.ask_depth@, price_tick)
    }

    fn best_bid_tick(&self) -> (r: i64) {
        self.best_bid_tick
    }

    fn best_ask_tick(&self) -> (r: i64) {
        self.best_ask_tick
    }

    fn best_bid_qty(&self) -> (r: i64) {
        qty_at_tick(&self.bid_depth, self.best_bid_tick)
    }

    fn best_ask_qty(&self) -> (r: i64) {
        qty_at_tick(&self.ask_depth, self.best_ask_tick)
    }

    fn bid_qty_at_tick(&self, price_tick: i64) -> (r: i64) {
        qty_at_tick(&self.bid_depth, price_tick)
    }

    fn ask_qty_at_tick(&self, price_tick: i64) -> (r: i64) {
        qty_at_tick(&self.ask_depth, price_tick)
    }
}

/// The levels of a side held in the map, as (price in ticks, quantity) pairs, in the order the
/// map yields them.
fn levels_of(depth: &HashMap<i64, i64>) -> (r: Vec<(i64, i64)>)
    ensures
        r@.len() == depth@.dom().len(),
        forall|i: int|
            0 <= i < r@.len() ==> depth@.contains_key(#[trigger] r@[i].0) && depth@[r@[i].0]
                == r@[i].1,
        forall|i: int, j: int| 0 <= i < j < r@.len() ==> r@[i].0 != r@[j].0,
{
    let mut r: Vec<(i64, i64)> = Vec::new();
    let keys = depth.keys();
    let ghost all = IteratorSpec::remaining(&keys);
    assert(all.unref().to_set() == depth@.dom());
    assert(all.unref().no_duplicates());
    assert(all.len() == depth@.dom().len());
    for t in it: keys
        invariant
            it.seq() == all,
            all.unref().to_set() == depth@.dom(),
            r@.len() == it.index(),
            forall|i: int|
                0 <= i < it.index() ==> #[trigger] r@[i].0 == *all[i] && depth@.contains_key(
                    *all[i],
                ) && depth@[*all[i]] == r@[i].1,
    {
        let ghost i = it.index();
        assert(all.unref()[i] == *t);
        assert(all.unref().to_set().contains(*t));
        match depth.get(t) {
            Some(q) => {
                r.push((*t, *q));
            },
            None => {},
        }
    }
    proof {
        assert forall|i: int, j: int| 0 <= i < j < r@.len() implies r@[i].0 != r@[j].0 by {
            assert(all.unref()[i] == *all[i]);
            assert(all.unref()[j] == *all[j]);
        }
        assert forall|i: int| 0 <= i < r@.len() implies depth@.contains_key(#[trigger] r@[i].0)
            && depth@[r@[i].0] == r@[i].1 by {
            assert(r@[i].0 == *all[i]);
        }
    }
    r
}

/// `a` comes before `b`: a higher price when descending, a lower one otherwise.
pub open spec fn tick_before(a: i64, b: i64, descending: bool) -> bool {
    if descending {
        a > b
    } else {
        a < b
    }
}

/// The levels put in order of their distinct prices, descending or ascending.
fn sorted_levels(levels: Vec<(i64, i64)>, descending: bool) -> (r: Vec<(i64, i64)>)
    requires
        forall|i: int, j: int| 0 <= i < j < levels@.len() ==> levels@[i].0 != levels@[j].0,
    ensures
        r@.len() == levels@.len(),
        forall|i: int| 0 <= i < r@.len() ==> levels@.contains(#[trigger] r@[i]),
        forall|i: int, j: int|
            0 <= i < j < r@.len() ==> tick_before(r@[i].0, r@[j].0, descending),
{
    let ghost orig = levels@;
    let n = levels.len();
    let mut rest = levels;
    let mut out: Vec<(i64, i64)> = Vec::new();
    while rest.len() > 0
        invariant
            out@.len() + rest@.len() == n,
            n == orig.len(),
            forall|i: int| 0 <= i < out@.len() ==> orig.contains(#[trigger] out@[i]),
            forall|i: int| 0 <= i < rest@.len() ==> orig.contains(#[trigger] rest@[i]),
            forall|i: int, j: int| 0 <= i < j < rest@.len() ==> rest@[i].0 != rest@[j].0,
            forall|i: int, j: int|
                0 <= i < j < out@.len() ==> tick_before(out@[i].0, out@[j].0, descending),
            forall|i: int, j: int|
                0 <= i < out@.len() && 0 <= j < rest@.len() ==> tick_before(
                    out@[i].0,
                    rest@[j].0,
                    descending,
                ),
        decreases rest@.len(),
    {
        let mut k: usize = 0;
        let mut i: usize = 1;
        while i < rest.len()
            invariant
                k < i <= rest@.len(),
                forall|j: int|
                    0 <= j < i && j != k ==> tick_before(rest@[k as int].0, rest@[j].0, descending),
                forall|i2: int, j2: int| 0 <= i2 < j2 < rest@.len() ==> rest@[i2].0 != rest@[j2].0,
            decreases rest@.len() - i,
        {
            let better = if descending {
                rest[i].0 > rest[k].0
            } else {
                rest[i].0 < rest[k].0
            };
            if better {
                assert forall|j: int| 0 <= j < i + 1 && j != i implies tick_before(
                    rest@[i as int].0,
                    rest@[j].0,
                    descending,
                ) by {
                    if j != k {
                        assert(tick_before(rest@[k as int].0, rest@[j].0, descending));
                    }
                }
                k = i;
            } else {
                assert(rest@[i as int].0 != rest@[k as int].0);
            }
            i = i + 1;
        }
        let ghost old_rest = rest@;
        let ghost old_out = out@;
        let x = rest.remove(k);
        assert(old_rest.contains(x));
        out.push(x);
        assert forall|j: int| 0 <= j < rest@.len() implies tick_before(x.0, rest@[j].0, descending) by {
            if j < k {
                assert(rest@[j] == old_rest[j]);
            } else {
                assert(rest@[j] == old_rest[j + 1]);
            }
        }
        assert forall|i2: int, j2: int| 0 <= i2 < j2 < rest@.len() implies rest@[i2].0 != rest@[j2].0 by {
            let a = if i2 < k { i2 } else { i2 + 1 };
            let b = if j2 < k { j2 } else { j2 + 1 };
            assert(rest@[i2] == old_rest[a]);
            assert(rest@[j2] == old_rest[b]);
        }
        assert forall|i2: int| 0 <= i2 < rest@.len() implies orig.contains(#[trigger] rest@[i2]) by {
            let a = if i2 < k { i2 } else { i2 + 1 };
            assert(rest@[i2] == old_rest[a]);
        }
        assert forall|i2: int, j2: int| 0 <= i2 < out@.len() && 0 <= j2 < rest@.len() implies tick_before(
            out@[i2].0,
            rest@[j2].0,
            descending,
        ) by {
            let b = if j2 < k { j2 } else { j2 + 1 };
            assert(rest@[j2] == old_rest[b]);
            if i2 < old_out.len() {
                assert(out@[i2] == old_out[i2]);
            }
        }
        assert forall|i2: int, j2: int| 0 <= i2 < j2 < out@.len() implies tick_before(
            out@[i2].0,
            out@[j2].0,
            descending,
        ) by {
            if j2 < old_out.len() {
                assert(out@[i2] == old_out[i2] && out@[j2] == old_out[j2]);
            } else {
                assert(out@[i2] == old_out[i2]);
                assert(old_rest[k as int] == x);
            }
        }
        assert forall|i2: int| 0 <= i2 < out@.len() implies orig.contains(#[trigger] out@[i2]) by {
            if i2 < old_out.len() {
                assert(out@[i2] == old_out[i2]);
            }
        }
    }
    out
}

/// The snapshot events of one side hold the side's levels, one each, in order of price: each
/// event carries the exchange, local, side and depth snapshot flags, no timestamp, the level's
/// price and quantity, and no order id.
pub open spec fn snapshot_side(events: Seq<Event>, m: Map<i64, i64>, side_flag: u64, descending: bool) -> bool {
    &&& events.len() == m.dom().len()
    &&& forall|i: int|
        0 <= i < events.len() ==> {
            &&& m.contains_key(#[trigger] events[i].price_tick)
            &&& events[i] == (Event {
                ev: EXCH_EVENT | LOCAL_EVENT | side_flag | DEPTH_SNAPSHOT_EVENT,
                exch_ts: 0,
                local_ts: 0,
                price_tick: events[i].price_tick,
                qty_lot: m[events[i].price_tick],
                order_id: 0,
                ival: 0,
            })
        }
    &&& forall|i: int, j: int|
        0 <= i < j < events.len() ==> tick_before(events[i].price_tick, events[j].price_tick, descending)
}

/// Appends the snapshot events of the levels of one side, in order.
fn push_snapshot_side(events: &mut Vec<Event>, depth: &HashMap<i64, i64>, side_flag: u64, descending: bool)
    ensures
        final(events)@.len() == old(events)@.len() + depth@.dom().len(),
        final(events)@.take(old(events)@.len() as int) == old(events)@,
        snapshot_side(final(events)@.skip(old(events)@.len() as int), depth@, side_flag, descending),
{
    let levels = levels_of(depth);
    let sorted = sorted_levels(levels, descending);
    let ghost base = events@;
    let ghost lv = levels@;
    let ev = EXCH_EVENT | LOCAL_EVENT | side_flag | DEPTH_SNAPSHOT_EVENT;
    let mut i: usize = 0;
    while i < sorted.len()
        invariant
            i <= sorted@.len(),
            sorted@.len() == depth@.dom().len(),
            ev == EXCH_EVENT | LOCAL_EVENT | side_flag | DEPTH_SNAPSHOT_EVENT,
            forall|j: int| 0 <= j < sorted@.len() ==> lv.contains(#[trigger] sorted@[j]),
            forall|j: int|
                0 <= j < lv.len() ==> depth@.contains_key(#[trigger] lv[j].0) && depth@[lv[j].0]
                    == lv[j].1,
            forall|a: int, b: int|
                0 <= a < b < sorted@.len() ==> tick_before(sorted@[a].0, sorted@[b].0, descending),
            events@.len() == base.len() + i,
            events@.take(base.len() as int) == base,
            forall|j: int|
                0 <= j < i ==> #[trigger] events@[base.len() + j] == (Event {
                    ev,
                    exch_ts: 0,
                    local_ts: 0,
                    price_tick: sorted@[j].0,
                    qty_lot: sorted@[j].1,
                    order_id: 0,
                    ival: 0,
                }),
        decreases sorted@.len() - i,
    {
        let (t, q) = sorted[i];
        events.push(Event { ev, exch_ts: 0, local_ts: 0, price_tick: t, qty_lot: q, order_id: 0, ival: 0 });
        assert(events@.take(base.len() as int) =~= base);
        i = i + 1;
    }
    let ghost tail = events@.skip(base.len() as int);
    assert forall|j: int| 0 <= j < tail.len() implies {
        &&& depth@.contains_key(#[trigger] tail[j].price_tick)
        &&& tail[j] == (Event {
            ev: EXCH_EVENT | LOCAL_EVENT | side_flag | DEPTH_SNAPSHOT_EVENT,
            exch_ts: 0,
            local_ts: 0,
            price_tick: tail[j].price_tick,
            qty_lot: depth@[tail[j].price_tick],
            order_id: 0,
            ival: 0,
        })
    } by {
        assert(tail[j] == events@[base.len() + j]);
        assert(lv.contains(sorted@[j]));
        let k = choose|k: int| 0 <= k < lv.len() && lv[k] == sorted@[j];
        assert(depth@.contains_key(lv[k].0));
    }
    assert forall|a: int, b: int| 0 <= a < b < tail.len() implies tick_before(
        tail[a].price_tick,
        tail[b].price_tick,
        descending,
    ) by {
        assert(tail[a] == events@[base.len() + a]);
        assert(tail[b] == events@[base.len() + b]);
    }
}

impl HashMapMarketDepth {
    /// Returns the depth as snapshot events: the bid levels from the highest price down, then
    /// the ask levels from the lowest price up, as [`snapshot_side`] describes each side.
    pub fn snapshot(&self) -> (r: Vec<Event>)
        ensures
            r@.len() == self.bid_depth@.dom().len() + self.ask_depth@.dom().len(),
            snapshot_side(r@.take(self.bid_depth@.dom().len() as int), self.bid_depth@, BUY_EVENT, true),
            snapshot_side(r@.skip(self.bid_depth@.dom().len() as int), self.ask_depth@, SELL_EVENT, false),
    {
        let mut events: Vec<Event> = Vec::new();
        push_snapshot_side(&mut events, &self.bid_depth, BUY_EVENT, true);
        let ghost bids = events@;
        assert(bids.skip(0) =~= bids);
        push_snapshot_side(&mut events, &self.ask_depth, SELL_EVENT, false);
        assert(events@.take(bids.len() as int) == bids);
        events
    }
}

} // verus!
