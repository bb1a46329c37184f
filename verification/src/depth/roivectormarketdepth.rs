//! L2/L3 market depth kept in vectors over a range of interest (ROI) of prices.
//!
//! Each side is a vector of quantities indexed by the price in ticks minus the ROI's lower
//! bound; only prices within the ROI are stored. Updates outside the ROI leave the depth as it
//! is, though L3 orders outside it are still tracked and may still move the best prices. This
//! helps when a strategy computes values over the book around the mid-price.
use std::collections::HashMap;
use vstd::prelude::*;

use crate::backtest::BacktestError;
use crate::depth::hashmapmarketdepth::{
    ids_of_side, order_ids_of_side, order_part, remove_orders, L3Order, SnapshotLevel,
};
use crate::depth::{
    lemma_level_above, lemma_level_below, level_above, level_below, occupied, qty_at, MarketDepth,
    INVALID_MAX, INVALID_MIN,
};
use crate::types::{OrderId, Side, BUY_EVENT, SELL_EVENT};

verus! {

broadcast use vstd::std_specs::hash::group_hash_axioms;

/// The levels of a side held in the vector `v` whose first entry is at tick `lb`: every tick of
/// the range is a level, an empty one holding zero.
pub open spec fn roi_levels(v: Seq<i64>, lb: i64) -> Map<i64, i64> {
    Map::new(|t: i64| lb <= t && t - lb < v.len(), |t: i64| v[t - lb])
}

/// The smaller of two ticks.
pub open spec fn min_tick(a: i64, b: i64) -> i64 {
    if a < b {
        a
    } else {
        b
    }
}

/// The larger of two ticks.
pub open spec fn max_tick(a: i64, b: i64) -> i64 {
    if a > b {
        a
    } else {
        b
    }
}

/// `x` brought within `[lb, ub]`.
pub open spec fn clamp_tick(x: int, lb: i64, ub: i64) -> i64 {
    if x < lb {
        lb
    } else if x > ub {
        ub
    } else {
        x as i64
    }
}

/// Returns the highest occupied level in `[max(end, lb), min(start, ub))` of the side held in
/// `depth` over the ROI `[lb, ub]`, or [`INVALID_MIN`] if there is none.
fn roi_depth_below(depth: &Vec<i64>, start: i64, end: i64, lb: i64, ub: i64) -> (r: i64)
    requires
        lb <= ub,
        ub - lb < i64::MAX,
        depth@.len() == ub - lb + 1,
        start >= lb,
    ensures
        r == level_below(roi_levels(depth@, lb), min_tick(start, ub), max_tick(end, lb)),
{
    let s = if start < ub {
        start
    } else {
        ub
    };
    let e = if end > lb {
        end
    } else {
        lb
    };
    let ghost m = roi_levels(depth@, lb);
    let n = depth.len();
    let mut t = s;
    while t > e
        invariant
            n == depth@.len(),
            s == min_tick(start, ub),
            e == max_tick(end, lb),
            e < s ==> e <= t <= s,
            e >= s ==> t == s,
            lb <= e,
            s <= ub,
            ub - lb < i64::MAX,
            depth@.len() == ub - lb + 1,
            m == roi_levels(depth@, lb),
            level_below(m, s, e) == level_below(m, t, e),
        decreases t - e,
    {
        let ghost prev = t;
        t = t - 1;
        let i = (t - lb) as usize;
        let q = depth[i];
        assert(m.contains_key(t) && m[t] == q);
        if q > 0 {
            assert(occupied(m, t));
            assert(level_below(m, prev, e) == t);
            return t;
        }
    }
    INVALID_MIN
}

/// Returns the lowest occupied level in `(max(start, lb), min(end, ub)]` of the side held in
/// `depth` over the ROI `[lb, ub]`, or [`INVALID_MAX`] if there is none.
fn roi_depth_above(depth: &Vec<i64>, start: i64, end: i64, lb: i64, ub: i64) -> (r: i64)
    requires
        lb <= ub,
        ub - lb < i64::MAX,
        depth@.len() == ub - lb + 1,
        end >= lb,
    ensures
        r == level_above(roi_levels(depth@, lb), max_tick(start, lb), min_tick(end, ub)),
{
    let s = if start > lb {
        start
    } else {
        lb
    };
    let e = if end < ub {
        end
    } else {
        ub
    };
    let ghost m = roi_levels(depth@, lb);
    let n = depth.len();
    let mut t = s;
    while t < e
        invariant
            n == depth@.len(),
            s == max_tick(start, lb),
            e == min_tick(end, ub),
            s < e ==> s <= t <= e,
            s >= e ==> t == s,
            lb <= s,
            e <= ub,
            ub - lb < i64::MAX,
            depth@.len() == ub - lb + 1,
            m == roi_levels(depth@, lb),
            level_above(m, s, e) == level_above(m, t, e),
        decreases e - t,
    {
        let ghost prev = t;
        t = t + 1;
        let i = (t - lb) as usize;
        let q = depth[i];
        assert(m.contains_key(t) && m[t] == q);
        if q > 0 {
            assert(occupied(m, t));
            assert(level_above(m, prev, e) == t);
            return t;
        }
    }
    INVALID_MAX
}

/// Returns a vector of `n` zeros.
fn zeros(n: usize) -> (v: Vec<i64>)
    ensures
        v@ == Seq::new(n as nat, |i: int| 0i64),
{
    let mut v: Vec<i64> = Vec::new();
    let mut i: usize = 0;
    while i < n
        invariant
            i <= n,
            v@ == Seq::new(i as nat, |k: int| 0i64),
        decreases n - i,
    {
        v.push(0);
        i = i + 1;
        assert(v@ =~= Seq::new(i as nat, |k: int| 0i64));
    }
    v
}

/// The vector with the entries at indices in `[from, to)` set to zero.
pub open spec fn zeroed(v: Seq<i64>, from: int, to: int) -> Seq<i64> {
    Seq::new(v.len(), |i: int| if from <= i < to {
        0i64
    } else {
        v[i]
    })
}

/// Sets the entries at indices in `[from, to)` to zero.
fn zero_range(v: &mut Vec<i64>, from: usize, to: usize)
    requires
        to <= old(v)@.len(),
    ensures
        final(v)@ == zeroed(old(v)@, from as int, to as int),
{
    let mut i = from;
    while i < to
        invariant
            from <= i,
            to <= v@.len(),
            v@.len() == old(v)@.len(),
            from < to ==> i <= to,
            from >= to ==> i == from,
            v@ == zeroed(old(v)@, from as int, i as int),
        decreases to - i,
    {
        v.set(i, 0);
        i = i + 1;
        assert(v@ =~= zeroed(old(v)@, from as int, i as int));
    }
    assert(v@ =~= zeroed(old(v)@, from as int, to as int));
}

/// The book rebuilt from snapshot rows over the ROI `[lb, ub]` from empty sides of length
/// `n`: (bid vector, ask vector, best bid, best ask, lowest bid, highest ask). Rows outside the
/// ROI are skipped; rows flagged as buys set bid levels and rows flagged as sells set ask
/// levels; the best prices and the bounds are the extremes of the rows' prices.
pub open spec fn roi_snapshot(rows: Seq<SnapshotLevel>, lb: i64, ub: i64, n: nat) -> (
    Seq<i64>,
    Seq<i64>,
    i64,
    i64,
    i64,
    i64,
)
    decreases rows.len(),
{
    if rows.len() == 0 {
        (
            Seq::new(n, |i: int| 0i64),
            Seq::new(n, |i: int| 0i64),
            INVALID_MIN,
            INVALID_MAX,
            INVALID_MAX,
            INVALID_MIN,
        )
    } else {
        let (bid, ask, bb, ba, low, high) = roi_snapshot(rows.drop_last(), lb, ub, n);
        let row = rows.last();
        let t = row.price_tick;
        if t < lb || t > ub {
            (bid, ask, bb, ba, low, high)
        } else if row.ev & BUY_EVENT == BUY_EVENT {
            (bid.update(t - lb, row.qty), ask, max_tick(t, bb), ba, min_tick(t, low), high)
        } else if row.ev & SELL_EVENT == SELL_EVENT {
            (bid, ask.update(t - lb, row.qty), bb, min_tick(t, ba), low, max_tick(t, high))
        } else {
            (bid, ask, bb, ba, low, high)
        }
    }
}

/// The quantity of the level at `p` within the ROI of a side (`bid` for the bid side).
pub open spec fn roi_level(d: ROIVectorMarketDepth, bid: bool, p: i64) -> int {
    (if bid {
        d.bid_depth@
    } else {
        d.ask_depth@
    })[p - d.roi_lb] as int
}

/// `d2` differs from `d` in the order `id` alone, over the same ROI, and every level within the
/// ROI changed by exactly the change in what that order contributes to it. So when every level
/// within the ROI holds the total of the orders resting on it in `d`, it does in `d2` too.
pub open spec fn roi_levels_follow_order(
    d: ROIVectorMarketDepth,
    d2: ROIVectorMarketDepth,
    id: OrderId,
) -> bool {
    &&& d2.orders@.remove(id) == d.orders@.remove(id)
    &&& d2.roi_lb == d.roi_lb
    &&& d2.roi_ub == d.roi_ub
    &&& forall|bid: bool, p: i64|
        d.roi_lb <= p <= d.roi_ub ==> #[trigger] roi_level(d2, bid, p) - roi_level(d, bid, p)
            == order_part(d2.orders@, id, bid, p) - order_part(d.orders@, id, bid, p)
}

/// L2/L3 market depth based on vectors over a range of interest of prices.
pub struct ROIVectorMarketDepth {
    pub timestamp: i64,
    pub ask_depth: Vec<i64>,
    pub bid_depth: Vec<i64>,
    pub best_bid_tick: i64,
    pub best_ask_tick: i64,
    pub low_bid_tick: i64,
    pub high_ask_tick: i64,
    pub roi_ub: i64,
    pub roi_lb: i64,
    pub orders: HashMap<OrderId, L3Order>,
}

impl ROIVectorMarketDepth {
    /// The vectors span the ROI, whose width fits in a tick.
    pub open spec fn wf(&self) -> bool {
        &&& self.roi_lb <= self.roi_ub
        &&& self.roi_ub - self.roi_lb < i64::MAX
        &&& self.bid_depth@.len() == self.roi_ub - self.roi_lb + 1
        &&& self.ask_depth@.len() == self.roi_ub - self.roi_lb + 1
    }

    /// The bid levels within the ROI.
    pub open spec fn bids(&self) -> Map<i64, i64> {
        roi_levels(self.bid_depth@, self.roi_lb)
    }

    /// The ask levels within the ROI.
    pub open spec fn asks(&self) -> Map<i64, i64> {
        roi_levels(self.ask_depth@, self.roi_lb)
    }

    /// The tick is within the ROI.
    pub open spec fn in_roi(&self, t: i64) -> bool {
        self.roi_lb <= t <= self.roi_ub
    }

    /// Constructs an empty market depth over the ROI `[roi_lb, roi_ub]`, in ticks.
    pub fn new(roi_lb: i64, roi_ub: i64) -> (r: Self)
        requires
            roi_lb <= roi_ub,
            roi_ub - roi_lb < i64::MAX,
            roi_ub - roi_lb < usize::MAX,
        ensures
            r.wf(),
            r.roi_lb == roi_lb,
            r.roi_ub == roi_ub,
            r.bid_depth@ == Seq::new((roi_ub - roi_lb + 1) as nat, |i: int| 0i64),
            r.ask_depth@ == Seq::new((roi_ub - roi_lb + 1) as nat, |i: int| 0i64),
            r.orders@ == Map::<OrderId, L3Order>::empty(),
            r.timestamp == 0,
            r.best_bid_tick == INVALID_MIN,
            r.best_ask_tick == INVALID_MAX,
            r.low_bid_tick == INVALID_MAX,
            r.high_ask_tick == INVALID_MIN,
    {
        let n = (roi_ub - roi_lb) as usize + 1;
        ROIVectorMarketDepth {
            timestamp: 0,
            ask_depth: zeros(n),
            bid_depth: zeros(n),
            best_bid_tick: INVALID_MIN,
            best_ask_tick: INVALID_MAX,
            low_bid_tick: INVALID_MAX,
            high_ask_tick: INVALID_MIN,
            roi_ub,
            roi_lb,
            orders: HashMap::new(),
        }
    }

    /// Returns the bid quantities over the ROI: the entry at index `i` is the quantity at tick
    /// `roi_lb + i`.
    pub fn bid_depth(&self) -> (r: &Vec<i64>)
        ensures
            r@ == self.bid_depth@,
    {
        &self.bid_depth
    }

    /// Returns the ask quantities over the ROI: the entry at index `i` is the quantity at tick
    /// `roi_lb + i`.
    pub fn ask_depth(&self) -> (r: &Vec<i64>)
        ensures
            r@ == self.ask_depth@,
    {
        &self.ask_depth
    }

    /// Returns the lower and the upper bound of the ROI, in ticks.
    pub fn roi_tick(&self) -> (r: (i64, i64))
        ensures
            r == (self.roi_lb, self.roi_ub),
    {
        (self.roi_lb, self.roi_ub)
    }

    /// Returns the orders of the book.
    pub fn orders(&self) -> (r: &HashMap<OrderId, L3Order>)
        ensures
            r@ == self.orders@,
    {
        &self.orders
    }

    /// Updates the bid side at `price_tick` to `qty_lot` lots and returns (the price in ticks, the
    /// previous best bid, the current best bid, the previous quantity at the price, the current
    /// quantity at the price, the timestamp). A price outside the ROI changes nothing.
    ///
    /// A nonzero quantity raises the best bid if it is higher, and a crossed best ask then moves
    /// up to the next occupied ask level within the ROI; a zero quantity at the best bid moves
    /// the best bid down to the next occupied bid level within the ROI.
    pub fn update_bid_depth(&mut self, price_tick: i64, qty_lot: i64, timestamp: i64) -> (r: (
        i64,
        i64,
        i64,
        i64,
        i64,
        i64,
    ))
        requires
            old(self).wf(),
            old(self).in_roi(price_tick) && qty_lot != 0 && price_tick > old(self).best_bid_tick
                && price_tick >= old(self).best_ask_tick ==> old(self).high_ask_tick >= old(
                self,
            ).roi_lb,
        ensures
            final(self).wf(),
            !old(self).in_roi(price_tick) ==> r == (
                price_tick,
                old(self).best_bid_tick,
                old(self).best_bid_tick,
                0i64,
                qty_lot,
                timestamp,
            ) && *final(self) == *old(self),
            old(self).in_roi(price_tick) ==> {
                &&& r == (
                    price_tick,
                    old(self).best_bid_tick,
                    final(self).best_bid_tick,
                    old(self).bids()[price_tick],
                    qty_lot,
                    timestamp,
                )
                &&& final(self).bid_depth@ == old(self).bid_depth@.update(
                    price_tick - old(self).roi_lb,
                    qty_lot,
                )
                &&& final(self).ask_depth@ == old(self).ask_depth@
                &&& final(self).orders@ == old(self).orders@
                &&& final(self).timestamp == old(self).timestamp
                &&& final(self).roi_lb == old(self).roi_lb
                &&& final(self).roi_ub == old(self).roi_ub
                &&& final(self).high_ask_tick == old(self).high_ask_tick
                &&& qty_lot == 0 && price_tick == old(self).best_bid_tick ==> {
                    &&& final(self).best_bid_tick == level_below(
                        final(self).bids(),
                        min_tick(old(self).best_bid_tick, old(self).roi_ub),
                        max_tick(old(self).low_bid_tick, old(self).roi_lb),
                    )
                    &&& final(self).low_bid_tick == (if final(self).best_bid_tick == INVALID_MIN {
                        INVALID_MAX
                    } else {
                        old(self).low_bid_tick
                    })
                    &&& final(self).best_ask_tick == old(self).best_ask_tick
                }
                &&& qty_lot == 0 && price_tick != old(self).best_bid_tick ==> {
                    &&& final(self).best_bid_tick == old(self).best_bid_tick
                    &&& final(self).low_bid_tick == old(self).low_bid_tick
                    &&& final(self).best_ask_tick == old(self).best_ask_tick
                }
                &&& qty_lot != 0 ==> {
                    &&& final(self).best_bid_tick == max_tick(price_tick, old(self).best_bid_tick)
                    &&& final(self).low_bid_tick == min_tick(price_tick, old(self).low_bid_tick)
                    &&& final(self).best_ask_tick == (if price_tick > old(self).best_bid_tick
                        && price_tick >= old(self).best_ask_tick {
                        level_above(
                            old(self).asks(),
                            max_tick(price_tick, old(self).roi_lb),
                            min_tick(old(self).high_ask_tick, old(self).roi_ub),
                        )
                    } else {
                        old(self).best_ask_tick
                    })
                }
            },
    {
        let prev_best_bid_tick = self.best_bid_tick;
        if price_tick < self.roi_lb || price_tick > self.roi_ub {
            return (price_tick, prev_best_bid_tick, self.best_bid_tick, 0, qty_lot, timestamp);
        }
        let len = self.bid_depth.len();
        let t = (price_tick - self.roi_lb) as usize;
        assert(t == price_tick - self.roi_lb && t < len);
        let prev_qty = self.bid_depth[t];
        assert(self.bids()[price_tick] == prev_qty);
        self.bid_depth.set(t, qty_lot);
        if qty_lot == 0 {
            if price_tick == self.best_bid_tick {
                self.best_bid_tick = roi_depth_below(
                    &self.bid_depth,
                    self.best_bid_tick,
                    self.low_bid_tick,
                    self.roi_lb,
                    self.roi_ub,
                );
                if self.best_bid_tick == INVALID_MIN {
                    self.low_bid_tick = INVALID_MAX;
                }
            }
        } else {
            if price_tick > self.best_bid_tick {
                self.best_bid_tick = price_tick;
                if self.best_bid_tick >= self.best_ask_tick {
                    self.best_ask_tick = roi_depth_above(
                        &self.ask_depth,
                        self.best_bid_tick,
                        self.high_ask_tick,
                        self.roi_lb,
                        self.roi_ub,
                    );
                }
            }
            if price_tick < self.low_bid_tick {
                self.low_bid_tick = price_tick;
            }
        }
        (price_tick, prev_best_bid_tick, self.best_bid_tick, prev_qty, qty_lot, timestamp)
    }

    /// Updates the ask side at `price_tick` to `qty_lot` lots and returns (the price in ticks, the
    /// previous best ask, the current best ask, the previous quantity at the price, the current
    /// quantity at the price, the timestamp). A price outside the ROI changes nothing.
    ///
    /// A nonzero quantity lowers the best ask if it is lower, and a crossed best bid then moves
    /// down to the next occupied bid level within the ROI; a zero quantity at the best ask moves
    /// the best ask up to the next occupied ask level within the ROI.
    pub fn update_ask_depth(&mut self, price_tick: i64, qty_lot: i64, timestamp: i64) -> (r: (
        i64,
        i64,
        i64,
        i64,
        i64,
        i64,
    ))
        requires
            old(self).wf(),
            old(self).in_roi(price_tick) && qty_lot == 0 && price_tick == old(self).best_ask_tick
                ==> old(self).high_ask_tick >= old(self).roi_lb,
        ensures
            final(self).wf(),
            !old(self).in_roi(price_tick) ==> r == (
                price_tick,
                old(self).best_ask_tick,
                old(self).best_ask_tick,
                0i64,
                qty_lot,
                timestamp,
            ) && *final(self) == *old(self),
            old(self).in_roi(price_tick) ==> {
                &&& r == (
                    price_tick,
                    old(self).best_ask_tick,
                    final(self).best_ask_tick,
                    old(self).asks()[price_tick],
                    qty_lot,
                    timestamp,
                )
                &&& final(self).ask_depth@ == old(self).ask_depth@.update(
                    price_tick - old(self).roi_lb,
                    qty_lot,
                )
                &&& final(self).bid_depth@ == old(self).bid_depth@
                &&& final(self).orders@ == old(self).orders@
                &&& final(self).timestamp == old(self).timestamp
                &&& final(self).roi_lb == old(self).roi_lb
                &&& final(self).roi_ub == old(self).roi_ub
                &&& final(self).low_bid_tick == old(self).low_bid_tick
                &&& qty_lot == 0 && price_tick == old(self).best_ask_tick ==> {
                    &&& final(self).best_ask_tick == level_above(
                        final(self).asks(),
                        max_tick(old(self).best_ask_tick, old(self).roi_lb),
                        min_tick(old(self).high_ask_tick, old(self).roi_ub),
                    )
                    &&& final(self).high_ask_tick == (if final(self).best_ask_tick == INVALID_MAX {
                        INVALID_MIN
                    } else {
                        old(self).high_ask_tick
                    })
                    &&& final(self).best_bid_tick == old(self).best_bid_tick
                }
                &&& qty_lot == 0 && price_tick != old(self).best_ask_tick ==> {
                    &&& final(self).best_ask_tick == old(self).best_ask_tick
                    &&& final(self).high_ask_tick == old(self).high_ask_tick
                    &&& final(self).best_bid_tick == old(self).best_bid_tick
                }
                &&& qty_lot != 0 ==> {
                    &&& final(self).best_ask_tick == min_tick(price_tick, old(self).best_ask_tick)
                    &&& final(self).high_ask_tick == max_tick(price_tick, old(self).high_ask_tick)
                    &&& final(self).best_bid_tick == (if price_tick < old(self).best_ask_tick
                        && old(self).best_bid_tick >= price_tick {
                        level_below(
                            old(self).bids(),
                            min_tick(price_tick, old(self).roi_ub),
                            max_tick(old(self).low_bid_tick, old(self).roi_lb),
                        )
                    } else {
                        old(self).best_bid_tick
                    })
                }
            },
    {
        let prev_best_ask_tick = self.best_ask_tick;
        if price_tick < self.roi_lb || price_tick > self.roi_ub {
            return (price_tick, prev_best_ask_tick, self.best_ask_tick, 0, qty_lot, timestamp);
        }
        let len = self.ask_depth.len();
        let t = (price_tick - self.roi_lb) as usize;
        assert(t == price_tick - self.roi_lb && t < len);
        let prev_qty = self.ask_depth[t];
        assert(self.asks()[price_tick] == prev_qty);
        self.ask_depth.set(t, qty_lot);
        if qty_lot == 0 {
            if price_tick == self.best_ask_tick {
                self.best_ask_tick = roi_depth_above(
                    &self.ask_depth,
                    self.best_ask_tick,
                    self.high_ask_tick,
                    self.roi_lb,
                    self.roi_ub,
                );
                if self.best_ask_tick == INVALID_MAX {
                    self.high_ask_tick = INVALID_MIN;
                }
            }
        } else {
            if price_tick < self.best_ask_tick {
                self.best_ask_tick = price_tick;
                if self.best_bid_tick >= self.best_ask_tick {
                    self.best_bid_tick = roi_depth_below(
                        &self.bid_depth,
                        self.best_ask_tick,
                        self.low_bid_tick,
                        self.roi_lb,
                        self.roi_ub,
                    );
                }
            }
            if price_tick > self.high_ask_tick {
                self.high_ask_tick = price_tick;
            }
        }
        (price_tick, prev_best_ask_tick, self.best_ask_tick, prev_qty, qty_lot, timestamp)
    }
    /// The side's vector after `q` lots are added at `t` when `t` is within the ROI.
    pub open spec fn added(&self, v: Seq<i64>, t: i64, q: i64) -> Seq<i64> {
        if self.in_roi(t) {
            v.update(t - self.roi_lb, (v[t - self.roi_lb] + q) as i64)
        } else {
            v
        }
    }

    /// Adding `q` lots at `t` to the side's vector stays within range.
    pub open spec fn addable(&self, v: Seq<i64>, t: i64, q: i64) -> bool {
        self.in_roi(t) ==> i64::MIN <= v[t - self.roi_lb] + q <= i64::MAX
    }

    fn add(&mut self, order: L3Order) -> (r: Result<(), BacktestError>)
        requires
            old(self).wf(),
            !old(self).orders@.contains_key(order.order_id) ==> (if order.side == Side::Buy {
                old(self).addable(old(self).bid_depth@, order.price_tick, order.qty)
            } else {
                old(self).addable(old(self).ask_depth@, order.price_tick, order.qty)
            }),
        ensures
            final(self).wf(),
            old(self).orders@.contains_key(order.order_id) ==> (r matches Err(
                BacktestError::OrderIdExist,
            )) && *final(self) == *old(self),
            !old(self).orders@.contains_key(order.order_id) ==> {
                &&& r is Ok
                &&& final(self).orders@ == old(self).orders@.insert(order.order_id, order)
                &&& final(self).bid_depth@ == (if order.side == Side::Buy {
                    old(self).added(old(self).bid_depth@, order.price_tick, order.qty)
                } else {
                    old(self).bid_depth@
                })
                &&& final(self).ask_depth@ == (if order.side == Side::Buy {
                    old(self).ask_depth@
                } else {
                    old(self).added(old(self).ask_depth@, order.price_tick, order.qty)
                })
                &&& final(self).best_bid_tick == old(self).best_bid_tick
                &&& final(self).best_ask_tick == old(self).best_ask_tick
                &&& final(self).low_bid_tick == old(self).low_bid_tick
                &&& final(self).high_ask_tick == old(self).high_ask_tick
                &&& final(self).timestamp == old(self).timestamp
                &&& final(self).roi_lb == old(self).roi_lb
                &&& final(self).roi_ub == old(self).roi_ub
            },
    {
        if self.orders.contains_key(&order.order_id) {
            return Err(BacktestError::OrderIdExist);
        }
        self.orders.insert(order.order_id, order);
        if order.price_tick < self.roi_lb || order.price_tick > self.roi_ub {
            return Ok(());
        }
        let len = self.bid_depth.len();
        let t = (order.price_tick - self.roi_lb) as usize;
        assert(t == order.price_tick - self.roi_lb && t < len);
        if order.side == Side::Buy {
            let q = self.bid_depth[t] + order.qty;
            self.bid_depth.set(t, q);
        } else {
            let q = self.ask_depth[t] + order.qty;
            self.ask_depth.set(t, q);
        }
        Ok(())
    }

    /// Adds a buy order to the order book and returns (the previous best bid, the current best
    /// bid); an order id already in the book is an error. The order's quantity joins its level
    /// when its price is within the ROI; the best bid rises to its price if it is higher, and a
    /// crossed best ask then moves up to the next occupied ask level within the ROI.
    pub fn add_buy_order(&mut self, order_id: OrderId, price_tick: i64, qty: i64, timestamp: i64)
        -> (r: Result<(i64, i64), BacktestError>)
        requires
            old(self).wf(),
            !old(self).orders@.contains_key(order_id) ==> old(self).addable(
                old(self).bid_depth@,
                price_tick,
                qty,
            ),
            !old(self).orders@.contains_key(order_id) && price_tick > old(self).best_bid_tick
                && price_tick >= old(self).best_ask_tick ==> old(self).high_ask_tick >= old(
                self,
            ).roi_lb,
        ensures
            final(self).wf(),
            old(self).orders@.contains_key(order_id) ==> (r matches Err(BacktestError::OrderIdExist))
                && *final(self) == *old(self),
            !old(self).orders@.contains_key(order_id) ==> {
                &&& r == Ok::<(i64, i64), BacktestError>(
                    (old(self).best_bid_tick, final(self).best_bid_tick),
                )
                &&& final(self).orders@ == old(self).orders@.insert(
                    order_id,
                    L3Order { order_id, side: Side::Buy, price_tick, qty, timestamp },
                )
                &&& final(self).bid_depth@ == old(self).added(old(self).bid_depth@, price_tick, qty)
                &&& final(self).ask_depth@ == old(self).ask_depth@
                &&& roi_levels_follow_order(*old(self), *final(self), order_id)
                &&& final(self).timestamp == old(self).timestamp
                &&& final(self).roi_lb == old(self).roi_lb
                &&& final(self).roi_ub == old(self).roi_ub
                &&& final(self).high_ask_tick == old(self).high_ask_tick
                &&& final(self).best_bid_tick == max_tick(price_tick, old(self).best_bid_tick)
                &&& final(self).low_bid_tick == min_tick(price_tick, old(self).low_bid_tick)
                &&& final(self).best_ask_tick == (if price_tick > old(self).best_bid_tick
                    && price_tick >= old(self).best_ask_tick {
                    level_above(
                        old(self).asks(),
                        max_tick(price_tick, old(self).roi_lb),
                        min_tick(old(self).high_ask_tick, old(self).roi_ub),
                    )
                } else {
                    old(self).best_ask_tick
                })
            },
    {
        let r = self.add(L3Order { order_id, side: Side::Buy, price_tick, qty, timestamp });
        if r.is_err() {
            return Err(BacktestError::OrderIdExist);
        }
        let prev_best_tick = self.best_bid_tick;
        if price_tick > self.best_bid_tick {
            self.best_bid_tick = price_tick;
            if self.best_bid_tick >= self.best_ask_tick {
                self.best_ask_tick = roi_depth_above(
                    &self.ask_depth,
                    self.best_bid_tick,
                    self.high_ask_tick,
                    self.roi_lb,
                    self.roi_ub,
                );
            }
        }
        if price_tick < self.low_bid_tick {
            self.low_bid_tick = price_tick;
        }
        proof {
            assert(self.orders@.remove(order_id) =~= old(self).orders@.remove(order_id));
            assert forall|bid: bool, p: i64| old(self).roi_lb <= p <= old(self).roi_ub implies
                #[trigger] roi_level(*self, bid, p) - roi_level(*old(self), bid, p)
                    == order_part(self.orders@, order_id, bid, p) - order_part(old(self).orders@, order_id, bid, p) by {}
        }
        Ok((prev_best_tick, self.best_bid_tick))
    }

    /// Adds a sell order to the order book and returns (the previous best ask, the current best
    /// ask); an order id already in the book is an error. The order's quantity joins its level
    /// when its price is within the ROI; the best ask falls to its price if it is lower, and a
    /// crossed best bid then moves down to the next occupied bid level within the ROI.
    pub fn add_sell_order(&mut self, order_id: OrderId, price_tick: i64, qty: i64, timestamp: i64)
        -> (r: Result<(i64, i64), BacktestError>)
        requires
            old(self).wf(),
            !old(self).orders@.contains_key(order_id) ==> old(self).addable(
                old(self).ask_depth@,
                price_tick,
                qty,
            ),
            !old(self).orders@.contains_key(order_id) && price_tick < old(self).best_ask_tick
                && old(self).best_bid_tick >= price_tick ==> price_tick >= old(self).roi_lb,
        ensures
            final(self).wf(),
            old(self).orders@.contains_key(order_id) ==> (r matches Err(BacktestError::OrderIdExist))
                && *final(self) == *old(self),
            !old(self).orders@.contains_key(order_id) ==> {
                &&& r == Ok::<(i64, i64), BacktestError>(
                    (old(self).best_ask_tick, final(self).best_ask_tick),
                )
                &&& final(self).orders@ == old(self).orders@.insert(
                    order_id,
                    L3Order { order_id, side: Side::Sell, price_tick, qty, timestamp },
                )
                &&& final(self).ask_depth@ == old(self).added(old(self).ask_depth@, price_tick, qty)
                &&& final(self).bid_depth@ == old(self).bid_depth@
                &&& roi_levels_follow_order(*old(self), *final(self), order_id)
                &&& final(self).timestamp == old(self).timestamp
                &&& final(self).roi_lb == old(self).roi_lb
                &&& final(self).roi_ub == old(self).roi_ub
                &&& final(self).low_bid_tick == old(self).low_bid_tick
                &&& final(self).best_ask_tick == min_tick(price_tick, old(self).best_ask_tick)
                &&& final(self).high_ask_tick == max_tick(price_tick, old(self).high_ask_tick)
                &&& final(self).best_bid_tick == (if price_tick < old(self).best_ask_tick
                    && old(self).best_bid_tick >= price_tick {
                    level_below(
                        old(self).bids(),
                        min_tick(price_tick, old(self).roi_ub),
                        max_tick(old(self).low_bid_tick, old(self).roi_lb),
                    )
                } else {
                    old(self).best_bid_tick
                })
            },
    {
        let r = self.add(L3Order { order_id, side: Side::Sell, price_tick, qty, timestamp });
        if r.is_err() {
            return Err(BacktestError::OrderIdExist);
        }
        let prev_best_tick = self.best_ask_tick;
        if price_tick < self.best_ask_tick {
            self.best_ask_tick = price_tick;
            if self.best_bid_tick >= self.best_ask_tick {
                self.best_bid_tick = roi_depth_below(
                    &self.bid_depth,
                    self.best_ask_tick,
                    self.low_bid_tick,
                    self.roi_lb,
                    self.roi_ub,
                );
            }
        }
        if price_tick > self.high_ask_tick {
            self.high_ask_tick = price_tick;
        }
        proof {
            assert(self.orders@.remove(order_id) =~= old(self).orders@.remove(order_id));
            assert forall|bid: bool, p: i64| old(self).roi_lb <= p <= old(self).roi_ub implies
                #[trigger] roi_level(*self, bid, p) - roi_level(*old(self), bid, p)
                    == order_part(self.orders@, order_id, bid, p) - order_part(old(self).orders@, order_id, bid, p) by {}
        }
        Ok((prev_best_tick, self.best_ask_tick))
    }
    /// The side's vector after `q` lots are taken at `t` when `t` is within the ROI.
    pub open spec fn subtracted(&self, v: Seq<i64>, t: i64, q: i64) -> Seq<i64> {
        if self.in_roi(t) {
            v.update(t - self.roi_lb, (v[t - self.roi_lb] - q) as i64)
        } else {
            v
        }
    }

    /// The bid side after the buy order `o` leaves its level: (the bid vector, the best bid, the
    /// lowest bid). When its level within the ROI is left empty and was the best bid, the best
    /// bid moves down to the next occupied level within the ROI.
    pub open spec fn bids_without(&self, o: L3Order) -> (Seq<i64>, i64, i64) {
        let v1 = self.subtracted(self.bid_depth@, o.price_tick, o.qty);
        if self.in_roi(o.price_tick) && v1[o.price_tick - self.roi_lb] == 0 && o.price_tick
            == self.best_bid_tick {
            let best = level_below(
                roi_levels(v1, self.roi_lb),
                min_tick(self.best_bid_tick, self.roi_ub),
                max_tick(self.low_bid_tick, self.roi_lb),
            );
            (v1, best, if best == INVALID_MIN {
                INVALID_MAX
            } else {
                self.low_bid_tick
            })
        } else {
            (v1, self.best_bid_tick, self.low_bid_tick)
        }
    }

    /// The ask side after the sell order `o` leaves its level: (the ask vector, the best ask, the
    /// highest ask). When its level within the ROI is left empty and was the best ask, the best
    /// ask moves up to the next occupied level within the ROI.
    pub open spec fn asks_without(&self, o: L3Order) -> (Seq<i64>, i64, i64) {
        let v1 = self.subtracted(self.ask_depth@, o.price_tick, o.qty);
        if self.in_roi(o.price_tick) && v1[o.price_tick - self.roi_lb] == 0 && o.price_tick
            == self.best_ask_tick {
            let best = level_above(
                roi_levels(v1, self.roi_lb),
                max_tick(self.best_ask_tick, self.roi_lb),
                min_tick(self.high_ask_tick, self.roi_ub),
            );
            (v1, best, if best == INVALID_MAX {
                INVALID_MIN
            } else {
                self.high_ask_tick
            })
        } else {
            (v1, self.best_ask_tick, self.high_ask_tick)
        }
    }

    /// The order `o` can leave its level: the quantity taken stays within range, and a best ask
    /// it empties has an ask bound within the ROI.
    pub open spec fn can_leave(&self, o: L3Order) -> bool {
        let v = if o.side == Side::Buy {
            self.bid_depth@
        } else {
            self.ask_depth@
        };
        &&& self.in_roi(o.price_tick) ==> i64::MIN <= v[o.price_tick - self.roi_lb] - o.qty <= i64::MAX
        &&& o.side != Side::Buy && self.in_roi(o.price_tick) && v[o.price_tick - self.roi_lb] - o.qty
            == 0 && o.price_tick == self.best_ask_tick ==> self.high_ask_tick >= self.roi_lb
    }

    /// The order `order_id` of the book can leave its level.
    pub open spec fn removable(&self, order_id: OrderId) -> bool {
        self.can_leave(self.orders@[order_id])
    }

    /// Takes the order's quantity from its level within the ROI; when the level is left empty
    /// and was the best of its side, the best moves away from the spread to the next occupied
    /// level within the ROI.
    fn leave_level(&mut self, o: L3Order)
        requires
            old(self).wf(),
            old(self).can_leave(o),
        ensures
            final(self).wf(),
            final(self).orders == old(self).orders,
            final(self).timestamp == old(self).timestamp,
            final(self).roi_lb == old(self).roi_lb,
            final(self).roi_ub == old(self).roi_ub,
            o.side == Side::Buy ==> {
                &&& (final(self).bid_depth@, final(self).best_bid_tick, final(self).low_bid_tick)
                    == old(self).bids_without(o)
                &&& final(self).ask_depth@ == old(self).ask_depth@
                &&& final(self).best_ask_tick == old(self).best_ask_tick
                &&& final(self).high_ask_tick == old(self).high_ask_tick
            },
            o.side != Side::Buy ==> {
                &&& (final(self).ask_depth@, final(self).best_ask_tick, final(self).high_ask_tick)
                    == old(self).asks_without(o)
                &&& final(self).bid_depth@ == old(self).bid_depth@
                &&& final(self).best_bid_tick == old(self).best_bid_tick
                &&& final(self).low_bid_tick == old(self).low_bid_tick
            },
    {
        if o.price_tick < self.roi_lb || o.price_tick > self.roi_ub {
            return;
        }
        let len = self.bid_depth.len();
        let t = (o.price_tick - self.roi_lb) as usize;
        assert(t == o.price_tick - self.roi_lb && t < len);
        if o.side == Side::Buy {
            let q = self.bid_depth[t] - o.qty;
            self.bid_depth.set(t, q);
            if q == 0 && o.price_tick == self.best_bid_tick {
                self.best_bid_tick = roi_depth_below(
                    &self.bid_depth,
                    self.best_bid_tick,
                    self.low_bid_tick,
                    self.roi_lb,
                    self.roi_ub,
                );
                if self.best_bid_tick == INVALID_MIN {
                    self.low_bid_tick = INVALID_MAX;
                }
            }
        } else {
            let q = self.ask_depth[t] - o.qty;
            self.ask_depth.set(t, q);
            if q == 0 && o.price_tick == self.best_ask_tick {
                self.best_ask_tick = roi_depth_above(
                    &self.ask_depth,
                    self.best_ask_tick,
                    self.high_ask_tick,
                    self.roi_lb,
                    self.roi_ub,
                );
                if self.best_ask_tick == INVALID_MAX {
                    self.high_ask_tick = INVALID_MIN;
                }
            }
        }
    }

    /// Deletes the order from the order book and returns (its side, the previous best of that
    /// side, the current best of that side); an order id not in the book is an error. Within the
    /// ROI, the order's quantity leaves its level, and the best moves away from the spread when
    /// the best level is left empty.
    pub fn delete_order(&mut self, order_id: OrderId, timestamp: i64) -> (r: Result<
        (Side, i64, i64),
        BacktestError,
    >)
        requires
            old(self).wf(),
            old(self).orders@.contains_key(order_id) ==> old(self).removable(order_id),
        ensures
            final(self).wf(),
            !old(self).orders@.contains_key(order_id) ==> (r matches Err(BacktestError::OrderNotFound))
                && *final(self) == *old(self),
            old(self).orders@.contains_key(order_id) ==> roi_levels_follow_order(
                *old(self),
                *final(self),
                order_id,
            ),
            old(self).orders@.contains_key(order_id) ==> {
                let o = old(self).orders@[order_id];
                &&& final(self).orders@ == old(self).orders@.remove(order_id)
                &&& final(self).timestamp == old(self).timestamp
                &&& final(self).roi_lb == old(self).roi_lb
                &&& final(self).roi_ub == old(self).roi_ub
                &&& if o.side == Side::Buy {
                    &&& r == Ok::<(Side, i64, i64), BacktestError>(
                        (Side::Buy, old(self).best_bid_tick, final(self).best_bid_tick),
                    )
                    &&& (final(self).bid_depth@, final(self).best_bid_tick, final(self).low_bid_tick)
                        == old(self).bids_without(o)
                    &&& final(self).ask_depth@ == old(self).ask_depth@
                    &&& final(self).best_ask_tick == old(self).best_ask_tick
                    &&& final(self).high_ask_tick == old(self).high_ask_tick
                } else {
                    &&& r == Ok::<(Side, i64, i64), BacktestError>(
                        (Side::Sell, old(self).best_ask_tick, final(self).best_ask_tick),
                    )
                    &&& (final(self).ask_depth@, final(self).best_ask_tick, final(self).high_ask_tick)
                        == old(self).asks_without(o)
                    &&& final(self).bid_depth@ == old(self).bid_depth@
                    &&& final(self).best_bid_tick == old(self).best_bid_tick
                    &&& final(self).low_bid_tick == old(self).low_bid_tick
                }
            },
    {
        let order = match self.orders.get(&order_id) {
            Some(o) => *o,
            None => return Err(BacktestError::OrderNotFound),
        };
        self.orders.remove(&order_id);
        if order.side == Side::Buy {
            let prev_best_tick = self.best_bid_tick;
            self.leave_level(order);
            proof {
                assert(self.orders@.remove(order_id) =~= old(self).orders@.remove(order_id));
                assert forall|bid: bool, p: i64| old(self).roi_lb <= p <= old(self).roi_ub implies
                    #[trigger] roi_level(*self, bid, p) - roi_level(*old(self), bid, p)
                        == order_part(self.orders@, order_id, bid, p) - order_part(old(self).orders@, order_id, bid, p) by {}
            }
            Ok((Side::Buy, prev_best_tick, self.best_bid_tick))
        } else {
            let prev_best_tick = self.best_ask_tick;
            self.leave_level(order);
            proof {
                assert(self.orders@.remove(order_id) =~= old(self).orders@.remove(order_id));
                assert forall|bid: bool, p: i64| old(self).roi_lb <= p <= old(self).roi_ub implies
                    #[trigger] roi_level(*self, bid, p) - roi_level(*old(self), bid, p)
                        == order_part(self.orders@, order_id, bid, p) - order_part(old(self).orders@, order_id, bid, p) by {}
            }
            Ok((Side::Sell, prev_best_tick, self.best_ask_tick))
        }
    }

    /// The order `order_id` of the book can be moved to `price_tick` with `qty` lots: the levels'
    /// quantities stay within range, and each best that must be searched for has its bound
    /// within the ROI.
    pub open spec fn modifiable(&self, order_id: OrderId, price_tick: i64, qty: i64) -> bool {
        let o = self.orders@[order_id];
        let v = if o.side == Side::Buy {
            self.bid_depth@
        } else {
            self.ask_depth@
        };
        if price_tick != o.price_tick {
            let v1 = if o.side == Side::Buy {
                self.bids_without(o).0
            } else {
                self.asks_without(o).0
            };
            &&& self.can_leave(o)
            &&& self.in_roi(price_tick) ==> i64::MIN <= v1[price_tick - self.roi_lb] + qty <= i64::MAX
            &&& o.side == Side::Buy && self.in_roi(price_tick) && price_tick > self.bids_without(o).1
                && price_tick >= self.best_ask_tick ==> self.high_ask_tick >= self.roi_lb
        } else {
            &&& i64::MIN <= qty - o.qty <= i64::MAX
            &&& self.in_roi(price_tick) ==> i64::MIN <= v[price_tick - self.roi_lb] + (qty - o.qty)
                <= i64::MAX
        }
    }

    /// Modifies the order in the order book and returns (its side, the previous best of that
    /// side, the current best of that side); an order id not in the book is an error.
    ///
    /// At a new price, the order leaves its level as on deletion, takes the new price, quantity
    /// and timestamp, and, when the new price is within the ROI, joins its level, which may make
    /// it the best and move a crossed opposite best. At the same price, only the quantity
    /// changes, and a level within the ROI changes by the difference.
    pub fn modify_order(&mut self, order_id: OrderId, price_tick: i64, qty: i64, timestamp: i64)
        -> (r: Result<(Side, i64, i64), BacktestError>)
        requires
            old(self).wf(),
            old(self).orders@.contains_key(order_id) ==> old(self).modifiable(
                order_id,
                price_tick,
                qty,
            ),
        ensures
            final(self).wf(),
            !old(self).orders@.contains_key(order_id) ==> (r matches Err(BacktestError::OrderNotFound))
                && *final(self) == *old(self),
            old(self).orders@.contains_key(order_id) ==> roi_levels_follow_order(
                *old(self),
                *final(self),
                order_id,
            ),
            old(self).orders@.contains_key(order_id) ==> {
                let o = old(self).orders@[order_id];
                let lb = old(self).roi_lb;
                &&& final(self).timestamp == old(self).timestamp
                &&& final(self).roi_lb == old(self).roi_lb
                &&& final(self).roi_ub == old(self).roi_ub
                &&& price_tick == o.price_tick ==> {
                    &&& final(self).orders@ == old(self).orders@.insert(order_id, L3Order { qty, ..o })
                    &&& final(self).best_bid_tick == old(self).best_bid_tick
                    &&& final(self).best_ask_tick == old(self).best_ask_tick
                    &&& final(self).low_bid_tick == old(self).low_bid_tick
                    &&& final(self).high_ask_tick == old(self).high_ask_tick
                    &&& if o.side == Side::Buy {
                        &&& r == Ok::<(Side, i64, i64), BacktestError>(
                            (Side::Buy, old(self).best_bid_tick, old(self).best_bid_tick),
                        )
                        &&& final(self).bid_depth@ == (if old(self).in_roi(price_tick) {
                            old(self).bid_depth@.update(
                                price_tick - lb,
                                (old(self).bid_depth@[price_tick - lb] + (qty - o.qty)) as i64,
                            )
                        } else {
                            old(self).bid_depth@
                        })
                        &&& final(self).ask_depth@ == old(self).ask_depth@
                    } else {
                        &&& r == Ok::<(Side, i64, i64), BacktestError>(
                            (Side::Sell, old(self).best_ask_tick, old(self).best_ask_tick),
                        )
                        &&& final(self).ask_depth@ == (if old(self).in_roi(price_tick) {
                            old(self).ask_depth@.update(
                                price_tick - lb,
                                (old(self).ask_depth@[price_tick - lb] + (qty - o.qty)) as i64,
                            )
                        } else {
                            old(self).ask_depth@
                        })
                        &&& final(self).bid_depth@ == old(self).bid_depth@
                    }
                }
                &&& price_tick != o.price_tick ==> {
                    &&& final(self).orders@ == old(self).orders@.insert(
                        order_id,
                        L3Order { price_tick, qty, timestamp, ..o },
                    )
                    &&& if o.side == Side::Buy {
                        let (v1, best1, low1) = old(self).bids_without(o);
                        &&& r == Ok::<(Side, i64, i64), BacktestError>(
                            (Side::Buy, old(self).best_bid_tick, final(self).best_bid_tick),
                        )
                        &&& final(self).ask_depth@ == old(self).ask_depth@
                        &&& final(self).high_ask_tick == old(self).high_ask_tick
                        &&& if old(self).in_roi(price_tick) {
                            &&& final(self).bid_depth@ == v1.update(
                                price_tick - lb,
                                (v1[price_tick - lb] + qty) as i64,
                            )
                            &&& final(self).best_bid_tick == max_tick(price_tick, best1)
                            &&& final(self).low_bid_tick == min_tick(price_tick, low1)
                            &&& final(self).best_ask_tick == (if price_tick > best1 && price_tick
                                >= old(self).best_ask_tick {
                                level_above(
                                    old(self).asks(),
                                    max_tick(price_tick, lb),
                                    min_tick(old(self).high_ask_tick, old(self).roi_ub),
                                )
                            } else {
                                old(self).best_ask_tick
                            })
                        } else {
                            &&& final(self).bid_depth@ == v1
                            &&& final(self).best_bid_tick == best1
                            &&& final(self).low_bid_tick == low1
                            &&& final(self).best_ask_tick == old(self).best_ask_tick
                        }
                    } else {
                        let (v1, best1, high1) = old(self).asks_without(o);
                        &&& r == Ok::<(Side, i64, i64), BacktestError>(
                            (Side::Sell, old(self).best_ask_tick, final(self).best_ask_tick),
                        )
                        &&& final(self).bid_depth@ == old(self).bid_depth@
                        &&& final(self).low_bid_tick == old(self).low_bid_tick
                        &&& if old(self).in_roi(price_tick) {
                            &&& final(self).ask_depth@ == v1.update(
                                price_tick - lb,
                                (v1[price_tick - lb] + qty) as i64,
                            )
                            &&& final(self).best_ask_tick == min_tick(price_tick, best1)
                            &&& final(self).high_ask_tick == max_tick(price_tick, high1)
                            &&& final(self).best_bid_tick == (if price_tick < best1
                                && old(self).best_bid_tick >= price_tick {
                                level_below(
                                    old(self).bids(),
                                    min_tick(price_tick, old(self).roi_ub),
                                    max_tick(old(self).low_bid_tick, lb),
                                )
                            } else {
                                old(self).best_bid_tick
                            })
                        } else {
                            &&& final(self).ask_depth@ == v1
                            &&& final(self).best_ask_tick == best1
                            &&& final(self).high_ask_tick == high1
                            &&& final(self).best_bid_tick == old(self).best_bid_tick
                        }
                    }
                }
            },
    {
        let order = match self.orders.get(&order_id) {
            Some(o) => *o,
            None => return Err(BacktestError::OrderNotFound),
        };
        let len = self.bid_depth.len();
        if order.side == Side::Buy {
            let prev_best_tick = self.best_bid_tick;
            if price_tick != order.price_tick {
                self.leave_level(order);
                self.orders.insert(order_id, L3Order { price_tick, qty, timestamp, ..order });
                if price_tick >= self.roi_lb && price_tick <= self.roi_ub {
                    let t = (price_tick - self.roi_lb) as usize;
                    assert(t == price_tick - self.roi_lb && t < len);
                    let q = self.bid_depth[t] + qty;
                    self.bid_depth.set(t, q);
                    if price_tick > self.best_bid_tick {
                        self.best_bid_tick = price_tick;
                        if self.best_bid_tick >= self.best_ask_tick {
                            self.best_ask_tick = roi_depth_above(
                                &self.ask_depth,
                                self.best_bid_tick,
                                self.high_ask_tick,
                                self.roi_lb,
                                self.roi_ub,
                            );
                        }
                    }
                    if price_tick < self.low_bid_tick {
                        self.low_bid_tick = price_tick;
                    }
                }
                proof {
                    assert(self.orders@.remove(order_id) =~= old(self).orders@.remove(order_id));
                    assert forall|bid: bool, p: i64| old(self).roi_lb <= p <= old(self).roi_ub implies
                        #[trigger] roi_level(*self, bid, p) - roi_level(*old(self), bid, p)
                            == order_part(self.orders@, order_id, bid, p) - order_part(old(self).orders@, order_id, bid, p) by {}
                }
                Ok((Side::Buy, prev_best_tick, self.best_bid_tick))
            } else {
                if price_tick >= self.roi_lb && price_tick <= self.roi_ub {
                    let t = (price_tick - self.roi_lb) as usize;
                    assert(t == price_tick - self.roi_lb && t < len);
                    let q = self.bid_depth[t] + (qty - order.qty);
                    self.bid_depth.set(t, q);
                }
                self.orders.insert(order_id, L3Order { qty, ..order });
                proof {
                    assert(self.orders@.remove(order_id) =~= old(self).orders@.remove(order_id));
                    assert forall|bid: bool, p: i64| old(self).roi_lb <= p <= old(self).roi_ub implies
                        #[trigger] roi_level(*self, bid, p) - roi_level(*old(self), bid, p)
                            == order_part(self.orders@, order_id, bid, p) - order_part(old(self).orders@, order_id, bid, p) by {}
                }
                Ok((Side::Buy, self.best_bid_tick, self.best_bid_tick))
            }
        } else {
            let prev_best_tick = self.best_ask_tick;
            if price_tick != order.price_tick {
                self.leave_level(order);
                self.orders.insert(order_id, L3Order { price_tick, qty, timestamp, ..order });
                if price_tick >= self.roi_lb && price_tick <= self.roi_ub {
                    let t = (price_tick - self.roi_lb) as usize;
                    assert(t == price_tick - self.roi_lb && t < len);
                    let q = self.ask_depth[t] + qty;
                    self.ask_depth.set(t, q);
                    if price_tick < self.best_ask_tick {
                        self.best_ask_tick = price_tick;
                        if self.best_bid_tick >= self.best_ask_tick {
                            self.best_bid_tick = roi_depth_below(
                                &self.bid_depth,
                                self.best_ask_tick,
                                self.low_bid_tick,
                                self.roi_lb,
                                self.roi_ub,
                            );
                        }
                    }
                    if price_tick > self.high_ask_tick {
                        self.high_ask_tick = price_tick;
                    }
                }
                proof {
                    assert(self.orders@.remove(order_id) =~= old(self).orders@.remove(order_id));
                    assert forall|bid: bool, p: i64| old(self).roi_lb <= p <= old(self).roi_ub implies
                        #[trigger] roi_level(*self, bid, p) - roi_level(*old(self), bid, p)
                            == order_part(self.orders@, order_id, bid, p) - order_part(old(self).orders@, order_id, bid, p) by {}
                }
                Ok((Side::Sell, prev_best_tick, self.best_ask_tick))
            } else {
                if price_tick >= self.roi_lb && price_tick <= self.roi_ub {
                    let t = (price_tick - self.roi_lb) as usize;
                    assert(t == price_tick - self.roi_lb && t < len);
                    let q = self.ask_depth[t] + (qty - order.qty);
                    self.ask_depth.set(t, q);
                }
                self.orders.insert(order_id, L3Order { qty, ..order });
                proof {
                    assert(self.orders@.remove(order_id) =~= old(self).orders@.remove(order_id));
                    assert forall|bid: bool, p: i64| old(self).roi_lb <= p <= old(self).roi_ub implies
                        #[trigger] roi_level(*self, bid, p) - roi_level(*old(self), bid, p)
                            == order_part(self.orders@, order_id, bid, p) - order_part(old(self).orders@, order_id, bid, p) by {}
                }
                Ok((Side::Sell, self.best_ask_tick, self.best_ask_tick))
            }
        }
    }

    /// The indices `[from, to)` of the bid vector that clearing up to `c` empties: from `c` (or
    /// the start of the ROI) through the best bid.
    pub open spec fn bid_clear_range(&self, c: i64) -> (int, int) {
        (if c - self.roi_lb > 0 {
            c - self.roi_lb
        } else {
            0
        }, self.best_bid_tick + 1 - self.roi_lb)
    }

    /// The indices `[from, to)` of the ask vector that clearing up to `c` empties: from the best
    /// ask to `c + 1 - roi_ub`, at most the vector's length.
    pub open spec fn ask_clear_range(&self, c: i64) -> (int, int) {
        let to = c + 1 - self.roi_ub;
        (self.best_ask_tick - self.roi_lb, if to < self.ask_depth@.len() {
            to
        } else {
            self.ask_depth@.len() as int
        })
    }

    /// Clears the market depth. `Side::Buy` empties the bid levels given by
    /// [`Self::bid_clear_range`] (all bid levels when `clear_upto` is `None`, which stands for an
    /// unbounded price), then takes the highest occupied bid level within the ROI below
    /// `clear_upto - 1` as the best bid; `Side::Sell` empties the ask levels given by
    /// [`Self::ask_clear_range`] and takes the lowest occupied ask level within the ROI above
    /// `clear_upto + 1` as the best ask; `Side::Nil` clears both sides.
    pub fn clear_depth(&mut self, side: Side, clear_upto: Option<i64>)
        requires
            old(self).wf(),
            side != Side::Unsupported,
            side == Side::Buy && clear_upto is Some && old(self).best_bid_tick != INVALID_MIN
                && old(self).bid_clear_range(clear_upto->0).0 < old(self).bid_clear_range(
                clear_upto->0,
            ).1 ==> old(self).best_bid_tick <= old(self).roi_ub,
            side == Side::Sell && clear_upto is Some && old(self).best_ask_tick != INVALID_MAX
                && old(self).ask_clear_range(clear_upto->0).0 < old(self).ask_clear_range(
                clear_upto->0,
            ).1 ==> old(self).best_ask_tick >= old(self).roi_lb,
            side == Side::Sell && clear_upto is Some && old(self).high_ask_tick != INVALID_MIN
                ==> old(self).high_ask_tick >= old(self).roi_lb,
        ensures
            final(self).wf(),
            final(self).orders@ == old(self).orders@,
            final(self).timestamp == old(self).timestamp,
            final(self).roi_lb == old(self).roi_lb,
            final(self).roi_ub == old(self).roi_ub,
            side == Side::Buy ==> {
                &&& final(self).ask_depth@ == old(self).ask_depth@
                &&& final(self).best_ask_tick == old(self).best_ask_tick
                &&& final(self).high_ask_tick == old(self).high_ask_tick
                &&& match clear_upto {
                    Some(c) => {
                        let low = if old(self).low_bid_tick == INVALID_MAX {
                            old(self).roi_lb
                        } else {
                            old(self).low_bid_tick
                        };
                        &&& final(self).bid_depth@ == (if old(self).best_bid_tick != INVALID_MIN {
                            zeroed(
                                old(self).bid_depth@,
                                old(self).bid_clear_range(c).0,
                                old(self).bid_clear_range(c).1,
                            )
                        } else {
                            old(self).bid_depth@
                        })
                        &&& final(self).best_bid_tick == level_below(
                            final(self).bids(),
                            clamp_tick(c - 1, old(self).roi_lb, old(self).roi_ub),
                            max_tick(low, old(self).roi_lb),
                        )
                    },
                    None => {
                        &&& final(self).bid_depth@ == Seq::new(
                            old(self).bid_depth@.len(),
                            |i: int| 0i64,
                        )
                        &&& final(self).best_bid_tick == INVALID_MIN
                    },
                }
                &&& final(self).low_bid_tick == (if final(self).best_bid_tick == INVALID_MIN {
                    INVALID_MAX
                } else {
                    old(self).low_bid_tick
                })
            },
            side == Side::Sell ==> {
                &&& final(self).bid_depth@ == old(self).bid_depth@
                &&& final(self).best_bid_tick == old(self).best_bid_tick
                &&& final(self).low_bid_tick == old(self).low_bid_tick
                &&& match clear_upto {
                    Some(c) => {
                        let high = if old(self).high_ask_tick == INVALID_MIN {
                            old(self).roi_ub
                        } else {
                            old(self).high_ask_tick
                        };
                        &&& final(self).ask_depth@ == (if old(self).best_ask_tick != INVALID_MAX {
                            zeroed(
                                old(self).ask_depth@,
                                old(self).ask_clear_range(c).0,
                                old(self).ask_clear_range(c).1,
                            )
                        } else {
                            old(self).ask_depth@
                        })
                        &&& final(self).best_ask_tick == level_above(
                            final(self).asks(),
                            clamp_tick(c + 1, old(self).roi_lb, old(self).roi_ub),
                            min_tick(high, old(self).roi_ub),
                        )
                    },
                    None => {
                        &&& final(self).ask_depth@ == Seq::new(
                            old(self).ask_depth@.len(),
                            |i: int| 0i64,
                        )
                        &&& final(self).best_ask_tick == INVALID_MAX
                    },
                }
                &&& final(self).high_ask_tick == (if final(self).best_ask_tick == INVALID_MAX {
                    INVALID_MIN
                } else {
                    old(self).high_ask_tick
                })
            },
            side == Side::Nil ==> {
                &&& final(self).bid_depth@ == Seq::new(old(self).bid_depth@.len(), |i: int| 0i64)
                &&& final(self).ask_depth@ == Seq::new(old(self).ask_depth@.len(), |i: int| 0i64)
                &&& final(self).best_bid_tick == INVALID_MIN
                &&& final(self).best_ask_tick == INVALID_MAX
                &&& final(self).low_bid_tick == INVALID_MAX
                &&& final(self).high_ask_tick == INVALID_MIN
            },
    {
        let lb = self.roi_lb;
        let ub = self.roi_ub;
        let len = self.bid_depth.len();
        match side {
            Side::Buy => {
                match clear_upto {
                    Some(c) => {
                        if self.best_bid_tick != INVALID_MIN {
                            let d: i128 = (c as i128) - (lb as i128);
                            let from: i128 = if d > 0 {
                                d
                            } else {
                                0
                            };
                            let to: i128 = (self.best_bid_tick as i128) + 1 - (lb as i128);
                            if from < to {
                                zero_range(&mut self.bid_depth, from as usize, to as usize);
                            } else {
                                assert(zeroed(old(self).bid_depth@, from as int, to as int)
                                    =~= old(self).bid_depth@);
                            }
                        }
                        let low = if self.low_bid_tick == INVALID_MAX {
                            lb
                        } else {
                            self.low_bid_tick
                        };
                        let cm1: i128 = (c as i128) - 1;
                        let cu: i64 = if cm1 < lb as i128 {
                            lb
                        } else if cm1 > ub as i128 {
                            ub
                        } else {
                            cm1 as i64
                        };
                        self.best_bid_tick = roi_depth_below(&self.bid_depth, cu, low, lb, ub);
                    },
                    None => {
                        zero_range(&mut self.bid_depth, 0, len);
                        assert(self.bid_depth@ =~= Seq::new(len as nat, |i: int| 0i64));
                        self.best_bid_tick = INVALID_MIN;
                    },
                }
                if self.best_bid_tick == INVALID_MIN {
                    self.low_bid_tick = INVALID_MAX;
                }
            },
            Side::Sell => {
                match clear_upto {
                    Some(c) => {
                        if self.best_ask_tick != INVALID_MAX {
                            let from: i128 = (self.best_ask_tick as i128) - (lb as i128);
                            let t1: i128 = (c as i128) + 1 - (ub as i128);
                            let to: i128 = if t1 < len as i128 {
                                t1
                            } else {
                                len as i128
                            };
                            if from < to {
                                zero_range(&mut self.ask_depth, from as usize, to as usize);
                            } else {
                                assert(zeroed(old(self).ask_depth@, from as int, to as int)
                                    =~= old(self).ask_depth@);
                            }
                        }
                        let high = if self.high_ask_tick == INVALID_MIN {
                            ub
                        } else {
                            self.high_ask_tick
                        };
                        let cp1: i128 = (c as i128) + 1;
                        let cu: i64 = if cp1 < lb as i128 {
                            lb
                        } else if cp1 > ub as i128 {
                            ub
                        } else {
                            cp1 as i64
                        };
                        self.best_ask_tick = roi_depth_above(&self.ask_depth, cu, high, lb, ub);
                    },
                    None => {
                        zero_range(&mut self.ask_depth, 0, len);
                        assert(self.ask_depth@ =~= Seq::new(len as nat, |i: int| 0i64));
                        self.best_ask_tick = INVALID_MAX;
                    },
                }
                if self.best_ask_tick == INVALID_MAX {
                    self.high_ask_tick = INVALID_MIN;
                }
            },
            _ => {
                zero_range(&mut self.bid_depth, 0, len);
                zero_range(&mut self.ask_depth, 0, len);
                assert(self.bid_depth@ =~= Seq::new(len as nat, |i: int| 0i64));
                assert(self.ask_depth@ =~= Seq::new(len as nat, |i: int| 0i64));
                self.best_bid_tick = INVALID_MIN;
                self.best_ask_tick = INVALID_MAX;
                self.low_bid_tick = INVALID_MAX;
                self.high_ask_tick = INVALID_MIN;
            },
        }
    }

    /// Clears the orders of a side and that whole side of the depth; `Side::Nil` clears both
    /// sides and every order.
    pub fn clear_orders(&mut self, side: Side)
        requires
            old(self).wf(),
            side != Side::Unsupported,
        ensures
            final(self).wf(),
            final(self).timestamp == old(self).timestamp,
            final(self).roi_lb == old(self).roi_lb,
            final(self).roi_ub == old(self).roi_ub,
            side == Side::Buy ==> {
                &&& final(self).orders@ == old(self).orders@.remove_keys(
                    ids_of_side(old(self).orders@, Side::Buy),
                )
                &&& final(self).bid_depth@ == Seq::new(old(self).bid_depth@.len(), |i: int| 0i64)
                &&& final(self).best_bid_tick == INVALID_MIN
                &&& final(self).low_bid_tick == INVALID_MAX
                &&& final(self).ask_depth@ == old(self).ask_depth@
                &&& final(self).best_ask_tick == old(self).best_ask_tick
                &&& final(self).high_ask_tick == old(self).high_ask_tick
            },
            side == Side::Sell ==> {
                &&& final(self).orders@ == old(self).orders@.remove_keys(
                    ids_of_side(old(self).orders@, Side::Sell),
                )
                &&& final(self).ask_depth@ == Seq::new(old(self).ask_depth@.len(), |i: int| 0i64)
                &&& final(self).best_ask_tick == INVALID_MAX
                &&& final(self).high_ask_tick == INVALID_MIN
                &&& final(self).bid_depth@ == old(self).bid_depth@
                &&& final(self).best_bid_tick == old(self).best_bid_tick
                &&& final(self).low_bid_tick == old(self).low_bid_tick
            },
            side == Side::Nil ==> {
                &&& final(self).orders@ == Map::<OrderId, L3Order>::empty()
                &&& final(self).bid_depth@ == Seq::new(old(self).bid_depth@.len(), |i: int| 0i64)
                &&& final(self).ask_depth@ == Seq::new(old(self).ask_depth@.len(), |i: int| 0i64)
                &&& final(self).best_bid_tick == INVALID_MIN
                &&& final(self).best_ask_tick == INVALID_MAX
                &&& final(self).low_bid_tick == INVALID_MAX
                &&& final(self).high_ask_tick == INVALID_MIN
            },
    {
        match side {
            Side::Buy => {
                self.clear_depth(Side::Buy, None);
                let ids = order_ids_of_side(&self.orders, Side::Buy);
                remove_orders(&mut self.orders, &ids);
                assert(ids@.to_set() =~= ids_of_side(old(self).orders@, Side::Buy));
            },
            Side::Sell => {
                self.clear_depth(Side::Sell, None);
                let ids = order_ids_of_side(&self.orders, Side::Sell);
                remove_orders(&mut self.orders, &ids);
                assert(ids@.to_set() =~= ids_of_side(old(self).orders@, Side::Sell));
            },
            _ => {
                self.clear_depth(Side::Nil, None);
                self.orders.clear();
            },
        }
    }

    /// Replaces the depth with the given snapshot (such as a start-of-day snapshot): both sides
    /// are emptied, then each row within the ROI sets its level as [`roi_snapshot`] describes;
    /// the orders are kept.
    pub fn apply_snapshot(&mut self, data: &Vec<SnapshotLevel>)
        requires
            old(self).wf(),
        ensures
            final(self).wf(),
            (
                final(self).bid_depth@,
                final(self).ask_depth@,
                final(self).best_bid_tick,
                final(self).best_ask_tick,
                final(self).low_bid_tick,
                final(self).high_ask_tick,
            ) == roi_snapshot(data@, old(self).roi_lb, old(self).roi_ub, old(self).bid_depth@.len()),
            final(self).orders@ == old(self).orders@,
            final(self).timestamp == old(self).timestamp,
            final(self).roi_lb == old(self).roi_lb,
            final(self).roi_ub == old(self).roi_ub,
    {
        let lb = self.roi_lb;
        let ub = self.roi_ub;
        let len = self.bid_depth.len();
        let ghost n = self.bid_depth@.len();
        self.best_bid_tick = INVALID_MIN;
        self.best_ask_tick = INVALID_MAX;
        self.low_bid_tick = INVALID_MAX;
        self.high_ask_tick = INVALID_MIN;
        zero_range(&mut self.bid_depth, 0, len);
        zero_range(&mut self.ask_depth, 0, len);
        assert(self.bid_depth@ =~= Seq::new(n, |i: int| 0i64));
        assert(self.ask_depth@ =~= Seq::new(n, |i: int| 0i64));
        assert(data@.take(0) =~= Seq::<SnapshotLevel>::empty());
        let mut row_num: usize = 0;
        while row_num < data.len()
            invariant
                row_num <= data@.len(),
                self.wf(),
                lb == self.roi_lb,
                ub == self.roi_ub,
                len == self.bid_depth@.len(),
                n == len,
                (
                    self.bid_depth@,
                    self.ask_depth@,
                    self.best_bid_tick,
                    self.best_ask_tick,
                    self.low_bid_tick,
                    self.high_ask_tick,
                ) == roi_snapshot(data@.take(row_num as int), lb, ub, n),
                self.orders@ == old(self).orders@,
                self.timestamp == old(self).timestamp,
                lb == old(self).roi_lb,
                ub == old(self).roi_ub,
                n == old(self).bid_depth@.len(),
            decreases data@.len() - row_num,
        {
            let row = data[row_num];
            let price_tick = row.price_tick;
            assert(data@.take(row_num + 1).drop_last() =~= data@.take(row_num as int));
            assert(data@.take(row_num + 1).last() == row);
            if price_tick >= lb && price_tick <= ub {
                let t = (price_tick - lb) as usize;
                assert(t == price_tick - lb && t < len);
                if row.ev & BUY_EVENT == BUY_EVENT {
                    if price_tick > self.best_bid_tick {
                        self.best_bid_tick = price_tick;
                    }
                    if price_tick < self.low_bid_tick {
                        self.low_bid_tick = price_tick;
                    }
                    self.bid_depth.set(t, row.qty);
                } else if row.ev & SELL_EVENT == SELL_EVENT {
                    if price_tick < self.best_ask_tick {
                        self.best_ask_tick = price_tick;
                    }
                    if price_tick > self.high_ask_tick {
                        self.high_ask_tick = price_tick;
                    }
                    self.ask_depth.set(t, row.qty);
                }
            }
            row_num = row_num + 1;
        }
        assert(data@.take(data@.len() as int) =~= data@);
    }
}

impl MarketDepth for ROIVectorMarketDepth {
    open spec fn best_bid(&self) -> i64 {
        self.best_bid_tick
    }

    open spec fn best_ask(&self) -> i64 {
        self.best_ask_tick
    }

    /// The quantity at a bid price within the ROI; zero outside it.
    open spec fn bid_qty(&self, price_tick: i64) -> i64 {
        qty_at(roi_levels(self.bid_depth@, self.roi_lb), price_tick)
    }

    /// The quantity at an ask price within the ROI; zero outside it.
    open spec fn ask_qty(&self, price_tick: i64) -> i64 {
        qty_at(roi_levels(self.ask_depth@, self.roi_lb), price_tick)
    }

    fn best_bid_tick(&self) -> (r: i64) {
        self.best_bid_tick
    }

    fn best_ask_tick(&self) -> (r: i64) {
        self.best_ask_tick
    }

    fn best_bid_qty(&self) -> (r: i64) {
        self.bid_qty_at_tick(self.best_bid_tick)
    }

    fn best_ask_qty(&self) -> (r: i64) {
        self.ask_qty_at_tick(self.best_ask_tick)
    }

    fn bid_qty_at_tick(&self, price_tick: i64) -> (r: i64) {
        if price_tick < self.roi_lb {
            return 0;
        }
        let d = (price_tick as i128) - (self.roi_lb as i128);
        if d >= self.bid_depth.len() as i128 {
            0
        } else {
            self.bid_depth[d as usize]
        }
    }

    fn ask_qty_at_tick(&self, price_tick: i64) -> (r: i64) {
        if price_tick < self.roi_lb {
            return 0;
        }
        let d = (price_tick as i128) - (self.roi_lb as i128);
        if d >= self.ask_depth.len() as i128 {
            0
        } else {
            self.ask_depth[d as usize]
        }
    }
}

} // verus!
