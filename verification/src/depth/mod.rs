//! Market depth (order book) implementations.
//!
//! A book side is a map from a price in ticks to the quantity resting there, in lots. A price
//! level is occupied when it holds a positive quantity; the best bid and best ask are tracked as
//! ticks, with [`INVALID_MIN`] and [`INVALID_MAX`] standing for "no best bid" and "no best ask".
use std::collections::HashMap;
use vstd::prelude::*;

pub mod fuse;
pub mod hashmapmarketdepth;
pub mod roivectormarketdepth;

pub use fuse::FusedHashMapMarketDepth;
pub use hashmapmarketdepth::HashMapMarketDepth;
pub use roivectormarketdepth::ROIVectorMarketDepth;

verus! {

broadcast use vstd::std_specs::hash::group_hash_axioms;

/// Represents no best bid in ticks.
pub const INVALID_MIN: i64 = i64::MIN;

/// Represents no best ask in ticks.
pub const INVALID_MAX: i64 = i64::MAX;

/// The market depth interface: best prices in ticks and quantities in lots.
pub trait MarketDepth {
    /// The best bid in ticks, [`INVALID_MIN`] when there is none.
    spec fn best_bid(&self) -> i64;

    /// The best ask in ticks, [`INVALID_MAX`] when there is none.
    spec fn best_ask(&self) -> i64;

    /// The quantity at a bid price level.
    spec fn bid_qty(&self, price_tick: i64) -> i64;

    /// The quantity at an ask price level.
    spec fn ask_qty(&self, price_tick: i64) -> i64;

    /// Returns the best bid in ticks, [`INVALID_MIN`] when there is none.
    fn best_bid_tick(&self) -> (r: i64)
        ensures
            r == self.best_bid(),
    ;

    /// Returns the best ask in ticks, [`INVALID_MAX`] when there is none.
    fn best_ask_tick(&self) -> (r: i64)
        ensures
            r == self.best_ask(),
    ;

    /// Returns the quantity at the best bid.
    fn best_bid_qty(&self) -> (r: i64)
        ensures
            r == self.bid_qty(self.best_bid()),
    ;

    /// Returns the quantity at the best ask.
    fn best_ask_qty(&self) -> (r: i64)
        ensures
            r == self.ask_qty(self.best_ask()),
    ;

    /// Returns the quantity at the bid side for a price in ticks.
    fn bid_qty_at_tick(&self, price_tick: i64) -> (r: i64)
        ensures
            r == self.bid_qty(price_tick),
    ;

    /// Returns the quantity at the ask side for a price in ticks.
    fn ask_qty_at_tick(&self, price_tick: i64) -> (r: i64)
        ensures
            r == self.ask_qty(price_tick),
    ;
}

/// The price level `t` of a book side holds a positive quantity.
pub open spec fn occupied(m: Map<i64, i64>, t: i64) -> bool {
    m.contains_key(t) && m[t] > 0
}

/// The quantity at a price level of a book side, zero where there is none.
pub open spec fn qty_at(m: Map<i64, i64>, t: i64) -> i64 {
    if m.contains_key(t) {
        m[t]
    } else {
        0
    }
}

/// The lowest occupied level in `(start, end]`, or [`INVALID_MAX`] if there is none.
pub open spec fn level_above(m: Map<i64, i64>, start: i64, end: i64) -> i64
    decreases end - start,
{
    if start < end {
        let n = (start + 1) as i64;
        if occupied(m, n) {
            n
        } else {
            level_above(m, n, end)
        }
    } else {
        INVALID_MAX
    }
}

/// The highest occupied level in `[end, start)`, or [`INVALID_MIN`] if there is none.
pub open spec fn level_below(m: Map<i64, i64>, start: i64, end: i64) -> i64
    decreases start - end,
{
    if end < start {
        let n = (start - 1) as i64;
        if occupied(m, n) {
            n
        } else {
            level_below(m, n, end)
        }
    } else {
        INVALID_MIN
    }
}

/// [`level_above`] is either the sentinel or the lowest occupied level in `(start, end]`.
pub proof fn lemma_level_above(m: Map<i64, i64>, start: i64, end: i64)
    ensures
        ({
            let r = level_above(m, start, end);
            (r == INVALID_MAX && forall|t: i64| start < t <= end ==> !occupied(m, t)) || (start
                < r <= end && occupied(m, r) && forall|t: i64| start < t < r ==> !occupied(m, t))
        }),
    decreases end - start,
{
    if start < end {
        let n = (start + 1) as i64;
        if !occupied(m, n) {
            lemma_level_above(m, n, end);
        }
    }
}

/// [`level_below`] is either the sentinel or the highest occupied level in `[end, start)`.
pub proof fn lemma_level_below(m: Map<i64, i64>, start: i64, end: i64)
    ensures
        ({
            let r = level_below(m, start, end);
            (r == INVALID_MIN && forall|t: i64| end <= t < start ==> !occupied(m, t)) || (end
                <= r < start && occupied(m, r) && forall|t: i64| r < t < start ==> !occupied(m, t))
        }),
    decreases start - end,
{
    if end < start {
        let n = (start - 1) as i64;
        if !occupied(m, n) {
            lemma_level_below(m, n, end);
        }
    }
}

/// The ticks in `[lo, hi]`.
pub open spec fn tick_range(lo: i64, hi: i64) -> Set<i64> {
    Set::new(|t: i64| lo <= t <= hi)
}

/// Returns the quantity at a price level, zero where there is none.
pub fn qty_at_tick(depth: &HashMap<i64, i64>, price_tick: i64) -> (r: i64)
    ensures
        r == qty_at(depth@, price_tick),
{
    match depth.get(&price_tick) {
        Some(q) => *q,
        None => 0,
    }
}

/// Returns the highest occupied level in `[end, start)`, or [`INVALID_MIN`] if there is none.
pub fn depth_below(depth: &HashMap<i64, i64>, start: i64, end: i64) -> (r: i64)
    ensures
        r == level_below(depth@, start, end),
{
    let mut t = start;
    while t > end
        invariant
            end < start ==> end <= t <= start,
            end >= start ==> t == start,
            level_below(depth@, start, end) == level_below(depth@, t, end),
        decreases t - end,
    {
        t = t - 1;
        let q = qty_at_tick(depth, t);
        if q > 0 {
            return t;
        }
    }
    INVALID_MIN
}

/// Returns the lowest occupied level in `(start, end]`, or [`INVALID_MAX`] if there is none.
pub fn depth_above(depth: &HashMap<i64, i64>, start: i64, end: i64) -> (r: i64)
    ensures
        r == level_above(depth@, start, end),
{
    let mut t = start;
    while t < end
        invariant
            start < end ==> start <= t <= end,
            start >= end ==> t == start,
            level_above(depth@, start, end) == level_above(depth@, t, end),
        decreases end - t,
    {
        t = t + 1;
        let q = qty_at_tick(depth, t);
        if q > 0 {
            return t;
        }
    }
    INVALID_MAX
}

/// Removes every price level in `[lo, hi]`.
pub fn remove_levels<V>(depth: &mut HashMap<i64, V>, lo: i64, hi: i64)
    ensures
        final(depth)@ == old(depth)@.remove_keys(tick_range(lo, hi)),
{
    let ghost m0 = depth@;
    if lo > hi {
        assert(depth@ =~= m0.remove_keys(tick_range(lo, hi)));
        return;
    }
    let mut t = lo;
    loop
        invariant_except_break
            lo <= t <= hi,
            depth@ == m0.remove_keys(Set::new(|k: i64| lo <= k < t)),
        ensures
            depth@ == m0.remove_keys(tick_range(lo, hi)),
        decreases hi - t,
    {
        depth.remove(&t);
        if t == hi {
            assert(depth@ =~= m0.remove_keys(tick_range(lo, hi)));
            break;
        }
        t = t + 1;
        assert(depth@ =~= m0.remove_keys(Set::new(|k: i64| lo <= k < t)));
    }
}

} // verus!
