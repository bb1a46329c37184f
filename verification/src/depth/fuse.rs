//! Market depth that fuses several depth streams of different widths and update frequencies.
//!
//! Each price level remembers the exchange timestamp of its last update, and the best bid and
//! best ask remember theirs too, so that an event older than what the book already reflects is
//! ignored. When a best price crosses the other side, the crossed levels of the other side are
//! deleted, and the deletions are reported so that they can be forwarded as depth events.
use std::collections::HashMap;
use vstd::prelude::*;

use crate::depth::{
    level_above, level_below, lemma_level_above, lemma_level_below, occupied, INVALID_MAX,
    INVALID_MIN,
};
use crate::types::{event_is, spec_event_is, Side, BUY_EVENT, DEPTH_EVENT, SELL_EVENT};

verus! {

broadcast use vstd::std_specs::hash::group_hash_axioms;

/// The quantity in lots resting at a price level and the exchange timestamp of its last update.
#[derive(Clone, Copy, Debug)]
pub struct QtyTimestamp {
    pub qty: i64,
    pub ts: i64,
}

/// A depth feed event, its price in ticks and its quantity in lots.
#[derive(Clone, Copy, Debug)]
pub struct DepthEvent {
    pub ev: u64,
    pub exch_ts: i64,
    pub local_ts: i64,
    pub price_tick: i64,
    pub qty_lot: i64,
}

/// An event emitted by an update of the fused depth.
#[derive(Clone, Copy, Debug)]
pub enum DepthOutput {
    /// The incoming event was applied and is forwarded as it is.
    Input,
    /// The price level was deleted; it is forwarded as a depth event with the given flag, the
    /// incoming event's timestamps and a zero quantity.
    Deletion { ev: u64, price_tick: i64 },
}

/// The quantities of a fused book side.
pub open spec fn qtys(m: Map<i64, QtyTimestamp>) -> Map<i64, i64> {
    m.map_values(|v: QtyTimestamp| v.qty)
}

/// The deletions reported for the levels of `m` in `[lo, hi)`, in ascending price order.
pub open spec fn deletions(m: Map<i64, QtyTimestamp>, lo: int, hi: int, ev: u64) -> Seq<
    DepthOutput,
>
    decreases hi - lo,
{
    if lo < hi {
        let prev = deletions(m, lo, hi - 1, ev);
        if m.contains_key((hi - 1) as i64) {
            prev.push(DepthOutput::Deletion { ev, price_tick: (hi - 1) as i64 })
        } else {
            prev
        }
    } else {
        Seq::empty()
    }
}

/// The ticks in `[lo, hi)`.
pub open spec fn half_open(lo: int, hi: int) -> Set<i64> {
    Set::new(|t: i64| lo <= t < hi)
}

/// Returns the highest occupied level in `[end, start)`, or [`INVALID_MIN`] if there is none.
pub fn fused_depth_below(depth: &HashMap<i64, QtyTimestamp>, start: i64, end: i64) -> (r: i64)
    ensures
        r == level_below(qtys(depth@), start, end),
{
    let mut t = start;
    while t > end
        invariant
            end < start ==> end <= t <= start,
            end >= start ==> t == start,
            level_below(qtys(depth@), start, end) == level_below(qtys(depth@), t, end),
        decreases t - end,
    {
        t = t - 1;
        let q = match depth.get(&t) {
            Some(v) => v.qty,
            None => 0,
        };
        assert(occupied(qtys(depth@), t) == (q > 0));
        if q > 0 {
            return t;
        }
    }
    INVALID_MIN
}

/// Returns the lowest occupied level in `(start, end]`, or [`INVALID_MAX`] if there is none.
pub fn fused_depth_above(depth: &HashMap<i64, QtyTimestamp>, start: i64, end: i64) -> (r: i64)
    ensures
        r == level_above(qtys(depth@), start, end),
{
    let mut t = start;
    while t < end
        invariant
            start < end ==> start <= t <= end,
            start >= end ==> t == start,
            level_above(qtys(depth@), start, end) == level_above(qtys(depth@), t, end),
        decreases end - t,
    {
        t = t + 1;
        let q = match depth.get(&t) {
            Some(v) => v.qty,
            None => 0,
        };
        assert(occupied(qtys(depth@), t) == (q > 0));
        if q > 0 {
            return t;
        }
    }
    INVALID_MAX
}

/// Deletes the levels in `[lo, hi]` and reports each level that existed, in ascending order.
fn delete_levels(
    depth: &mut HashMap<i64, QtyTimestamp>,
    lo: i64,
    hi: i64,
    ev: u64,
    out: &mut Vec<DepthOutput>,
)
    ensures
        final(depth)@ == old(depth)@.remove_keys(half_open(lo as int, hi + 1)),
        final(out)@ == old(out)@ + deletions(old(depth)@, lo as int, hi + 1, ev),
{
    let ghost m0 = depth@;
    let ghost o0 = out@;
    if lo > hi {
        assert(depth@ =~= m0.remove_keys(half_open(lo as int, hi + 1)));
        assert(out@ =~= o0 + deletions(m0, lo as int, hi + 1, ev));
        return;
    }
    let mut t = lo;
    loop
        invariant_except_break
            lo <= t <= hi,
            depth@ == m0.remove_keys(half_open(lo as int, t as int)),
            out@ == o0 + deletions(m0, lo as int, t as int, ev),
        ensures
            depth@ == m0.remove_keys(half_open(lo as int, hi + 1)),
            out@ == o0 + deletions(m0, lo as int, hi + 1, ev),
        decreases hi - t,
    {
        let removed = depth.remove(&t);
        if removed.is_some() {
            out.push(DepthOutput::Deletion { ev, price_tick: t });
        }
        assert(depth@ =~= m0.remove_keys(half_open(lo as int, t + 1)));
        assert(out@ =~= o0 + deletions(m0, lo as int, t + 1, ev));
        if t == hi {
            break;
        }
        t = t + 1;
    }
}

/// Market depth fusing several depth streams, keyed by price in ticks.
pub struct FusedHashMapMarketDepth {
    pub timestamp: i64,
    pub ask_depth: HashMap<i64, QtyTimestamp>,
    pub bid_depth: HashMap<i64, QtyTimestamp>,
    pub best_bid_tick: i64,
    pub best_ask_tick: i64,
    pub best_bid_timestamp: i64,
    pub best_ask_timestamp: i64,
    pub low_bid_tick: i64,
    pub high_ask_tick: i64,
}

impl FusedHashMapMarketDepth {
    /// The bid-side event would touch the best bid or the best ask with an older timestamp than
    /// the one they were last set by.
    pub open spec fn bid_outdated(&self, ev: DepthEvent) -> bool {
        (ev.price_tick >= self.best_bid_tick && ev.exch_ts < self.best_bid_timestamp) || (
        ev.price_tick >= self.best_ask_tick && ev.exch_ts < self.best_ask_timestamp)
    }

    /// The ask-side event would touch the best ask or the best bid with an older timestamp than
    /// the one they were last set by.
    pub open spec fn ask_outdated(&self, ev: DepthEvent) -> bool {
        (ev.price_tick <= self.best_ask_tick && ev.exch_ts < self.best_ask_timestamp) || (
        ev.price_tick <= self.best_bid_tick && ev.exch_ts < self.best_bid_timestamp)
    }

    /// The price level of the event exists on the side and was updated later than the event.
    pub open spec fn level_newer(m: Map<i64, QtyTimestamp>, ev: DepthEvent) -> bool {
        m.contains_key(ev.price_tick) && ev.exch_ts < m[ev.price_tick].ts
    }

    /// The side after a depth event is applied to its price level.
    pub open spec fn applied(m: Map<i64, QtyTimestamp>, ev: DepthEvent) -> Map<i64, QtyTimestamp> {
        if Self::level_newer(m, ev) {
            m
        } else if ev.qty_lot > 0 {
            m.insert(ev.price_tick, QtyTimestamp { qty: ev.qty_lot, ts: ev.exch_ts })
        } else {
            m.remove(ev.price_tick)
        }
    }

    /// The incoming depth event is forwarded: it updated or deleted an existing level that was
    /// not newer, or it created a level.
    pub open spec fn forwarded(m: Map<i64, QtyTimestamp>, ev: DepthEvent) -> Seq<DepthOutput> {
        if (m.contains_key(ev.price_tick) && !Self::level_newer(m, ev)) || (!m.contains_key(
            ev.price_tick,
        ) && ev.qty_lot > 0) {
            seq![DepthOutput::Input]
        } else {
            Seq::empty()
        }
    }

    /// What `update_bid_depth` does, over the state before, the state after and the events
    /// returned.
    pub open spec fn bid_depth_post(pre: Self, post: Self, ev: DepthEvent, out: Seq<DepthOutput>) -> bool {
        &&& post.timestamp == pre.timestamp
        &&& pre.bid_outdated(ev) ==> out == Seq::<DepthOutput>::empty() && post == pre
        &&& !pre.bid_outdated(ev) ==> {
            &&& post.bid_depth@ == Self::applied(pre.bid_depth@, ev)
            &&& ev.qty_lot == 0 ==> {
                &&& out == Self::forwarded(pre.bid_depth@, ev)
                &&& post.ask_depth@ == pre.ask_depth@
                &&& post.best_ask_tick == pre.best_ask_tick
                &&& post.best_ask_timestamp == pre.best_ask_timestamp
                &&& post.high_ask_tick == pre.high_ask_tick
                &&& if ev.price_tick == pre.best_bid_tick {
                    &&& post.best_bid_tick == level_below(
                        qtys(post.bid_depth@),
                        pre.best_bid_tick,
                        pre.low_bid_tick,
                    )
                    &&& post.best_bid_timestamp == ev.exch_ts
                    &&& post.low_bid_tick == (if post.best_bid_tick == INVALID_MIN {
                        INVALID_MAX
                    } else {
                        pre.low_bid_tick
                    })
                } else {
                    &&& post.best_bid_tick == pre.best_bid_tick
                    &&& post.best_bid_timestamp == pre.best_bid_timestamp
                    &&& post.low_bid_tick == pre.low_bid_tick
                }
            }
            &&& ev.qty_lot != 0 ==> {
                &&& post.low_bid_tick == (if ev.price_tick < pre.low_bid_tick {
                    ev.price_tick
                } else {
                    pre.low_bid_tick
                })
                &&& post.high_ask_tick == pre.high_ask_tick
                &&& if ev.price_tick >= pre.best_bid_tick {
                    &&& post.best_bid_tick == ev.price_tick
                    &&& post.best_bid_timestamp == ev.exch_ts
                    &&& if ev.price_tick >= pre.best_ask_tick {
                        &&& post.best_ask_tick == level_above(
                            qtys(pre.ask_depth@),
                            ev.price_tick,
                            pre.high_ask_tick,
                        )
                        &&& post.best_ask_timestamp == ev.exch_ts
                        &&& post.ask_depth@ == pre.ask_depth@.remove_keys(
                            half_open(pre.best_ask_tick as int, post.best_ask_tick as int),
                        )
                        &&& out == Self::forwarded(pre.bid_depth@, ev) + deletions(
                            pre.ask_depth@,
                            pre.best_ask_tick as int,
                            post.best_ask_tick as int,
                            SELL_EVENT | DEPTH_EVENT,
                        )
                    } else {
                        &&& post.best_ask_tick == pre.best_ask_tick
                        &&& post.best_ask_timestamp == pre.best_ask_timestamp
                        &&& post.ask_depth@ == pre.ask_depth@
                        &&& out == Self::forwarded(pre.bid_depth@, ev)
                    }
                } else {
                    &&& post.best_bid_tick == pre.best_bid_tick
                    &&& post.best_bid_timestamp == pre.best_bid_timestamp
                    &&& post.best_ask_tick == pre.best_ask_tick
                    &&& post.best_ask_timestamp == pre.best_ask_timestamp
                    &&& post.ask_depth@ == pre.ask_depth@
                    &&& out == Self::forwarded(pre.bid_depth@, ev)
                }
            }
        }
    }

    /// What `update_ask_depth` does, over the state before, the state after and the events
    /// returned.
    pub open spec fn ask_depth_post(pre: Self, post: Self, ev: DepthEvent, out: Seq<DepthOutput>) -> bool {
        &&& post.timestamp == pre.timestamp
        &&& pre.ask_outdated(ev) ==> out == Seq::<DepthOutput>::empty() && post == pre
        &&& !pre.ask_outdated(ev) ==> {
            &&& post.ask_depth@ == Self::applied(pre.ask_depth@, ev)
            &&& ev.qty_lot == 0 ==> {
                &&& out == Self::forwarded(pre.ask_depth@, ev)
                &&& post.bid_depth@ == pre.bid_depth@
                &&& post.best_bid_tick == pre.best_bid_tick
                &&& post.best_bid_timestamp == pre.best_bid_timestamp
                &&& post.low_bid_tick == pre.low_bid_tick
                &&& if ev.price_tick == pre.best_ask_tick {
                    &&& post.best_ask_tick == level_above(
                        qtys(post.ask_depth@),
                        pre.best_ask_tick,
                        pre.high_ask_tick,
                    )
                    &&& post.best_ask_timestamp == ev.exch_ts
                    &&& post.high_ask_tick == (if post.best_ask_tick == INVALID_MAX {
                        INVALID_MIN
                    } else {
                        pre.high_ask_tick
                    })
                } else {
                    &&& post.best_ask_tick == pre.best_ask_tick
                    &&& post.best_ask_timestamp == pre.best_ask_timestamp
                    &&& post.high_ask_tick == pre.high_ask_tick
                }
            }
            &&& ev.qty_lot != 0 ==> {
                &&& post.high_ask_tick == (if ev.price_tick > pre.high_ask_tick {
                    ev.price_tick
                } else {
                    pre.high_ask_tick
                })
                &&& post.low_bid_tick == pre.low_bid_tick
                &&& if ev.price_tick <= pre.best_ask_tick {
                    &&& post.best_ask_tick == ev.price_tick
                    &&& post.best_ask_timestamp == ev.exch_ts
                    &&& if ev.price_tick <= pre.best_bid_tick {
                        &&& post.best_bid_tick == level_below(
                            qtys(pre.bid_depth@),
                            ev.price_tick,
                            pre.low_bid_tick,
                        )
                        &&& post.best_bid_timestamp == ev.exch_ts
                        &&& post.bid_depth@ == pre.bid_depth@.remove_keys(
                            half_open(post.best_bid_tick + 1, pre.best_bid_tick + 1),
                        )
                        &&& out == Self::forwarded(pre.ask_depth@, ev) + deletions(
                            pre.bid_depth@,
                            post.best_bid_tick + 1,
                            pre.best_bid_tick + 1,
                            BUY_EVENT | DEPTH_EVENT,
                        )
                    } else {
                        &&& post.best_bid_tick == pre.best_bid_tick
                        &&& post.best_bid_timestamp == pre.best_bid_timestamp
                        &&& post.bid_depth@ == pre.bid_depth@
                        &&& out == Self::forwarded(pre.ask_depth@, ev)
                    }
                } else {
                    &&& post.best_ask_tick == pre.best_ask_tick
                    &&& post.best_ask_timestamp == pre.best_ask_timestamp
                    &&& post.best_bid_tick == pre.best_bid_tick
                    &&& post.best_bid_timestamp == pre.best_bid_timestamp
                    &&& post.bid_depth@ == pre.bid_depth@
                    &&& out == Self::forwarded(pre.ask_depth@, ev)
                }
            }
        }
    }

    /// The best-bid event is older than the best bid, or crosses the best ask with an older
    /// timestamp than the best ask's.
    pub open spec fn best_bid_outdated(&self, ev: DepthEvent) -> bool {
        ev.exch_ts < self.best_bid_timestamp || (ev.price_tick >= self.best_ask_tick && ev.exch_ts
            < self.best_ask_timestamp)
    }

    /// The best-ask event is older than the best ask, or crosses the best bid with an older
    /// timestamp than the best bid's.
    pub open spec fn best_ask_outdated(&self, ev: DepthEvent) -> bool {
        ev.exch_ts < self.best_ask_timestamp || (ev.price_tick <= self.best_bid_tick && ev.exch_ts
            < self.best_bid_timestamp)
    }

    /// The event repeats the quantity of the level at the given best price.
    pub open spec fn repeats_best(m: Map<i64, QtyTimestamp>, best: i64, ev: DepthEvent) -> bool {
        m.contains_key(ev.price_tick) && ev.price_tick == best && m[ev.price_tick].qty == ev.qty_lot
    }

    /// What `update_best_bid` does, over the state before, the state after and the events
    /// returned.
    pub open spec fn best_bid_post(pre: Self, post: Self, ev: DepthEvent, out: Seq<DepthOutput>) -> bool {
        &&& post.timestamp == pre.timestamp
        &&& post.low_bid_tick == pre.low_bid_tick
        &&& post.high_ask_tick == pre.high_ask_tick
        &&& pre.best_bid_outdated(ev) ==> out == Seq::<DepthOutput>::empty() && post == pre
        &&& !pre.best_bid_outdated(ev) && Self::repeats_best(pre.bid_depth@, pre.best_bid_tick, ev)
            ==> {
            &&& out == Seq::<DepthOutput>::empty()
            &&& post.best_bid_timestamp == ev.exch_ts
            &&& post.bid_depth@ == pre.bid_depth@
            &&& post.ask_depth@ == pre.ask_depth@
            &&& post.best_bid_tick == pre.best_bid_tick
            &&& post.best_ask_tick == pre.best_ask_tick
            &&& post.best_ask_timestamp == pre.best_ask_timestamp
        }
        &&& !pre.best_bid_outdated(ev) && !Self::repeats_best(pre.bid_depth@, pre.best_bid_tick, ev)
            ==> {
            let bid1 = pre.bid_depth@.insert(
                ev.price_tick,
                QtyTimestamp { qty: ev.qty_lot, ts: ev.exch_ts },
            );
            let bid_dels = deletions(
                bid1,
                ev.price_tick + 1,
                pre.best_bid_tick + 1,
                BUY_EVENT | DEPTH_EVENT,
            );
            &&& post.best_bid_tick == ev.price_tick
            &&& post.best_bid_timestamp == ev.exch_ts
            &&& post.bid_depth@ == bid1.remove_keys(
                half_open(ev.price_tick + 1, pre.best_bid_tick + 1),
            )
            &&& if ev.price_tick >= pre.best_ask_tick {
                &&& post.best_ask_tick == level_above(
                    qtys(pre.ask_depth@),
                    ev.price_tick,
                    pre.high_ask_tick,
                )
                &&& post.best_ask_timestamp == ev.exch_ts
                &&& post.ask_depth@ == pre.ask_depth@.remove_keys(
                    half_open(pre.best_ask_tick as int, post.best_ask_tick as int),
                )
                &&& out == seq![DepthOutput::Input] + deletions(
                    pre.ask_depth@,
                    pre.best_ask_tick as int,
                    post.best_ask_tick as int,
                    SELL_EVENT | DEPTH_EVENT,
                ) + bid_dels
            } else {
                &&& post.best_ask_tick == pre.best_ask_tick
                &&& post.best_ask_timestamp == pre.best_ask_timestamp
                &&& post.ask_depth@ == pre.ask_depth@
                &&& out == seq![DepthOutput::Input] + bid_dels
            }
        }
    }

    /// What `update_best_ask` does, over the state before, the state after and the events
    /// returned.
    pub open spec fn best_ask_post(pre: Self, post: Self, ev: DepthEvent, out: Seq<DepthOutput>) -> bool {
        &&& post.timestamp == pre.timestamp
        &&& post.low_bid_tick == pre.low_bid_tick
        &&& post.high_ask_tick == pre.high_ask_tick
        &&& pre.best_ask_outdated(ev) ==> out == Seq::<DepthOutput>::empty() && post == pre
        &&& !pre.best_ask_outdated(ev) && Self::repeats_best(pre.ask_depth@, pre.best_ask_tick, ev)
            ==> {
            &&& out == Seq::<DepthOutput>::empty()
            &&& post.best_ask_timestamp == ev.exch_ts
            &&& post.bid_depth@ == pre.bid_depth@
            &&& post.ask_depth@ == pre.ask_depth@
            &&& post.best_bid_tick == pre.best_bid_tick
            &&& post.best_ask_tick == pre.best_ask_tick
            &&& post.best_bid_timestamp == pre.best_bid_timestamp
        }
        &&& !pre.best_ask_outdated(ev) && !Self::repeats_best(pre.ask_depth@, pre.best_ask_tick, ev)
            ==> {
            let ask1 = pre.ask_depth@.insert(
                ev.price_tick,
                QtyTimestamp { qty: ev.qty_lot, ts: ev.exch_ts },
            );
            let ask_dels = deletions(
                ask1,
                pre.best_ask_tick as int,
                ev.price_tick as int,
                SELL_EVENT | DEPTH_EVENT,
            );
            &&& post.best_ask_tick == ev.price_tick
            &&& post.best_ask_timestamp == ev.exch_ts
            &&& post.ask_depth@ == ask1.remove_keys(
                half_open(pre.best_ask_tick as int, ev.price_tick as int),
            )
            &&& if ev.price_tick <= pre.best_bid_tick {
                &&& post.best_bid_tick == level_below(
                    qtys(pre.bid_depth@),
                    ev.price_tick,
                    pre.low_bid_tick,
                )
                &&& post.best_bid_timestamp == ev.exch_ts
                &&& post.bid_depth@ == pre.bid_depth@.remove_keys(
                    half_open(post.best_bid_tick + 1, pre.best_bid_tick + 1),
                )
                &&& out == seq![DepthOutput::Input] + deletions(
                    pre.bid_depth@,
                    post.best_bid_tick + 1,
                    pre.best_bid_tick + 1,
                    BUY_EVENT | DEPTH_EVENT,
                ) + ask_dels
            } else {
                &&& post.best_bid_tick == pre.best_bid_tick
                &&& post.best_bid_timestamp == pre.best_bid_timestamp
                &&& post.bid_depth@ == pre.bid_depth@
                &&& out == seq![DepthOutput::Input] + ask_dels
            }
        }
    }

    /// Constructs an empty market depth.
    /// A bid depth update never brings back an older state: no bid level ends older than it
    /// was, every bid level but the event's stays as it was, and the ask side only loses levels.
    /// An event older than what the book reflects (its level, or a best price it would touch, was
    /// updated later) leaves the bid side as it was; otherwise it sets its level to its quantity
    /// and timestamp, and a quantity that is not positive removes the level.
    pub proof fn lemma_bid_update_fresh(pre: Self, post: Self, ev: DepthEvent, out: Seq<DepthOutput>)
        requires
            Self::bid_depth_post(pre, post, ev, out),
        ensures
            forall|k: i64|
                pre.bid_depth@.contains_key(k) && #[trigger] post.bid_depth@.contains_key(k)
                    ==> post.bid_depth@[k].ts >= pre.bid_depth@[k].ts,
            forall|k: i64|
                k != ev.price_tick ==> (#[trigger] post.bid_depth@.contains_key(k)
                    == pre.bid_depth@.contains_key(k)) && (pre.bid_depth@.contains_key(k)
                    ==> post.bid_depth@[k] == pre.bid_depth@[k]),
            forall|k: i64|
                #[trigger] post.ask_depth@.contains_key(k) ==> pre.ask_depth@.contains_key(k)
                    && post.ask_depth@[k] == pre.ask_depth@[k],
            pre.bid_outdated(ev) || Self::level_newer(pre.bid_depth@, ev) ==> post.bid_depth@
                == pre.bid_depth@,
            !pre.bid_outdated(ev) && !Self::level_newer(pre.bid_depth@, ev) ==> {
                &&& ev.qty_lot > 0 ==> post.bid_depth@.contains_key(ev.price_tick)
                    && post.bid_depth@[ev.price_tick] == (QtyTimestamp { qty: ev.qty_lot, ts: ev.exch_ts })
                &&& ev.qty_lot <= 0 ==> !post.bid_depth@.contains_key(ev.price_tick)
            },
    {
    }

    /// An ask depth update never brings back an older state: no ask level ends older than it
    /// was, every ask level but the event's stays as it was, and the bid side only loses levels.
    /// An event older than what the book reflects leaves the ask side as it was; otherwise it
    /// sets its level to its quantity and timestamp, and a quantity that is not positive removes
    /// the level.
    pub proof fn lemma_ask_update_fresh(pre: Self, post: Self, ev: DepthEvent, out: Seq<DepthOutput>)
        requires
            Self::ask_depth_post(pre, post, ev, out),
        ensures
            forall|k: i64|
                pre.ask_depth@.contains_key(k) && #[trigger] post.ask_depth@.contains_key(k)
                    ==> post.ask_depth@[k].ts >= pre.ask_depth@[k].ts,
            forall|k: i64|
                k != ev.price_tick ==> (#[trigger] post.ask_depth@.contains_key(k)
                    == pre.ask_depth@.contains_key(k)) && (pre.ask_depth@.contains_key(k)
                    ==> post.ask_depth@[k] == pre.ask_depth@[k]),
            forall|k: i64|
                #[trigger] post.bid_depth@.contains_key(k) ==> pre.bid_depth@.contains_key(k)
                    && post.bid_depth@[k] == pre.bid_depth@[k],
            pre.ask_outdated(ev) || Self::level_newer(pre.ask_depth@, ev) ==> post.ask_depth@
                == pre.ask_depth@,
            !pre.ask_outdated(ev) && !Self::level_newer(pre.ask_depth@, ev) ==> {
                &&& ev.qty_lot > 0 ==> post.ask_depth@.contains_key(ev.price_tick)
                    && post.ask_depth@[ev.price_tick] == (QtyTimestamp { qty: ev.qty_lot, ts: ev.exch_ts })
                &&& ev.qty_lot <= 0 ==> !post.ask_depth@.contains_key(ev.price_tick)
            },
    {
    }

    pub fn new() -> (r: Self)
        ensures
            r.bid_depth@ == Map::<i64, QtyTimestamp>::empty(),
            r.ask_depth@ == Map::<i64, QtyTimestamp>::empty(),
            r.timestamp == 0,
            r.best_bid_tick == INVALID_MIN,
            r.best_ask_tick == INVALID_MAX,
            r.best_bid_timestamp == 0,
            r.best_ask_timestamp == 0,
            r.low_bid_tick == INVALID_MAX,
            r.high_ask_tick == INVALID_MIN,
    {
        FusedHashMapMarketDepth {
            timestamp: 0,
            ask_depth: HashMap::new(),
            bid_depth: HashMap::new(),
            best_bid_tick: INVALID_MIN,
            best_ask_tick: INVALID_MAX,
            best_bid_timestamp: 0,
            best_ask_timestamp: 0,
            low_bid_tick: INVALID_MAX,
            high_ask_tick: INVALID_MIN,
        }
    }

    /// Applies a bid-side depth event and returns the events to forward.
    ///
    /// An event that would touch the best bid or the best ask with an older timestamp than the one
    /// they were last set by is ignored. Otherwise the event updates (positive quantity) or deletes
    /// its price level unless the level was updated later. A zero quantity at the best bid moves
    /// the best bid down to the next occupied level. A nonzero quantity at or above the best bid
    /// makes it the best bid; if that crosses the best ask, the best ask moves up to the next
    /// occupied ask level and the ask levels in between are deleted and reported.
    pub fn update_bid_depth(&mut self, ev: DepthEvent) -> (r: Vec<DepthOutput>)
        ensures
            Self::bid_depth_post(*old(self), *final(self), ev, r@),
            old(self).best_bid_tick < old(self).best_ask_tick && ev.price_tick < INVALID_MAX
                ==> final(self).best_bid_tick < final(self).best_ask_tick,
    {
        let mut result: Vec<DepthOutput> = Vec::new();
        let price_tick = ev.price_tick;
        let qty_lot = ev.qty_lot;
        if (price_tick >= self.best_bid_tick && ev.exch_ts < self.best_bid_timestamp) || (price_tick
            >= self.best_ask_tick && ev.exch_ts < self.best_ask_timestamp) {
            return result;
        }
        let existing = match self.bid_depth.get(&price_tick) {
            Some(level) => Some(level.ts),
            None => None,
        };
        match existing {
            Some(ts) => {
                if ev.exch_ts >= ts {
                    if qty_lot > 0 {
                        self.bid_depth.insert(price_tick, QtyTimestamp { qty: qty_lot, ts: ev.exch_ts });
                    } else {
                        self.bid_depth.remove(&price_tick);
                    }
                    result.push(DepthOutput::Input);
                }
            },
            None => {
                if qty_lot > 0 {
                    self.bid_depth.insert(price_tick, QtyTimestamp { qty: qty_lot, ts: ev.exch_ts });
                    result.push(DepthOutput::Input);
                }
            },
        }
        proof {
            assert(self.bid_depth@ =~= Self::applied(old(self).bid_depth@, ev));
            assert(result@ =~= Self::forwarded(old(self).bid_depth@, ev));
        }
        if qty_lot == 0 {
            if price_tick == self.best_bid_tick {
                self.best_bid_tick = fused_depth_below(&self.bid_depth, self.best_bid_tick, self.low_bid_tick);
                self.best_bid_timestamp = ev.exch_ts;
                if self.best_bid_tick == INVALID_MIN {
                    self.low_bid_tick = INVALID_MAX;
                }
                proof {
                    lemma_level_below(qtys(self.bid_depth@), price_tick, old(self).low_bid_tick);
                }
            }
        } else {
            if price_tick >= self.best_bid_tick {
                self.best_bid_tick = price_tick;
                self.best_bid_timestamp = ev.exch_ts;
                if price_tick >= self.best_ask_tick {
                    let prev_best_ask_tick = self.best_ask_tick;
                    self.best_ask_tick = fused_depth_above(&self.ask_depth, self.best_bid_tick, self.high_ask_tick);
                    self.best_ask_timestamp = ev.exch_ts;
                    proof {
                        lemma_level_above(qtys(self.ask_depth@), price_tick, self.high_ask_tick);
                    }
                    if self.best_ask_tick > INVALID_MIN {
                        delete_levels(
                            &mut self.ask_depth,
                            prev_best_ask_tick,
                            self.best_ask_tick - 1,
                            SELL_EVENT | DEPTH_EVENT,
                            &mut result,
                        );
                    }
                }
            }
            if price_tick < self.low_bid_tick {
                self.low_bid_tick = price_tick;
            }
        }
        result
    }

    /// Applies an ask-side depth event and returns the events to forward.
    ///
    /// An event that would touch the best ask or the best bid with an older timestamp than the one
    /// they were last set by is ignored. Otherwise the event updates (positive quantity) or deletes
    /// its price level unless the level was updated later. A zero quantity at the best ask moves
    /// the best ask up to the next occupied level. A nonzero quantity at or below the best ask
    /// makes it the best ask; if that crosses the best bid, the best bid moves down to the next
    /// occupied bid level and the bid levels in between are deleted and reported.
    pub fn update_ask_depth(&mut self, ev: DepthEvent) -> (r: Vec<DepthOutput>)
        ensures
            Self::ask_depth_post(*old(self), *final(self), ev, r@),
            old(self).best_bid_tick < old(self).best_ask_tick && ev.price_tick > INVALID_MIN
                ==> final(self).best_bid_tick < final(self).best_ask_tick,
    {
        let mut result: Vec<DepthOutput> = Vec::new();
        let price_tick = ev.price_tick;
        let qty_lot = ev.qty_lot;
        if (price_tick <= self.best_ask_tick && ev.exch_ts < self.best_ask_timestamp) || (price_tick
            <= self.best_bid_tick && ev.exch_ts < self.best_bid_timestamp) {
            return result;
        }
        let existing = match self.ask_depth.get(&price_tick) {
            Some(level) => Some(level.ts),
            None => None,
        };
        match existing {
            Some(ts) => {
                if ev.exch_ts >= ts {
                    if qty_lot > 0 {
                        self.ask_depth.insert(price_tick, QtyTimestamp { qty: qty_lot, ts: ev.exch_ts });
                    } else {
                        self.ask_depth.remove(&price_tick);
                    }
                    result.push(DepthOutput::Input);
                }
            },
            None => {
                if qty_lot > 0 {
                    self.ask_depth.insert(price_tick, QtyTimestamp { qty: qty_lot, ts: ev.exch_ts });
                    result.push(DepthOutput::Input);
                }
            },
        }
        proof {
            assert(self.ask_depth@ =~= Self::applied(old(self).ask_depth@, ev));
            assert(result@ =~= Self::forwarded(old(self).ask_depth@, ev));
        }
        if qty_lot == 0 {
            if price_tick == self.best_ask_tick {
                self.best_ask_tick = fused_depth_above(&self.ask_depth, self.best_ask_tick, self.high_ask_tick);
                self.best_ask_timestamp = ev.exch_ts;
                if self.best_ask_tick == INVALID_MAX {
                    self.high_ask_tick = INVALID_MIN;
                }
                proof {
                    lemma_level_above(qtys(self.ask_depth@), price_tick, old(self).high_ask_tick);
                }
            }
        } else {
            if price_tick <= self.best_ask_tick {
                self.best_ask_tick = price_tick;
                self.best_ask_timestamp = ev.exch_ts;
                if price_tick <= self.best_bid_tick {
                    let prev_best_bid_tick = self.best_bid_tick;
                    self.best_bid_tick = fused_depth_below(&self.bid_depth, self.best_ask_tick, self.low_bid_tick);
                    self.best_bid_timestamp = ev.exch_ts;
                    proof {
                        lemma_level_below(qtys(self.bid_depth@), price_tick, self.low_bid_tick);
                    }
                    if self.best_bid_tick < INVALID_MAX {
                        delete_levels(
                            &mut self.bid_depth,
                            self.best_bid_tick + 1,
                            prev_best_bid_tick,
                            BUY_EVENT | DEPTH_EVENT,
                            &mut result,
                        );
                    }
                }
            }
            if price_tick > self.high_ask_tick {
                self.high_ask_tick = price_tick;
            }
        }
        result
    }

    /// Applies a best-bid event and returns the events to forward.
    ///
    /// An event older than the best bid, or crossing the best ask with an older timestamp than
    /// the best ask's, is ignored; one that repeats the current best bid and its quantity only
    /// refreshes the best bid's timestamp. Otherwise the level is set and becomes the best bid;
    /// a crossed best ask moves up to the next occupied ask level, and the ask levels crossed and
    /// the bid levels left above the new best bid are deleted and reported.
    pub fn update_best_bid(&mut self, ev: DepthEvent) -> (r: Vec<DepthOutput>)
        ensures
            Self::best_bid_post(*old(self), *final(self), ev, r@),
            old(self).best_bid_tick < old(self).best_ask_tick && ev.price_tick < INVALID_MAX
                ==> final(self).best_bid_tick < final(self).best_ask_tick,
    {
        let mut result: Vec<DepthOutput> = Vec::new();
        let price_tick = ev.price_tick;
        if ev.exch_ts < self.best_bid_timestamp || (price_tick >= self.best_ask_tick && ev.exch_ts
            < self.best_ask_timestamp) {
            return result;
        }
        let existing = match self.bid_depth.get(&price_tick) {
            Some(level) => Some(level.qty),
            None => None,
        };
        match existing {
            Some(qty) => {
                if price_tick == self.best_bid_tick && ev.qty_lot == qty {
                    self.best_bid_timestamp = ev.exch_ts;
                    return result;
                }
            },
            None => {},
        }
        self.bid_depth.insert(price_tick, QtyTimestamp { qty: ev.qty_lot, ts: ev.exch_ts });
        result.push(DepthOutput::Input);
        let ghost bid1 = self.bid_depth@;
        let ghost out1 = result@;

        let prev_best_bid_tick = self.best_bid_tick;
        self.best_bid_tick = price_tick;
        self.best_bid_timestamp = ev.exch_ts;

        if price_tick >= self.best_ask_tick {
            let prev_best_ask_tick = self.best_ask_tick;
            self.best_ask_tick = fused_depth_above(&self.ask_depth, self.best_bid_tick, self.high_ask_tick);
            self.best_ask_timestamp = ev.exch_ts;
            proof {
                lemma_level_above(qtys(self.ask_depth@), price_tick, self.high_ask_tick);
            }
            if self.best_ask_tick > INVALID_MIN {
                delete_levels(
                    &mut self.ask_depth,
                    prev_best_ask_tick,
                    self.best_ask_tick - 1,
                    SELL_EVENT | DEPTH_EVENT,
                    &mut result,
                );
            }
        }
        let ghost out2 = result@;
        if self.best_bid_tick < prev_best_bid_tick {
            delete_levels(
                &mut self.bid_depth,
                self.best_bid_tick + 1,
                prev_best_bid_tick,
                BUY_EVENT | DEPTH_EVENT,
                &mut result,
            );
        } else {
            proof {
                assert(self.bid_depth@ =~= bid1.remove_keys(
                    half_open(price_tick + 1, prev_best_bid_tick + 1),
                ));
                assert(deletions(bid1, price_tick + 1, prev_best_bid_tick + 1, BUY_EVENT
                    | DEPTH_EVENT) =~= Seq::<DepthOutput>::empty());
                assert(result@ =~= out2 + deletions(
                    bid1,
                    price_tick + 1,
                    prev_best_bid_tick + 1,
                    BUY_EVENT | DEPTH_EVENT,
                ));
            }
        }
        result
    }

    /// Applies a best-ask event and returns the events to forward.
    ///
    /// An event older than the best ask, or crossing the best bid with an older timestamp than
    /// the best bid's, is ignored; one that repeats the current best ask and its quantity only
    /// refreshes the best ask's timestamp. Otherwise the level is set and becomes the best ask;
    /// a crossed best bid moves down to the next occupied bid level, and the bid levels crossed and
    /// the ask levels left below the new best ask are deleted and reported.
    pub fn update_best_ask(&mut self, ev: DepthEvent) -> (r: Vec<DepthOutput>)
        ensures
            Self::best_ask_post(*old(self), *final(self), ev, r@),
            old(self).best_bid_tick < old(self).best_ask_tick && ev.price_tick > INVALID_MIN
                ==> final(self).best_bid_tick < final(self).best_ask_tick,
    {
        let mut result: Vec<DepthOutput> = Vec::new();
        let price_tick = ev.price_tick;
        if ev.exch_ts < self.best_ask_timestamp || (price_tick <= self.best_bid_tick && ev.exch_ts
            < self.best_bid_timestamp) {
            return result;
        }
        let existing = match self.ask_depth.get(&price_tick) {
            Some(level) => Some(level.qty),
            None => None,
        };
        match existing {
            Some(qty) => {
                if price_tick == self.best_ask_tick && ev.qty_lot == qty {
                    self.best_ask_timestamp = ev.exch_ts;
                    return result;
                }
            },
            None => {},
        }
        self.ask_depth.insert(price_tick, QtyTimestamp { qty: ev.qty_lot, ts: ev.exch_ts });
        result.push(DepthOutput::Input);
        let ghost ask1 = self.ask_depth@;

        let prev_best_ask_tick = self.best_ask_tick;
        self.best_ask_tick = price_tick;
        self.best_ask_timestamp = ev.exch_ts;

        if price_tick <= self.best_bid_tick {
            let prev_best_bid_tick = self.best_bid_tick;
            self.best_bid_tick = fused_depth_below(&self.bid_depth, self.best_ask_tick, self.low_bid_tick);
            self.best_bid_timestamp = ev.exch_ts;
            proof {
                lemma_level_below(qtys(self.bid_depth@), price_tick, self.low_bid_tick);
            }
            if self.best_bid_tick < INVALID_MAX {
                delete_levels(
                    &mut self.bid_depth,
                    self.best_bid_tick + 1,
                    prev_best_bid_tick,
                    BUY_EVENT | DEPTH_EVENT,
                    &mut result,
                );
            }
        }
        let ghost out2 = result@;
        if self.best_ask_tick > prev_best_ask_tick {
            delete_levels(
                &mut self.ask_depth,
                prev_best_ask_tick,
                self.best_ask_tick - 1,
                SELL_EVENT | DEPTH_EVENT,
                &mut result,
            );
        } else {
            proof {
                assert(self.ask_depth@ =~= ask1.remove_keys(
                    half_open(prev_best_ask_tick as int, price_tick as int),
                ));
                assert(deletions(ask1, prev_best_ask_tick as int, price_tick as int, SELL_EVENT
                    | DEPTH_EVENT) =~= Seq::<DepthOutput>::empty());
                assert(result@ =~= out2 + deletions(
                    ask1,
                    prev_best_ask_tick as int,
                    price_tick as int,
                    SELL_EVENT | DEPTH_EVENT,
                ));
            }
        }
        result
    }

    /// Applies a depth event to the side its flag names.
    pub fn update_depth(&mut self, ev: DepthEvent) -> (r: Vec<DepthOutput>)
        requires
            spec_event_is(ev.ev, BUY_EVENT) || spec_event_is(ev.ev, SELL_EVENT),
        ensures
            spec_event_is(ev.ev, BUY_EVENT) ==> Self::bid_depth_post(*old(self), *final(self), ev, r@),
            !spec_event_is(ev.ev, BUY_EVENT) ==> Self::ask_depth_post(*old(self), *final(self), ev, r@),
    {
        if event_is(ev.ev, BUY_EVENT) {
            self.update_bid_depth(ev)
        } else {
            self.update_ask_depth(ev)
        }
    }

    /// Applies a best bid or best ask event to the side its flag names.
    pub fn update_best(&mut self, ev: DepthEvent) -> (r: Vec<DepthOutput>)
        requires
            spec_event_is(ev.ev, BUY_EVENT) || spec_event_is(ev.ev, SELL_EVENT),
        ensures
            spec_event_is(ev.ev, BUY_EVENT) ==> Self::best_bid_post(*old(self), *final(self), ev, r@),
            !spec_event_is(ev.ev, BUY_EVENT) ==> Self::best_ask_post(*old(self), *final(self), ev, r@),
    {
        if event_is(ev.ev, BUY_EVENT) {
            self.update_best_bid(ev)
        } else {
            self.update_best_ask(ev)
        }
    }

    /// Clears a side of the depth: `Side::Buy` removes the bid levels from `clear_upto` up to the
    /// best bid and takes the highest occupied bid level below `clear_upto` as the best bid,
    /// `Side::Sell` does the same on the ask side upwards, and any other side clears both sides.
    /// The best prices affected take `timestamp` as their timestamp.
    pub fn clear_depth(&mut self, side: Side, clear_upto: i64, timestamp: i64)
        requires
            side == Side::Buy ==> clear_upto > INVALID_MIN,
            side == Side::Sell ==> clear_upto < INVALID_MAX,
        ensures
            final(self).timestamp == old(self).timestamp,
            side == Side::Buy ==> {
                &&& final(self).ask_depth@ == old(self).ask_depth@
                &&& final(self).best_ask_tick == old(self).best_ask_tick
                &&& final(self).best_ask_timestamp == old(self).best_ask_timestamp
                &&& final(self).high_ask_tick == old(self).high_ask_tick
                &&& final(self).bid_depth@ == (if old(self).best_bid_tick != INVALID_MIN {
                    old(self).bid_depth@.remove_keys(
                        half_open(clear_upto as int, old(self).best_bid_tick + 1),
                    )
                } else {
                    old(self).bid_depth@
                })
                &&& final(self).best_bid_tick == level_below(
                    qtys(final(self).bid_depth@),
                    (clear_upto - 1) as i64,
                    old(self).low_bid_tick,
                )
                &&& final(self).low_bid_tick == (if final(self).best_bid_tick == INVALID_MIN {
                    INVALID_MAX
                } else {
                    old(self).low_bid_tick
                })
                &&& final(self).best_bid_timestamp == timestamp
            },
            side == Side::Sell ==> {
                &&& final(self).bid_depth@ == old(self).bid_depth@
                &&& final(self).best_bid_tick == old(self).best_bid_tick
                &&& final(self).best_bid_timestamp == old(self).best_bid_timestamp
                &&& final(self).low_bid_tick == old(self).low_bid_tick
                &&& final(self).ask_depth@ == (if old(self).best_ask_tick != INVALID_MAX {
                    old(self).ask_depth@.remove_keys(
                        half_open(old(self).best_ask_tick as int, clear_upto + 1),
                    )
                } else {
                    old(self).ask_depth@
                })
                &&& final(self).best_ask_tick == level_above(
                    qtys(final(self).ask_depth@),
                    (clear_upto + 1) as i64,
                    old(self).high_ask_tick,
                )
                &&& final(self).high_ask_tick == (if final(self).best_ask_tick == INVALID_MAX {
                    INVALID_MIN
                } else {
                    old(self).high_ask_tick
                })
                &&& final(self).best_ask_timestamp == timestamp
            },
            side != Side::Buy && side != Side::Sell ==> {
                &&& final(self).bid_depth@ == Map::<i64, QtyTimestamp>::empty()
                &&& final(self).ask_depth@ == Map::<i64, QtyTimestamp>::empty()
                &&& final(self).best_bid_tick == INVALID_MIN
                &&& final(self).best_ask_tick == INVALID_MAX
                &&& final(self).low_bid_tick == INVALID_MAX
                &&& final(self).high_ask_tick == INVALID_MIN
                &&& final(self).best_bid_timestamp == timestamp
                &&& final(self).best_ask_timestamp == timestamp
            },
    {
        if side == Side::Buy {
            if self.best_bid_tick != INVALID_MIN {
                let mut sink: Vec<DepthOutput> = Vec::new();
                delete_levels(&mut self.bid_depth, clear_upto, self.best_bid_tick, 0, &mut sink);
            }
            self.best_bid_tick = fused_depth_below(&self.bid_depth, clear_upto - 1, self.low_bid_tick);
            if self.best_bid_tick == INVALID_MIN {
                self.low_bid_tick = INVALID_MAX;
            }
            self.best_bid_timestamp = timestamp;
        } else if side == Side::Sell {
            if self.best_ask_tick != INVALID_MAX {
                let mut sink: Vec<DepthOutput> = Vec::new();
                delete_levels(&mut self.ask_depth, self.best_ask_tick, clear_upto, 0, &mut sink);
            }
            self.best_ask_tick = fused_depth_above(&self.ask_depth, clear_upto + 1, self.high_ask_tick);
            if self.best_ask_tick == INVALID_MAX {
                self.high_ask_tick = INVALID_MIN;
            }
            self.best_ask_timestamp = timestamp;
        } else {
            self.bid_depth.clear();
            self.ask_depth.clear();
            self.best_bid_tick = INVALID_MIN;
            self.best_ask_tick = INVALID_MAX;
            self.low_bid_tick = INVALID_MAX;
            self.high_ask_tick = INVALID_MIN;
            self.best_bid_timestamp = timestamp;
            self.best_ask_timestamp = timestamp;
        }
    }

    /// Returns the best bid in ticks, [`INVALID_MIN`] when there is none.
    pub fn best_bid_tick(&self) -> (r: i64)
        ensures
            r == self.best_bid_tick,
    {
        self.best_bid_tick
    }

    /// Returns the best ask in ticks, [`INVALID_MAX`] when there is none.
    pub fn best_ask_tick(&self) -> (r: i64)
        ensures
            r == self.best_ask_tick,
    {
        self.best_ask_tick
    }

    /// Returns the quantity at the bid side for a price in ticks, zero where there is none.
    pub fn bid_qty_at_tick(&self, tick: i64) -> (r: i64)
        ensures
            r == (if self.bid_depth@.contains_key(tick) {
                self.bid_depth@[tick].qty
            } else {
                0
            }),
    {
        match self.bid_depth.get(&tick) {
            Some(v) => v.qty,
            None => 0,
        }
    }

    /// Returns the quantity at the ask side for a price in ticks, zero where there is none.
    pub fn ask_qty_at_tick(&self, tick: i64) -> (r: i64)
        ensures
            r == (if self.ask_depth@.contains_key(tick) {
                self.ask_depth@[tick].qty
            } else {
                0
            }),
    {
        match self.ask_depth.get(&tick) {
            Some(v) => v.qty,
            None => 0,
        }
    }
}

} // verus!
