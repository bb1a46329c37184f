//! A Level 3 Market-By-Order queue model in first-in, first-out order.
//!
//! All orders at a price, the market feed's and the backtest's alike, wait in one queue in
//! price-time priority and execute in that order: a backtest order is taken to execute when an
//! order of the market feed behind it executes, or when the opposite best price reaches it.
//! Exchanges may match otherwise (pro-rata, exotic order types), so the model should be chosen
//! with care even with a Market-By-Order feed.
use std::collections::HashMap;
use vstd::prelude::*;
use vstd::std_specs::iter::IteratorSpec;

use crate::backtest::BacktestError;
use crate::depth::{MarketDepth, INVALID_MAX, INVALID_MIN};
use crate::types::{
    spec_event_is, Event, OrdType, Order, Side, Status, TimeInForce, BUY_EVENT, SELL_EVENT,
};

verus! {

broadcast use vstd::std_specs::hash::group_hash_axioms;

/// Where an order in a queue comes from.
#[derive(Clone, Copy, PartialEq, Eq, Structural, Debug)]
pub enum L3OrderSource {
    MarketFeed,
    Backtest,
}

/// An order waiting in a queue, with its source.
pub type QueueEntry = (Order, L3OrderSource);

/// The queues of a book side as sequences.
pub open spec fn queues_view(m: Map<i64, Vec<QueueEntry>>) -> Map<i64, Seq<QueueEntry>> {
    m.map_values(|v: Vec<QueueEntry>| v@)
}

/// The queue at a price, empty where there is none.
pub open spec fn queue_at(qs: Map<i64, Seq<QueueEntry>>, t: i64) -> Seq<QueueEntry> {
    if qs.contains_key(t) {
        qs[t]
    } else {
        Seq::empty()
    }
}

/// The entry is the order `id` from `src`.
pub open spec fn is_entry(e: QueueEntry, id: u64, src: L3OrderSource) -> bool {
    e.0.order_id == id && e.1 == src
}

/// The position of the first entry of the queue that is the order `id` from `src`, the queue's
/// length if there is none.
pub open spec fn first_index(q: Seq<QueueEntry>, id: u64, src: L3OrderSource) -> int
    decreases q.len(),
{
    if q.len() == 0 {
        0
    } else if is_entry(q[0], id, src) {
        0
    } else {
        1 + first_index(q.drop_first(), id, src)
    }
}

/// No order appears twice in the queue.
pub open spec fn unique(q: Seq<QueueEntry>) -> bool {
    forall|i: int, j: int|
        0 <= i < j < q.len() ==> !is_entry(#[trigger] q[i], q[j].0.order_id, #[trigger] q[j].1)
}

/// The queue holds the order `id` from `src`.
pub open spec fn holds(q: Seq<QueueEntry>, id: u64, src: L3OrderSource) -> bool {
    exists|i: int| 0 <= i < q.len() && is_entry(#[trigger] q[i], id, src)
}

/// The other side of a buy or a sell.
pub open spec fn opposite(side: Side) -> Side {
    if side == Side::Buy {
        Side::Sell
    } else {
        Side::Buy
    }
}

/// The order of the market feed that an add-order event describes, on the side.
pub open spec fn feed_order(ev: Event, side: Side) -> Order {
    Order {
        qty: ev.qty_lot,
        leaves_qty: ev.qty_lot,
        exec_qty: 0,
        exec_price_tick: 0,
        price_tick: ev.price_tick,
        exch_timestamp: ev.exch_ts,
        local_timestamp: 0,
        order_id: ev.order_id,
        maker: false,
        order_type: OrdType::Limit,
        req: Status::Nil,
        status: Status::Nil,
        side: side,
        time_in_force: TimeInForce::GTC,
    }
}

/// The side of an event flag: a buy, a sell, or neither.
pub open spec fn event_side(ev: u64) -> Side {
    if spec_event_is(ev, BUY_EVENT) {
        Side::Buy
    } else if spec_event_is(ev, SELL_EVENT) {
        Side::Sell
    } else {
        Side::Nil
    }
}

/// Appends the entry to the queue at `t`, which is created if there is none.
fn push_entry(qs: &mut HashMap<i64, Vec<QueueEntry>>, t: i64, e: QueueEntry)
    ensures
        queues_view(final(qs)@) == queues_view(old(qs)@).insert(
            t,
            queue_at(queues_view(old(qs)@), t).push(e),
        ),
{
    let mut q = match qs.remove(&t) {
        Some(q) => q,
        None => Vec::new(),
    };
    q.push(e);
    qs.insert(t, q);
    assert(queues_view(qs@) =~= queues_view(old(qs)@).insert(
        t,
        queue_at(queues_view(old(qs)@), t).push(e),
    ));
}

proof fn lemma_first_index(q: Seq<QueueEntry>, id: u64, src: L3OrderSource)
    ensures
        0 <= first_index(q, id, src) <= q.len(),
        first_index(q, id, src) < q.len() ==> is_entry(q[first_index(q, id, src)], id, src),
        forall|j: int| 0 <= j < first_index(q, id, src) ==> !is_entry(#[trigger] q[j], id, src),
        holds(q, id, src) <==> first_index(q, id, src) < q.len(),
    decreases q.len(),
{
    if q.len() > 0 && !is_entry(q[0], id, src) {
        lemma_first_index(q.drop_first(), id, src);
        assert forall|j: int| 0 <= j < first_index(q, id, src) implies !is_entry(
            #[trigger] q[j],
            id,
            src,
        ) by {
            if j > 0 {
                assert(q[j] == q.drop_first()[j - 1]);
            }
        }
        if holds(q, id, src) {
            let k = choose|k: int| 0 <= k < q.len() && is_entry(#[trigger] q[k], id, src);
            assert(q.drop_first()[k - 1] == q[k]);
        }
        if first_index(q, id, src) < q.len() {
            assert(q[first_index(q, id, src)] == q.drop_first()[first_index(q.drop_first(), id, src)]);
        }
    }
}

/// Removes the first entry of the queue at `t` that is the order `id` from `src` and returns
/// it; nothing changes if there is none.
fn remove_entry(qs: &mut HashMap<i64, Vec<QueueEntry>>, t: i64, id: u64, src: L3OrderSource) -> (r:
    Option<QueueEntry>)
    ensures
        ({
            let q = queue_at(queues_view(old(qs)@), t);
            let i = first_index(q, id, src);
            if old(qs)@.contains_key(t) && i < q.len() {
                &&& r == Some(q[i])
                &&& queues_view(final(qs)@) == queues_view(old(qs)@).insert(t, q.remove(i))
            } else {
                &&& r is None
                &&& queues_view(final(qs)@) == queues_view(old(qs)@)
            }
        }),
{
    let ghost q0 = queue_at(queues_view(qs@), t);
    proof {
        lemma_first_index(q0, id, src);
    }
    let mut q = match qs.remove(&t) {
        Some(q) => q,
        None => {
            return None;
        },
    };
    let mut i: usize = 0;
    while i < q.len()
        invariant
            q@ == q0,
            old(qs)@.contains_key(t),
            q0 == old(qs)@[t]@,
            qs@ == old(qs)@.remove(t),
            i <= q@.len(),
            forall|j: int| 0 <= j < i ==> !is_entry(#[trigger] q@[j], id, src),
        decreases q@.len() - i,
    {
        if q[i].0.order_id == id && q[i].1 == src {
            proof {
                lemma_first_index(q0, id, src);
            }
            assert(first_index(q0, id, src) == i) by {
                if first_index(q0, id, src) < i {
                    assert(!is_entry(q@[first_index(q0, id, src)], id, src));
                }
            }
            let e = q.remove(i);
            qs.insert(t, q);
            assert(queues_view(qs@) =~= queues_view(old(qs)@).insert(t, q0.remove(i as int)));
            return Some(e);
        }
        i = i + 1;
    }
    proof {
        lemma_first_index(q0, id, src);
        assert(first_index(q0, id, src) == q0.len()) by {
            if first_index(q0, id, src) < q0.len() {
                assert(!is_entry(q@[first_index(q0, id, src)], id, src));
            }
        }
    }
    qs.insert(t, q);
    assert(queues_view(qs@) =~= queues_view(old(qs)@));
    None
}

/// A backtest order in a queue after a modification that loses its place: it takes the
/// requested order's fields, keeps its local timestamp and, unless the request carries a positive
/// one, its exchange timestamp, and has its whole quantity left.
pub open spec fn modified_backtest(prev: Order, order: Order) -> Order {
    Order {
        leaves_qty: order.qty,
        local_timestamp: prev.local_timestamp,
        exch_timestamp: if order.exch_timestamp > 0 {
            order.exch_timestamp
        } else {
            prev.exch_timestamp
        },
        ..order
    }
}

/// An order in a queue with its quantity changed in place: it keeps its place.
pub open spec fn resized(prev: Order, qty: i64, exch_timestamp: i64) -> Order {
    Order { qty: qty, leaves_qty: qty, exch_timestamp: exch_timestamp, ..prev }
}

/// An order of the market feed in a queue after a modification event.
pub open spec fn modified_feed(prev: Order, ev: Event) -> Order {
    Order { price_tick: ev.price_tick, qty: ev.qty_lot, leaves_qty: ev.qty_lot, exch_timestamp: ev.exch_ts, ..prev }
}

/// Replaces the entry at position `i` of the queue at `t`.
fn replace_entry(qs: &mut HashMap<i64, Vec<QueueEntry>>, t: i64, i: usize, e: QueueEntry)
    requires
        old(qs)@.contains_key(t),
        i < old(qs)@[t]@.len(),
    ensures
        queues_view(final(qs)@) == queues_view(old(qs)@).insert(t, old(qs)@[t]@.update(i as int, e)),
{
    let mut q = qs.remove(&t).unwrap();
    q.set(i, e);
    qs.insert(t, q);
    assert(queues_view(qs@) =~= queues_view(old(qs)@).insert(t, old(qs)@[t]@.update(i as int, e)));
}

/// Finds the first entry of the queue at `t` that is the order `id` from `src`.
fn find_entry(qs: &HashMap<i64, Vec<QueueEntry>>, t: i64, id: u64, src: L3OrderSource) -> (r: Option<(usize, QueueEntry)>)
    requires
        qs@.contains_key(t),
    ensures
        ({
            let q = queues_view(qs@)[t];
            let i = first_index(q, id, src);
            &&& (r is Some <==> i < q.len())
            &&& (r matches Some((ri, re)) ==> ri == i && re == q[i])
        }),
{
    let q = qs.get(&t).unwrap();
    let ghost q0 = q@;
    assert(q0 == queues_view(qs@)[t]);
    proof {
        lemma_first_index(q0, id, src);
    }
    let mut i: usize = 0;
    while i < q.len()
        invariant
            q@ == q0,
            q0 == queues_view(qs@)[t],
            i <= q@.len(),
            forall|j: int| 0 <= j < i ==> !is_entry(#[trigger] q@[j], id, src),
        decreases q@.len() - i,
    {
        if q[i].0.order_id == id && q[i].1 == src {
            proof {
                lemma_first_index(q0, id, src);
                if first_index(q0, id, src) < i {
                    assert(!is_entry(q@[first_index(q0, id, src)], id, src));
                }
            }
            return Some((i, q[i]));
        }
        i = i + 1;
    }
    proof {
        lemma_first_index(q0, id, src);
        if first_index(q0, id, src) < q0.len() {
            assert(!is_entry(q@[first_index(q0, id, src)], id, src));
        }
    }
    None
}

/// The queue without its backtest orders.
pub open spec fn purge(q: Seq<QueueEntry>) -> Seq<QueueEntry>
    decreases q.len(),
{
    if q.len() == 0 {
        q
    } else if q[0].1 == L3OrderSource::Backtest {
        purge(q.drop_first())
    } else {
        seq![q[0]] + purge(q.drop_first())
    }
}

/// The backtest orders of the queue, in queue order.
pub open spec fn backtest_orders_in(q: Seq<QueueEntry>) -> Seq<Order>
    decreases q.len(),
{
    if q.len() == 0 {
        Seq::empty()
    } else if q[0].1 == L3OrderSource::Backtest {
        seq![q[0].0] + backtest_orders_in(q.drop_first())
    } else {
        backtest_orders_in(q.drop_first())
    }
}

/// The position of the first backtest order of the queue, the queue's length if there is none.
pub open spec fn first_backtest(q: Seq<QueueEntry>) -> int
    decreases q.len(),
{
    if q.len() == 0 {
        0
    } else if q[0].1 == L3OrderSource::Backtest {
        0
    } else {
        1 + first_backtest(q.drop_first())
    }
}

proof fn lemma_first_backtest(q: Seq<QueueEntry>)
    ensures
        0 <= first_backtest(q) <= q.len(),
        first_backtest(q) < q.len() ==> q[first_backtest(q)].1 == L3OrderSource::Backtest,
        forall|j: int| 0 <= j < first_backtest(q) ==> (#[trigger] q[j]).1 != L3OrderSource::Backtest,
        first_backtest(q) == q.len() ==> purge(q) == q && backtest_orders_in(q) == Seq::<Order>::empty(),
        first_backtest(q) < q.len() ==> {
            let i = first_backtest(q);
            &&& purge(q.remove(i)) == purge(q)
            &&& backtest_orders_in(q) == seq![q[i].0] + backtest_orders_in(q.remove(i))
            &&& first_index(q, q[i].0.order_id, L3OrderSource::Backtest) == i
        },
    decreases q.len(),
{
    if q.len() > 0 {
        let r = q.drop_first();
        lemma_first_backtest(r);
        if q[0].1 == L3OrderSource::Backtest {
            assert(q.remove(0) =~= r);
        } else {
            assert forall|j: int| 0 <= j < first_backtest(q) implies (#[trigger] q[j]).1
                != L3OrderSource::Backtest by {
                if j > 0 {
                    assert(q[j] == r[j - 1]);
                }
            }
            if first_backtest(r) == r.len() {
                assert(q =~= seq![q[0]] + r);
            } else {
                let i = first_backtest(q);
                assert(q[i] == r[i - 1]);
                assert(q.remove(i).drop_first() =~= r.remove(i - 1));
                assert(q.remove(i)[0] == q[0]);
                assert(first_index(q, q[i].0.order_id, L3OrderSource::Backtest) == 1 + first_index(
                    r,
                    q[i].0.order_id,
                    L3OrderSource::Backtest,
                ));
            }
        }
    }
}

proof fn lemma_backtest_orders_in_ids(q: Seq<QueueEntry>)
    ensures
        forall|id: u64| #[trigger] ids_of(backtest_orders_in(q)).contains(id)
            <==> exists|k: int| 0 <= k < q.len() && is_entry(#[trigger] q[k], id, L3OrderSource::Backtest),
    decreases q.len(),
{
    if q.len() > 0 {
        let r = q.drop_first();
        lemma_backtest_orders_in_ids(r);
        assert forall|id: u64| #[trigger] ids_of(backtest_orders_in(q)).contains(id)
            <==> exists|k: int| 0 <= k < q.len() && is_entry(#[trigger] q[k], id, L3OrderSource::Backtest) by {
            let ids_q = ids_of(backtest_orders_in(q));
            let ids_r = ids_of(backtest_orders_in(r));
            if q[0].1 == L3OrderSource::Backtest {
                assert(ids_q =~= seq![q[0].0.order_id] + ids_r);
            } else {
                assert(ids_q =~= ids_r);
            }
            if ids_q.contains(id) {
                if q[0].1 == L3OrderSource::Backtest && q[0].0.order_id == id {
                    assert(is_entry(q[0], id, L3OrderSource::Backtest));
                } else {
                    let j = choose|j: int| 0 <= j < ids_q.len() && ids_q[j] == id;
                    if q[0].1 == L3OrderSource::Backtest {
                        assert(j != 0);
                        assert(ids_r[j - 1] == id);
                    } else {
                        assert(ids_r[j] == id);
                    }
                    assert(ids_r.contains(id));
                    let k = choose|k: int| 0 <= k < r.len() && is_entry(#[trigger] r[k], id, L3OrderSource::Backtest);
                    assert(q[k + 1] == r[k]);
                    assert(is_entry(q[k + 1], id, L3OrderSource::Backtest));
                }
            }
            if exists|k: int| 0 <= k < q.len() && is_entry(#[trigger] q[k], id, L3OrderSource::Backtest) {
                let k = choose|k: int| 0 <= k < q.len() && is_entry(#[trigger] q[k], id, L3OrderSource::Backtest);
                if k == 0 {
                    assert(ids_q[0] == id);
                } else {
                    assert(is_entry(r[k - 1], id, L3OrderSource::Backtest));
                    assert(ids_r.contains(id));
                    let j = choose|j: int| 0 <= j < ids_r.len() && ids_r[j] == id;
                    if q[0].1 == L3OrderSource::Backtest {
                        assert(ids_q[j + 1] == id);
                    } else {
                        assert(ids_q[j] == id);
                    }
                }
            }
        }
    }
}

/// Finds the first backtest order in the queue at `t`: its position and its order id.
fn find_backtest(qs: &HashMap<i64, Vec<QueueEntry>>, t: i64) -> (r: Option<(usize, u64)>)
    ensures
        ({
            let q = queue_at(queues_view(qs@), t);
            &&& (r is Some <==> qs@.contains_key(t) && first_backtest(q) < q.len())
            &&& (r matches Some((ri, id)) ==> ri == first_backtest(q) && id == q[ri as int].0.order_id)
        }),
{
    let q = match qs.get(&t) {
        Some(q) => q,
        None => {
            return None;
        },
    };
    let ghost q0 = q@;
    assert(q0 == queue_at(queues_view(qs@), t));
    proof {
        lemma_first_backtest(q0);
    }
    let mut i: usize = 0;
    while i < q.len()
        invariant
            q@ == q0,
            qs@.contains_key(t),
            q0 == queue_at(queues_view(qs@), t),
            i <= q@.len(),
            forall|j: int| 0 <= j < i ==> (#[trigger] q@[j]).1 != L3OrderSource::Backtest,
        decreases q@.len() - i,
    {
        if q[i].1 == L3OrderSource::Backtest {
            proof {
                lemma_first_backtest(q0);
                if first_backtest(q0) < i {
                    assert(q@[first_backtest(q0)].1 != L3OrderSource::Backtest);
                }
            }
            return Some((i, q[i].0.order_id));
        }
        i = i + 1;
    }
    proof {
        lemma_first_backtest(q0);
        if first_backtest(q0) < q0.len() {
            assert(q@[first_backtest(q0)].1 != L3OrderSource::Backtest);
        }
    }
    None
}

/// The order ids of the orders.
pub open spec fn ids_of(os: Seq<Order>) -> Seq<u64> {
    os.map_values(|o: Order| o.order_id)
}

/// The backtest orders of the queues at the ticks, tick after tick.
pub open spec fn backtest_orders_at(qs: Map<i64, Seq<QueueEntry>>, ticks: Seq<i64>) -> Seq<Order>
    decreases ticks.len(),
{
    if ticks.len() == 0 {
        Seq::empty()
    } else {
        backtest_orders_at(qs, ticks.drop_last()) + backtest_orders_in(queue_at(qs, ticks.last()))
    }
}

/// The queues with the backtest orders at the ticks of `ticks` taken out.
pub open spec fn purged_at(qs: Map<i64, Seq<QueueEntry>>, ticks: Set<i64>) -> Map<i64, Seq<QueueEntry>> {
    Map::new(
        |t: i64| qs.contains_key(t),
        |t: i64|
            if ticks.contains(t) {
                purge(qs[t])
            } else {
                qs[t]
            },
    )
}

/// The orders of the index located on the side at a tick of `ticks`.
pub open spec fn located_at(index: Map<u64, (Side, i64)>, side: Side, ticks: Set<i64>) -> Set<u64> {
    Set::new(|id: u64| index.contains_key(id) && index[id].0 == side && ticks.contains(index[id].1))
}

/// The tick is within the bounds, an absent bound being unbounded.
pub open spec fn in_bounds(t: i64, lo: Option<i64>, hi: Option<i64>) -> bool {
    &&& (lo matches Some(l) ==> l <= t)
    &&& (hi matches Some(h) ==> t <= h)
}

/// The ticks within the bounds.
pub open spec fn bounded_ticks(lo: Option<i64>, hi: Option<i64>) -> Set<i64> {
    Set::new(|t: i64| in_bounds(t, lo, hi))
}

fn within(t: i64, lo: Option<i64>, hi: Option<i64>) -> (r: bool)
    ensures
        r == in_bounds(t, lo, hi),
{
    (match lo {
        Some(l) => l <= t,
        None => true,
    }) && (match hi {
        Some(h) => t <= h,
        None => true,
    })
}

fn vec_contains(v: &Vec<i64>, x: i64) -> (r: bool)
    ensures
        r == v@.contains(x),
{
    let mut i: usize = 0;
    while i < v.len()
        invariant
            i <= v@.len(),
            forall|j: int| 0 <= j < i ==> v@[j] != x,
        decreases v@.len() - i,
    {
        if v[i] == x {
            assert(v@[i as int] == x);
            return true;
        }
        i = i + 1;
    }
    false
}

/// The ticks from `lo` to `hi`, in ascending order.
fn ticks_between(lo: i64, hi: i64) -> (r: Vec<i64>)
    requires
        lo <= hi,
    ensures
        r@.no_duplicates(),
        r@.to_set() == bounded_ticks(Some(lo), Some(hi)),
{
    let mut r: Vec<i64> = Vec::new();
    let mut t = lo;
    loop
        invariant_except_break
            lo <= t <= hi,
            r@.len() == t - lo,
            forall|j: int| 0 <= j < r@.len() ==> r@[j] == lo + j,
        ensures
            r@.len() == hi - lo + 1,
            forall|j: int| 0 <= j < r@.len() ==> r@[j] == lo + j,
        decreases hi - t,
    {
        r.push(t);
        if t == hi {
            break;
        }
        t = t + 1;
    }
    assert forall|x: i64| #[trigger] r@.to_set().contains(x) == bounded_ticks(Some(lo), Some(hi)).contains(x) by {
        if lo <= x <= hi {
            assert(r@[x - lo] == x);
        }
    }
    assert(r@.to_set() =~= bounded_ticks(Some(lo), Some(hi)));
    r
}

proof fn lemma_first_backtest_prefix(q: Seq<QueueEntry>, k: int)
    requires
        0 <= k <= q.len(),
    ensures
        first_backtest(q) < k ==> first_backtest(q.take(k)) == first_backtest(q),
        first_backtest(q) >= k ==> first_backtest(q.take(k)) == k,
    decreases q.len(),
{
    lemma_first_backtest(q);
    lemma_first_backtest(q.take(k));
    if first_backtest(q) < k {
        let i = first_backtest(q);
        assert(q.take(k)[i] == q[i]);
        if first_backtest(q.take(k)) < i {
            assert(q.take(k)[first_backtest(q.take(k))] == q[first_backtest(q.take(k))]);
        }
    } else {
        if first_backtest(q.take(k)) < k {
            assert(q.take(k)[first_backtest(q.take(k))] == q[first_backtest(q.take(k))]);
        }
    }
}

/// Removing a backtest entry that stands before the order `id` of the market feed moves that
/// order one place forward and takes the backtest order out of what precedes it.
proof fn lemma_remove_before(q: Seq<QueueEntry>, id: u64)
    requires
        first_backtest(q) < first_index(q, id, L3OrderSource::MarketFeed) < q.len(),
    ensures
        ({
            let i = first_backtest(q);
            let k = first_index(q, id, L3OrderSource::MarketFeed);
            let q2 = q.remove(i);
            &&& first_index(q2, id, L3OrderSource::MarketFeed) == k - 1
            &&& q2.skip(k - 1) == q.skip(k)
            &&& purge(q2.take(k - 1)) == purge(q.take(k))
            &&& backtest_orders_in(q.take(k)) == seq![q[i].0] + backtest_orders_in(q2.take(k - 1))
        }),
{
    let i = first_backtest(q);
    let k = first_index(q, id, L3OrderSource::MarketFeed);
    let q2 = q.remove(i);
    lemma_first_backtest(q);
    lemma_first_index(q, id, L3OrderSource::MarketFeed);
    lemma_first_index(q2, id, L3OrderSource::MarketFeed);
    let f2 = first_index(q2, id, L3OrderSource::MarketFeed);
    assert(q2[k - 1] == q[k]);
    if f2 < k - 1 {
        if f2 < i {
            assert(q2[f2] == q[f2]);
        } else {
            assert(q2[f2] == q[f2 + 1]);
        }
    }
    assert(q2.skip(k - 1) =~= q.skip(k));
    let p = q.take(k);
    lemma_first_backtest_prefix(q, k);
    lemma_first_backtest(p);
    assert(p.remove(i) =~= q2.take(k - 1));
    assert(p[i] == q[i]);
}

proof fn lemma_purge_keeps_absence(p: Seq<QueueEntry>, id: u64, src: L3OrderSource)
    requires
        forall|j: int| 0 <= j < p.len() ==> !is_entry(#[trigger] p[j], id, src),
    ensures
        forall|j: int| 0 <= j < purge(p).len() ==> !is_entry(#[trigger] purge(p)[j], id, src),
    decreases p.len(),
{
    if p.len() > 0 {
        let r = p.drop_first();
        assert forall|j: int| 0 <= j < r.len() implies !is_entry(#[trigger] r[j], id, src) by {
            assert(r[j] == p[j + 1]);
        }
        lemma_purge_keeps_absence(r, id, src);
        if p[0].1 != L3OrderSource::Backtest {
            assert forall|j: int| 0 <= j < purge(p).len() implies !is_entry(#[trigger] purge(p)[j], id, src) by {
                if j > 0 {
                    assert(purge(p)[j] == purge(r)[j - 1]);
                }
            }
        }
    }
}

proof fn lemma_first_index_append(a: Seq<QueueEntry>, b: Seq<QueueEntry>, id: u64, src: L3OrderSource)
    requires
        forall|j: int| 0 <= j < a.len() ==> !is_entry(#[trigger] a[j], id, src),
    ensures
        first_index(a + b, id, src) == a.len() + first_index(b, id, src),
    decreases a.len(),
{
    if a.len() > 0 {
        let r = a.drop_first();
        assert forall|j: int| 0 <= j < r.len() implies !is_entry(#[trigger] r[j], id, src) by {
            assert(r[j] == a[j + 1]);
        }
        lemma_first_index_append(r, b, id, src);
        assert((a + b).drop_first() =~= r + b);
        assert((a + b)[0] == a[0]);
    } else {
        assert(a + b =~= b);
    }
}

/// The bounds of the ticks whose backtest orders a fill of the market feed at `exec` sweeps
/// before the queue at the filled order's price is looked at: the levels strictly better than
/// `exec` up to the best price (or beyond when the index is the shorter to scan); none when
/// `exec` is not behind the best price.
pub open spec fn feed_fill_bounds(bt_len: nat, side: Side, best: i64, exec: i64) -> (Option<i64>, Option<i64>) {
    if side == Side::Buy {
        if exec < best {
            if (#[verifier::truncate] (bt_len as i64)) < best - (exec + 1) {
                (Some((exec + 1) as i64), None)
            } else {
                (Some((exec + 1) as i64), Some(best))
            }
        } else {
            (Some(1), Some(0))
        }
    } else {
        if exec > best {
            if (#[verifier::truncate] (bt_len as i64)) < (exec - 1) - best {
                (None, Some((exec - 1) as i64))
            } else {
                (Some(best), Some((exec - 1) as i64))
            }
        } else {
            (Some(1), Some(0))
        }
    }
}

proof fn lemma_backtest_orders_in_push(q: Seq<QueueEntry>, e: QueueEntry)
    ensures
        backtest_orders_in(q.push(e)) == backtest_orders_in(q) + (if e.1 == L3OrderSource::Backtest {
            seq![e.0]
        } else {
            Seq::<Order>::empty()
        }),
    decreases q.len(),
{
    let tail = if e.1 == L3OrderSource::Backtest {
        seq![e.0]
    } else {
        Seq::<Order>::empty()
    };
    if q.len() == 0 {
        assert(q.push(e).drop_first() =~= Seq::<QueueEntry>::empty());
        assert(backtest_orders_in(Seq::<QueueEntry>::empty()) == Seq::<Order>::empty());
        assert(q.push(e)[0] == e);
        assert(backtest_orders_in(q) == Seq::<Order>::empty());
        assert(seq![e.0] + Seq::<Order>::empty() =~= seq![e.0]);
        assert(Seq::<Order>::empty() + tail =~= tail);
    } else {
        lemma_backtest_orders_in_push(q.drop_first(), e);
        assert(q.push(e).drop_first() =~= q.drop_first().push(e));
        assert(q.push(e)[0] == q[0]);
        if q[0].1 == L3OrderSource::Backtest {
            assert(seq![q[0].0] + (backtest_orders_in(q.drop_first()) + tail) =~= (seq![q[0].0]
                + backtest_orders_in(q.drop_first())) + tail);
        }
    }
}

/// Appends the backtest orders of the queue, in queue order.
fn push_backtest_orders(q: &Vec<QueueEntry>, out: &mut Vec<Order>)
    ensures
        final(out)@ == old(out)@ + backtest_orders_in(q@),
{
    let mut i: usize = 0;
    assert(q@.take(0) =~= Seq::<QueueEntry>::empty());
    assert(out@ =~= old(out)@ + backtest_orders_in(q@.take(0)));
    while i < q.len()
        invariant
            i <= q@.len(),
            out@ == old(out)@ + backtest_orders_in(q@.take(i as int)),
        decreases q@.len() - i,
    {
        proof {
            assert(q@.take(i + 1) =~= q@.take(i as int).push(q@[i as int]));
            lemma_backtest_orders_in_push(q@.take(i as int), q@[i as int]);
        }
        if q[i].1 == L3OrderSource::Backtest {
            out.push(q[i].0);
        }
        assert(out@ =~= old(out)@ + backtest_orders_in(q@.take(i + 1)));
        i = i + 1;
    }
    assert(q@.take(q@.len() as int) =~= q@);
}

/// Empties the queues of a side, appending their backtest orders, queue after queue in some
/// order of the ticks.
fn drain_backtest(qs: &mut HashMap<i64, Vec<QueueEntry>>, out: &mut Vec<Order>)
    ensures
        final(qs)@ == Map::<i64, Vec<QueueEntry>>::empty(),
        exists|ticks: Seq<i64>|
            #![trigger backtest_orders_at(queues_view(old(qs)@), ticks)]
            {
                &&& ticks.no_duplicates()
                &&& ticks.to_set() == old(qs)@.dom()
                &&& final(out)@ == old(out)@ + backtest_orders_at(queues_view(old(qs)@), ticks)
            },
{
    let ghost qs0 = queues_view(qs@);
    let mut ticks: Vec<i64> = Vec::new();
    let keys = qs.keys();
    let ghost all = IteratorSpec::remaining(&keys);
    assert(all.unref().to_set() == qs@.dom());
    assert(all.unref().no_duplicates());
    for t in it: keys
        invariant
            it.seq() == all,
            ticks@ == all.unref().take(it.index() as int),
    {
        let ghost i = it.index();
        ticks.push(*t);
        assert(ticks@ =~= all.unref().take(i + 1));
    }
    assert(ticks@ =~= all.unref());
    let mut k: usize = 0;
    assert(out@ =~= old(out)@ + backtest_orders_at(qs0, ticks@.take(0)));
    while k < ticks.len()
        invariant
            k <= ticks@.len(),
            ticks@.no_duplicates(),
            ticks@.to_set() == old(qs)@.dom(),
            qs0 == queues_view(old(qs)@),
            qs@ == old(qs)@.remove_keys(ticks@.take(k as int).to_set()),
            out@ == old(out)@ + backtest_orders_at(qs0, ticks@.take(k as int)),
        decreases ticks@.len() - k,
    {
        let t = ticks[k];
        proof {
            assert(ticks@.to_set().contains(t));
            assert(!ticks@.take(k as int).to_set().contains(t)) by {
                if ticks@.take(k as int).contains(t) {
                    let j = choose|j: int| 0 <= j < k && ticks@.take(k as int)[j] == t;
                    assert(ticks@[j] == ticks@[k as int]);
                }
            }
        }
        let q = qs.remove(&t).unwrap();
        push_backtest_orders(&q, out);
        proof {
            let t1 = ticks@.take(k + 1);
            assert(t1.drop_last() =~= ticks@.take(k as int));
            assert(t1.last() == t);
            assert(queue_at(qs0, t) == q@);
            assert(t1.to_set() =~= ticks@.take(k as int).to_set().insert(t)) by {
                assert forall|x: i64| #[trigger] t1.to_set().contains(x) == ticks@.take(k as int).to_set().insert(t).contains(x) by {
                    if t1.contains(x) && x != t {
                        let j = choose|j: int| 0 <= j < t1.len() && t1[j] == x;
                        assert(ticks@.take(k as int)[j] == x);
                    }
                    if ticks@.take(k as int).contains(x) {
                        let j = choose|j: int| 0 <= j < k && ticks@.take(k as int)[j] == x;
                        assert(t1[j] == x);
                    }
                    if x == t {
                        assert(t1[k as int] == x);
                    }
                }
            }
            assert(qs@ =~= old(qs)@.remove_keys(t1.to_set()));
            assert(out@ =~= old(out)@ + backtest_orders_at(qs0, t1));
        }
        k = k + 1;
    }
    assert(ticks@.take(ticks@.len() as int) =~= ticks@);
    assert(qs@ =~= Map::<i64, Vec<QueueEntry>>::empty());
}

/// Drops from the index the orders on the side.
fn drop_side(index: &mut HashMap<u64, (Side, i64)>, side: Side)
    ensures
        final(index)@ == old(index)@.restrict(
            Set::new(|id: u64| old(index)@.contains_key(id) && old(index)@[id].0 != side),
        ),
{
    let ghost m0 = index@;
    let mut ids: Vec<u64> = Vec::new();
    let keys = index.keys();
    let ghost all = IteratorSpec::remaining(&keys);
    assert(all.unref().to_set() == m0.dom());
    for id in it: keys
        invariant
            it.seq() == all,
            ids@ == all.unref().take(it.index() as int),
    {
        let ghost i = it.index();
        ids.push(*id);
        assert(ids@ =~= all.unref().take(i + 1));
    }
    assert(ids@ =~= all.unref());
    let mut k: usize = 0;
    assert(index@ =~= m0.remove_keys(Set::new(|x: u64| ids@.take(0).contains(x) && m0[x].0 == side)));
    while k < ids.len()
        invariant
            k <= ids@.len(),
            m0 == old(index)@,
            ids@.to_set() == m0.dom(),
            index@ == m0.remove_keys(Set::new(|x: u64| ids@.take(k as int).contains(x) && m0[x].0 == side)),
        decreases ids@.len() - k,
    {
        let id = ids[k];
        proof {
            assert(ids@.to_set().contains(id));
        }
        let ghost before = index@;
        let is_side = match index.get(&id) {
            Some((s, _)) => *s == side,
            None => false,
        };
        proof {
            if !before.contains_key(id) {
                assert(!m0.contains_key(id) || m0[id].0 == side);
            }
        }
        if is_side {
            index.remove(&id);
        }
        proof {
            let t1 = ids@.take(k + 1);
            assert forall|x: u64| #[trigger] t1.contains(x) == (ids@.take(k as int).contains(x) || x == id) by {
                if t1.contains(x) && x != id {
                    let j = choose|j: int| 0 <= j < t1.len() && t1[j] == x;
                    assert(ids@.take(k as int)[j] == x);
                }
                if ids@.take(k as int).contains(x) {
                    let j = choose|j: int| 0 <= j < k && ids@.take(k as int)[j] == x;
                    assert(t1[j] == x);
                }
                if x == id {
                    assert(t1[k as int] == x);
                }
            }
            assert(index@ =~= m0.remove_keys(Set::new(|x: u64| t1.contains(x) && m0[x].0 == side)));
        }
        k = k + 1;
    }
    proof {
        assert(ids@.take(ids@.len() as int) =~= ids@);
        assert(index@ =~= m0.restrict(Set::new(|id: u64| m0.contains_key(id) && m0[id].0 != side)));
    }
}

/// `qm2` is `qm` after [`L3FIFOQueueModel::add_market_feed_order`] of the feed order, which
/// returned `r`.
pub open spec fn feed_order_added(qm: L3FIFOQueueModel, qm2: L3FIFOQueueModel, order: Event, r: Result<(), BacktestError>) -> bool {
    &&& (({
        let side = event_side(order.ev);
        let o = feed_order(order, side);
        &&& qm2.queues(side) == qm.queues(side).insert(
            order.price_tick,
            queue_at(qm.queues(side), order.price_tick).push(
                (o, L3OrderSource::MarketFeed),
            ),
        )
        &&& qm2.queues(opposite(side)) == qm.queues(opposite(side))
        &&& qm2.backtest_orders@ == qm.backtest_orders@
        &&& qm.mkt_feed_orders@.contains_key(order.order_id) ==> r == Err::<
            (),
            BacktestError,
        >(BacktestError::OrderIdExist) && qm2.mkt_feed_orders@ == qm.mkt_feed_orders@
        &&& !qm.mkt_feed_orders@.contains_key(order.order_id) ==> r is Ok && qm2.mkt_feed_orders@ == qm.mkt_feed_orders@.insert(
            order.order_id,
            (side, order.price_tick),
        ) && qm2.wf()
    }))
}

/// `qm2` is `qm` after [`L3FIFOQueueModel::cancel_market_feed_order`] of the feed order, which
/// returned `r`.
pub open spec fn feed_order_canceled(qm: L3FIFOQueueModel, qm2: L3FIFOQueueModel, order_id: u64, r: Result<(), BacktestError>) -> bool {
    &&& (qm2.wf())
    &&& (qm2.backtest_orders@ == qm.backtest_orders@)
    &&& (!qm.mkt_feed_orders@.contains_key(order_id) ==> r == Err::<(), BacktestError>(
        BacktestError::OrderNotFound,
    ) && qm2.mkt_feed_orders@ == qm.mkt_feed_orders@ && qm2.queues(
        Side::Buy,
    ) == qm.queues(Side::Buy) && qm2.queues(Side::Sell) == qm.queues(
        Side::Sell,
    ))
    &&& (qm.mkt_feed_orders@.contains_key(order_id) ==> {
        let (side, t) = qm.mkt_feed_orders@[order_id];
        let q = qm.queues(side)[t];
        let i = first_index(q, order_id, L3OrderSource::MarketFeed);
        &&& r is Ok
        &&& qm2.mkt_feed_orders@ == qm.mkt_feed_orders@.remove(order_id)
        &&& qm2.queues(side) == qm.queues(side).insert(t, q.remove(i))
        &&& qm2.queues(opposite(side)) == qm.queues(opposite(side))
    })
}

/// `qm2` is `qm` after [`L3FIFOQueueModel::modify_market_feed_order`] of the feed order to the
/// event, which returned `r`.
pub open spec fn feed_order_modified(qm: L3FIFOQueueModel, qm2: L3FIFOQueueModel, order_id: u64, order: Event, r: Result<(), BacktestError>) -> bool {
    &&& (qm2.backtest_orders@ == qm.backtest_orders@)
    &&& (!qm.mkt_feed_orders@.contains_key(order_id) ==> {
        &&& r == Err::<(), BacktestError>(BacktestError::OrderNotFound)
        &&& qm2.mkt_feed_orders@ == qm.mkt_feed_orders@
        &&& qm2.queues(Side::Buy) == qm.queues(Side::Buy)
        &&& qm2.queues(Side::Sell) == qm.queues(Side::Sell)
    })
    &&& (qm.mkt_feed_orders@.contains_key(order_id) ==> {
        let (side, t) = qm.mkt_feed_orders@[order_id];
        let q = qm.queues(side)[t];
        let i = first_index(q, order_id, L3OrderSource::MarketFeed);
        let prev = q[i].0;
        let p = order.price_tick;
        &&& r is Ok
        &&& qm2.wf()
        &&& qm2.queues(opposite(side)) == qm.queues(opposite(side))
        &&& if prev.price_tick != p || prev.leaves_qty < order.qty_lot {
            let removed = qm.queues(side).insert(t, q.remove(i));
            &&& qm2.queues(side) == removed.insert(
                p,
                queue_at(removed, p).push(
                    (modified_feed(prev, order), L3OrderSource::MarketFeed),
                ),
            )
            &&& qm2.mkt_feed_orders@ == qm.mkt_feed_orders@.insert(
                order_id,
                (side, p),
            )
        } else {
            &&& qm2.queues(side) == qm.queues(side).insert(
                t,
                q.update(i, (modified_feed(prev, order), L3OrderSource::MarketFeed)),
            )
            &&& qm2.mkt_feed_orders@ == qm.mkt_feed_orders@
        }
    })
}

/// Queue priority on a modification of a market feed order: an order that stays at its price
/// without its quantity growing beyond what it has left keeps its place, the queue keeping its
/// length and every other order its place, and only its quantity and timestamp change; an order
/// that moves to another price or grows loses its place and goes to the back of the queue at its
/// new price with its whole new quantity left, behind every order already there, the orders it
/// leaves keeping their order.
pub proof fn lemma_feed_modify_priority(
    qm: L3FIFOQueueModel,
    qm2: L3FIFOQueueModel,
    order_id: u64,
    order: Event,
    r: Result<(), BacktestError>,
)
    requires
        qm.wf(),
        qm.mkt_feed_orders@.contains_key(order_id),
        feed_order_modified(qm, qm2, order_id, order, r),
    ensures
        ({
            let (side, t) = qm.mkt_feed_orders@[order_id];
            let q = qm.queues(side)[t];
            let i = first_index(q, order_id, L3OrderSource::MarketFeed);
            let prev = q[i].0;
            let p = order.price_tick;
            &&& 0 <= i < q.len()
            &&& prev.order_id == order_id
            &&& r is Ok
            &&& (prev.price_tick == p && order.qty_lot <= prev.leaves_qty) ==> {
                let q2 = qm2.queues(side)[t];
                &&& qm2.queues(side).contains_key(t)
                &&& q2.len() == q.len()
                &&& forall|j: int| 0 <= j < q.len() && j != i ==> #[trigger] q2[j] == q[j]
                &&& q2[i].1 == L3OrderSource::MarketFeed
                &&& q2[i].0.order_id == order_id
                &&& q2[i].0.price_tick == p
                &&& q2[i].0.qty == order.qty_lot
                &&& q2[i].0.leaves_qty == order.qty_lot
                &&& q2[i].0.exch_timestamp == order.exch_ts
            }
            &&& !(prev.price_tick == p && order.qty_lot <= prev.leaves_qty) ==> {
                let rest = q.remove(i);
                let q2 = qm2.queues(side)[p];
                let before = if p == t {
                    rest
                } else {
                    queue_at(qm.queues(side), p)
                };
                &&& qm2.queues(side).contains_key(p)
                &&& q2.len() == before.len() + 1
                &&& forall|j: int| 0 <= j < before.len() ==> #[trigger] q2[j] == before[j]
                &&& q2.last().1 == L3OrderSource::MarketFeed
                &&& q2.last().0.order_id == order_id
                &&& q2.last().0.price_tick == p
                &&& q2.last().0.qty == order.qty_lot
                &&& q2.last().0.leaves_qty == order.qty_lot
                &&& q2.last().0.exch_timestamp == order.exch_ts
                &&& p != t ==> qm2.queues(side)[t] == rest
            }
        }),
{
    let (side, t) = qm.mkt_feed_orders@[order_id];
    let q = qm.queues(side)[t];
    assert(qm.index(L3OrderSource::MarketFeed).contains_key(order_id));
    lemma_first_index(q, order_id, L3OrderSource::MarketFeed);
}

/// `qm2` is `qm` after [`L3FIFOQueueModel::fill_market_feed_order`] of the feed order by the
/// event over the depth, which returned `r`.
pub open spec fn feed_order_filled<MD: MarketDepth>(qm: L3FIFOQueueModel, qm2: L3FIFOQueueModel, order_id: u64, order: Event, depth: MD, delete: bool, r: Result<Vec<Order>, BacktestError>) -> bool {
    &&& (!qm.mkt_feed_orders@.contains_key(order_id) ==> {
        &&& r == Err::<Vec<Order>, BacktestError>(BacktestError::OrderNotFound)
        &&& qm2.mkt_feed_orders@ == qm.mkt_feed_orders@
        &&& qm2.backtest_orders@ == qm.backtest_orders@
        &&& qm2.queues(Side::Buy) == qm.queues(Side::Buy)
        &&& qm2.queues(Side::Sell) == qm.queues(Side::Sell)
    })
    &&& (qm.mkt_feed_orders@.contains_key(order_id) ==> {
        let (side, t) = qm.mkt_feed_orders@[order_id];
        let best = if side == Side::Buy {
            depth.best_bid()
        } else {
            depth.best_ask()
        };
        let (lo, hi) = feed_fill_bounds(
            qm.backtest_orders@.len(),
            side,
            best,
            order.price_tick,
        );
        let mid = purged_at(qm.queues(side), bounded_ticks(lo, hi));
        let q1 = mid[t];
        let k = first_index(q1, order_id, L3OrderSource::MarketFeed);
        &&& r is Ok
        &&& qm2.wf()
        &&& qm2.queues(side) =~~= mid.insert(
            t,
            purge(q1.take(k)) + q1.skip(
                if delete {
                    k + 1
                } else {
                    k
                },
            ),
        )
        &&& qm2.queues(opposite(side)) == qm.queues(opposite(side))
        &&& qm2.backtest_orders@ == qm.backtest_orders@.remove_keys(
            located_at(qm.backtest_orders@, side, bounded_ticks(lo, hi)),
        ).remove_keys(Set::new(|i: u64| ids_of(backtest_orders_in(q1.take(k))).contains(i)))
        &&& qm2.mkt_feed_orders@ == (if delete {
            qm.mkt_feed_orders@.remove(order_id)
        } else {
            qm.mkt_feed_orders@
        })
        &&& exists|ticks: Seq<i64>|
            #![trigger backtest_orders_at(qm.queues(side), ticks)]
            {
                &&& ticks.no_duplicates()
                &&& forall|x: i64| ticks.contains(x) ==> in_bounds(x, lo, hi)
                &&& forall|x: i64|
                    in_bounds(x, lo, hi) && #[trigger] backtest_orders_in(
                        queue_at(qm.queues(side), x),
                    ).len() > 0 ==> ticks.contains(x)
                &&& r->Ok_0@ == backtest_orders_at(qm.queues(side), ticks)
                    + backtest_orders_in(q1.take(k))
            }
    })
}

/// `qm2` is `qm` after [`L3FIFOQueueModel::on_best_bid_update`], which returned `r`.
pub open spec fn best_bid_raised(qm: L3FIFOQueueModel, qm2: L3FIFOQueueModel, prev_best_tick: i64, new_best_tick: i64, r: Result<Vec<Order>, BacktestError>) -> bool {
    &&& (r matches Ok(filled) && qm2.flushed(
        qm,
        Side::Sell,
        if prev_best_tick == INVALID_MIN || (#[verifier::truncate] (qm.backtest_orders@.len() as i64))
            < new_best_tick - (prev_best_tick + 1) {
            None
        } else {
            Some((prev_best_tick + 1) as i64)
        },
        Some(new_best_tick),
        filled@,
    ))
}

/// `qm2` is `qm` after [`L3FIFOQueueModel::on_best_ask_update`], which returned `r`.
pub open spec fn best_ask_lowered(qm: L3FIFOQueueModel, qm2: L3FIFOQueueModel, prev_best_tick: i64, new_best_tick: i64, r: Result<Vec<Order>, BacktestError>) -> bool {
    &&& (r matches Ok(filled) && qm2.flushed(
        qm,
        Side::Buy,
        Some(new_best_tick),
        if prev_best_tick == INVALID_MAX || (#[verifier::truncate] (qm.backtest_orders@.len() as i64))
            < (prev_best_tick - 1) - new_best_tick {
            None
        } else {
            Some((prev_best_tick - 1) as i64)
        },
        filled@,
    ))
}

/// `qm2` is `qm` after [`L3FIFOQueueModel::clear_orders`] of the side, which returned `r`.
pub open spec fn queues_cleared(qm: L3FIFOQueueModel, qm2: L3FIFOQueueModel, side: Side, r: Vec<Order>) -> bool {
    &&& (qm2.wf())
    &&& (side == Side::Buy || side == Side::Sell ==> {
        &&& qm2.queues(side) == Map::<i64, Seq<QueueEntry>>::empty()
        &&& qm2.queues(opposite(side)) == qm.queues(opposite(side))
        &&& qm2.backtest_orders@ =~= qm.backtest_orders@.restrict(
            Set::new(|id: u64| qm.backtest_orders@.contains_key(id) && qm.backtest_orders@[id].0 != side),
        )
        &&& qm2.mkt_feed_orders@ =~= qm.mkt_feed_orders@.restrict(
            Set::new(|id: u64| qm.mkt_feed_orders@.contains_key(id) && qm.mkt_feed_orders@[id].0 != side),
        )
        &&& exists|ticks: Seq<i64>|
            #![trigger backtest_orders_at(qm.queues(side), ticks)]
            {
                &&& ticks.no_duplicates()
                &&& ticks.to_set() == qm.queues(side).dom()
                &&& r@ == backtest_orders_at(qm.queues(side), ticks)
            }
    })
    &&& (side == Side::Nil ==> {
        &&& qm2.queues(Side::Buy) == Map::<i64, Seq<QueueEntry>>::empty()
        &&& qm2.queues(Side::Sell) == Map::<i64, Seq<QueueEntry>>::empty()
        &&& qm2.backtest_orders@ == Map::<u64, (Side, i64)>::empty()
        &&& qm2.mkt_feed_orders@ == Map::<u64, (Side, i64)>::empty()
        &&& exists|bid_ticks: Seq<i64>, ask_ticks: Seq<i64>|
            #![trigger backtest_orders_at(qm.queues(Side::Buy), bid_ticks), backtest_orders_at(qm.queues(Side::Sell), ask_ticks)]
            {
                &&& bid_ticks.no_duplicates()
                &&& bid_ticks.to_set() == qm.queues(Side::Buy).dom()
                &&& ask_ticks.no_duplicates()
                &&& ask_ticks.to_set() == qm.queues(Side::Sell).dom()
                &&& r@ == backtest_orders_at(qm.queues(Side::Buy), bid_ticks)
                    + backtest_orders_at(qm.queues(Side::Sell), ask_ticks)
            }
    })
}

/// The L3 FIFO queue model.
pub struct L3FIFOQueueModel {
    /// The side and price of each backtest order.
    pub backtest_orders: HashMap<u64, (Side, i64)>,
    /// The side and price of each order of the market feed.
    pub mkt_feed_orders: HashMap<u64, (Side, i64)>,
    /// The bid queues by price.
    pub bid_queue: HashMap<i64, Vec<QueueEntry>>,
    /// The ask queues by price.
    pub ask_queue: HashMap<i64, Vec<QueueEntry>>,
}

impl L3FIFOQueueModel {
    /// The queues of a side: the bid queues for a buy, the ask queues otherwise.
    pub open spec fn queues(&self, side: Side) -> Map<i64, Seq<QueueEntry>> {
        if side == Side::Buy {
            queues_view(self.bid_queue@)
        } else {
            queues_view(self.ask_queue@)
        }
    }

    /// Where the orders from a source are.
    pub open spec fn index(&self, src: L3OrderSource) -> Map<u64, (Side, i64)> {
        if src == L3OrderSource::Backtest {
            self.backtest_orders@
        } else {
            self.mkt_feed_orders@
        }
    }

    /// The entry is located by the index at the queue of `side` at `t`.
    pub open spec fn indexed_at(&self, side: Side, t: i64, e: QueueEntry) -> bool {
        &&& self.index(e.1).contains_key(e.0.order_id)
        &&& self.index(e.1)[e.0.order_id] == (side, t)
    }

    /// Each queue of the side holds each order once, where the index locates it.
    pub open spec fn side_wf(&self, side: Side) -> bool {
        forall|t: i64| #[trigger]
            self.queues(side).contains_key(t) ==> {
                &&& unique(self.queues(side)[t])
                &&& forall|i: int|
                    0 <= i < self.queues(side)[t].len() ==> self.indexed_at(
                        side,
                        t,
                        #[trigger] self.queues(side)[t][i],
                    )
            }
    }

    /// Each order of the source that the index locates is in the queue where it is located.
    pub open spec fn index_wf(&self, src: L3OrderSource) -> bool {
        forall|id: u64| #[trigger]
            self.index(src).contains_key(id) ==> {
                let (s, t) = self.index(src)[id];
                &&& s == Side::Buy || s == Side::Sell
                &&& self.queues(s).contains_key(t)
                &&& holds(self.queues(s)[t], id, src)
            }
    }

    /// The indexes and the queues agree.
    pub open spec fn wf(&self) -> bool {
        &&& self.side_wf(Side::Buy)
        &&& self.side_wf(Side::Sell)
        &&& self.index_wf(L3OrderSource::Backtest)
        &&& self.index_wf(L3OrderSource::MarketFeed)
    }

    /// Constructs an empty model.
    pub fn new() -> (r: Self)
        ensures
            r.wf(),
            r.backtest_orders@ == Map::<u64, (Side, i64)>::empty(),
            r.mkt_feed_orders@ == Map::<u64, (Side, i64)>::empty(),
            r.bid_queue@ == Map::<i64, Vec<QueueEntry>>::empty(),
            r.ask_queue@ == Map::<i64, Vec<QueueEntry>>::empty(),
    {
        let r = L3FIFOQueueModel {
            backtest_orders: HashMap::new(),
            mkt_feed_orders: HashMap::new(),
            bid_queue: HashMap::new(),
            ask_queue: HashMap::new(),
        };
        assert(queues_view(r.bid_queue@) =~= Map::empty());
        assert(queues_view(r.ask_queue@) =~= Map::empty());
        r
    }

    /// Returns `true` if the queue holds a backtest order with the order id.
    pub fn contains_backtest_order(&self, order_id: u64) -> (r: bool)
        ensures
            r == self.backtest_orders@.contains_key(order_id),
    {
        self.backtest_orders.contains_key(&order_id)
    }
    /// Adds a backtest order at the back of the queue at its price. The order is queued in any
    /// case; its order id must not be a backtest order's already.
    pub fn add_backtest_order<MD: MarketDepth>(&mut self, order: Order, _depth: &MD) -> (r: Result<
        (),
        BacktestError,
    >)
        requires
            old(self).wf(),
            order.side == Side::Buy || order.side == Side::Sell,
        ensures
            final(self).queues(order.side) == old(self).queues(order.side).insert(
                order.price_tick,
                queue_at(old(self).queues(order.side), order.price_tick).push(
                    (order, L3OrderSource::Backtest),
                ),
            ),
            final(self).queues(opposite(order.side)) == old(self).queues(opposite(order.side)),
            final(self).mkt_feed_orders@ == old(self).mkt_feed_orders@,
            old(self).backtest_orders@.contains_key(order.order_id) ==> r == Err::<
                (),
                BacktestError,
            >(BacktestError::OrderIdExist) && final(self).backtest_orders@ == old(self).backtest_orders@,
            !old(self).backtest_orders@.contains_key(order.order_id) ==> r is Ok && final(self).backtest_orders@ == old(self).backtest_orders@.insert(
                order.order_id,
                (order.side, order.price_tick),
            ) && final(self).wf(),
    {
        let entry = (order, L3OrderSource::Backtest);
        if order.side == Side::Buy {
            push_entry(&mut self.bid_queue, order.price_tick, entry);
        } else {
            push_entry(&mut self.ask_queue, order.price_tick, entry);
        }
        if self.backtest_orders.contains_key(&order.order_id) {
            return Err(BacktestError::OrderIdExist);
        }
        self.backtest_orders.insert(order.order_id, (order.side, order.price_tick));
        proof {
            self.lemma_push_keeps_wf(*old(self), order.side, order.price_tick, entry);
        }
        Ok(())
    }

    /// Adds an order of the market feed, from an add-order event, at the back of the queue at
    /// its price. The order is queued in any case; its order id must not be a market feed
    /// order's already.
    pub fn add_market_feed_order<MD: MarketDepth>(&mut self, order: &Event, _depth: &MD) -> (r:
        Result<(), BacktestError>)
        requires
            old(self).wf(),
            event_side(order.ev) != Side::Nil,
        ensures
            feed_order_added(*old(self), *final(self), *order, r),
    {
        let side = if order.is(BUY_EVENT) {
            Side::Buy
        } else {
            Side::Sell
        };
        let o = Order {
            qty: order.qty_lot,
            leaves_qty: order.qty_lot,
            exec_qty: 0,
            exec_price_tick: 0,
            price_tick: order.price_tick,
            exch_timestamp: order.exch_ts,
            local_timestamp: 0,
            order_id: order.order_id,
            maker: false,
            order_type: OrdType::Limit,
            req: Status::Nil,
            status: Status::Nil,
            side,
            time_in_force: TimeInForce::GTC,
        };
        let entry = (o, L3OrderSource::MarketFeed);
        if side == Side::Buy {
            push_entry(&mut self.bid_queue, order.price_tick, entry);
        } else {
            push_entry(&mut self.ask_queue, order.price_tick, entry);
        }
        if self.mkt_feed_orders.contains_key(&order.order_id) {
            return Err(BacktestError::OrderIdExist);
        }
        self.mkt_feed_orders.insert(order.order_id, (side, order.price_tick));
        proof {
            self.lemma_push_keeps_wf(*old(self), side, order.price_tick, entry);
        }
        Ok(())
    }

    /// Appending an order that the index did not hold to a queue, and indexing it there, keeps
    /// the model well formed.
    proof fn lemma_push_keeps_wf(&self, old: Self, side: Side, t: i64, e: QueueEntry)
        requires
            old.wf(),
            side == Side::Buy || side == Side::Sell,
            !old.index(e.1).contains_key(e.0.order_id),
            self.queues(side) == old.queues(side).insert(t, queue_at(old.queues(side), t).push(e)),
            self.queues(opposite(side)) == old.queues(opposite(side)),
            self.index(e.1) == old.index(e.1).insert(e.0.order_id, (side, t)),
            e.1 == L3OrderSource::Backtest ==> self.index(L3OrderSource::MarketFeed) == old.index(
                L3OrderSource::MarketFeed,
            ),
            e.1 == L3OrderSource::MarketFeed ==> self.index(L3OrderSource::Backtest) == old.index(
                L3OrderSource::Backtest,
            ),
        ensures
            self.wf(),
    {
        let q0 = queue_at(old.queues(side), t);
        let q1 = q0.push(e);
        assert forall|sd: Side| sd == Side::Buy || sd == Side::Sell implies #[trigger] self.side_wf(
            sd,
        ) by {
            assert forall|u: i64| #[trigger] self.queues(sd).contains_key(u) implies {
                &&& unique(self.queues(sd)[u])
                &&& forall|i: int|
                    0 <= i < self.queues(sd)[u].len() ==> self.indexed_at(
                        sd,
                        u,
                        #[trigger] self.queues(sd)[u][i],
                    )
            } by {
                if sd == side && u == t {
                    assert(self.queues(sd)[u] == q1);
                    assert forall|i: int, j: int| 0 <= i < j < q1.len() implies !is_entry(
                        #[trigger] q1[i],
                        q1[j].0.order_id,
                        #[trigger] q1[j].1,
                    ) by {
                        if j == q1.len() - 1 {
                            assert(old.queues(sd).contains_key(u));
                            assert(old.indexed_at(sd, u, q0[i]));
                        }
                    }
                    assert forall|i: int| 0 <= i < q1.len() implies self.indexed_at(
                        sd,
                        u,
                        #[trigger] q1[i],
                    ) by {
                        if i < q0.len() {
                            assert(old.queues(sd).contains_key(u));
                            assert(old.indexed_at(sd, u, q0[i]));
                        }
                    }
                } else {
                    assert(old.queues(sd).contains_key(u));
                    assert(self.queues(sd)[u] == old.queues(sd)[u]);
                    assert forall|i: int| 0 <= i < self.queues(sd)[u].len() implies self.indexed_at(
                        sd,
                        u,
                        #[trigger] self.queues(sd)[u][i],
                    ) by {
                        assert(old.indexed_at(sd, u, old.queues(sd)[u][i]));
                    }
                }
            }
        }
        assert(self.side_wf(Side::Buy));
        assert(self.side_wf(Side::Sell));
        assert forall|src: L3OrderSource| #[trigger] self.index_wf(src) by {
            assert forall|id: u64| #[trigger] self.index(src).contains_key(id) implies {
                let (s, u) = self.index(src)[id];
                &&& s == Side::Buy || s == Side::Sell
                &&& self.queues(s).contains_key(u)
                &&& holds(self.queues(s)[u], id, src)
            } by {
                if src == e.1 && id == e.0.order_id {
                    assert(q1[q1.len() - 1] == e);
                } else {
                    assert(old.index(src).contains_key(id));
                    let (s, u) = old.index(src)[id];
                    assert(holds(old.queues(s)[u], id, src));
                    if s == side && u == t {
                        let i = choose|i: int| 0 <= i < q0.len() && is_entry(#[trigger] q0[i], id, src);
                        assert(q1[i] == q0[i]);
                    }
                }
            }
        }
        assert(self.index_wf(L3OrderSource::Backtest));
        assert(self.index_wf(L3OrderSource::MarketFeed));
    }
    /// Removing the entry of an order that the index located, and the order from the index,
    /// keeps the model well formed.
    proof fn lemma_remove_keeps_wf(
        &self,
        old: Self,
        side: Side,
        t: i64,
        id: u64,
        src: L3OrderSource,
    )
        requires
            old.wf(),
            old.index(src).contains_key(id),
            old.index(src)[id] == (side, t),
            self.queues(side) == old.queues(side).insert(
                t,
                old.queues(side)[t].remove(first_index(old.queues(side)[t], id, src)),
            ),
            self.queues(opposite(side)) == old.queues(opposite(side)),
            self.index(src) == old.index(src).remove(id),
            src == L3OrderSource::Backtest ==> self.index(L3OrderSource::MarketFeed) == old.index(
                L3OrderSource::MarketFeed,
            ),
            src == L3OrderSource::MarketFeed ==> self.index(L3OrderSource::Backtest) == old.index(
                L3OrderSource::Backtest,
            ),
        ensures
            self.wf(),
    {
        let q0 = old.queues(side)[t];
        lemma_first_index(q0, id, src);
        let i = first_index(q0, id, src);
        let q1 = q0.remove(i);
        assert forall|sd: Side| sd == Side::Buy || sd == Side::Sell implies #[trigger] self.side_wf(
            sd,
        ) by {
            assert forall|u: i64| #[trigger] self.queues(sd).contains_key(u) implies {
                &&& unique(self.queues(sd)[u])
                &&& forall|k: int|
                    0 <= k < self.queues(sd)[u].len() ==> self.indexed_at(
                        sd,
                        u,
                        #[trigger] self.queues(sd)[u][k],
                    )
            } by {
                assert(old.queues(sd).contains_key(u));
                if sd == side && u == t {
                    assert(self.queues(sd)[u] == q1);
                    assert forall|a: int, b: int| 0 <= a < b < q1.len() implies !is_entry(
                        #[trigger] q1[a],
                        q1[b].0.order_id,
                        #[trigger] q1[b].1,
                    ) by {
                        let a0 = if a < i { a } else { a + 1 };
                        let b0 = if b < i { b } else { b + 1 };
                        assert(q1[a] == q0[a0]);
                        assert(q1[b] == q0[b0]);
                    }
                    assert forall|k: int| 0 <= k < q1.len() implies self.indexed_at(
                        sd,
                        u,
                        #[trigger] q1[k],
                    ) by {
                        let k0 = if k < i { k } else { k + 1 };
                        assert(q1[k] == q0[k0]);
                        assert(old.indexed_at(sd, u, q0[k0]));
                        if is_entry(q0[k0], id, src) {
                            if k0 < i {
                                assert(!is_entry(q0[k0], id, src));
                            } else {
                                assert(!is_entry(q0[i], q0[k0].0.order_id, q0[k0].1));
                            }
                        }
                    }
                } else {
                    assert(self.queues(sd)[u] == old.queues(sd)[u]);
                    assert forall|k: int| 0 <= k < self.queues(sd)[u].len() implies self.indexed_at(
                        sd,
                        u,
                        #[trigger] self.queues(sd)[u][k],
                    ) by {
                        assert(old.indexed_at(sd, u, old.queues(sd)[u][k]));
                    }
                }
            }
        }
        assert(self.side_wf(Side::Buy));
        assert(self.side_wf(Side::Sell));
        assert forall|sr: L3OrderSource| #[trigger] self.index_wf(sr) by {
            assert forall|id2: u64| #[trigger] self.index(sr).contains_key(id2) implies {
                let (s, u) = self.index(sr)[id2];
                &&& s == Side::Buy || s == Side::Sell
                &&& self.queues(s).contains_key(u)
                &&& holds(self.queues(s)[u], id2, sr)
            } by {
                assert(old.index(sr).contains_key(id2));
                let (s, u) = old.index(sr)[id2];
                assert(holds(old.queues(s)[u], id2, sr));
                if s == side && u == t {
                    let k = choose|k: int| 0 <= k < q0.len() && is_entry(#[trigger] q0[k], id2, sr);
                    assert(k != i);
                    if k < i {
                        assert(q1[k] == q0[k]);
                    } else {
                        assert(q1[k - 1] == q0[k]);
                    }
                }
            }
        }
        assert(self.index_wf(L3OrderSource::Backtest));
        assert(self.index_wf(L3OrderSource::MarketFeed));
    }

    /// Cancels a backtest order: it leaves its queue and is returned. An order id that is not a
    /// backtest order's is an error.
    pub fn cancel_backtest_order<MD: MarketDepth>(&mut self, order_id: u64, _depth: &MD) -> (r:
        Result<Order, BacktestError>)
        requires
            old(self).wf(),
        ensures
            final(self).wf(),
            final(self).mkt_feed_orders@ == old(self).mkt_feed_orders@,
            !old(self).backtest_orders@.contains_key(order_id) ==> r == Err::<Order, BacktestError>(
                BacktestError::OrderNotFound,
            ) && final(self).backtest_orders@ == old(self).backtest_orders@ && final(self).queues(
                Side::Buy,
            ) == old(self).queues(Side::Buy) && final(self).queues(Side::Sell) == old(self).queues(
                Side::Sell,
            ),
            old(self).backtest_orders@.contains_key(order_id) ==> {
                let (side, t) = old(self).backtest_orders@[order_id];
                let q = old(self).queues(side)[t];
                let i = first_index(q, order_id, L3OrderSource::Backtest);
                &&& r == Ok::<Order, BacktestError>(q[i].0)
                &&& final(self).backtest_orders@ == old(self).backtest_orders@.remove(order_id)
                &&& final(self).queues(side) == old(self).queues(side).insert(t, q.remove(i))
                &&& final(self).queues(opposite(side)) == old(self).queues(opposite(side))
            },
    {
        let (side, t) = match self.backtest_orders.remove(&order_id) {
            Some(loc) => loc,
            None => {
                assert(self.backtest_orders@ =~= old(self).backtest_orders@);
                assert(self.index(L3OrderSource::Backtest) == old(self).index(L3OrderSource::Backtest));
                assert(self.index(L3OrderSource::MarketFeed) == old(self).index(L3OrderSource::MarketFeed));
                assert(self.queues(Side::Buy) == old(self).queues(Side::Buy));
                assert(self.queues(Side::Sell) == old(self).queues(Side::Sell));
                assert(self.side_wf(Side::Buy) && self.side_wf(Side::Sell));
                assert(self.index_wf(L3OrderSource::Backtest) && self.index_wf(L3OrderSource::MarketFeed));
                return Err(BacktestError::OrderNotFound);
            },
        };
        let ghost q = old(self).queues(side)[t];
        proof {
            assert(old(self).index(L3OrderSource::Backtest).contains_key(order_id));
            lemma_first_index(q, order_id, L3OrderSource::Backtest);
        }
        let removed = if side == Side::Buy {
            remove_entry(&mut self.bid_queue, t, order_id, L3OrderSource::Backtest)
        } else {
            remove_entry(&mut self.ask_queue, t, order_id, L3OrderSource::Backtest)
        };
        proof {
            self.lemma_remove_keeps_wf(*old(self), side, t, order_id, L3OrderSource::Backtest);
        }
        match removed {
            Some((order, _)) => Ok(order),
            None => {
                assert(false);
                Err(BacktestError::OrderNotFound)
            },
        }
    }

    /// Cancels an order of the market feed: it leaves its queue. An order id that is not a
    /// market feed order's is an error.
    pub fn cancel_market_feed_order<MD: MarketDepth>(&mut self, order_id: u64, _depth: &MD) -> (r:
        Result<(), BacktestError>)
        requires
            old(self).wf(),
        ensures
            feed_order_canceled(*old(self), *final(self), order_id, r),
    {
        let (side, t) = match self.mkt_feed_orders.remove(&order_id) {
            Some(loc) => loc,
            None => {
                assert(self.mkt_feed_orders@ =~= old(self).mkt_feed_orders@);
                assert(self.index(L3OrderSource::Backtest) == old(self).index(L3OrderSource::Backtest));
                assert(self.index(L3OrderSource::MarketFeed) == old(self).index(L3OrderSource::MarketFeed));
                assert(self.queues(Side::Buy) == old(self).queues(Side::Buy));
                assert(self.queues(Side::Sell) == old(self).queues(Side::Sell));
                assert(self.side_wf(Side::Buy) && self.side_wf(Side::Sell));
                assert(self.index_wf(L3OrderSource::Backtest) && self.index_wf(L3OrderSource::MarketFeed));
                return Err(BacktestError::OrderNotFound);
            },
        };
        let ghost q = old(self).queues(side)[t];
        proof {
            assert(old(self).index(L3OrderSource::MarketFeed).contains_key(order_id));
            lemma_first_index(q, order_id, L3OrderSource::MarketFeed);
        }
        let removed = if side == Side::Buy {
            remove_entry(&mut self.bid_queue, t, order_id, L3OrderSource::MarketFeed)
        } else {
            remove_entry(&mut self.ask_queue, t, order_id, L3OrderSource::MarketFeed)
        };
        proof {
            self.lemma_remove_keeps_wf(*old(self), side, t, order_id, L3OrderSource::MarketFeed);
        }
        match removed {
            Some(_) => Ok(()),
            None => {
                assert(false);
                Err(BacktestError::OrderNotFound)
            },
        }
    }
    /// Replacing an entry with one of the same order from the same source keeps the model well
    /// formed.
    proof fn lemma_replace_keeps_wf(&self, old: Self, side: Side, t: i64, i: int, e: QueueEntry)
        requires
            old.wf(),
            side == Side::Buy || side == Side::Sell,
            old.queues(side).contains_key(t),
            0 <= i < old.queues(side)[t].len(),
            is_entry(old.queues(side)[t][i], e.0.order_id, e.1),
            self.queues(side) == old.queues(side).insert(t, old.queues(side)[t].update(i, e)),
            self.queues(opposite(side)) == old.queues(opposite(side)),
            self.index(L3OrderSource::Backtest) == old.index(L3OrderSource::Backtest),
            self.index(L3OrderSource::MarketFeed) == old.index(L3OrderSource::MarketFeed),
        ensures
            self.wf(),
    {
        let q0 = old.queues(side)[t];
        let q1 = q0.update(i, e);
        assert forall|sd: Side| sd == Side::Buy || sd == Side::Sell implies #[trigger] self.side_wf(
            sd,
        ) by {
            assert forall|u: i64| #[trigger] self.queues(sd).contains_key(u) implies {
                &&& unique(self.queues(sd)[u])
                &&& forall|k: int|
                    0 <= k < self.queues(sd)[u].len() ==> self.indexed_at(
                        sd,
                        u,
                        #[trigger] self.queues(sd)[u][k],
                    )
            } by {
                assert(old.queues(sd).contains_key(u));
                if sd == side && u == t {
                    assert(self.queues(sd)[u] == q1);
                    assert forall|a: int, b: int| 0 <= a < b < q1.len() implies !is_entry(
                        #[trigger] q1[a],
                        q1[b].0.order_id,
                        #[trigger] q1[b].1,
                    ) by {
                        assert(!is_entry(q0[a], q0[b].0.order_id, q0[b].1));
                    }
                    assert forall|k: int| 0 <= k < q1.len() implies self.indexed_at(
                        sd,
                        u,
                        #[trigger] q1[k],
                    ) by {
                        assert(old.indexed_at(sd, u, q0[k]));
                    }
                } else {
                    assert(self.queues(sd)[u] == old.queues(sd)[u]);
                    assert forall|k: int| 0 <= k < self.queues(sd)[u].len() implies self.indexed_at(
                        sd,
                        u,
                        #[trigger] self.queues(sd)[u][k],
                    ) by {
                        assert(old.indexed_at(sd, u, old.queues(sd)[u][k]));
                    }
                }
            }
        }
        assert(self.side_wf(Side::Buy));
        assert(self.side_wf(Side::Sell));
        assert forall|sr: L3OrderSource| #[trigger] self.index_wf(sr) by {
            assert forall|id2: u64| #[trigger] self.index(sr).contains_key(id2) implies {
                let (s, u) = self.index(sr)[id2];
                &&& s == Side::Buy || s == Side::Sell
                &&& self.queues(s).contains_key(u)
                &&& holds(self.queues(s)[u], id2, sr)
            } by {
                let (s, u) = old.index(sr)[id2];
                assert(holds(old.queues(s)[u], id2, sr));
                if s == side && u == t {
                    let k = choose|k: int| 0 <= k < q0.len() && is_entry(#[trigger] q0[k], id2, sr);
                    assert(is_entry(q1[k], id2, sr));
                }
            }
        }
        assert(self.index_wf(L3OrderSource::Backtest));
        assert(self.index_wf(L3OrderSource::MarketFeed));
    }

    /// Modifies a backtest order with the requested order. A new price or a quantity above the
    /// leaves quantity sends the order to the back of the queue at its (new) price, with the
    /// requested order's fields and its whole quantity left; otherwise the order keeps its place
    /// and its quantity and leaves quantity become the requested quantity. An order id that is not
    /// a backtest order's is an error.
    pub fn modify_backtest_order<MD: MarketDepth>(
        &mut self,
        order_id: u64,
        order: &mut Order,
        _depth: &MD,
    ) -> (r: Result<(), BacktestError>)
        requires
            old(self).wf(),
            old(order).order_id == order_id,
        ensures
            *final(order) == *old(order),
            final(self).mkt_feed_orders@ == old(self).mkt_feed_orders@,
            !old(self).backtest_orders@.contains_key(order_id) ==> {
                &&& r == Err::<(), BacktestError>(BacktestError::OrderNotFound)
                &&& final(self).backtest_orders@ == old(self).backtest_orders@
                &&& final(self).queues(Side::Buy) == old(self).queues(Side::Buy)
                &&& final(self).queues(Side::Sell) == old(self).queues(Side::Sell)
            },
            old(self).backtest_orders@.contains_key(order_id) ==> {
                let (side, t) = old(self).backtest_orders@[order_id];
                let q = old(self).queues(side)[t];
                let i = first_index(q, order_id, L3OrderSource::Backtest);
                let prev = q[i].0;
                &&& r is Ok
                &&& final(self).wf()
                &&& final(self).queues(opposite(side)) == old(self).queues(opposite(side))
                &&& if prev.price_tick != old(order).price_tick || prev.leaves_qty < old(order).qty {
                    let p = old(order).price_tick;
                    let removed = old(self).queues(side).insert(t, q.remove(i));
                    &&& final(self).queues(side) == removed.insert(
                        p,
                        queue_at(removed, p).push(
                            (modified_backtest(prev, *old(order)), L3OrderSource::Backtest),
                        ),
                    )
                    &&& final(self).backtest_orders@ == old(self).backtest_orders@.insert(
                        order_id,
                        (side, p),
                    )
                } else {
                    &&& final(self).queues(side) == old(self).queues(side).insert(
                        t,
                        q.update(
                            i,
                            (
                                resized(prev, old(order).qty, old(order).exch_timestamp),
                                L3OrderSource::Backtest,
                            ),
                        ),
                    )
                    &&& final(self).backtest_orders@ == old(self).backtest_orders@
                }
            },
            old(self).backtest_orders@.contains_key(order_id) ==> {
                let (side, t) = old(self).backtest_orders@[order_id];
                let q = old(self).queues(side)[t];
                let i = first_index(q, order_id, L3OrderSource::Backtest);
                let prev = q[i].0;
                let q2 = final(self).queues(side)[t];
                prev.price_tick == old(order).price_tick && old(order).qty <= prev.leaves_qty ==> {
                    &&& q2.len() == q.len()
                    &&& forall|j: int| 0 <= j < q.len() && j != i ==> #[trigger] q2[j] == q[j]
                    &&& q2[i].0.order_id == order_id
                    &&& q2[i].0.price_tick == prev.price_tick
                    &&& q2[i].0.qty == old(order).qty
                    &&& q2[i].0.leaves_qty == old(order).qty
                }
            },
    {
        let (side, t) = match self.backtest_orders.get(&order_id) {
            Some(loc) => *loc,
            None => {
                return Err(BacktestError::OrderNotFound);
            },
        };
        proof {
            assert(old(self).index(L3OrderSource::Backtest).contains_key(order_id));
            lemma_first_index(old(self).queues(side)[t], order_id, L3OrderSource::Backtest);
        }
        let found = if side == Side::Buy {
            find_entry(&self.bid_queue, t, order_id, L3OrderSource::Backtest)
        } else {
            find_entry(&self.ask_queue, t, order_id, L3OrderSource::Backtest)
        };
        let (i, (prev, _)) = match found {
            Some(f) => f,
            None => {
                assert(false);
                return Err(BacktestError::OrderNotFound);
            },
        };
        if prev.price_tick != order.price_tick || prev.leaves_qty < order.qty {
            self.backtest_orders.remove(&order_id);
            if side == Side::Buy {
                remove_entry(&mut self.bid_queue, t, order_id, L3OrderSource::Backtest);
            } else {
                remove_entry(&mut self.ask_queue, t, order_id, L3OrderSource::Backtest);
            }
            proof {
                self.lemma_remove_keeps_wf(*old(self), side, t, order_id, L3OrderSource::Backtest);
            }
            let ghost mid = *self;
            let mut moved = prev;
            moved.update(order);
            moved.leaves_qty = moved.qty;
            let entry = (moved, L3OrderSource::Backtest);
            if side == Side::Buy {
                push_entry(&mut self.bid_queue, order.price_tick, entry);
            } else {
                push_entry(&mut self.ask_queue, order.price_tick, entry);
            }
            self.backtest_orders.insert(order_id, (side, order.price_tick));
            proof {
                assert(moved == modified_backtest(prev, *old(order)));
                self.lemma_push_keeps_wf(mid, side, order.price_tick, entry);
                assert(self.backtest_orders@ =~= old(self).backtest_orders@.insert(
                    order_id,
                    (side, order.price_tick),
                ));
            }
        } else {
            let resized_order = Order {
                qty: order.qty,
                leaves_qty: order.qty,
                exch_timestamp: order.exch_timestamp,
                ..prev
            };
            let entry = (resized_order, L3OrderSource::Backtest);
            if side == Side::Buy {
                replace_entry(&mut self.bid_queue, t, i, entry);
            } else {
                replace_entry(&mut self.ask_queue, t, i, entry);
            }
            proof {
                self.lemma_replace_keeps_wf(*old(self), side, t, i as int, entry);
            }
        }
        Ok(())
    }

    /// Modifies an order of the market feed from a modification event: a new price or a
    /// quantity above the leaves quantity sends the order to the back of the queue at its (new)
    /// price; otherwise the order keeps its place. Either way the order takes the event's price,
    /// quantity and exchange timestamp, with its whole quantity left. An order id that is not a
    /// market feed order's is an error.
    pub fn modify_market_feed_order<MD: MarketDepth>(
        &mut self,
        order_id: u64,
        order: &Event,
        _depth: &MD,
    ) -> (r: Result<(), BacktestError>)
        requires
            old(self).wf(),
        ensures
            feed_order_modified(*old(self), *final(self), order_id, *order, r),
    {
        let (side, t) = match self.mkt_feed_orders.get(&order_id) {
            Some(loc) => *loc,
            None => {
                return Err(BacktestError::OrderNotFound);
            },
        };
        proof {
            assert(old(self).index(L3OrderSource::MarketFeed).contains_key(order_id));
            lemma_first_index(old(self).queues(side)[t], order_id, L3OrderSource::MarketFeed);
        }
        let found = if side == Side::Buy {
            find_entry(&self.bid_queue, t, order_id, L3OrderSource::MarketFeed)
        } else {
            find_entry(&self.ask_queue, t, order_id, L3OrderSource::MarketFeed)
        };
        let (i, (prev, _)) = match found {
            Some(f) => f,
            None => {
                assert(false);
                return Err(BacktestError::OrderNotFound);
            },
        };
        let new_price_tick = order.price_tick;
        let modified = Order {
            price_tick: new_price_tick,
            qty: order.qty_lot,
            leaves_qty: order.qty_lot,
            exch_timestamp: order.exch_ts,
            ..prev
        };
        let entry = (modified, L3OrderSource::MarketFeed);
        if prev.price_tick != new_price_tick || prev.leaves_qty < order.qty_lot {
            self.mkt_feed_orders.remove(&order_id);
            if side == Side::Buy {
                remove_entry(&mut self.bid_queue, t, order_id, L3OrderSource::MarketFeed);
            } else {
                remove_entry(&mut self.ask_queue, t, order_id, L3OrderSource::MarketFeed);
            }
            proof {
                self.lemma_remove_keeps_wf(*old(self), side, t, order_id, L3OrderSource::MarketFeed);
            }
            let ghost mid = *self;
            if side == Side::Buy {
                push_entry(&mut self.bid_queue, new_price_tick, entry);
            } else {
                push_entry(&mut self.ask_queue, new_price_tick, entry);
            }
            self.mkt_feed_orders.insert(order_id, (side, new_price_tick));
            proof {
                self.lemma_push_keeps_wf(mid, side, new_price_tick, entry);
                assert(self.mkt_feed_orders@ =~= old(self).mkt_feed_orders@.insert(
                    order_id,
                    (side, new_price_tick),
                ));
            }
        } else {
            if side == Side::Buy {
                replace_entry(&mut self.bid_queue, t, i, entry);
            } else {
                replace_entry(&mut self.ask_queue, t, i, entry);
            }
            proof {
                self.lemma_replace_keeps_wf(*old(self), side, t, i as int, entry);
            }
        }
        Ok(())
    }
    /// Takes every backtest order out of the queue at `t` on the side, in queue order, into
    /// `filled`; they leave the index too.
    fn flush_backtest(&mut self, side: Side, t: i64, filled: &mut Vec<Order>)
        requires
            old(self).wf(),
            side == Side::Buy || side == Side::Sell,
        ensures
            final(self).wf(),
            final(self).queues(side) == (if old(self).queues(side).contains_key(t) {
                old(self).queues(side).insert(t, purge(old(self).queues(side)[t]))
            } else {
                old(self).queues(side)
            }),
            final(self).queues(opposite(side)) == old(self).queues(opposite(side)),
            final(self).mkt_feed_orders@ == old(self).mkt_feed_orders@,
            final(self).backtest_orders@ == old(self).backtest_orders@.remove_keys(
                Set::new(|id: u64| ids_of(backtest_orders_in(queue_at(old(self).queues(side), t))).contains(id)),
            ),
            final(filled)@ == old(filled)@ + backtest_orders_in(queue_at(old(self).queues(side), t)),
    {
        let ghost q0 = queue_at(old(self).queues(side), t);
        let ghost f0 = filled@;
        let ghost done: Seq<Order> = Seq::empty();
        loop
            invariant
                self.wf(),
                side == Side::Buy || side == Side::Sell,
                old(self).queues(side).contains_key(t) ==> self.queues(side).contains_key(t),
                self.queues(side) == (if old(self).queues(side).contains_key(t) {
                    old(self).queues(side).insert(t, queue_at(self.queues(side), t))
                } else {
                    old(self).queues(side)
                }),
                purge(queue_at(self.queues(side), t)) == purge(q0),
                backtest_orders_in(q0) == done + backtest_orders_in(queue_at(self.queues(side), t)),
                self.queues(opposite(side)) == old(self).queues(opposite(side)),
                self.mkt_feed_orders@ == old(self).mkt_feed_orders@,
                self.backtest_orders@ == old(self).backtest_orders@.remove_keys(
                    Set::new(|id: u64| ids_of(done).contains(id)),
                ),
                filled@ == f0 + done,
                f0 == old(filled)@,
                q0 == queue_at(old(self).queues(side), t),
            decreases queue_at(self.queues(side), t).len(),
        {
            let found = if side == Side::Buy {
                find_backtest(&self.bid_queue, t)
            } else {
                find_backtest(&self.ask_queue, t)
            };
            let ghost q = queue_at(self.queues(side), t);
            proof {
                lemma_first_backtest(q);
            }
            let (i, id) = match found {
                Some(f) => f,
                None => {
                    proof {
                        assert(done =~= backtest_orders_in(q0)) by {
                            if self.queues(side).contains_key(t) {
                                assert(done + Seq::<Order>::empty() =~= done);
                            } else {
                                assert(q =~= Seq::<QueueEntry>::empty());
                            }
                        }
                        if old(self).queues(side).contains_key(t) {
                            assert(self.queues(side) =~= old(self).queues(side).insert(t, purge(q0)));
                        }
                    }
                    return;
                },
            };
            let ghost mid_before = *self;
            proof {
                assert(self.queues(side).contains_key(t));
                assert(self.indexed_at(side, t, q[i as int]));
            }
            self.backtest_orders.remove(&id);
            let removed = if side == Side::Buy {
                remove_entry(&mut self.bid_queue, t, id, L3OrderSource::Backtest)
            } else {
                remove_entry(&mut self.ask_queue, t, id, L3OrderSource::Backtest)
            };
            proof {
                self.lemma_remove_keeps_wf(mid_before, side, t, id, L3OrderSource::Backtest);
            }
            match removed {
                Some((o, _)) => {
                    filled.push(o);
                    proof {
                        let ghost d2 = done.push(o);
                        assert(d2 + backtest_orders_in(q.remove(i as int)) =~= done + (seq![o]
                            + backtest_orders_in(q.remove(i as int))));
                        let ids1 = ids_of(done);
                        let ids2 = ids_of(d2);
                        assert(ids2 =~= ids1.push(id));
                        assert forall|k: u64| ids2.contains(k) <==> ids1.contains(k) || k == id by {
                            if ids2.contains(k) && k != id {
                                let j = choose|j: int| 0 <= j < ids2.len() && ids2[j] == k;
                                assert(ids1[j] == k);
                            }
                            if ids1.contains(k) {
                                let j = choose|j: int| 0 <= j < ids1.len() && ids1[j] == k;
                                assert(ids2[j] == k);
                            }
                            if k == id {
                                assert(ids2[ids1.len() as int] == k);
                            }
                        }
                        assert(self.backtest_orders@ =~= old(self).backtest_orders@.remove_keys(
                            Set::new(|k: u64| ids_of(d2).contains(k)),
                        ));
                        done = d2;
                        assert(filled@ =~= f0 + done);
                    }
                },
                None => {
                    assert(false);
                },
            }
        }
    }
    /// The backtest orders in the queue at `t` on the side are those the index locates there.
    proof fn lemma_backtest_ids_at(&self, side: Side, t: i64)
        requires
            self.wf(),
            side == Side::Buy || side == Side::Sell,
        ensures
            Set::new(|id: u64| ids_of(backtest_orders_in(queue_at(self.queues(side), t))).contains(id))
                == located_at(self.backtest_orders@, side, set![t]),
    {
        let q = queue_at(self.queues(side), t);
        lemma_backtest_orders_in_ids(q);
        assert forall|id: u64| #[trigger] ids_of(backtest_orders_in(q)).contains(id)
            <==> located_at(self.backtest_orders@, side, set![t]).contains(id) by {
            if ids_of(backtest_orders_in(q)).contains(id) {
                let k = choose|k: int| 0 <= k < q.len() && is_entry(#[trigger] q[k], id, L3OrderSource::Backtest);
                assert(self.queues(side).contains_key(t));
                assert(self.indexed_at(side, t, q[k]));
            }
            if located_at(self.backtest_orders@, side, set![t]).contains(id) {
                assert(self.index(L3OrderSource::Backtest).contains_key(id));
                assert(holds(self.queues(side)[t], id, L3OrderSource::Backtest));
                let k = choose|k: int| 0 <= k < q.len() && is_entry(#[trigger] q[k], id, L3OrderSource::Backtest);
                assert(q[k].1 == L3OrderSource::Backtest);
            }
        }
        assert(Set::new(|id: u64| ids_of(backtest_orders_in(q)).contains(id))
            =~= located_at(self.backtest_orders@, side, set![t]));
    }

    /// Takes every backtest order out of the queues at the ticks on the side, tick after tick,
    /// into `filled`; they leave the index too.
    fn flush_ticks(&mut self, side: Side, ticks: &Vec<i64>, filled: &mut Vec<Order>)
        requires
            old(self).wf(),
            side == Side::Buy || side == Side::Sell,
            ticks@.no_duplicates(),
        ensures
            final(self).wf(),
            final(self).queues(side) == purged_at(old(self).queues(side), ticks@.to_set()),
            final(self).queues(opposite(side)) == old(self).queues(opposite(side)),
            final(self).mkt_feed_orders@ == old(self).mkt_feed_orders@,
            final(self).backtest_orders@ == old(self).backtest_orders@.remove_keys(
                located_at(old(self).backtest_orders@, side, ticks@.to_set()),
            ),
            final(filled)@ == old(filled)@ + backtest_orders_at(old(self).queues(side), ticks@),
    {
        let ghost qs0 = old(self).queues(side);
        let ghost bt0 = old(self).backtest_orders@;
        let mut k: usize = 0;
        proof {
            assert(ticks@.take(0).to_set() =~= Set::<i64>::empty());
            assert(qs0 =~= purged_at(qs0, Set::<i64>::empty()));
            assert(located_at(bt0, side, Set::<i64>::empty()) =~= Set::<u64>::empty());
            assert(bt0 =~= bt0.remove_keys(Set::<u64>::empty()));
            assert(filled@ =~= old(filled)@ + backtest_orders_at(qs0, ticks@.take(0)));
        }
        while k < ticks.len()
            invariant
                self.wf(),
                side == Side::Buy || side == Side::Sell,
                ticks@.no_duplicates(),
                k <= ticks@.len(),
                qs0 == old(self).queues(side),
                bt0 == old(self).backtest_orders@,
                self.queues(side) == purged_at(qs0, ticks@.take(k as int).to_set()),
                self.queues(opposite(side)) == old(self).queues(opposite(side)),
                self.mkt_feed_orders@ == old(self).mkt_feed_orders@,
                self.backtest_orders@ == bt0.remove_keys(located_at(bt0, side, ticks@.take(k as int).to_set())),
                filled@ == old(filled)@ + backtest_orders_at(qs0, ticks@.take(k as int)),
            decreases ticks@.len() - k,
        {
            let t = ticks[k];
            let ghost before = *self;
            let ghost done = ticks@.take(k as int).to_set();
            proof {
                assert(!done.contains(t)) by {
                    if done.contains(t) {
                        let j = choose|j: int| 0 <= j < k && ticks@.take(k as int)[j] == t;
                        assert(ticks@[j] == ticks@[k as int]);
                    }
                }
                assert(queue_at(self.queues(side), t) == queue_at(qs0, t));
                self.lemma_backtest_ids_at(side, t);
            }
            self.flush_backtest(side, t, filled);
            proof {
                let t1 = ticks@.take(k + 1);
                assert(t1.to_set() =~= done.insert(t)) by {
                    assert forall|x: i64| #[trigger] t1.to_set().contains(x) == done.insert(t).contains(x) by {
                        if t1.contains(x) && x != t {
                            let j = choose|j: int| 0 <= j < t1.len() && t1[j] == x;
                            assert(ticks@.take(k as int)[j] == x);
                        }
                        if done.contains(x) {
                            let j = choose|j: int| 0 <= j < k && ticks@.take(k as int)[j] == x;
                            assert(t1[j] == x);
                        }
                        if x == t {
                            assert(t1[k as int] == x);
                        }
                    }
                }
                assert(self.queues(side) =~= purged_at(qs0, t1.to_set()));
                assert(located_at(before.backtest_orders@, side, set![t]) =~= located_at(bt0, side, set![t]));
                assert(self.backtest_orders@ =~= bt0.remove_keys(located_at(bt0, side, t1.to_set())));
                assert(t1.drop_last() =~= ticks@.take(k as int));
                assert(filled@ =~= old(filled)@ + backtest_orders_at(qs0, t1));
            }
            k = k + 1;
        }
        assert(ticks@.take(ticks@.len() as int) =~= ticks@);
    }
    /// `self` is `old` with every backtest order on the side within the bounds taken out of its
    /// queue and out of the index, the orders taken out being `r`, tick after tick in some order
    /// of the ticks.
    pub open spec fn flushed(&self, old: Self, side: Side, lo: Option<i64>, hi: Option<i64>, r: Seq<Order>) -> bool {
        &&& self.wf()
        &&& self.queues(side) == purged_at(old.queues(side), bounded_ticks(lo, hi))
        &&& self.queues(opposite(side)) == old.queues(opposite(side))
        &&& self.mkt_feed_orders@ == old.mkt_feed_orders@
        &&& self.backtest_orders@ == old.backtest_orders@.remove_keys(
            located_at(old.backtest_orders@, side, bounded_ticks(lo, hi)),
        )
        &&& exists|ticks: Seq<i64>| #![trigger backtest_orders_at(old.queues(side), ticks)] {
            &&& ticks.no_duplicates()
            &&& forall|t: i64| ticks.contains(t) ==> in_bounds(t, lo, hi)
            &&& forall|t: i64| in_bounds(t, lo, hi) && #[trigger] backtest_orders_in(queue_at(old.queues(side), t)).len() > 0 ==> ticks.contains(t)
            &&& r == backtest_orders_at(old.queues(side), ticks)
        }
    }


    /// The distinct ticks at which the index locates backtest orders on the side within the
    /// bounds.
    fn indexed_ticks(&self, side: Side, lo: Option<i64>, hi: Option<i64>) -> (r: Vec<i64>)
        ensures
            r@.no_duplicates(),
            forall|t: i64| #[trigger] r@.contains(t) <==> exists|id: u64| #[trigger]
                self.backtest_orders@.contains_key(id) && self.backtest_orders@[id].0 == side
                    && self.backtest_orders@[id].1 == t && in_bounds(t, lo, hi),
    {
        let mut r: Vec<i64> = Vec::new();
        let keys = self.backtest_orders.keys();
        let ghost all = IteratorSpec::remaining(&keys);
        assert(all.unref().to_set() == self.backtest_orders@.dom());
        for id in it: keys
            invariant
                it.seq() == all,
                all.unref().to_set() == self.backtest_orders@.dom(),
                r@.no_duplicates(),
                forall|t: i64| #[trigger] r@.contains(t) <==> exists|j: int| 0 <= j < it.index()
                    && self.backtest_orders@[*all[j]].0 == side && #[trigger] self.backtest_orders@[*all[j]].1 == t
                    && in_bounds(t, lo, hi),
        {
            let ghost i = it.index();
            assert(all.unref()[i] == *id);
            assert(all.unref().to_set().contains(*id));
            let (s, t) = *self.backtest_orders.get(id).unwrap();
            let ghost prev = r@;
            if s == side && within(t, lo, hi) && !vec_contains(&r, t) {
                r.push(t);
                assert forall|x: i64| #[trigger] r@.contains(x) <==> prev.contains(x) || x == t by {
                    if r@.contains(x) && x != t {
                        let j = choose|j: int| 0 <= j < r@.len() && r@[j] == x;
                        assert(prev[j] == x);
                    }
                    if prev.contains(x) {
                        let j = choose|j: int| 0 <= j < prev.len() && prev[j] == x;
                        assert(r@[j] == x);
                    }
                    if x == t {
                        assert(r@[prev.len() as int] == x);
                    }
                }
            }
            assert forall|x: i64| #[trigger] r@.contains(x) <==> exists|j: int| 0 <= j < i + 1
                && self.backtest_orders@[*all[j]].0 == side && #[trigger] self.backtest_orders@[*all[j]].1 == x
                && in_bounds(x, lo, hi) by {
                if r@.contains(x) && !prev.contains(x) {
                    assert(self.backtest_orders@[*all[i]].1 == x);
                }
                if exists|j: int| 0 <= j < i + 1 && self.backtest_orders@[*all[j]].0 == side
                    && #[trigger] self.backtest_orders@[*all[j]].1 == x && in_bounds(x, lo, hi) {
                    let j = choose|j: int| 0 <= j < i + 1 && self.backtest_orders@[*all[j]].0 == side
                        && #[trigger] self.backtest_orders@[*all[j]].1 == x && in_bounds(x, lo, hi);
                    if j == i && !prev.contains(x) {
                        assert(r@.contains(x));
                    }
                }
            }
        }
        assert forall|t: i64| #[trigger] r@.contains(t) <==> exists|id: u64| #[trigger]
            self.backtest_orders@.contains_key(id) && self.backtest_orders@[id].0 == side
                && self.backtest_orders@[id].1 == t && in_bounds(t, lo, hi) by {
            if r@.contains(t) {
                let j = choose|j: int| 0 <= j < all.len() && self.backtest_orders@[*all[j]].0 == side
                    && #[trigger] self.backtest_orders@[*all[j]].1 == t && in_bounds(t, lo, hi);
                assert(all.unref()[j] == *all[j]);
                assert(all.unref().to_set().contains(*all[j]));
                assert(self.backtest_orders@.contains_key(*all[j]));
            }
            if exists|id: u64| #[trigger] self.backtest_orders@.contains_key(id)
                && self.backtest_orders@[id].0 == side && self.backtest_orders@[id].1 == t
                && in_bounds(t, lo, hi) {
                let id = choose|id: u64| #[trigger] self.backtest_orders@.contains_key(id)
                    && self.backtest_orders@[id].0 == side && self.backtest_orders@[id].1 == t
                    && in_bounds(t, lo, hi);
                assert(all.unref().to_set().contains(id));
                let j = choose|j: int| 0 <= j < all.unref().len() && all.unref()[j] == id;
                assert(*all[j] == id);
                assert(self.backtest_orders@[*all[j]].1 == t);
            }
        }
        r
    }

    /// Takes every backtest order on the side within the bounds out of its queue; which ticks
    /// are visited comes from the index when `by_index` is set, from the range otherwise.
    fn fill_within(&mut self, side: Side, lo: Option<i64>, hi: Option<i64>, by_index: bool) -> (r: Vec<Order>)
        requires
            old(self).wf(),
            side == Side::Buy || side == Side::Sell,
            !by_index ==> lo is Some && hi is Some && lo->0 <= hi->0,
        ensures
            final(self).flushed(*old(self), side, lo, hi, r@),
    {
        let ghost qs0 = old(self).queues(side);
        let ghost bt0 = old(self).backtest_orders@;
        let ticks = if by_index {
            self.indexed_ticks(side, lo, hi)
        } else {
            ticks_between(lo.unwrap(), hi.unwrap())
        };
        let ghost ts = ticks@.to_set();
        proof {
            // The ticks visited cover every tick within the bounds that holds a backtest order.
            assert forall|t: i64| in_bounds(t, lo, hi) && #[trigger] backtest_orders_in(queue_at(qs0, t)).len() > 0 implies ticks@.contains(t) by {
                let q = queue_at(qs0, t);
                lemma_first_backtest(q);
                if first_backtest(q) == q.len() {
                } else {
                    let e = q[first_backtest(q)];
                    assert(old(self).queues(side).contains_key(t));
                    assert(old(self).indexed_at(side, t, e));
                    if by_index {
                        assert(bt0.contains_key(e.0.order_id) && bt0[e.0.order_id].0 == side && bt0[e.0.order_id].1 == t && in_bounds(t, lo, hi));
                    } else {
                        assert(ts.contains(t));
                    }
                }
            }
            assert forall|t: i64| ticks@.contains(t) implies in_bounds(t, lo, hi) by {
                if !by_index {
                    assert(ts.contains(t));
                }
            }
        }
        let mut filled: Vec<Order> = Vec::new();
        self.flush_ticks(side, &ticks, &mut filled);
        proof {
            assert forall|t: i64| #[trigger] bounded_ticks(lo, hi).contains(t) && !ts.contains(t) && qs0.contains_key(t) implies purge(qs0[t]) == qs0[t] by {
                let q = qs0[t];
                lemma_first_backtest(q);
                if first_backtest(q) < q.len() {
                    assert(backtest_orders_in(q) == seq![q[first_backtest(q)].0] + backtest_orders_in(q.remove(first_backtest(q))));
                    assert(queue_at(qs0, t) == q);
                    assert(ticks@.contains(t));
                }
            }
            assert(self.queues(side) =~= purged_at(qs0, bounded_ticks(lo, hi)));
            assert(located_at(bt0, side, ts) =~= located_at(bt0, side, bounded_ticks(lo, hi))) by {
                assert forall|id: u64| #[trigger] located_at(bt0, side, bounded_ticks(lo, hi)).contains(id) implies ts.contains(bt0[id].1) by {
                    let t = bt0[id].1;
                    if !by_index {
                    } else {
                        assert(bt0.contains_key(id) && bt0[id].0 == side && bt0[id].1 == t && in_bounds(t, lo, hi));
                        assert(ticks@.contains(t));
                    }
                }
            }
            assert(filled@ =~= backtest_orders_at(qs0, ticks@));
        }
        filled
    }

    /// Fills the backtest bid orders at or above `to_tick` (and, unless `invalid_from` is set
    /// or the index is the shorter to scan, at or below `from_tick`), as the best ask falls.
    fn fill_bid_between(&mut self, from_tick: i64, to_tick: i64, invalid_from: bool) -> (r: Vec<Order>)
        requires
            old(self).wf(),
            to_tick <= from_tick,
            !invalid_from ==> from_tick - to_tick <= i64::MAX,
        ensures
            final(self).flushed(
                *old(self),
                Side::Buy,
                Some(to_tick),
                if invalid_from || (#[verifier::truncate] (old(self).backtest_orders@.len() as i64))
                    < from_tick - to_tick {
                    None
                } else {
                    Some(from_tick)
                },
                r@,
            ),
    {
        let by_index = invalid_from || (#[verifier::truncate] (self.backtest_orders.len() as i64)) < from_tick - to_tick;
        if by_index {
            self.fill_within(Side::Buy, Some(to_tick), None, true)
        } else {
            self.fill_within(Side::Buy, Some(to_tick), Some(from_tick), false)
        }
    }

    /// Fills the backtest ask orders at or below `to_tick` (and, unless `invalid_from` is set
    /// or the index is the shorter to scan, at or above `from_tick`), as the best bid rises.
    fn fill_ask_between(&mut self, from_tick: i64, to_tick: i64, invalid_from: bool) -> (r: Vec<Order>)
        requires
            old(self).wf(),
            from_tick <= to_tick,
            !invalid_from ==> to_tick - from_tick <= i64::MAX,
        ensures
            final(self).flushed(
                *old(self),
                Side::Sell,
                if invalid_from || (#[verifier::truncate] (old(self).backtest_orders@.len() as i64))
                    < to_tick - from_tick {
                    None
                } else {
                    Some(from_tick)
                },
                Some(to_tick),
                r@,
            ),
    {
        let by_index = invalid_from || (#[verifier::truncate] (self.backtest_orders.len() as i64)) < to_tick - from_tick;
        if by_index {
            self.fill_within(Side::Sell, None, Some(to_tick), true)
        } else {
            self.fill_within(Side::Sell, Some(from_tick), Some(to_tick), false)
        }
    }
    /// Invoked when the best bid rises from `prev_best_tick` to `new_best_tick`: the backtest
    /// ask orders that the new best bid reaches are filled and returned.
    pub fn on_best_bid_update(&mut self, prev_best_tick: i64, new_best_tick: i64) -> (r: Result<
        Vec<Order>,
        BacktestError,
    >)
        requires
            old(self).wf(),
            prev_best_tick < new_best_tick,
            prev_best_tick != INVALID_MIN ==> new_best_tick - prev_best_tick <= i64::MAX,
        ensures
            best_bid_raised(*old(self), *final(self), prev_best_tick, new_best_tick, r),
    {
        Ok(self.fill_ask_between(prev_best_tick + 1, new_best_tick, prev_best_tick == INVALID_MIN))
    }

    /// Invoked when the best ask falls from `prev_best_tick` to `new_best_tick`: the backtest
    /// bid orders that the new best ask reaches are filled and returned.
    pub fn on_best_ask_update(&mut self, prev_best_tick: i64, new_best_tick: i64) -> (r: Result<
        Vec<Order>,
        BacktestError,
    >)
        requires
            old(self).wf(),
            new_best_tick < prev_best_tick,
            prev_best_tick != INVALID_MAX ==> prev_best_tick - new_best_tick <= i64::MAX,
        ensures
            best_ask_lowered(*old(self), *final(self), prev_best_tick, new_best_tick, r),
    {
        Ok(self.fill_bid_between(prev_best_tick - 1, new_best_tick, prev_best_tick == INVALID_MAX))
    }
    /// Takes the backtest orders ahead of the order `id` of the market feed out of the queue at
    /// `t` on the side, in queue order, into `filled`; they leave the index too.
    fn take_ahead(&mut self, side: Side, t: i64, id: u64, filled: &mut Vec<Order>)
        requires
            old(self).wf(),
            side == Side::Buy || side == Side::Sell,
            old(self).queues(side).contains_key(t),
            holds(old(self).queues(side)[t], id, L3OrderSource::MarketFeed),
        ensures
            ({
                let q = old(self).queues(side)[t];
                let k = first_index(q, id, L3OrderSource::MarketFeed);
                &&& final(self).wf()
                &&& final(self).queues(side) == old(self).queues(side).insert(t, purge(q.take(k)) + q.skip(k))
                &&& final(self).queues(opposite(side)) == old(self).queues(opposite(side))
                &&& final(self).mkt_feed_orders@ == old(self).mkt_feed_orders@
                &&& final(self).backtest_orders@ == old(self).backtest_orders@.remove_keys(
                    Set::new(|i: u64| ids_of(backtest_orders_in(q.take(k))).contains(i)),
                )
                &&& final(filled)@ == old(filled)@ + backtest_orders_in(q.take(k))
            }),
    {
        let ghost q0 = old(self).queues(side)[t];
        let ghost k0 = first_index(q0, id, L3OrderSource::MarketFeed);
        let ghost f0 = filled@;
        let ghost done: Seq<Order> = Seq::empty();
        proof {
            lemma_first_index(q0, id, L3OrderSource::MarketFeed);
        }
        loop
            invariant
                self.wf(),
                side == Side::Buy || side == Side::Sell,
                f0 == old(filled)@,
                q0 == old(self).queues(side)[t],
                k0 == first_index(q0, id, L3OrderSource::MarketFeed),
                self.queues(side).contains_key(t),
                self.queues(side) == old(self).queues(side).insert(t, self.queues(side)[t]),
                first_index(self.queues(side)[t], id, L3OrderSource::MarketFeed) < self.queues(side)[t].len(),
                ({
                    let q = self.queues(side)[t];
                    let k = first_index(q, id, L3OrderSource::MarketFeed);
                    &&& q.skip(k) == q0.skip(k0)
                    &&& purge(q.take(k)) == purge(q0.take(k0))
                    &&& backtest_orders_in(q0.take(k0)) == done + backtest_orders_in(q.take(k))
                }),
                self.queues(opposite(side)) == old(self).queues(opposite(side)),
                self.mkt_feed_orders@ == old(self).mkt_feed_orders@,
                self.backtest_orders@ == old(self).backtest_orders@.remove_keys(
                    Set::new(|i: u64| ids_of(done).contains(i)),
                ),
                filled@ == f0 + done,
            decreases first_index(self.queues(side)[t], id, L3OrderSource::MarketFeed),
        {
            let ghost q = self.queues(side)[t];
            let ghost k = first_index(q, id, L3OrderSource::MarketFeed);
            let found = if side == Side::Buy {
                find_backtest(&self.bid_queue, t)
            } else {
                find_backtest(&self.ask_queue, t)
            };
            proof {
                lemma_first_backtest(q);
                lemma_first_index(q, id, L3OrderSource::MarketFeed);
                assert(queue_at(self.queues(side), t) == q);
            }
            let (i, bid) = match found {
                Some(f) => f,
                None => {
                    proof {
                        lemma_first_backtest_prefix(q, k);
                        lemma_first_backtest(q.take(k));
                        assert(q =~= q.take(k) + q.skip(k));
                        assert(done + Seq::<Order>::empty() =~= done);
                        assert(self.queues(side) =~= old(self).queues(side).insert(t, purge(q0.take(k0)) + q0.skip(k0)));
                        assert(done =~= backtest_orders_in(q0.take(k0)));
                    }
                    return;
                },
            };
            if i >= self.index_of_feed_order(side, t, id) {
                proof {
                    lemma_first_backtest_prefix(q, k);
                    lemma_first_backtest(q.take(k));
                    assert(q =~= q.take(k) + q.skip(k));
                    assert(done + Seq::<Order>::empty() =~= done);
                    assert(self.queues(side) =~= old(self).queues(side).insert(t, purge(q0.take(k0)) + q0.skip(k0)));
                    assert(done =~= backtest_orders_in(q0.take(k0)));
                }
                return;
            }
            proof {
                lemma_remove_before(q, id);
                assert(self.indexed_at(side, t, q[i as int]));
            }
            let ghost before = *self;
            self.backtest_orders.remove(&bid);
            let removed = if side == Side::Buy {
                remove_entry(&mut self.bid_queue, t, bid, L3OrderSource::Backtest)
            } else {
                remove_entry(&mut self.ask_queue, t, bid, L3OrderSource::Backtest)
            };
            proof {
                self.lemma_remove_keeps_wf(before, side, t, bid, L3OrderSource::Backtest);
            }
            match removed {
                Some((o, _)) => {
                    filled.push(o);
                    proof {
                        let d2 = done.push(o);
                        let q2 = q.remove(i as int);
                        assert(self.queues(side)[t] == q2);
                        assert(d2 + backtest_orders_in(q2.take(k - 1)) =~= done + (seq![o]
                            + backtest_orders_in(q2.take(k - 1))));
                        let ids1 = ids_of(done);
                        let ids2 = ids_of(d2);
                        assert(ids2 =~= ids1.push(bid));
                        assert forall|x: u64| ids2.contains(x) <==> ids1.contains(x) || x == bid by {
                            if ids2.contains(x) && x != bid {
                                let j = choose|j: int| 0 <= j < ids2.len() && ids2[j] == x;
                                assert(ids1[j] == x);
                            }
                            if ids1.contains(x) {
                                let j = choose|j: int| 0 <= j < ids1.len() && ids1[j] == x;
                                assert(ids2[j] == x);
                            }
                            if x == bid {
                                assert(ids2[ids1.len() as int] == x);
                            }
                        }
                        assert(self.backtest_orders@ =~= old(self).backtest_orders@.remove_keys(
                            Set::new(|x: u64| ids_of(d2).contains(x)),
                        ));
                        assert(self.queues(side) =~= old(self).queues(side).insert(t, self.queues(side)[t]));
                        done = d2;
                        assert(filled@ =~= f0 + done);
                    }
                },
                None => {
                    assert(false);
                },
            }
        }
    }

    /// The position of the order `id` of the market feed in the queue at `t` on the side.
    fn index_of_feed_order(&self, side: Side, t: i64, id: u64) -> (r: usize)
        requires
            self.queues(side).contains_key(t),
            first_index(self.queues(side)[t], id, L3OrderSource::MarketFeed) < self.queues(side)[t].len(),
        ensures
            r == first_index(self.queues(side)[t], id, L3OrderSource::MarketFeed),
    {
        let found = if side == Side::Buy {
            find_entry(&self.bid_queue, t, id, L3OrderSource::MarketFeed)
        } else {
            find_entry(&self.ask_queue, t, id, L3OrderSource::MarketFeed)
        };
        match found {
            Some((i, _)) => i,
            None => {
                assert(false);
                0
            },
        }
    }
    /// Invoked when an order of the market feed is filled at the event's price: the backtest
    /// orders that the fill price has gone past are filled (the bid orders above it, for a bid),
    /// then the backtest orders ahead of the filled order in its queue. With `delete`, the filled
    /// order leaves the queue too; otherwise a later cancel event removes it. An order id that is
    /// not a market feed order's is an error.
    #[verifier::rlimit(40)]
    pub fn fill_market_feed_order<MD: MarketDepth>(
        &mut self,
        order_id: u64,
        order: &Event,
        depth: &MD,
        delete: bool,
    ) -> (r: Result<Vec<Order>, BacktestError>)
        requires
            old(self).wf(),
            old(self).mkt_feed_orders@.contains_key(order_id) && old(self).mkt_feed_orders@[order_id].0
                == Side::Buy && order.price_tick < depth.best_bid() ==> depth.best_bid() - (
            order.price_tick + 1) <= i64::MAX,
            old(self).mkt_feed_orders@.contains_key(order_id) && old(self).mkt_feed_orders@[order_id].0
                != Side::Buy && order.price_tick > depth.best_ask() ==> (order.price_tick - 1)
                - depth.best_ask() <= i64::MAX,
        ensures
            feed_order_filled(*old(self), *final(self), order_id, *order, *depth, delete, r),
    {
        let (side, t) = match self.mkt_feed_orders.get(&order_id) {
            Some(loc) => *loc,
            None => {
                return Err(BacktestError::OrderNotFound);
            },
        };
        let exec_price_tick = order.price_tick;
        let ghost old_self = *self;
        let mut filled = if side == Side::Buy {
            let best = depth.best_bid_tick();
            if exec_price_tick < best {
                self.fill_bid_between(best, exec_price_tick + 1, false)
            } else {
                proof {
                    assert(purged_at(self.queues(side), bounded_ticks(Some(1), Some(0))) =~= self.queues(side));
                    assert(located_at(self.backtest_orders@, side, bounded_ticks(Some(1), Some(0))) =~= Set::<u64>::empty());
                    assert(self.backtest_orders@.remove_keys(Set::<u64>::empty()) =~= self.backtest_orders@);
                    assert(backtest_orders_at(self.queues(side), Seq::<i64>::empty()) =~= Seq::<Order>::empty());
                }
                Vec::new()
            }
        } else {
            let best = depth.best_ask_tick();
            if exec_price_tick > best {
                self.fill_ask_between(best, exec_price_tick - 1, false)
            } else {
                proof {
                    assert(purged_at(self.queues(side), bounded_ticks(Some(1), Some(0))) =~= self.queues(side));
                    assert(located_at(self.backtest_orders@, side, bounded_ticks(Some(1), Some(0))) =~= Set::<u64>::empty());
                    assert(self.backtest_orders@.remove_keys(Set::<u64>::empty()) =~= self.backtest_orders@);
                    assert(backtest_orders_at(self.queues(side), Seq::<i64>::empty()) =~= Seq::<Order>::empty());
                }
                Vec::new()
            }
        };
        let ghost f1 = filled@;
        let ghost mid = *self;
        proof {
            assert(self.index(L3OrderSource::MarketFeed).contains_key(order_id));
        }
        self.take_ahead(side, t, order_id, &mut filled);
        if delete {
            let ghost before = *self;
            let ghost q1 = mid.queues(side)[t];
            let ghost k = first_index(q1, order_id, L3OrderSource::MarketFeed);
            proof {
                lemma_first_index(q1, order_id, L3OrderSource::MarketFeed);
                lemma_purge_keeps_absence(q1.take(k), order_id, L3OrderSource::MarketFeed);
                lemma_first_index_append(purge(q1.take(k)), q1.skip(k), order_id, L3OrderSource::MarketFeed);
                assert(q1.skip(k)[0] == q1[k]);
                assert(first_index(q1.skip(k), order_id, L3OrderSource::MarketFeed) == 0);
                assert(self.index(L3OrderSource::MarketFeed).contains_key(order_id));
            }
            self.mkt_feed_orders.remove(&order_id);
            if side == Side::Buy {
                remove_entry(&mut self.bid_queue, t, order_id, L3OrderSource::MarketFeed);
            } else {
                remove_entry(&mut self.ask_queue, t, order_id, L3OrderSource::MarketFeed);
            }
            proof {
                self.lemma_remove_keeps_wf(before, side, t, order_id, L3OrderSource::MarketFeed);
                assert((purge(q1.take(k)) + q1.skip(k)).remove(purge(q1.take(k)).len() as int) =~= purge(q1.take(k)) + q1.skip(k + 1));
            }
        }
        Ok(filled)
    }
    /// Invoked on a clear message: every queue of the side (of both sides for `Side::Nil`) is
    /// emptied and its orders leave the indexes; the backtest orders that were queued are
    /// returned, queue after queue in some order of the prices.
    pub fn clear_orders(&mut self, side: Side) -> (r: Vec<Order>)
        requires
            old(self).wf(),
            side != Side::Unsupported,
        ensures
            queues_cleared(*old(self), *final(self), side, r),
    {
        let mut expired: Vec<Order> = Vec::new();
        if side == Side::Nil {
            self.mkt_feed_orders.clear();
            self.backtest_orders.clear();
            drain_backtest(&mut self.bid_queue, &mut expired);
            let ghost e1 = expired@;
            drain_backtest(&mut self.ask_queue, &mut expired);
            proof {
                assert(queues_view(self.bid_queue@) =~= Map::<i64, Seq<QueueEntry>>::empty());
                assert(queues_view(self.ask_queue@) =~= Map::<i64, Seq<QueueEntry>>::empty());
                let bt = choose|ticks: Seq<i64>|
                    #![trigger backtest_orders_at(queues_view(old(self).bid_queue@), ticks)]
                    {
                        &&& ticks.no_duplicates()
                        &&& ticks.to_set() == old(self).bid_queue@.dom()
                        &&& e1 == Seq::<Order>::empty() + backtest_orders_at(queues_view(old(self).bid_queue@), ticks)
                    };
                let at = choose|ticks: Seq<i64>|
                    #![trigger backtest_orders_at(queues_view(old(self).ask_queue@), ticks)]
                    {
                        &&& ticks.no_duplicates()
                        &&& ticks.to_set() == old(self).ask_queue@.dom()
                        &&& expired@ == e1 + backtest_orders_at(queues_view(old(self).ask_queue@), ticks)
                    };
                assert(queues_view(old(self).bid_queue@).dom() =~= old(self).bid_queue@.dom());
                assert(queues_view(old(self).ask_queue@).dom() =~= old(self).ask_queue@.dom());
                assert(expired@ =~= backtest_orders_at(old(self).queues(Side::Buy), bt)
                    + backtest_orders_at(old(self).queues(Side::Sell), at));
            }
        } else {
            drop_side(&mut self.mkt_feed_orders, side);
            drop_side(&mut self.backtest_orders, side);
            if side == Side::Buy {
                drain_backtest(&mut self.bid_queue, &mut expired);
                assert(queues_view(self.bid_queue@) =~= Map::<i64, Seq<QueueEntry>>::empty());
                proof {
                    let bt = choose|ticks: Seq<i64>|
                        #![trigger backtest_orders_at(queues_view(old(self).bid_queue@), ticks)]
                        {
                            &&& ticks.no_duplicates()
                            &&& ticks.to_set() == old(self).bid_queue@.dom()
                            &&& expired@ == Seq::<Order>::empty() + backtest_orders_at(queues_view(old(self).bid_queue@), ticks)
                        };
                    assert(queues_view(old(self).bid_queue@).dom() =~= old(self).bid_queue@.dom());
                    assert(expired@ =~= backtest_orders_at(old(self).queues(side), bt));
                }
            } else {
                drain_backtest(&mut self.ask_queue, &mut expired);
                assert(queues_view(self.ask_queue@) =~= Map::<i64, Seq<QueueEntry>>::empty());
                proof {
                    let at = choose|ticks: Seq<i64>|
                        #![trigger backtest_orders_at(queues_view(old(self).ask_queue@), ticks)]
                        {
                            &&& ticks.no_duplicates()
                            &&& ticks.to_set() == old(self).ask_queue@.dom()
                            &&& expired@ == Seq::<Order>::empty() + backtest_orders_at(queues_view(old(self).ask_queue@), ticks)
                        };
                    assert(queues_view(old(self).ask_queue@).dom() =~= old(self).ask_queue@.dom());
                    assert(expired@ =~= backtest_orders_at(old(self).queues(side), at));
                }
            }
            proof {
                assert forall|src: L3OrderSource| #[trigger] self.index_wf(src) by {
                    assert forall|id: u64| #[trigger] self.index(src).contains_key(id) implies {
                        let (s, u) = self.index(src)[id];
                        &&& s == Side::Buy || s == Side::Sell
                        &&& self.queues(s).contains_key(u)
                        &&& holds(self.queues(s)[u], id, src)
                    } by {
                        assert(old(self).index(src).contains_key(id));
                    }
                }
                assert forall|sd: Side| sd == Side::Buy || sd == Side::Sell implies #[trigger] self.side_wf(sd) by {
                    if sd != side {
                        assert forall|u: i64| #[trigger] self.queues(sd).contains_key(u) implies {
                            &&& unique(self.queues(sd)[u])
                            &&& forall|i: int|
                                0 <= i < self.queues(sd)[u].len() ==> self.indexed_at(
                                    sd,
                                    u,
                                    #[trigger] self.queues(sd)[u][i],
                                )
                        } by {
                            assert(old(self).queues(sd).contains_key(u));
                            assert forall|i: int| 0 <= i < self.queues(sd)[u].len() implies self.indexed_at(
                                sd,
                                u,
                                #[trigger] self.queues(sd)[u][i],
                            ) by {
                                assert(old(self).indexed_at(sd, u, old(self).queues(sd)[u][i]));
                            }
                        }
                    }
                }
                assert(self.side_wf(Side::Buy));
                assert(self.side_wf(Side::Sell));
                assert(self.index_wf(L3OrderSource::Backtest));
                assert(self.index_wf(L3OrderSource::MarketFeed));
            }
        }
        expired
    }
}

} // verus!
