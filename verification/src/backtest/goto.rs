//! The decisions a backtest makes while it moves its clock towards a target time.
//!
//! The backtest repeatedly takes the next scheduled event of its [`EventSet`]: an event after the
//! target stops the move there, and an event at or before it is processed by the local or the
//! exchange processor of its asset. After processing, the processor's next timestamps are put
//! back into the schedule. When the move waits for the next market feed, processing local data
//! pulls the target to that event's time; when it waits for an order response, receiving one
//! does the same.
use vstd::prelude::*;

use crate::backtest::evs::{slot, EventIntent, EventIntentKind, EventSet};
use crate::backtest::BacktestError;
use crate::types::{ElapseResult, OrderId, WaitOrderResponse};

verus! {

/// What to do with the next scheduled event.
#[derive(Clone, Copy, Debug)]
pub enum Step {
    /// Stop the move: the clock is set to the timestamp and the result is returned.
    Stop(i64, ElapseResult),
    /// No event is pending: the data has ended.
    EndOfData,
    /// Process the event.
    Process(EventIntent),
}

/// A move of the backtest's clock towards a target time.
#[derive(Clone, Copy, Debug)]
pub struct Goto {
    /// The time the clock moves to.
    pub timestamp: i64,
    /// The result of the move if it stops at the target.
    pub result: ElapseResult,
    /// Whether the move stops at the next market feed.
    pub wait_next_feed: bool,
    /// Which order response, if any, the move stops at.
    pub wait_order_response: WaitOrderResponse,
}

/// The step for the next scheduled event.
pub open spec fn next_step(g: Goto, next: Option<EventIntent>) -> Step {
    match next {
        None => Step::EndOfData,
        Some(ev) => if ev.timestamp > g.timestamp {
            Step::Stop(g.timestamp, g.result)
        } else {
            Step::Process(ev)
        },
    }
}

/// The move after local data at the event's time was processed.
pub open spec fn fed(g: Goto, ev_ts: i64) -> Goto {
    if g.wait_next_feed {
        Goto { timestamp: ev_ts, result: ElapseResult::MarketFeed, ..g }
    } else {
        g
    }
}

/// The move after the local received order responses at the event's time; `received` tells
/// whether the awaited response was among them.
pub open spec fn responded(g: Goto, ev_ts: i64, received: bool) -> Goto {
    if received || g.wait_order_response == WaitOrderResponse::Any {
        Goto {
            timestamp: ev_ts,
            result: if g.wait_next_feed {
                ElapseResult::OrderResponse
            } else {
                g.result
            },
            ..g
        }
    } else {
        g
    }
}

/// The schedule `s` after each asset below `n` gets its exchange-order slot set from `send` (the
/// earliest time an order it sent reaches the exchange) and its local-order slot from `recv`
/// (the earliest time a response reaches it).
pub open spec fn with_order_times(s: Seq<i64>, send: Seq<i64>, recv: Seq<i64>, n: int) -> Seq<i64> {
    Seq::new(
        s.len(),
        |j: int|
            if j / 4 < n && j % 4 == 3 {
                send[j / 4]
            } else if j / 4 < n && j % 4 == 1 {
                recv[j / 4]
            } else {
                s[j]
            },
    )
}

/// The schedule after a data slot of an asset was advanced: to the next row's time, or to
/// nothing pending at the end of the data.
pub open spec fn advanced(s: Seq<i64>, i: int, next: Result<i64, BacktestError>) -> Seq<i64> {
    match next {
        Ok(ts) => s.update(i, ts),
        Err(_) => s.update(i, i64::MAX),
    }
}

impl Goto {
    /// Starts a move to `timestamp`; the result is [`ElapseResult::Elapsed`] unless a wait ends it
    /// earlier.
    pub fn new(timestamp: i64, wait_next_feed: bool, wait_order_response: WaitOrderResponse) -> (r:
        Self)
        ensures
            r == (Goto { timestamp, result: ElapseResult::Elapsed, wait_next_feed, wait_order_response }),
    {
        Goto { timestamp, result: ElapseResult::Elapsed, wait_next_feed, wait_order_response }
    }

    /// Decides what to do with the next scheduled event: process it if it is not after the
    /// target, stop at the target otherwise, and end when nothing is pending.
    pub fn step(&self, next: Option<EventIntent>) -> (r: Step)
        ensures
            r == next_step(*self, next),
    {
        match next {
            None => Step::EndOfData,
            Some(ev) => if ev.timestamp > self.timestamp {
                Step::Stop(self.timestamp, self.result)
            } else {
                Step::Process(ev)
            },
        }
    }

    /// The order id whose response the local of the asset is awaited for, if any.
    pub fn wait_order_id(&self, asset_no: usize) -> (r: Option<OrderId>)
        ensures
            r == (match self.wait_order_response {
                WaitOrderResponse::Specified { asset_no: a, order_id } => if a == asset_no {
                    Some(order_id)
                } else {
                    None
                },
                _ => None,
            }),
    {
        match self.wait_order_response {
            WaitOrderResponse::Specified { asset_no: a, order_id } => if a == asset_no {
                Some(order_id)
            } else {
                None
            },
            _ => None,
        }
    }

    /// Puts each asset's earliest order times into the schedule before the move starts: the
    /// earliest arrival at the exchange of an order it sent (`send`) and the earliest arrival at
    /// the local of a response (`recv`).
    pub fn schedule_orders(evs: &mut EventSet, send: &Vec<i64>, recv: &Vec<i64>)
        requires
            old(evs).wf(),
            send@.len() == recv@.len(),
            4 * send@.len() <= old(evs)@.len(),
        ensures
            final(evs).wf(),
            final(evs)@ == with_order_times(old(evs)@, send@, recv@, send@.len() as int),
    {
        let n = send.len();
        let mut i: usize = 0;
        while i < n
            invariant
                evs.wf(),
                n == send@.len(),
                n == recv@.len(),
                4 * n <= evs@.len(),
                evs@.len() == old(evs)@.len(),
                i <= n,
                evs@ == with_order_times(old(evs)@, send@, recv@, i as int),
            decreases n - i,
        {
            evs.update_exch_order(i, send[i]);
            evs.update_local_order(i, recv[i]);
            assert(evs@ =~= with_order_times(old(evs)@, send@, recv@, i + 1));
            i = i + 1;
        }
    }

    /// After the local of the event's asset processed its data row: `next` is the time of its
    /// next row, or the end of its data; any other error stops the move unchanged. Waiting for
    /// the next feed, the move then stops at this event's time.
    pub fn after_local_data(
        &mut self,
        evs: &mut EventSet,
        ev: EventIntent,
        next: Result<i64, BacktestError>,
    ) -> (r: Result<(), BacktestError>)
        requires
            old(evs).wf(),
            4 * ev.asset_no < old(evs)@.len(),
        ensures
            final(evs).wf(),
            match next {
                Err(e) => !(e is EndOfData) ==> r == Err::<(), BacktestError>(e) && *final(self)
                    == *old(self) && final(evs)@ == old(evs)@,
                _ => true,
            },
            (next is Ok || next matches Err(BacktestError::EndOfData)) ==> {
                &&& r is Ok
                &&& *final(self) == fed(*old(self), ev.timestamp)
                &&& final(evs)@ == advanced(
                    old(evs)@,
                    slot(ev.asset_no as int, EventIntentKind::LocalData),
                    next,
                )
            },
    {
        match next {
            Ok(next_ts) => {
                evs.update_local_data(ev.asset_no, next_ts);
            },
            Err(BacktestError::EndOfData) => {
                evs.invalidate_local_data(ev.asset_no);
            },
            Err(e) => {
                return Err(e);
            },
        }
        if self.wait_next_feed {
            self.timestamp = ev.timestamp;
            self.result = ElapseResult::MarketFeed;
        }
        Ok(())
    }

    /// After the local of the event's asset received the responses due at the event's time:
    /// `received` tells whether the awaited response came, and `recv_ts` is the earliest time of
    /// the responses still on their way.
    pub fn after_local_order(&mut self, evs: &mut EventSet, ev: EventIntent, received: bool, recv_ts: i64)
        requires
            old(evs).wf(),
            4 * ev.asset_no < old(evs)@.len(),
        ensures
            final(evs).wf(),
            *final(self) == responded(*old(self), ev.timestamp, received),
            final(evs)@ == old(evs)@.update(slot(ev.asset_no as int, EventIntentKind::LocalOrder), recv_ts),
    {
        if received || self.wait_order_response == WaitOrderResponse::Any {
            self.timestamp = ev.timestamp;
            if self.wait_next_feed {
                self.result = ElapseResult::OrderResponse;
            }
        }
        evs.update_local_order(ev.asset_no, recv_ts);
    }

    /// After the exchange of the event's asset processed its data row: `next` is the time of its
    /// next row, or the end of its data, and `send_ts` the earliest time of the responses it has
    /// sent; any other error stops the move with the schedule unchanged.
    pub fn after_exch_data(
        evs: &mut EventSet,
        ev: EventIntent,
        next: Result<i64, BacktestError>,
        send_ts: i64,
    ) -> (r: Result<(), BacktestError>)
        requires
            old(evs).wf(),
            4 * ev.asset_no < old(evs)@.len(),
        ensures
            final(evs).wf(),
            match next {
                Err(e) => !(e is EndOfData) ==> r == Err::<(), BacktestError>(e) && final(evs)@
                    == old(evs)@,
                _ => true,
            },
            (next is Ok || next matches Err(BacktestError::EndOfData)) ==> {
                &&& r is Ok
                &&& final(evs)@ == advanced(
                    old(evs)@,
                    slot(ev.asset_no as int, EventIntentKind::ExchData),
                    next,
                ).update(slot(ev.asset_no as int, EventIntentKind::LocalOrder), send_ts)
            },
    {
        match next {
            Ok(next_ts) => {
                evs.update_exch_data(ev.asset_no, next_ts);
            },
            Err(BacktestError::EndOfData) => {
                evs.invalidate_exch_data(ev.asset_no);
            },
            Err(e) => {
                return Err(e);
            },
        }
        evs.update_local_order(ev.asset_no, send_ts);
        Ok(())
    }

    /// After the exchange of the event's asset processed the requests due at the event's time:
    /// `recv_ts` is the earliest time of the requests still on their way to it and `send_ts` the
    /// earliest time of the responses it has sent.
    pub fn after_exch_order(evs: &mut EventSet, ev: EventIntent, recv_ts: i64, send_ts: i64)
        requires
            old(evs).wf(),
            4 * ev.asset_no < old(evs)@.len(),
        ensures
            final(evs).wf(),
            final(evs)@ == old(evs)@.update(
                slot(ev.asset_no as int, EventIntentKind::ExchOrder),
                recv_ts,
            ).update(slot(ev.asset_no as int, EventIntentKind::LocalOrder), send_ts),
    {
        evs.update_exch_order(ev.asset_no, recv_ts);
        evs.update_local_order(ev.asset_no, send_ts);
    }
}

/// A move never processes an event after its target: an event is processed only at or before
/// the target, and the move stops at the target before the first later event.
pub proof fn lemma_never_past_target(g: Goto, next: Option<EventIntent>)
    ensures
        next_step(g, next) matches Step::Process(ev) ==> next == Some(ev) && ev.timestamp
            <= g.timestamp,
        next_step(g, next) matches Step::Stop(t, res) ==> t == g.timestamp && res == g.result
            && next.unwrap().timestamp > t,
        next_step(g, next) is EndOfData <==> next is None,
{
}

/// Waiting for the next feed, a move that processed local data stops at that data's time with
/// [`ElapseResult::MarketFeed`] as soon as the next pending event is later.
pub proof fn lemma_feed_wait_stops_at_the_feed(g: Goto, ev_ts: i64, next: EventIntent)
    requires
        g.wait_next_feed,
        next.timestamp > ev_ts,
    ensures
        next_step(fed(g, ev_ts), Some(next)) == Step::Stop(ev_ts, ElapseResult::MarketFeed),
{
}

/// Waiting for an order response, a move in which the awaited response came stops at the time
/// it came, with [`ElapseResult::OrderResponse`] when it also waits for the feed, as soon as the
/// next pending event is later.
pub proof fn lemma_response_wait_stops_at_the_response(g: Goto, ev_ts: i64, next: EventIntent)
    requires
        next.timestamp > ev_ts,
    ensures
        next_step(responded(g, ev_ts, true), Some(next)) == Step::Stop(
            ev_ts,
            if g.wait_next_feed {
                ElapseResult::OrderResponse
            } else {
                g.result
            },
        ),
{
}

} // verus!
