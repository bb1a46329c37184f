//! The position of a processor in its feed data: the chunk of events it reads and the row of the
//! last event it has seen. A local sees feed events at their local timestamp, an exchange at
//! their exchange timestamp; events not meant for it are passed over.
use vstd::prelude::*;

use crate::types::{spec_event_is, Event, EXCH_EVENT, LOCAL_EVENT};

verus! {

/// Which side of the feed a processor stands on.
#[derive(Clone, Copy, Debug, PartialEq, Eq, Structural)]
pub enum Viewpoint {
    /// The local, which sees local events at their local timestamp.
    Local,
    /// The exchange, which sees exchange events at their exchange timestamp.
    Exchange,
}

/// The timestamp at which the processor sees the event, if it sees it at all.
pub open spec fn seen_at(ev: Event, viewpoint: Viewpoint) -> Option<i64> {
    match viewpoint {
        Viewpoint::Local => if spec_event_is(ev.ev, LOCAL_EVENT) {
            Some(ev.local_ts)
        } else {
            None
        },
        Viewpoint::Exchange => if spec_event_is(ev.ev, EXCH_EVENT) {
            Some(ev.exch_ts)
        } else {
            None
        },
    }
}

/// Returns the timestamp at which a processor on the viewpoint sees the event, if it does.
pub fn event_seen_timestamp(ev: &Event, viewpoint: Viewpoint) -> (r: Option<i64>)
    ensures
        r == seen_at(*ev, viewpoint),
{
    match viewpoint {
        Viewpoint::Local => if ev.is(LOCAL_EVENT) {
            Some(ev.local_ts)
        } else {
            None
        },
        Viewpoint::Exchange => if ev.is(EXCH_EVENT) {
            Some(ev.exch_ts)
        } else {
            None
        },
    }
}

/// The row the search for the next seen event starts at: the one after the current row, or the
/// first row of the chunk when there is no current row.
pub open spec fn search_start(row: Option<usize>) -> int {
    match row {
        Some(r) => r + 1,
        None => 0,
    }
}

/// A processor's position in its feed data.
pub struct BacktestProcessorState {
    data: Vec<Event>,
    row: Option<usize>,
    viewpoint: Viewpoint,
}

impl BacktestProcessorState {
    /// The events of the current chunk.
    pub closed spec fn events(&self) -> Seq<Event> {
        self.data@
    }

    /// The row of the last event seen in the current chunk, if any.
    pub closed spec fn current_row(&self) -> Option<usize> {
        self.row
    }

    /// The side of the feed the processor stands on.
    pub closed spec fn side(&self) -> Viewpoint {
        self.viewpoint
    }

    /// Constructs the position of a processor on the viewpoint, before any data.
    pub fn new(viewpoint: Viewpoint) -> (r: Self)
        ensures
            r.events() == Seq::<Event>::empty(),
            r.current_row() is None,
            r.side() == viewpoint,
    {
        BacktestProcessorState { data: Vec::new(), row: None, viewpoint }
    }

    /// Moves to the next event the processor sees in the current chunk and returns its
    /// timestamp: the first such event from [`search_start`] on. `None` means the chunk holds no
    /// more: the next chunk must be given with [`Self::next_data`], and the position is kept.
    pub fn advance(&mut self) -> (r: Option<i64>)
        requires
            old(self).current_row() matches Some(k) ==> k < old(self).events().len(),
        ensures
            final(self).events() == old(self).events(),
            final(self).side() == old(self).side(),
            final(self).current_row() matches Some(k) ==> k < final(self).events().len(),
            r is None ==> {
                &&& final(self).current_row() == old(self).current_row()
                &&& forall|i: int|
                    search_start(old(self).current_row()) <= i < old(self).events().len()
                        ==> seen_at(#[trigger] old(self).events()[i], old(self).side()) is None
            },
            r matches Some(ts) ==> {
                &&& final(self).current_row() matches Some(k)
                &&& search_start(old(self).current_row()) <= final(self).current_row()->0
                &&& seen_at(old(self).events()[final(self).current_row()->0 as int], old(self).side())
                    == Some(ts)
                &&& forall|i: int|
                    search_start(old(self).current_row()) <= i < final(self).current_row()->0
                        ==> seen_at(#[trigger] old(self).events()[i], old(self).side()) is None
            },
    {
        let n = self.data.len();
        let start: usize = match self.row {
            Some(rn) => rn + 1,
            None => 0,
        };
        let mut rn = start;
        while rn < n
            invariant
                start == search_start(old(self).row),
                start <= rn,
                n == self.data@.len(),
                self.data@ == old(self).data@,
                self.row == old(self).row,
                self.viewpoint == old(self).viewpoint,
                forall|i: int| start <= i < rn ==> seen_at(#[trigger] self.data@[i], self.viewpoint) is None,
            decreases n - rn,
        {
            match event_seen_timestamp(&self.data[rn], self.viewpoint) {
                Some(ts) => {
                    self.row = Some(rn);
                    return Some(ts);
                },
                None => {},
            }
            rn = rn + 1;
        }
        None
    }

    /// Moves on to the next chunk, with no row seen in it yet; returns the chunk left behind.
    pub fn next_data(&mut self, chunk: Vec<Event>) -> (released: Vec<Event>)
        ensures
            final(self).events() == chunk@,
            final(self).current_row() is None,
            final(self).side() == old(self).side(),
            released@ == old(self).events(),
    {
        let mut released = chunk;
        std::mem::swap(&mut released, &mut self.data);
        self.row = None;
        released
    }

    /// Returns the row of the current event, if the processor has seen one in the chunk.
    pub fn next_row(&self) -> (r: Option<usize>)
        ensures
            r == self.current_row(),
    {
        self.row
    }

    /// Returns the current event: the one at the current row.
    pub fn current_event(&self) -> (r: Event)
        requires
            self.current_row() matches Some(k) && k < self.events().len(),
        ensures
            r == self.events()[self.current_row()->0 as int],
    {
        match self.row {
            Some(rn) => self.data[rn],
            None => self.data[0],
        }
    }
}

} // verus!
