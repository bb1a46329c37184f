//! The schedule of the next event to process in a backtest.
//!
//! Each asset has four event slots (local data, local order, exchange data, exchange order),
//! each holding the timestamp of its next pending event, or `i64::MAX` when nothing is pending.
use vstd::prelude::*;

verus! {

/// The event to process next: its timestamp, its asset and its kind.
#[derive(Clone, Copy, Debug)]
pub struct EventIntent {
    pub timestamp: i64,
    pub asset_no: usize,
    pub kind: EventIntentKind,
}

/// The kind of an event slot.
#[derive(Eq, PartialEq, Structural, Clone, Copy, Debug)]
pub enum EventIntentKind {
    LocalData,
    LocalOrder,
    ExchData,
    ExchOrder,
}

/// The position of a kind among an asset's four event slots.
pub open spec fn kind_index(kind: EventIntentKind) -> int {
    match kind {
        EventIntentKind::LocalData => 0,
        EventIntentKind::LocalOrder => 1,
        EventIntentKind::ExchData => 2,
        EventIntentKind::ExchOrder => 3,
    }
}

/// The slot of an event intent among all slots.
pub open spec fn slot(asset_no: int, kind: EventIntentKind) -> int {
    4 * asset_no + kind_index(kind)
}

/// Slot `idx` holds a pending event with the earliest timestamp, and no slot before it holds one
/// as early.
pub open spec fn is_earliest(s: Seq<i64>, idx: int) -> bool {
    &&& 0 <= idx < s.len()
    &&& s[idx] != i64::MAX
    &&& forall|j: int| 0 <= j < s.len() ==> s[idx] <= #[trigger] s[j]
    &&& forall|j: int| 0 <= j < idx ==> s[idx] < #[trigger] s[j]
}

/// Manages the event timestamps to determine the next event to be processed.
pub struct EventSet {
    timestamp: Vec<i64>,
}

impl View for EventSet {
    type V = Seq<i64>;

    closed spec fn view(&self) -> Seq<i64> {
        self.timestamp@
    }
}

impl EventSet {
    /// There are four slots per asset, and at least one asset.
    pub open spec fn wf(&self) -> bool {
        self@.len() > 0 && self@.len() % 4 == 0 && self@.len() <= usize::MAX
    }

    /// Constructs an `EventSet` for `num_assets` assets, with no pending event.
    pub fn new(num_assets: usize) -> (r: Self)
        requires
            num_assets > 0,
            num_assets * 4 <= usize::MAX,
        ensures
            r@ == Seq::new((num_assets * 4) as nat, |i: int| i64::MAX),
            r.wf(),
    {
        let n = num_assets * 4;
        let mut timestamp: Vec<i64> = Vec::new();
        let mut i: usize = 0;
        while i < n
            invariant
                i <= n,
                timestamp@ == Seq::new(i as nat, |k: int| i64::MAX),
            decreases n - i,
        {
            timestamp.push(i64::MAX);
            i = i + 1;
            assert(timestamp@ =~= Seq::new(i as nat, |k: int| i64::MAX));
        }
        Self { timestamp }
    }

    /// Returns the next event to be processed, which has the earliest timestamp, the first slot
    /// winning ties; `None` when no event is pending.
    pub fn next(&self) -> (r: Option<EventIntent>)
        requires
            self.wf(),
        ensures
            match r {
                None => forall|j: int| 0 <= j < self@.len() ==> #[trigger] self@[j] == i64::MAX,
                Some(e) => {
                    &&& is_earliest(self@, slot(e.asset_no as int, e.kind))
                    &&& e.timestamp == self@[slot(e.asset_no as int, e.kind)]
                },
            },
    {
        let len = self.timestamp.len();
        let mut evst_no: usize = 0;
        let mut timestamp = self.timestamp[0];
        let mut i: usize = 1;
        while i < len
            invariant
                len == self@.len(),
                1 <= i <= len,
                evst_no < i,
                timestamp == self@[evst_no as int],
                forall|j: int| 0 <= j < i ==> timestamp <= #[trigger] self@[j],
                forall|j: int| 0 <= j < evst_no ==> timestamp < #[trigger] self@[j],
            decreases len - i,
        {
            if self.timestamp[i] < timestamp {
                timestamp = self.timestamp[i];
                evst_no = i;
            }
            i = i + 1;
        }
        if timestamp == i64::MAX {
            return None;
        }
        let asset_no = evst_no / 4;
        let kind = match evst_no % 4 {
            0 => EventIntentKind::LocalData,
            1 => EventIntentKind::LocalOrder,
            2 => EventIntentKind::ExchData,
            _ => EventIntentKind::ExchOrder,
        };
        Some(EventIntent { timestamp, asset_no, kind })
    }

    fn update(&mut self, evst_no: usize, timestamp: i64)
        requires
            evst_no < old(self)@.len(),
            old(self).wf(),
        ensures
            final(self).wf(),
            final(self)@ == old(self)@.update(evst_no as int, timestamp),
    {
        self.timestamp.set(evst_no, timestamp);
    }

    /// Sets the timestamp of the asset's next local data event.
    pub fn update_local_data(&mut self, asset_no: usize, timestamp: i64)
        requires
            4 * asset_no < old(self)@.len(),
            old(self).wf(),
        ensures
            final(self).wf(),
            final(self)@ == old(self)@.update(slot(asset_no as int, EventIntentKind::LocalData), timestamp),
    {
        self.update(4 * asset_no, timestamp);
    }

    /// Sets the timestamp of the asset's next local order event.
    pub fn update_local_order(&mut self, asset_no: usize, timestamp: i64)
        requires
            4 * asset_no < old(self)@.len(),
            old(self).wf(),
        ensures
            final(self).wf(),
            final(self)@ == old(self)@.update(slot(asset_no as int, EventIntentKind::LocalOrder), timestamp),
    {
        self.update(4 * asset_no + 1, timestamp);
    }

    /// Sets the timestamp of the asset's next exchange data event.
    pub fn update_exch_data(&mut self, asset_no: usize, timestamp: i64)
        requires
            4 * asset_no < old(self)@.len(),
            old(self).wf(),
        ensures
            final(self).wf(),
            final(self)@ == old(self)@.update(slot(asset_no as int, EventIntentKind::ExchData), timestamp),
    {
        self.update(4 * asset_no + 2, timestamp);
    }

    /// Sets the timestamp of the asset's next exchange order event.
    pub fn update_exch_order(&mut self, asset_no: usize, timestamp: i64)
        requires
            4 * asset_no < old(self)@.len(),
            old(self).wf(),
        ensures
            final(self).wf(),
            final(self)@ == old(self)@.update(slot(asset_no as int, EventIntentKind::ExchOrder), timestamp),
    {
        self.update(4 * asset_no + 3, timestamp);
    }

    fn invalidate(&mut self, evst_no: usize)
        requires
            evst_no < old(self)@.len(),
            old(self).wf(),
        ensures
            final(self).wf(),
            final(self)@ == old(self)@.update(evst_no as int, i64::MAX),
    {
        self.update(evst_no, i64::MAX);
    }

    /// Marks the asset's local data as having no pending event.
    pub fn invalidate_local_data(&mut self, asset_no: usize)
        requires
            4 * asset_no < old(self)@.len(),
            old(self).wf(),
        ensures
            final(self).wf(),
            final(self)@ == old(self)@.update(slot(asset_no as int, EventIntentKind::LocalData), i64::MAX),
    {
        self.invalidate(4 * asset_no);
    }

    /// Marks the asset's exchange data as having no pending event.
    pub fn invalidate_exch_data(&mut self, asset_no: usize)
        requires
            4 * asset_no < old(self)@.len(),
            old(self).wf(),
        ensures
            final(self).wf(),
            final(self)@ == old(self)@.update(slot(asset_no as int, EventIntentKind::ExchData), i64::MAX),
    {
        self.invalidate(4 * asset_no + 2);
    }
}

/// At most one slot is the earliest: the event to process next is determined by the timestamps.
pub proof fn lemma_earliest_unique(s: Seq<i64>, i: int, j: int)
    requires
        is_earliest(s, i),
        is_earliest(s, j),
    ensures
        i == j,
{
    if i < j {
        assert(s[j] < s[i]);
    } else if j < i {
        assert(s[i] < s[j]);
    }
}

/// A slot set to a timestamp earlier than every other slot's becomes the earliest.
pub proof fn lemma_update_earliest(s: Seq<i64>, idx: int, timestamp: i64)
    requires
        0 <= idx < s.len(),
        timestamp < i64::MAX,
        forall|j: int| 0 <= j < s.len() && j != idx ==> timestamp < #[trigger] s[j],
    ensures
        is_earliest(s.update(idx, timestamp), idx),
{
}

/// An invalidated slot is never the earliest.
pub proof fn lemma_invalidated_not_earliest(s: Seq<i64>, idx: int)
    requires
        0 <= idx < s.len(),
    ensures
        !is_earliest(s.update(idx, i64::MAX), idx),
{
}

/// Each slot belongs to exactly one asset and kind.
pub proof fn lemma_slot_injective(a1: int, k1: EventIntentKind, a2: int, k2: EventIntentKind)
    requires
        slot(a1, k1) == slot(a2, k2),
    ensures
        a1 == a2,
        k1 == k2,
{
}

} // verus!
