//! Order latency models.
//!
//! A negative latency stands for an order rejected by the exchange, its magnitude being the
//! latency at which the local receives the rejection.
use vstd::prelude::*;

use crate::backtest::data::reader::DataPreprocess;
use crate::types::Order;

verus! {

/// Provides the order entry latency and the order response latency.
pub trait LatencyModel {
    /// Returns the order entry latency for the given timestamp and order.
    fn entry(&mut self, timestamp: i64, order: &Order) -> i64;

    /// Returns the order response latency for the given timestamp and order.
    fn response(&mut self, timestamp: i64, order: &Order) -> i64;
}

/// Provides a constant order latency.
#[derive(Clone, Copy, Debug)]
pub struct ConstantLatency {
    entry_latency: i64,
    response_latency: i64,
}

impl ConstantLatency {
    /// The entry latency, in the unit of the data's timestamps.
    pub closed spec fn spec_entry_latency(&self) -> i64 {
        self.entry_latency
    }

    /// The response latency, in the unit of the data's timestamps.
    pub closed spec fn spec_response_latency(&self) -> i64 {
        self.response_latency
    }

    /// Constructs a constant latency model; the latencies are in the unit of the data's
    /// timestamps.
    pub fn new(entry_latency: i64, response_latency: i64) -> (r: Self)
        ensures
            r.spec_entry_latency() == entry_latency,
            r.spec_response_latency() == response_latency,
    {
        Self { entry_latency, response_latency }
    }
}

impl LatencyModel for ConstantLatency {
    fn entry(&mut self, _timestamp: i64, _order: &Order) -> (r: i64)
        ensures
            r == old(self).spec_entry_latency(),
            *final(self) == *old(self),
    {
        self.entry_latency
    }

    fn response(&mut self, _timestamp: i64, _order: &Order) -> (r: i64)
        ensures
            r == old(self).spec_response_latency(),
            *final(self) == *old(self),
    {
        self.response_latency
    }
}

/// A row of the historical order latency data.
#[derive(Clone, Copy, Debug)]
pub struct OrderLatencyRow {
    /// Timestamp at which the request occurs.
    pub req_ts: i64,
    /// Timestamp at which the exchange processes the request.
    pub exch_ts: i64,
    /// Timestamp at which the response is received.
    pub resp_ts: i64,
    /// For the alignment.
    pub _padding: i64,
}

/// The differences between the row's timestamps fit in an `i64`.
pub open spec fn spans_fit(row: OrderLatencyRow) -> bool {
    &&& i64::MIN <= row.exch_ts - row.req_ts <= i64::MAX
    &&& i64::MIN <= row.resp_ts - row.req_ts <= i64::MAX
    &&& i64::MIN <= row.resp_ts - row.exch_ts <= i64::MAX
}

/// The differences between the timestamps of every row fit in an `i64`.
pub open spec fn rows_fit(rows: Seq<OrderLatencyRow>) -> bool {
    forall|i: int| 0 <= i < rows.len() ==> #[trigger] spans_fit(rows[i])
}

/// A row follows the row at `i`: the next one of the chunk, or the first of the next chunk.
pub open spec fn has_row_after(rows: Seq<OrderLatencyRow>, next: Seq<OrderLatencyRow>, i: int) -> bool {
    i + 1 < rows.len() || next.len() > 0
}

/// The row that follows the row at `i`.
pub open spec fn row_after(rows: Seq<OrderLatencyRow>, next: Seq<OrderLatencyRow>, i: int) -> OrderLatencyRow {
    if i + 1 < rows.len() {
        rows[i + 1]
    } else {
        next[0]
    }
}

/// The request timestamps of the row at `i` and of the row after it bracket `ts`.
pub open spec fn req_brackets(rows: Seq<OrderLatencyRow>, next: Seq<OrderLatencyRow>, i: int, ts: i64) -> bool {
    has_row_after(rows, next, i) && rows[i].req_ts <= ts < row_after(rows, next, i).req_ts
}

/// The exchange timestamps of the row at `i` and of the row after it bracket `ts`.
pub open spec fn exch_brackets(rows: Seq<OrderLatencyRow>, next: Seq<OrderLatencyRow>, i: int, ts: i64) -> bool {
    has_row_after(rows, next, i) && rows[i].exch_ts <= ts < row_after(rows, next, i).exch_ts
}

/// What a search of the latency data found for a timestamp.
#[derive(Clone, Copy, Debug)]
pub enum LatencyLookup {
    /// The latency, taken as it stands from a row.
    Latency(i64),
    /// The latency is the linear interpolation at `x` of the points `(x1, y1)` and `(x2, y2)`,
    /// negated when `rejected` is set: the exchange rejected requests around that time.
    Interpolate { x: i64, x1: i64, y1: i64, x2: i64, y2: i64, rejected: bool },
    /// The loaded rows end before the timestamp: the search goes on once the next chunk is
    /// loaded.
    NeedsChunk,
}

/// The entry latency at `ts` between the row and the one after it: the request-to-exchange
/// latencies, or, when either row holds no exchange timestamp (a rejection), the negated
/// request-to-response latencies.
pub open spec fn entry_between(row: OrderLatencyRow, next_row: OrderLatencyRow, ts: i64) -> LatencyLookup {
    if row.exch_ts <= 0 || next_row.exch_ts <= 0 {
        LatencyLookup::Interpolate {
            x: ts,
            x1: row.req_ts,
            y1: (row.resp_ts - row.req_ts) as i64,
            x2: next_row.req_ts,
            y2: (next_row.resp_ts - next_row.req_ts) as i64,
            rejected: true,
        }
    } else {
        LatencyLookup::Interpolate {
            x: ts,
            x1: row.req_ts,
            y1: (row.exch_ts - row.req_ts) as i64,
            x2: next_row.req_ts,
            y2: (next_row.exch_ts - next_row.req_ts) as i64,
            rejected: false,
        }
    }
}

/// The response latency at `ts` between the row and the one after it: the exchange-to-response
/// latencies.
pub open spec fn response_between(row: OrderLatencyRow, next_row: OrderLatencyRow, ts: i64) -> LatencyLookup {
    LatencyLookup::Interpolate {
        x: ts,
        x1: row.exch_ts,
        y1: (row.resp_ts - row.exch_ts) as i64,
        x2: next_row.exch_ts,
        y2: (next_row.resp_ts - next_row.exch_ts) as i64,
        rejected: false,
    }
}

/// The order latency interpolated from historical order latency data, loaded chunk by chunk:
/// the current chunk and the one after it are held, with the row each search resumes from.
pub struct IntpOrderLatency {
    entry_rn: usize,
    resp_rn: usize,
    data: Vec<OrderLatencyRow>,
    next_data: Vec<OrderLatencyRow>,
}

impl IntpOrderLatency {
    /// The rows of the current chunk.
    pub closed spec fn rows(&self) -> Seq<OrderLatencyRow> {
        self.data@
    }

    /// The rows of the next chunk, empty at the end of the data.
    pub closed spec fn next_rows(&self) -> Seq<OrderLatencyRow> {
        self.next_data@
    }

    /// The row the entry latency search resumes from.
    pub closed spec fn entry_row(&self) -> int {
        self.entry_rn as int
    }

    /// The row the response latency search resumes from.
    pub closed spec fn response_row(&self) -> int {
        self.resp_rn as int
    }

    /// Constructs the model over the first two chunks of the data, each empty past the end of
    /// the data; both searches start at the first row.
    pub fn new(data: Vec<OrderLatencyRow>, next_data: Vec<OrderLatencyRow>) -> (r: Self)
        ensures
            r.rows() == data@,
            r.next_rows() == next_data@,
            r.entry_row() == 0,
            r.response_row() == 0,
    {
        Self { entry_rn: 0, resp_rn: 0, data, next_data }
    }

    /// Whether a next chunk is held: the data does not end with the current chunk.
    pub fn has_next_data(&self) -> (r: bool)
        ensures
            r == (self.next_rows().len() > 0),
    {
        self.next_data.len() > 0
    }

    /// Moves on to the next chunk when one is held: it becomes the current chunk, and `chunk`,
    /// the one loaded after it (empty past the end of the data), becomes the next; the rows of
    /// the chunk left behind are returned. With no next chunk, the model is left as it is and
    /// `None` is returned. The rows the searches resume from are kept.
    pub fn next_data(&mut self, chunk: Vec<OrderLatencyRow>) -> (released: Option<
        Vec<OrderLatencyRow>,
    >)
        ensures
            old(self).next_rows().len() == 0 ==> released is None && final(self).rows() == old(
                self,
            ).rows() && final(self).next_rows() == old(self).next_rows(),
            old(self).next_rows().len() > 0 ==> (released matches Some(v) && v@ == old(self).rows())
                && final(self).rows() == old(self).next_rows() && final(self).next_rows()
                == chunk@,
            final(self).entry_row() == old(self).entry_row(),
            final(self).response_row() == old(self).response_row(),
    {
        if self.next_data.len() == 0 {
            return None;
        }
        let mut released = chunk;
        std::mem::swap(&mut released, &mut self.next_data);
        std::mem::swap(&mut released, &mut self.data);
        Some(released)
    }

    /// The search from the entry row: the first row at or after it whose request timestamp and
    /// the next row's bracket `timestamp` gives the interpolation between the two; the last row
    /// of the data gives its own latency; the last row of a chunk with no bracket asks for the
    /// next chunk. The entry row moves to the row the search stopped at.
    fn search_entry(&mut self, timestamp: i64) -> (r: LatencyLookup)
        requires
            0 <= old(self).entry_row() < old(self).rows().len(),
            rows_fit(old(self).rows()),
            rows_fit(old(self).next_rows()),
        ensures
            final(self).rows() == old(self).rows(),
            final(self).next_rows() == old(self).next_rows(),
            final(self).response_row() == old(self).response_row(),
            old(self).entry_row() <= final(self).entry_row() < old(self).rows().len(),
            forall|i: int|
                old(self).entry_row() <= i < final(self).entry_row() ==> !req_brackets(
                    old(self).rows(),
                    old(self).next_rows(),
                    i,
                    timestamp,
                ),
            ({
                let rows = old(self).rows();
                let next = old(self).next_rows();
                let k = final(self).entry_row();
                match r {
                    LatencyLookup::Latency(l) => k == rows.len() - 1 && next.len() == 0 && l
                        == rows[k].exch_ts - rows[k].req_ts,
                    LatencyLookup::Interpolate { .. } => req_brackets(rows, next, k, timestamp)
                        && r == entry_between(rows[k], row_after(rows, next, k), timestamp),
                    LatencyLookup::NeedsChunk => k == rows.len() - 1 && next.len() > 0
                        && !req_brackets(rows, next, k, timestamp),
                }
            }),
    {
        let n = self.data.len();
        loop
            invariant
                n == self.data@.len(),
                self.data@ == old(self).data@,
                self.next_data@ == old(self).next_data@,
                self.resp_rn == old(self).resp_rn,
                old(self).entry_rn <= self.entry_rn < n,
                rows_fit(self.data@),
                rows_fit(self.next_data@),
                forall|i: int|
                    old(self).entry_rn <= i < self.entry_rn ==> !req_brackets(
                        self.data@,
                        self.next_data@,
                        i,
                        timestamp,
                    ),
            decreases n - self.entry_rn,
        {
            let i = self.entry_rn;
            let row = self.data[i];
            assert(spans_fit(self.data@[i as int]));
            let next_row = if i + 1 < n {
                self.data[i + 1]
            } else if self.next_data.len() > 0 {
                self.next_data[0]
            } else {
                return LatencyLookup::Latency(row.exch_ts - row.req_ts);
            };
            assert(next_row == row_after(self.data@, self.next_data@, i as int));
            if row.req_ts <= timestamp && timestamp < next_row.req_ts {
                if i + 1 < n {
                    assert(spans_fit(self.data@[i + 1]));
                } else {
                    assert(spans_fit(self.next_data@[0]));
                }
                if row.exch_ts <= 0 || next_row.exch_ts <= 0 {
                    return LatencyLookup::Interpolate {
                        x: timestamp,
                        x1: row.req_ts,
                        y1: row.resp_ts - row.req_ts,
                        x2: next_row.req_ts,
                        y2: next_row.resp_ts - next_row.req_ts,
                        rejected: true,
                    };
                }
                return LatencyLookup::Interpolate {
                    x: timestamp,
                    x1: row.req_ts,
                    y1: row.exch_ts - row.req_ts,
                    x2: next_row.req_ts,
                    y2: next_row.exch_ts - next_row.req_ts,
                    rejected: false,
                };
            } else if i == n - 1 {
                return LatencyLookup::NeedsChunk;
            } else {
                self.entry_rn = i + 1;
            }
        }
    }

    /// The search from the response row, as [`Self::search_entry`] but over the exchange
    /// timestamps, giving the exchange-to-response latencies.
    fn search_response(&mut self, timestamp: i64) -> (r: LatencyLookup)
        requires
            0 <= old(self).response_row() < old(self).rows().len(),
            rows_fit(old(self).rows()),
            rows_fit(old(self).next_rows()),
        ensures
            final(self).rows() == old(self).rows(),
            final(self).next_rows() == old(self).next_rows(),
            final(self).entry_row() == old(self).entry_row(),
            old(self).response_row() <= final(self).response_row() < old(self).rows().len(),
            forall|i: int|
                old(self).response_row() <= i < final(self).response_row() ==> !exch_brackets(
                    old(self).rows(),
                    old(self).next_rows(),
                    i,
                    timestamp,
                ),
            ({
                let rows = old(self).rows();
                let next = old(self).next_rows();
                let k = final(self).response_row();
                match r {
                    LatencyLookup::Latency(l) => k == rows.len() - 1 && next.len() == 0 && l
                        == rows[k].resp_ts - rows[k].exch_ts,
                    LatencyLookup::Interpolate { .. } => exch_brackets(rows, next, k, timestamp)
                        && r == response_between(rows[k], row_after(rows, next, k), timestamp),
                    LatencyLookup::NeedsChunk => k == rows.len() - 1 && next.len() > 0
                        && !exch_brackets(rows, next, k, timestamp),
                }
            }),
    {
        let n = self.data.len();
        loop
            invariant
                n == self.data@.len(),
                self.data@ == old(self).data@,
                self.next_data@ == old(self).next_data@,
                self.entry_rn == old(self).entry_rn,
                old(self).resp_rn <= self.resp_rn < n,
                rows_fit(self.data@),
                rows_fit(self.next_data@),
                forall|i: int|
                    old(self).resp_rn <= i < self.resp_rn ==> !exch_brackets(
                        self.data@,
                        self.next_data@,
                        i,
                        timestamp,
                    ),
            decreases n - self.resp_rn,
        {
            let i = self.resp_rn;
            let row = self.data[i];
            assert(spans_fit(self.data@[i as int]));
            let next_row = if i + 1 < n {
                self.data[i + 1]
            } else if self.next_data.len() > 0 {
                self.next_data[0]
            } else {
                return LatencyLookup::Latency(row.resp_ts - row.exch_ts);
            };
            assert(next_row == row_after(self.data@, self.next_data@, i as int));
            if row.exch_ts <= timestamp && timestamp < next_row.exch_ts {
                if i + 1 < n {
                    assert(spans_fit(self.data@[i + 1]));
                } else {
                    assert(spans_fit(self.next_data@[0]));
                }
                return LatencyLookup::Interpolate {
                    x: timestamp,
                    x1: row.exch_ts,
                    y1: row.resp_ts - row.exch_ts,
                    x2: next_row.exch_ts,
                    y2: next_row.resp_ts - next_row.exch_ts,
                    rejected: false,
                };
            } else if i == n - 1 {
                return LatencyLookup::NeedsChunk;
            } else {
                self.resp_rn = i + 1;
            }
        }
    }

    /// Looks up the order entry latency of a request at `timestamp`. Before the first row, it is
    /// the first row's request-to-exchange latency; otherwise the search described at
    /// [`Self::search_entry`] runs from the entry row. On [`LatencyLookup::NeedsChunk`], load the
    /// chunk after the next one, pass it to [`Self::next_data`], and call
    /// [`Self::entry_from_start`].
    pub fn entry(&mut self, timestamp: i64) -> (r: LatencyLookup)
        requires
            0 <= old(self).entry_row() < old(self).rows().len(),
            rows_fit(old(self).rows()),
            rows_fit(old(self).next_rows()),
        ensures
            final(self).rows() == old(self).rows(),
            final(self).next_rows() == old(self).next_rows(),
            final(self).response_row() == old(self).response_row(),
            timestamp < old(self).rows()[0].req_ts ==> r == LatencyLookup::Latency(
                (old(self).rows()[0].exch_ts - old(self).rows()[0].req_ts) as i64,
            ) && final(self).entry_row() == old(self).entry_row(),
            timestamp >= old(self).rows()[0].req_ts ==> {
                let rows = old(self).rows();
                let next = old(self).next_rows();
                let k = final(self).entry_row();
                &&& old(self).entry_row() <= k < rows.len()
                &&& forall|i: int|
                    old(self).entry_row() <= i < k ==> !req_brackets(rows, next, i, timestamp)
                &&& match r {
                    LatencyLookup::Latency(l) => k == rows.len() - 1 && next.len() == 0 && l
                        == rows[k].exch_ts - rows[k].req_ts,
                    LatencyLookup::Interpolate { .. } => req_brackets(rows, next, k, timestamp)
                        && r == entry_between(rows[k], row_after(rows, next, k), timestamp),
                    LatencyLookup::NeedsChunk => k == rows.len() - 1 && next.len() > 0
                        && !req_brackets(rows, next, k, timestamp),
                }
            },
    {
        let first = self.data[0];
        assert(spans_fit(self.data@[0]));
        if timestamp < first.req_ts {
            return LatencyLookup::Latency(first.exch_ts - first.req_ts);
        }
        self.search_entry(timestamp)
    }

    /// Goes on with the entry latency search from the first row of the current chunk, as after
    /// [`Self::next_data`].
    pub fn entry_from_start(&mut self, timestamp: i64) -> (r: LatencyLookup)
        requires
            old(self).rows().len() > 0,
            rows_fit(old(self).rows()),
            rows_fit(old(self).next_rows()),
        ensures
            final(self).rows() == old(self).rows(),
            final(self).next_rows() == old(self).next_rows(),
            final(self).response_row() == old(self).response_row(),
            ({
                let rows = old(self).rows();
                let next = old(self).next_rows();
                let k = final(self).entry_row();
                &&& 0 <= k < rows.len()
                &&& forall|i: int| 0 <= i < k ==> !req_brackets(rows, next, i, timestamp)
                &&& match r {
                    LatencyLookup::Latency(l) => k == rows.len() - 1 && next.len() == 0 && l
                        == rows[k].exch_ts - rows[k].req_ts,
                    LatencyLookup::Interpolate { .. } => req_brackets(rows, next, k, timestamp)
                        && r == entry_between(rows[k], row_after(rows, next, k), timestamp),
                    LatencyLookup::NeedsChunk => k == rows.len() - 1 && next.len() > 0
                        && !req_brackets(rows, next, k, timestamp),
                }
            }),
    {
        self.entry_rn = 0;
        self.search_entry(timestamp)
    }

    /// Looks up the order response latency of a request processed by the exchange at
    /// `timestamp`. Before the first row, it is the first row's exchange-to-response latency;
    /// otherwise the search described at [`Self::search_response`] runs from the response row.
    /// On [`LatencyLookup::NeedsChunk`], load the chunk after the next one, pass it to
    /// [`Self::next_data`], and call [`Self::response_from_start`].
    pub fn response(&mut self, timestamp: i64) -> (r: LatencyLookup)
        requires
            0 <= old(self).response_row() < old(self).rows().len(),
            rows_fit(old(self).rows()),
            rows_fit(old(self).next_rows()),
        ensures
            final(self).rows() == old(self).rows(),
            final(self).next_rows() == old(self).next_rows(),
            final(self).entry_row() == old(self).entry_row(),
            timestamp < old(self).rows()[0].exch_ts ==> r == LatencyLookup::Latency(
                (old(self).rows()[0].resp_ts - old(self).rows()[0].exch_ts) as i64,
            ) && final(self).response_row() == old(self).response_row(),
            timestamp >= old(self).rows()[0].exch_ts ==> {
                let rows = old(self).rows();
                let next = old(self).next_rows();
                let k = final(self).response_row();
                &&& old(self).response_row() <= k < rows.len()
                &&& forall|i: int|
                    old(self).response_row() <= i < k ==> !exch_brackets(rows, next, i, timestamp)
                &&& match r {
                    LatencyLookup::Latency(l) => k == rows.len() - 1 && next.len() == 0 && l
                        == rows[k].resp_ts - rows[k].exch_ts,
                    LatencyLookup::Interpolate { .. } => exch_brackets(rows, next, k, timestamp)
                        && r == response_between(rows[k], row_after(rows, next, k), timestamp),
                    LatencyLookup::NeedsChunk => k == rows.len() - 1 && next.len() > 0
                        && !exch_brackets(rows, next, k, timestamp),
                }
            },
    {
        let first = self.data[0];
        assert(spans_fit(self.data@[0]));
        if timestamp < first.exch_ts {
            return LatencyLookup::Latency(first.resp_ts - first.exch_ts);
        }
        self.search_response(timestamp)
    }

    /// Goes on with the response latency search from the first row of the current chunk, as
    /// after [`Self::next_data`].
    pub fn response_from_start(&mut self, timestamp: i64) -> (r: LatencyLookup)
        requires
            old(self).rows().len() > 0,
            rows_fit(old(self).rows()),
            rows_fit(old(self).next_rows()),
        ensures
            final(self).rows() == old(self).rows(),
            final(self).next_rows() == old(self).next_rows(),
            final(self).entry_row() == old(self).entry_row(),
            ({
                let rows = old(self).rows();
                let next = old(self).next_rows();
                let k = final(self).response_row();
                &&& 0 <= k < rows.len()
                &&& forall|i: int| 0 <= i < k ==> !exch_brackets(rows, next, i, timestamp)
                &&& match r {
                    LatencyLookup::Latency(l) => k == rows.len() - 1 && next.len() == 0 && l
                        == rows[k].resp_ts - rows[k].exch_ts,
                    LatencyLookup::Interpolate { .. } => exch_brackets(rows, next, k, timestamp)
                        && r == response_between(rows[k], row_after(rows, next, k), timestamp),
                    LatencyLookup::NeedsChunk => k == rows.len() - 1 && next.len() > 0
                        && !exch_brackets(rows, next, k, timestamp),
                }
            }),
    {
        self.resp_rn = 0;
        self.search_response(timestamp)
    }

    /// Whether the entry search can run: its row lies within the current chunk.
    pub fn entry_row_loaded(&self) -> (r: bool)
        ensures
            r == (self.entry_row() < self.rows().len()),
    {
        self.entry_rn < self.data.len()
    }

    /// Whether the response search can run: its row lies within the current chunk.
    pub fn response_row_loaded(&self) -> (r: bool)
        ensures
            r == (self.response_row() < self.rows().len()),
    {
        self.resp_rn < self.data.len()
    }
}

/// Shifts the order latency data's exchange timestamps by an offset, and the response timestamps
/// by twice the offset: the offset is added to both legs of the round trip.
#[derive(Clone, Copy, Debug)]
pub struct OrderLatencyAdjustment {
    latency_offset: i64,
}

/// The latency row shifted by the offset.
pub open spec fn shifted_row(row: OrderLatencyRow, offset: i64) -> OrderLatencyRow {
    OrderLatencyRow {
        exch_ts: (row.exch_ts + offset) as i64,
        resp_ts: (row.resp_ts + (offset + offset)) as i64,
        ..row
    }
}

impl OrderLatencyAdjustment {
    /// The offset.
    pub closed spec fn offset(&self) -> i64 {
        self.latency_offset
    }

    /// Constructs the adjustment with the given offset.
    pub fn new(latency_offset: i64) -> (r: Self)
        ensures
            r.offset() == latency_offset,
    {
        Self { latency_offset }
    }
}

impl DataPreprocess<Vec<OrderLatencyRow>> for OrderLatencyAdjustment {
    /// Every shifted timestamp fits in an `i64`.
    open spec fn can_preprocess(&self, data: Vec<OrderLatencyRow>) -> bool {
        forall|i: int|
            0 <= i < data@.len() ==> i64::MIN <= #[trigger] data@[i].exch_ts + self.offset()
                <= i64::MAX && i64::MIN <= self.offset() + self.offset() <= i64::MAX && i64::MIN
                <= data@[i].resp_ts + (self.offset() + self.offset()) <= i64::MAX
    }

    /// No data is refused.
    open spec fn refuses(&self, data: Vec<OrderLatencyRow>) -> bool {
        false
    }

    /// Every row is shifted by the offset.
    open spec fn preprocessed(&self, before: Vec<OrderLatencyRow>, after: Vec<OrderLatencyRow>) -> bool {
        &&& after@.len() == before@.len()
        &&& forall|i: int| 0 <= i < before@.len() ==> #[trigger] after@[i] == shifted_row(before@[i], self.offset())
    }

    /// No data is refused, so there is no reason to give.
    open spec fn reason(&self, data: Vec<OrderLatencyRow>) -> Seq<char> {
        Seq::empty()
    }

    /// Shifts every row of the data.
    fn preprocess(&self, data: &mut Vec<OrderLatencyRow>) -> (r: Result<(), String>)
        ensures
            r is Ok,
    {
        let n = data.len();
        let mut i: usize = 0;
        while i < n
            invariant
                n == data@.len(),
                n == old(data)@.len(),
                i <= n,
                forall|j: int| 0 <= j < i ==> #[trigger] data@[j] == shifted_row(old(data)@[j], self.offset()),
                forall|j: int| i <= j < n ==> #[trigger] data@[j] == old(data)@[j],
                forall|j: int|
                    0 <= j < n ==> i64::MIN <= #[trigger] old(data)@[j].exch_ts + self.offset()
                        <= i64::MAX && i64::MIN <= self.offset() + self.offset() <= i64::MAX
                        && i64::MIN <= old(data)@[j].resp_ts + (self.offset() + self.offset())
                        <= i64::MAX,
            decreases n - i,
        {
            let row = data[i];
            let shifted = OrderLatencyRow {
                exch_ts: row.exch_ts + self.latency_offset,
                resp_ts: row.resp_ts + (self.latency_offset + self.latency_offset),
                ..row
            };
            data.set(i, shifted);
            i = i + 1;
        }
        Ok(())
    }
}

/// The exchange and local timestamps of a feed event.
#[derive(Clone, Copy, Debug)]
pub struct FeedTimestamps {
    pub exch_ts: i64,
    pub local_ts: i64,
}

/// Shifts the feed data's local timestamps by an offset, as when the strategy runs at a
/// location other than where the feed was recorded.
#[derive(Clone, Copy, Debug)]
pub struct FeedLatencyAdjustment {
    latency_offset: i64,
}

/// The event's timestamps with the local one shifted by the offset.
pub open spec fn shifted_feed(row: FeedTimestamps, offset: i64) -> FeedTimestamps {
    FeedTimestamps { local_ts: (row.local_ts + offset) as i64, ..row }
}

/// The index of the first event whose shifted local timestamp is not after its exchange
/// timestamp, if there is one.
pub open spec fn first_inverted(data: Seq<FeedTimestamps>, offset: i64) -> Option<int> {
    if exists|i: int|
        0 <= i < data.len() && #[trigger] data[i].local_ts + offset <= data[i].exch_ts {
        Some(
            choose|i: int|
                0 <= i < data.len() && #[trigger] data[i].local_ts + offset <= data[i].exch_ts
                    && forall|j: int|
                    0 <= j < i ==> data[j].local_ts + offset > #[trigger] data[j].exch_ts,
        )
    } else {
        None
    }
}

impl FeedLatencyAdjustment {
    /// The offset.
    pub closed spec fn offset(&self) -> i64 {
        self.latency_offset
    }

    /// Constructs the adjustment with the given offset.
    pub fn new(latency_offset: i64) -> (r: Self)
        ensures
            r.offset() == latency_offset,
    {
        Self { latency_offset }
    }
}

impl DataPreprocess<Vec<FeedTimestamps>> for FeedLatencyAdjustment {
    /// Every shifted local timestamp fits in an `i64`.
    open spec fn can_preprocess(&self, data: Vec<FeedTimestamps>) -> bool {
        forall|i: int|
            0 <= i < data@.len() ==> i64::MIN <= #[trigger] data@[i].local_ts + self.offset()
                <= i64::MAX
    }

    /// Some event's shifted local timestamp is not after its exchange timestamp.
    open spec fn refuses(&self, data: Vec<FeedTimestamps>) -> bool {
        exists|i: int|
            0 <= i < data@.len() && #[trigger] data@[i].local_ts + self.offset() <= data@[i].exch_ts
    }

    /// Every event's local timestamp is shifted by the offset.
    open spec fn preprocessed(&self, before: Vec<FeedTimestamps>, after: Vec<FeedTimestamps>) -> bool {
        &&& after@.len() == before@.len()
        &&& forall|i: int| 0 <= i < before@.len() ==> #[trigger] after@[i] == shifted_feed(before@[i], self.offset())
    }

    /// The reason for refusing the data.
    open spec fn reason(&self, data: Vec<FeedTimestamps>) -> Seq<char> {
        "`local_ts` became less than or equal to `exch_ts` after applying the latency offset"@
    }

    /// Adds the offset to each event's local timestamp, in order. An event whose local timestamp
    /// becomes less than or equal to its exchange timestamp stops the adjustment with an error;
    /// that event is shifted, the ones after it are not.
    fn preprocess(&self, data: &mut Vec<FeedTimestamps>) -> (r: Result<(), String>)
        ensures
            final(data)@.len() == old(data)@.len(),
            r is Err <==> exists|i: int|
                0 <= i < old(data)@.len() && #[trigger] old(data)@[i].local_ts + self.offset()
                    <= old(data)@[i].exch_ts,
            forall|i: int|
                0 <= i < old(data)@.len() ==> #[trigger] final(data)@[i] == if (r is Ok || i
                    <= first_inverted(old(data)@, self.offset())->0) {
                    shifted_feed(old(data)@[i], self.offset())
                } else {
                    old(data)@[i]
                },
    {
        let n = data.len();
        let mut i: usize = 0;
        while i < n
            invariant
                n == data@.len(),
                n == old(data)@.len(),
                i <= n,
                forall|j: int|
                    0 <= j < i ==> #[trigger] data@[j] == shifted_feed(old(data)@[j], self.offset()),
                forall|j: int| 0 <= j < i ==> old(data)@[j].local_ts + self.offset() > #[trigger] old(data)@[j].exch_ts,
                forall|j: int| i <= j < n ==> #[trigger] data@[j] == old(data)@[j],
                forall|j: int|
                    0 <= j < n ==> i64::MIN <= #[trigger] old(data)@[j].local_ts + self.offset()
                        <= i64::MAX,
            decreases n - i,
        {
            let row = data[i];
            let shifted = FeedTimestamps { local_ts: row.local_ts + self.latency_offset, ..row };
            data.set(i, shifted);
            if shifted.local_ts <= shifted.exch_ts {
                proof {
                    let k = i as int;
                    assert(old(data)@[k].local_ts + self.offset() <= old(data)@[k].exch_ts);
                    let f = first_inverted(old(data)@, self.offset());
                    assert(f == Some(k)) by {
                        let c = choose|c: int|
                            0 <= c < old(data)@.len() && #[trigger] old(data)@[c].local_ts
                                + self.offset() <= old(data)@[c].exch_ts && forall|j: int|
                                0 <= j < c ==> old(data)@[j].local_ts + self.offset()
                                    > #[trigger] old(data)@[j].exch_ts;
                        assert(0 <= k < old(data)@.len() && old(data)@[k].local_ts + self.offset()
                            <= old(data)@[k].exch_ts && forall|j: int|
                            0 <= j < k ==> old(data)@[j].local_ts + self.offset()
                                > #[trigger] old(data)@[j].exch_ts);
                        if c < k {
                            assert(old(data)@[c].local_ts + self.offset() > old(data)@[c].exch_ts);
                        } else if c > k {
                            assert(old(data)@[k].local_ts + self.offset() > old(data)@[k].exch_ts);
                        }
                    }
                }
                return Err("`local_ts` became less than or equal to `exch_ts` after applying the latency offset".to_owned());
            }
            i = i + 1;
        }
        Ok(())
    }
}

} // verus!
