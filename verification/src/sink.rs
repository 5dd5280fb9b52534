//! The event sink: the uniform push destination that both the monitor
//! engine and the simulator write records into. Pushes are accepted in
//! order and never reordered or dropped, so the sequence of records a
//! consumer drains is exactly the sequence the producers issued.

use vstd::prelude::*;
use crate::record::{TelemetryRecord, RecordModel, record_wf};

verus! {

/// Collects pushed records in order. The surrounding shell drains it
/// and forwards the records to the actual consumer; the core only
/// guarantees order and completeness.
pub struct EventSink {
    records: Vec<TelemetryRecord>,
}

impl View for EventSink {
    type V = Seq<RecordModel>;

    closed spec fn view(&self) -> Seq<RecordModel> {
        self.records@.map(|i: int, r: TelemetryRecord| r@)
    }
}

impl EventSink {
    /// An empty sink.
    pub fn new() -> (s: EventSink)
        ensures
            s@ == Seq::<RecordModel>::empty(),
    {
        EventSink { records: Vec::new() }
    }

    /// Accepts one record; only complete records are ever pushed.
    pub fn push(&mut self, r: TelemetryRecord)
        requires
            record_wf(r@),
        ensures
            final(self)@ == old(self)@.push(r@),
    {
        self.records.push(r);
    }

    /// How many records have been pushed so far.
    pub fn len(&self) -> (n: usize)
        ensures
            n == self@.len(),
    {
        self.records.len()
    }

    /// The record at position `i`, in push order.
    pub fn get(&self, i: usize) -> (r: &TelemetryRecord)
        requires
            i < self@.len(),
        ensures
            r@ == self@[i as int],
    {
        &self.records[i]
    }
}

} // verus!
