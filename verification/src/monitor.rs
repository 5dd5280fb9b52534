//! The monitor engine: a cancellable session that turns raw device
//! bytes into telemetry records.
//!
//! Bytes arrive in chunks; a record boundary is each line terminator.
//! Partial trailing data is buffered across chunks and completed by
//! the next one. Each complete line either parses into a record that
//! is pushed to the sink, or is counted as a parse warning and
//! skipped — a malformed frame never stops the stream. Sequence
//! numbers start at 0 for each fresh session and increase by 1 per
//! record pushed.

use vstd::prelude::*;
use crate::frame::{NEWLINE, find_sep, find_byte, parse_frame, spec_parse_frame, copy_range};
use crate::record::{TelemetryRecord, RecordModel, field_wf, record_wf};
use crate::sink::EventSink;

verus! {

/// What one run of the engine does to a byte stream: the records
/// produced (in order, with their sequence numbers and timestamp),
/// the number of parse warnings, and the unterminated tail that stays
/// buffered.
pub open spec fn process_stream(data: Seq<u8>, next_seq: int, ts: u64) -> (Seq<RecordModel>, int, Seq<u8>)
    decreases data.len(),
{
    let nl = find_sep(data, NEWLINE);
    if 0 <= nl < data.len() {
        let line = data.take(nl);
        let rest = data.skip(nl + 1);
        match spec_parse_frame(line) {
            Some(fields) => {
                let out = process_stream(rest, next_seq + 1, ts);
                (seq![RecordModel { seq: next_seq as u64, timestamp: ts, fields }] + out.0,
                    out.1, out.2)
            },
            None => {
                let out = process_stream(rest, next_seq, ts);
                (out.0, out.1 + 1, out.2)
            },
        }
    } else {
        (Seq::<RecordModel>::empty(), 0, data)
    }
}

/// Every frame the grammar accepts yields a complete field set.
pub proof fn lemma_frame_fields_wf(s: Seq<u8>)
    ensures
        match spec_parse_frame(s) {
            Some(fs) => fs.len() >= 1 && (forall|i: int|
                0 <= i < fs.len() ==> field_wf(#[trigger] fs[i])),
            None => true,
        },
    decreases s.len(),
{
    crate::frame::lemma_find_sep_props(s, crate::frame::COMMA);
    let c = find_sep(s, crate::frame::COMMA);
    if 0 <= c < s.len() {
        lemma_frame_fields_wf(s.skip(c + 1));
    }
}

/// Every record a stream produces is complete: cancellation or chunk
/// boundaries never leave a partial record, because only whole parsed
/// frames become records.
pub proof fn lemma_stream_records_wf(data: Seq<u8>, next_seq: int, ts: u64)
    ensures
        ({
            let out = process_stream(data, next_seq, ts);
            forall|i: int| 0 <= i < out.0.len() ==> record_wf(#[trigger] out.0[i])
        }),
    decreases data.len(),
{
    let nl = find_sep(data, NEWLINE);
    crate::frame::lemma_find_sep_props(data, NEWLINE);
    let out = process_stream(data, next_seq, ts);
    if 0 <= nl < data.len() {
        lemma_frame_fields_wf(data.take(nl));
        match spec_parse_frame(data.take(nl)) {
            Some(fields) => {
                let tail_out = process_stream(data.skip(nl + 1), next_seq + 1, ts);
                lemma_stream_records_wf(data.skip(nl + 1), next_seq + 1, ts);
                assert forall|i: int| 0 <= i < out.0.len() implies record_wf(
                    #[trigger] out.0[i],
                ) by {
                    if i == 0 {
                        assert(out.0[0] == RecordModel {
                            seq: next_seq as u64,
                            timestamp: ts,
                            fields,
                        });
                    } else {
                        assert(out.0[i] == tail_out.0[i - 1]);
                    }
                }
            },
            None => {
                let tail_out = process_stream(data.skip(nl + 1), next_seq, ts);
                lemma_stream_records_wf(data.skip(nl + 1), next_seq, ts);
                assert forall|i: int| 0 <= i < out.0.len() implies record_wf(
                    #[trigger] out.0[i],
                ) by {
                    assert(out.0[i] == tail_out.0[i]);
                }
            },
        }
    }
}


/// How many times byte `b` occurs in `s`.
pub open spec fn count_byte(s: Seq<u8>, b: u8) -> int
    decreases s.len(),
{
    if s.len() == 0 {
        0
    } else {
        (if s[0] == b {
            1int
        } else {
            0int
        }) + count_byte(s.skip(1), b)
    }
}

pub proof fn lemma_count_byte_split(s: Seq<u8>, b: u8)
    ensures
        ({
            let k = find_sep(s, b);
            if k < s.len() {
                count_byte(s, b) == 1 + count_byte(s.skip(k + 1), b)
            } else {
                count_byte(s, b) == 0
            }
        }),
    decreases s.len(),
{
    crate::frame::lemma_find_sep_props(s, b);
    if s.len() > 0 && s[0] != b {
        let rest = s.skip(1);
        crate::frame::lemma_find_sep_props(rest, b);
        lemma_count_byte_split(rest, b);
        let k = find_sep(s, b);
        if k < s.len() {
            assert(rest.skip(k) =~= s.skip(k + 1));
        }
    }
}

/// Loop continuity: every completed frame is handled, as one record
/// or as exactly one warning — together they account for every line
/// terminator seen — and the buffered leftover holds no terminator,
/// so a malformed frame never costs more than its own line.
pub proof fn lemma_stream_totals(data: Seq<u8>, next_seq: int, ts: u64)
    ensures
        ({
            let out = process_stream(data, next_seq, ts);
            &&& out.0.len() + out.1 == count_byte(data, NEWLINE)
            &&& count_byte(out.2, NEWLINE) == 0
        }),
    decreases data.len(),
{
    let nl = find_sep(data, NEWLINE);
    crate::frame::lemma_find_sep_props(data, NEWLINE);
    lemma_count_byte_split(data, NEWLINE);
    if 0 <= nl < data.len() {
        match spec_parse_frame(data.take(nl)) {
            Some(fields) => {
                lemma_stream_totals(data.skip(nl + 1), next_seq + 1, ts);
            },
            None => {
                lemma_stream_totals(data.skip(nl + 1), next_seq, ts);
            },
        }
    }
}

/// One run of the monitor engine (or of the simulator's loop): the
/// buffered unterminated bytes, the next sequence number to assign,
/// and the cooperative cancellation flag.
pub struct MonitorSession {
    buffer: Vec<u8>,
    next_seq: u64,
    cancel_requested: bool,
}

impl MonitorSession {
    /// The bytes buffered across reads: a started, unterminated frame.
    pub closed spec fn buf(&self) -> Seq<u8> {
        self.buffer@
    }

    /// The sequence number the next record will carry.
    pub closed spec fn seq(&self) -> u64 {
        self.next_seq
    }

    /// Whether a stop has been requested for this session.
    pub closed spec fn cancelled(&self) -> bool {
        self.cancel_requested
    }

    /// A fresh session: empty buffer, sequence numbers from 0, not
    /// cancelled.
    pub fn new() -> (s: MonitorSession)
        ensures
            s.buf() == Seq::<u8>::empty(),
            s.seq() == 0,
            !s.cancelled(),
    {
        MonitorSession { buffer: Vec::new(), next_seq: 0, cancel_requested: false }
    }

    /// Requests a cooperative stop; the loop observes it at its next
    /// iteration. Buffer and sequencing are untouched.
    pub fn request_cancel(&mut self)
        ensures
            final(self).cancelled(),
            final(self).buf() == old(self).buf(),
            final(self).seq() == old(self).seq(),
    {
        self.cancel_requested = true;
    }

    /// Whether a stop has been requested.
    pub fn is_cancelled(&self) -> (b: bool)
        ensures
            b == self.cancelled(),
    {
        self.cancel_requested
    }


    /// The number of bytes currently buffered.
    pub fn buffered_len(&self) -> (n: usize)
        ensures
            n == self.buf().len(),
    {
        self.buffer.len()
    }

    /// The sequence number the next record will carry, for callers.
    pub fn next_sequence(&self) -> (n: u64)
        ensures
            n == self.seq(),
    {
        self.next_seq
    }

    /// Feeds one chunk of raw device bytes to the engine. Completed
    /// frames are parsed in order: each valid one becomes a record
    /// pushed to `sink`, each malformed one counts as a warning; the
    /// unterminated tail stays buffered. Exactly what happens is
    /// `process_stream` of the buffered bytes followed by the chunk.
    pub fn feed_bytes(&mut self, bytes: &Vec<u8>, ts: u64, sink: &mut EventSink) -> (warnings: usize)
        requires
            old(self).seq() + old(self).buf().len() + bytes@.len() <= u64::MAX,
        ensures
            ({
                let out = process_stream(old(self).buf() + bytes@, old(self).seq() as int, ts);
                &&& final(sink)@ == old(sink)@ + out.0
                &&& warnings == out.1
                &&& final(self).buf() == out.2
                &&& final(self).seq() == old(self).seq() + out.0.len()
                &&& final(self).cancelled() == old(self).cancelled()
            }),
    {
        let ghost data = old(self).buf() + bytes@;
        let ghost start_seq = old(self).seq() as int;
        let ghost old_sink = old(sink)@;
        let mut i: usize = 0;
        while i < bytes.len()
            invariant
                i <= bytes@.len(),
                self.buffer@ == old(self).buf() + bytes@.take(i as int),
                self.next_seq == old(self).seq(),
                self.cancel_requested == old(self).cancelled(),
            decreases bytes@.len() - i,
        {
            self.buffer.push(bytes[i]);
            proof {
                assert(old(self).buf() + bytes@.take(i + 1) =~= (old(self).buf()
                    + bytes@.take(i as int)).push(bytes@[i as int]));
            }
            i = i + 1;
        }
        proof {
            assert(bytes@.take(bytes@.len() as int) =~= bytes@);
            assert(self.buffer@ =~= data);
        }
        let len = self.buffer.len();
        let mut start: usize = 0;
        let mut warnings: usize = 0;
        let ghost mut pushed: Seq<RecordModel> = Seq::empty();
        proof {
            assert(data.skip(0) =~= data);
            let rest = process_stream(data, start_seq, ts);
            assert(Seq::<RecordModel>::empty() + rest.0 =~= rest.0);
        }
        loop
            invariant
                start <= len == self.buffer@.len(),
                self.buffer@ == data,
                self.cancel_requested == old(self).cancelled(),
                sink@ == old_sink + pushed,
                self.next_seq == start_seq + pushed.len(),
                self.next_seq as int <= start_seq + start,
                warnings <= start,
                start_seq + data.len() <= u64::MAX,
                ({
                    let whole = process_stream(data, start_seq, ts);
                    let rest = process_stream(data.skip(start as int), self.next_seq as int,
                        ts);
                    &&& whole.0 == pushed + rest.0
                    &&& whole.1 == warnings + rest.1
                    &&& whole.2 == rest.2
                }),
            ensures
                start <= len == self.buffer@.len(),
                self.buffer@ == data,
                self.cancel_requested == old(self).cancelled(),
                ({
                    let whole = process_stream(data, start_seq, ts);
                    &&& sink@ == old_sink + whole.0
                    &&& self.next_seq == start_seq + whole.0.len()
                    &&& warnings == whole.1
                    &&& whole.2 == data.skip(start as int)
                }),
            decreases len - start,
        {
            let nl = find_byte(&self.buffer, start, len, NEWLINE);
            let ghost tail = data.skip(start as int);
            proof {
                assert(tail =~= self.buffer@.subrange(start as int, len as int));
            }
            if nl == len {
                proof {
                    assert(find_sep(tail, NEWLINE) == tail.len());
                    let rest = process_stream(tail, self.next_seq as int, ts);
                    assert(rest.0 == Seq::<RecordModel>::empty());
                    assert(pushed + rest.0 =~= pushed);
                }
                break;
            }
            let ghost line = tail.take(nl - start);
            let ghost rest_bytes = tail.skip(nl - start + 1);
            proof {
                assert(line =~= self.buffer@.subrange(start as int, nl as int));
                assert(rest_bytes =~= data.skip(nl + 1));
                assert(0 <= find_sep(tail, NEWLINE) < tail.len());
            }
            match parse_frame(&self.buffer, start, nl) {
                Some(fields) => {
                    proof {
                        lemma_frame_fields_wf(line);
                    }
                    let record = TelemetryRecord {
                        seq: self.next_seq,
                        timestamp: ts,
                        fields,
                    };
                    let ghost rmodel = record@;
                    sink.push(record);
                    self.next_seq = self.next_seq + 1;
                    proof {
                        let rest = process_stream(tail, (self.next_seq - 1) as int, ts);
                        let rest2 = process_stream(rest_bytes, self.next_seq as int, ts);
                        assert(rest.0 == seq![rmodel] + rest2.0);
                        assert(pushed + (seq![rmodel] + rest2.0) =~= (pushed.push(rmodel))
                            + rest2.0);
                        pushed = pushed.push(rmodel);
                    }
                },
                None => {
                    warnings = warnings + 1;
                },
            }
            start = nl + 1;
        }
        let tail_vec = copy_range(&self.buffer, start, len);
        proof {
            assert(tail_vec@ =~= data.skip(start as int));
        }
        self.buffer = tail_vec;
        warnings
    }
}

} // verus!
