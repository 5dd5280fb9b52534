//! Telemetry records: one structured, sequence-numbered, timestamped
//! reading, regardless of whether it came from a real device or from
//! the simulator.
//!
//! Field values are fixed-point numbers in thousandths (a reading of
//! `22.5` is stored as `22500`), so records carry no floating point.

use vstd::prelude::*;

verus! {

/// Mathematical model of one named field.
pub struct FieldModel {
    pub name: Seq<u8>,
    pub milli: i64,
}

/// Mathematical model of one telemetry record.
pub struct RecordModel {
    pub seq: u64,
    pub timestamp: u64,
    pub fields: Seq<FieldModel>,
}

/// One named numeric field of a record. `milli` is the value in
/// thousandths of the unit the device reports.
pub struct Field {
    pub name: Vec<u8>,
    pub milli: i64,
}

/// One telemetry reading: a monotonic sequence number (per session,
/// starting at 0), the capture timestamp in milliseconds, and the
/// named fields parsed or synthesized for this reading.
pub struct TelemetryRecord {
    pub seq: u64,
    pub timestamp: u64,
    pub fields: Vec<Field>,
}

impl View for Field {
    type V = FieldModel;

    open spec fn view(&self) -> FieldModel {
        FieldModel { name: self.name@, milli: self.milli }
    }
}

impl View for TelemetryRecord {
    type V = RecordModel;

    open spec fn view(&self) -> RecordModel {
        RecordModel {
            seq: self.seq,
            timestamp: self.timestamp,
            fields: self.fields@.map(|i: int, f: Field| f@),
        }
    }
}

/// A byte that may start a field name: an ASCII letter or underscore.
pub open spec fn is_name_start(b: u8) -> bool {
    (97 <= b && b <= 122) || (65 <= b && b <= 90) || b == 95
}

/// A byte that may continue a field name: a name-start byte or digit.
pub open spec fn is_name_byte(b: u8) -> bool {
    is_name_start(b) || is_ascii_digit(b)
}

/// An ASCII decimal digit.
pub open spec fn is_ascii_digit(b: u8) -> bool {
    48 <= b && b <= 57
}

/// A well-formed field name: nonempty, starts with a letter or
/// underscore, continues with letters, digits or underscores.
pub open spec fn valid_name(s: Seq<u8>) -> bool {
    &&& s.len() > 0
    &&& is_name_start(s[0])
    &&& forall|i: int| 0 <= i < s.len() ==> is_name_byte(#[trigger] s[i])
}

/// A complete field: its name is well formed.
pub open spec fn field_wf(f: FieldModel) -> bool {
    valid_name(f.name)
}

/// A complete record: it carries at least one field and every field
/// is well formed. Records pushed to the sink always satisfy this.
pub open spec fn record_wf(r: RecordModel) -> bool {
    &&& r.fields.len() > 0
    &&& forall|i: int| 0 <= i < r.fields.len() ==> field_wf(#[trigger] r.fields[i])
}

} // verus!
