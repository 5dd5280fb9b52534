//! The telemetry simulator: produces records with the same shape and
//! the same sequencing contract as the monitor engine, without any
//! device handle. Values are deterministic: each tick yields the
//! `temp` field swept through the configured range, so consumers can
//! be exercised without hardware and tests know every value exactly.

use vstd::prelude::*;
use vstd::arithmetic::div_mod::{lemma_fundamental_div_mod, lemma_mod_bound};
use vstd::arithmetic::mul::lemma_mul_inequality;
use crate::errors::PortError;
use crate::record::{Field, FieldModel, TelemetryRecord, RecordModel, record_wf, valid_name};
use crate::sink::EventSink;

verus! {

/// Configuration of one simulated stream: the time between records
/// and the bounds (in thousandths) the generated value sweeps over.
#[derive(Clone, Copy, Debug, PartialEq, Eq, Structural)]
pub struct SimulatorConfig {
    pub interval_ms: u64,
    pub lo_milli: i32,
    pub hi_milli: i32,
}

/// A usable configuration: a positive interval and a nonempty range.
pub open spec fn valid_config(c: SimulatorConfig) -> bool {
    1 <= c.interval_ms && c.lo_milli <= c.hi_milli
}

/// The name of the one field every simulated record carries: `temp`.
pub open spec fn temp_field_name() -> Seq<u8> {
    seq![116u8, 101u8, 109u8, 112u8]
}

pub proof fn lemma_temp_name_valid()
    ensures
        valid_name(temp_field_name()),
{
    let s = temp_field_name();
    assert(s[0] == 116 && s[1] == 101 && s[2] == 109 && s[3] == 112);
    assert(forall|i: int| 0 <= i < s.len() ==> crate::record::is_name_byte(#[trigger] s[i]))
        by {
        assert(s[0] == 116 && s[1] == 101 && s[2] == 109 && s[3] == 112);
    }
}

/// The value (in thousandths) generated at `tick`: the configured
/// range swept cyclically from its lower bound.
pub open spec fn sim_milli(c: SimulatorConfig, tick: u64) -> int {
    c.lo_milli + (tick as int) % (c.hi_milli - c.lo_milli + 1)
}

/// The field ranges bound every generated value.
pub proof fn lemma_sim_value_in_range(c: SimulatorConfig, tick: u64)
    requires
        valid_config(c),
    ensures
        c.lo_milli <= sim_milli(c, tick) <= c.hi_milli,
{
    lemma_mod_bound(tick as int, c.hi_milli - c.lo_milli + 1);
}

/// The field set of the record generated at `tick`.
pub open spec fn sim_fields(c: SimulatorConfig, tick: u64) -> Seq<FieldModel> {
    seq![FieldModel { name: temp_field_name(), milli: sim_milli(c, tick) as i64 }]
}

pub proof fn lemma_sim_record_wf(c: SimulatorConfig, seq_no: u64, ts: u64, tick: u64)
    ensures
        record_wf(RecordModel { seq: seq_no, timestamp: ts, fields: sim_fields(c, tick) }),
{
    lemma_temp_name_valid();
}

/// The default configuration: one record per second, `temp` swept
/// between 18.000 and 30.000.
pub fn default_config() -> (c: SimulatorConfig)
    ensures
        c == (SimulatorConfig { interval_ms: 1000u64, lo_milli: 18000i32, hi_milli: 30000i32 }),
        valid_config(c),
{
    SimulatorConfig { interval_ms: 1000, lo_milli: 18000, hi_milli: 30000 }
}

/// The `temp` field name as bytes.
pub fn temp_name() -> (r: Vec<u8>)
    ensures
        r@ == temp_field_name(),
{
    let mut r: Vec<u8> = Vec::new();
    r.push(116);
    r.push(101);
    r.push(109);
    r.push(112);
    proof {
        assert(r@ =~= temp_field_name());
    }
    r
}

/// The generated value at `tick`, executable.
pub fn sim_value(c: &SimulatorConfig, tick: u64) -> (m: i64)
    requires
        valid_config(*c),
    ensures
        m == sim_milli(*c, tick),
{
    let span_i: i64 = c.hi_milli as i64 - c.lo_milli as i64 + 1;
    let span: u64 = span_i as u64;
    proof {
        lemma_mod_bound(tick as int, span as int);
    }
    let idx: u64 = tick % span;
    c.lo_milli as i64 + idx as i64
}

/// One synthetic record snapshot on demand, with the default
/// configuration: sequence number 0, the given capture timestamp,
/// and the `temp` field generated at `tick`.
pub fn mockdata(tick: u64, timestamp: u64) -> (r: TelemetryRecord)
    ensures
        r@ == (RecordModel {
            seq: 0,
            timestamp,
            fields: sim_fields(
                SimulatorConfig { interval_ms: 1000u64, lo_milli: 18000i32, hi_milli: 30000i32 },
                tick,
            ),
        }),
        record_wf(r@),
{
    let config = default_config();
    let milli = sim_value(&config, tick);
    let mut fields: Vec<Field> = Vec::new();
    fields.push(Field { name: temp_name(), milli });
    let r = TelemetryRecord { seq: 0, timestamp, fields };
    proof {
        assert(r@.fields =~= sim_fields(config, tick));
        lemma_sim_record_wf(config, 0, timestamp, tick);
    }
    r
}

/// The records a simulated stream produces: `n` of them, sequence
/// numbers 0 up to `n`, one every interval starting at `base_ts`,
/// each generated from its own index.
pub open spec fn sim_stream(c: SimulatorConfig, base_ts: u64, n: int) -> Seq<RecordModel> {
    Seq::new(n as nat, |k: int| RecordModel {
        seq: k as u64,
        timestamp: (base_ts + k * c.interval_ms) as u64,
        fields: sim_fields(c, k as u64),
    })
}

/// A simulated stream never skips or repeats a sequence number: the
/// `k`-th record pushed carries sequence number exactly `k`, so the
/// numbers are strictly increasing with no gaps starting at 0.
pub proof fn lemma_sim_stream_gapless(c: SimulatorConfig, base_ts: u64, n: int)
    requires
        0 <= n <= u64::MAX,
    ensures
        sim_stream(c, base_ts, n).len() == n,
        forall|k: int| 0 <= k < n ==> (#[trigger] sim_stream(c, base_ts, n)[k]).seq == k,
{
}

/// Runs a whole simulated stream of fixed duration in one call: one
/// record per interval, `duration_ms / interval` records in all (the
/// partial last interval produces none). The shell only schedules
/// the delivery; every record, number and timestamp is fixed here.
pub fn stream_for(config: &SimulatorConfig, duration_ms: u64, base_ts: u64, sink: &mut EventSink) -> (n: u64)
    requires
        valid_config(*config),
        base_ts + duration_ms <= u64::MAX,
    ensures
        n == duration_ms / config.interval_ms,
        final(sink)@ == old(sink)@ + sim_stream(*config, base_ts, n as int),
{
    let n: u64 = duration_ms / config.interval_ms;
    proof {
        lemma_fundamental_div_mod(duration_ms as int, config.interval_ms as int);
        lemma_mod_bound(duration_ms as int, config.interval_ms as int);
        assert((n as int) * (config.interval_ms as int) <= duration_ms as int);
    }
    let mut k: u64 = 0;
    let mut ts: u64 = base_ts;
    while k < n
        invariant
            valid_config(*config),
            k <= n,
            n == duration_ms / config.interval_ms,
            (n as int) * (config.interval_ms as int) <= duration_ms as int,
            base_ts + duration_ms <= u64::MAX,
            ts == base_ts + k as int * config.interval_ms as int,
            sink@ == old(sink)@ + sim_stream(*config, base_ts, k as int),
        decreases n - k,
    {
        proof {
            lemma_mul_inequality(k as int + 1, n as int, config.interval_ms as int);
            assert((k as int + 1) * (config.interval_ms as int) == k as int
                * config.interval_ms as int + config.interval_ms as int) by (nonlinear_arith);
        }
        let milli = sim_value(config, k);
        let mut fields: Vec<Field> = Vec::new();
        fields.push(Field { name: temp_name(), milli });
        let record = TelemetryRecord { seq: k, timestamp: ts, fields };
        proof {
            assert(record@.fields =~= sim_fields(*config, k));
            lemma_sim_record_wf(*config, k, ts, k);
        }
        sink.push(record);
        proof {
            assert(old(sink)@ + sim_stream(*config, base_ts, k as int + 1) =~= (old(sink)@
                + sim_stream(*config, base_ts, k as int)).push(record@));
        }
        ts = ts + config.interval_ms;
        k = k + 1;
    }
    n
}

/// The state of one running simulated stream.
struct SimState {
    config: SimulatorConfig,
    next_seq: u64,
    cancel_requested: bool,
}

/// The simulator: at most one cancellable synthetic stream at a
/// time, with the same cancellation-token and sequencing contract as
/// the monitor engine, and no device handle at all.
pub struct Simulator {
    session: Option<SimState>,
}

impl Simulator {
    /// Whether a stream is active.
    pub closed spec fn streaming(&self) -> bool {
        self.session is Some
    }

    /// The active stream's configuration (immaterial when idle).
    pub closed spec fn config(&self) -> SimulatorConfig {
        match self.session {
            Some(s) => s.config,
            None => SimulatorConfig { interval_ms: 0, lo_milli: 0, hi_milli: 0 },
        }
    }

    /// The sequence number the active stream assigns next.
    pub closed spec fn seq(&self) -> u64 {
        match self.session {
            Some(s) => s.next_seq,
            None => 0,
        }
    }

    /// Whether the active stream has been asked to stop.
    pub closed spec fn cancel_requested(&self) -> bool {
        match self.session {
            Some(s) => s.cancel_requested,
            None => false,
        }
    }

    /// An idle simulator.
    pub fn new() -> (s: Simulator)
        ensures
            !s.streaming(),
    {
        Simulator { session: None }
    }

    /// Starts a synthetic stream. Only one may be active at a time:
    /// a second start is rejected with `AlreadyStreaming` and leaves
    /// the running one untouched. An accepted start numbers its
    /// records from 0.
    pub fn stream_telemetry(&mut self, config: SimulatorConfig) -> (r: Result<(), PortError>)
        requires
            valid_config(config),
        ensures
            match r {
                Ok(_) => !old(self).streaming() && final(self).streaming() && final(self).config() == config && final(self).seq() == 0 && !final(self).cancel_requested(),
                Err(e) => old(self).streaming() && e == PortError::AlreadyStreaming && final(self).streaming() && final(self).config() == old(self).config() && final(self).seq() == old(self).seq() && final(self).cancel_requested() == old(self).cancel_requested(),
            },
    {
        if self.session.is_some() {
            return Err(PortError::AlreadyStreaming);
        }
        self.session = Some(SimState { config, next_seq: 0, cancel_requested: false });
        Ok(())
    }

    /// Produces the active stream's next record into the sink: the
    /// next sequence number, the given capture timestamp, and the
    /// value generated at that sequence index.
    pub fn tick(&mut self, timestamp: u64, sink: &mut EventSink) -> (r: Result<(), PortError>)
        requires
            old(self).seq() < u64::MAX,
            valid_config(old(self).config()) || !old(self).streaming(),
        ensures
            final(self).streaming() == old(self).streaming(),
            final(self).config() == old(self).config(),
            final(self).cancel_requested() == old(self).cancel_requested(),
            match r {
                Ok(_) => old(self).streaming() && final(sink)@ == old(sink)@.push(
                    RecordModel {
                        seq: old(self).seq(),
                        timestamp,
                        fields: sim_fields(old(self).config(), old(self).seq()),
                    },
                ) && final(self).seq() == old(self).seq() + 1,
                Err(e) => !old(self).streaming() && e == PortError::NotOpen && final(sink)@
                    == old(sink)@ && final(self).seq() == old(self).seq(),
            },
    {
        match &mut self.session {
            Some(s) => {
                let milli = sim_value(&s.config, s.next_seq);
                let mut fields: Vec<Field> = Vec::new();
                fields.push(Field { name: temp_name(), milli });
                let record = TelemetryRecord { seq: s.next_seq, timestamp, fields };
                proof {
                    assert(record@.fields =~= sim_fields(old(self).config(), old(self).seq()));
                    lemma_sim_record_wf(old(self).config(), old(self).seq(), timestamp, old(self).seq());
                }
                sink.push(record);
                s.next_seq = s.next_seq + 1;
                Ok(())
            },
            None => Err(PortError::NotOpen),
        }
    }

    /// Requests a cooperative stop of the active stream.
    pub fn request_stop(&mut self)
        ensures
            final(self).streaming() == old(self).streaming(),
            final(self).config() == old(self).config(),
            final(self).seq() == old(self).seq(),
            old(self).streaming() ==> final(self).cancel_requested(),
            !old(self).streaming() ==> final(self).cancel_requested() == old(self).cancel_requested(),
    {
        match &mut self.session {
            Some(s) => {
                s.cancel_requested = true;
            },
            None => {},
        }
    }

    /// Whether the active stream has been asked to stop.
    pub fn is_cancelled(&self) -> (b: bool)
        ensures
            b == self.cancel_requested(),
    {
        match &self.session {
            Some(s) => s.cancel_requested,
            None => false,
        }
    }

    /// Ends the active stream once its loop has observed the stop;
    /// the simulator becomes idle again.
    pub fn finish_stream(&mut self)
        ensures
            !final(self).streaming(),
    {
        self.session = None;
    }
}

} // verus!
