//! The lifecycle manager: opens and closes the device against the
//! registry and starts the monitor engine, enforcing the
//! single-active-port state machine `Closed -> Open -> Monitoring`.
//!
//! Device I/O happens outside the core: the shell attempts the OS
//! open, performs the reads, and waits for the loop to acknowledge a
//! stop. Each operation here takes the outcome of that outside step
//! as a plain value and makes every decision about it, so the whole
//! state machine is verified for every possible outcome.

use vstd::prelude::*;
use crate::errors::PortError;
use crate::monitor::{MonitorSession, process_stream};
use crate::ports::{PortDescriptor, PortType};
use crate::registry::{Registry, PortHandle, HandleModel};
use crate::sink::EventSink;

verus! {

/// The externally visible states of the lifecycle state machine.
#[derive(Clone, Copy, Debug, PartialEq, Eq, Structural)]
pub enum PortState {
    Closed,
    Open,
    Monitoring,
}

/// The standard UART rates the manager accepts.
pub open spec fn supported_baud(baud: u32) -> bool {
    ||| baud == 1200
    ||| baud == 2400
    ||| baud == 4800
    ||| baud == 9600
    ||| baud == 19200
    ||| baud == 38400
    ||| baud == 57600
    ||| baud == 115200
    ||| baud == 230400
}

/// Open parameters pass validation when the path is nonempty and the
/// rate is a supported standard rate.
pub open spec fn valid_open_params(path: Seq<char>, baud: u32) -> bool {
    path.len() > 0 && supported_baud(baud)
}

/// Whether an open request is accepted: parameters valid, nothing
/// open yet, and the device itself could be opened.
pub open spec fn open_accepted(s: PortState, path: Seq<char>, baud: u32, device_ok: bool) -> bool {
    valid_open_params(path, baud) && s == PortState::Closed && device_ok
}

/// The error an open request is refused with: parameter errors come
/// first (before any I/O), then the single-active-port rule, then
/// device availability.
pub open spec fn open_error(s: PortState, path: Seq<char>, baud: u32, device_ok: bool) -> PortError {
    if !valid_open_params(path, baud) {
        PortError::InvalidParameter
    } else if s != PortState::Closed {
        PortError::AlreadyOpen
    } else {
        PortError::DeviceUnavailable
    }
}

/// The state after an open request.
pub open spec fn open_next(s: PortState, path: Seq<char>, baud: u32, device_ok: bool) -> PortState {
    if open_accepted(s, path, baud, device_ok) {
        PortState::Open
    } else {
        s
    }
}

/// The outcome of a monitor start: only an open, not yet monitored
/// port accepts one.
pub open spec fn monitor_result(s: PortState) -> Result<(), PortError> {
    match s {
        PortState::Closed => Err(PortError::NotOpen),
        PortState::Open => Ok(()),
        PortState::Monitoring => Err(PortError::AlreadyMonitoring),
    }
}

/// The state after a monitor start.
pub open spec fn monitor_next(s: PortState) -> PortState {
    match s {
        PortState::Open => PortState::Monitoring,
        _ => s,
    }
}

/// The outcome of a close. `monitor_exited` reports whether the
/// running loop, if any, acknowledged the stop within the bounded
/// wait; a loop that did not confirm exit is a `ShutdownTimeout` and
/// the port does not pretend to be closed.
pub open spec fn close_result(s: PortState, monitor_exited: bool) -> Result<(), PortError> {
    match s {
        PortState::Closed => Err(PortError::NotOpen),
        PortState::Open => Ok(()),
        PortState::Monitoring => if monitor_exited {
            Ok(())
        } else {
            Err(PortError::ShutdownTimeout)
        },
    }
}

/// The state after a close.
pub open spec fn close_next(s: PortState, monitor_exited: bool) -> PortState {
    match s {
        PortState::Closed => PortState::Closed,
        PortState::Open => PortState::Closed,
        PortState::Monitoring => if monitor_exited {
            PortState::Closed
        } else {
            PortState::Monitoring
        },
    }
}

/// Starting the monitor twice in a row without an intervening close:
/// the first accepted start moves the machine to `Monitoring`, and
/// there the second start is rejected with `AlreadyMonitoring`, so a
/// second loop is never created.
pub proof fn lemma_monitor_twice_rejected(s: PortState)
    requires
        monitor_result(s) == Ok::<(), PortError>(()),
    ensures
        monitor_next(s) == PortState::Monitoring,
        monitor_result(monitor_next(s)) == Err::<(), PortError>(PortError::AlreadyMonitoring),
{
}

/// Every open immediately following a completed close is accepted,
/// provided its parameters are valid and the device exists.
pub proof fn lemma_open_after_close_accepted(
    s: PortState,
    monitor_exited: bool,
    path: Seq<char>,
    baud: u32,
)
    requires
        close_result(s, monitor_exited) == Ok::<(), PortError>(()),
        valid_open_params(path, baud),
    ensures
        open_accepted(close_next(s, monitor_exited), path, baud, true),
{
}

/// The lifecycle manager: the registry slot plus the at-most-one
/// monitor session running against it.
pub struct Lifecycle {
    registry: Registry,
    monitor: Option<MonitorSession>,
}

impl Lifecycle {
    /// The installed handle, if any.
    pub closed spec fn handle(&self) -> Option<HandleModel> {
        self.registry.slot_model()
    }

    /// Whether a monitor loop is active.
    pub closed spec fn monitoring(&self) -> bool {
        self.monitor is Some
    }

    /// The sequence number the active loop assigns next (0 when no
    /// loop is active).
    pub closed spec fn monitor_seq(&self) -> u64 {
        match self.monitor {
            Some(m) => m.seq(),
            None => 0,
        }
    }

    /// The bytes the active loop has buffered (empty when no loop is
    /// active).
    pub closed spec fn monitor_buf(&self) -> Seq<u8> {
        match self.monitor {
            Some(m) => m.buf(),
            None => Seq::empty(),
        }
    }

    /// Whether the active loop has been asked to stop.
    pub closed spec fn cancel_requested(&self) -> bool {
        match self.monitor {
            Some(m) => m.cancelled(),
            None => false,
        }
    }

    /// A monitor loop only ever runs against an installed handle.
    pub open spec fn wf(&self) -> bool {
        self.monitoring() ==> self.handle() is Some
    }

    /// The externally visible state.
    pub open spec fn state(&self) -> PortState {
        if self.monitoring() {
            PortState::Monitoring
        } else if self.handle() is Some {
            PortState::Open
        } else {
            PortState::Closed
        }
    }

    /// How many monitor loops are running: 0 or 1 by construction,
    /// so exactly one loop exists while the state is `Monitoring`.
    pub open spec fn loop_count(&self) -> int {
        if self.monitoring() {
            1
        } else {
            0
        }
    }

    /// At most one monitor loop ever runs, whatever sequence of
    /// operations led here.
    pub proof fn lemma_at_most_one_loop(&self)
        ensures
            self.loop_count() <= 1,
    {
    }

    /// A fresh manager: nothing open, nothing monitored.
    pub fn new() -> (c: Lifecycle)
        ensures
            c.wf(),
            c.state() == PortState::Closed,
    {
        Lifecycle { registry: Registry::new(), monitor: None }
    }

    /// The externally visible state, for callers.
    pub fn current_state(&self) -> (s: PortState)
        ensures
            s == self.state(),
    {
        if self.monitor.is_some() {
            PortState::Monitoring
        } else {
            match self.registry.take_reference() {
                Ok(_) => PortState::Open,
                Err(_) => PortState::Closed,
            }
        }
    }

    /// Opens the port at `path` with rate `baud_rate`. The shell has
    /// already attempted the OS-level open when the state allowed it;
    /// `device_ok` reports whether the device could be claimed, and
    /// `timestamp` is the open time. Parameters are validated before
    /// anything else; a failed open leaves the state unchanged.
    pub fn open_port(
        &mut self,
        path: String,
        baud_rate: u32,
        device_ok: bool,
        timestamp: u64,
    ) -> (r: Result<PortDescriptor, PortError>)
        requires
            old(self).wf(),
        ensures
            final(self).wf(),
            final(self).state() == open_next(old(self).state(), path@, baud_rate, device_ok),
            match r {
                Ok(d) => open_accepted(old(self).state(), path@, baud_rate, device_ok)
                    && d@.path == path@ && d@.port_type == PortType::Unknown
                    && final(self).handle() == Some(
                    HandleModel { path: path@, baud_rate, opened_at: timestamp },
                ) && !final(self).monitoring(),
                Err(e) => !open_accepted(old(self).state(), path@, baud_rate, device_ok)
                    && e == open_error(old(self).state(), path@, baud_rate, device_ok)
                    && final(self).handle() == old(self).handle() && final(self).monitoring()
                    == old(self).monitoring() && final(self).monitor_seq() == old(self).monitor_seq() && final(self).monitor_buf() == old(self).monitor_buf()
                    && final(self).cancel_requested() == old(self).cancel_requested(),
            },
    {
        if path.as_str().is_empty() || !is_supported_baud(baud_rate) {
            return Err(PortError::InvalidParameter);
        }
        if self.monitor.is_some() {
            return Err(PortError::AlreadyOpen);
        }
        match self.registry.take_reference() {
            Ok(_) => {
                return Err(PortError::AlreadyOpen);
            },
            Err(_) => {},
        }
        if !device_ok {
            return Err(PortError::DeviceUnavailable);
        }
        let descriptor = PortDescriptor {
            path: path.clone(),
            vendor_id: None,
            product_id: None,
            port_type: PortType::Unknown,
        };
        let handle = PortHandle { path, baud_rate, opened_at: timestamp };
        match self.registry.install(handle) {
            Ok(_) => Ok(descriptor),
            Err(e) => Err(e),
        }
    }

    /// Starts the monitor engine against the open handle: a fresh
    /// cancellable session with sequence numbers from 0. Rejected
    /// with `NotOpen` when nothing is open and `AlreadyMonitoring`
    /// when a loop is already running; rejections change nothing.
    pub fn monitor_port(&mut self) -> (r: Result<(), PortError>)
        requires
            old(self).wf(),
        ensures
            final(self).wf(),
            r == monitor_result(old(self).state()),
            final(self).state() == monitor_next(old(self).state()),
            final(self).handle() == old(self).handle(),
            r == Ok::<(), PortError>(()) ==> final(self).monitor_seq() == 0 && final(self).monitor_buf() == Seq::<u8>::empty() && !final(self).cancel_requested(),
            r is Err ==> final(self).monitor_seq() == old(self).monitor_seq() && final(self).monitor_buf() == old(self).monitor_buf() && final(self).cancel_requested()
                == old(self).cancel_requested(),
    {
        if self.monitor.is_some() {
            return Err(PortError::AlreadyMonitoring);
        }
        match self.registry.take_reference() {
            Ok(_) => {},
            Err(_) => {
                return Err(PortError::NotOpen);
            },
        }
        self.monitor = Some(MonitorSession::new());
        Ok(())
    }

    /// Closes the port. If a loop is running its cancellation flag is
    /// set first and the shell waits (bounded) for the loop to exit;
    /// `monitor_exited` reports whether it did. A confirmed close
    /// clears the registry; an unconfirmed one is a
    /// `ShutdownTimeout` and the port stays `Monitoring` rather than
    /// pretending to be closed. Closing a closed port is `NotOpen`
    /// and corrupts nothing.
    pub fn close_port(&mut self, monitor_exited: bool) -> (r: Result<
        PortHandle,
        PortError,
    >)
        requires
            old(self).wf(),
        ensures
            final(self).wf(),
            final(self).state() == close_next(old(self).state(), monitor_exited),
            match r {
                Ok(h) => close_result(old(self).state(), monitor_exited) == Ok::<(),
                    PortError,
                >(()) && old(self).handle() == Some(h@) && final(self).state()
                    == PortState::Closed,
                Err(e) => close_result(old(self).state(), monitor_exited) == Err::<(),
                    PortError,
                >(e) && final(self).handle() == old(self).handle(),
            },
            old(self).state() == PortState::Monitoring && !monitor_exited ==> final(self).cancel_requested() && final(self).monitor_seq() == old(self).monitor_seq()
                && final(self).monitor_buf() == old(self).monitor_buf(),
    {
        match &mut self.monitor {
            Some(m) => {
                m.request_cancel();
                if !monitor_exited {
                    return Err(PortError::ShutdownTimeout);
                }
            },
            None => {},
        }
        match self.registry.clear() {
            Ok(h) => {
                self.monitor = None;
                Ok(h)
            },
            Err(e) => Err(e),
        }
    }

    /// Reacts to a device loss the running loop detected: the
    /// registry is cleared and the machine returns to `Closed`, so
    /// the core never claims to be open against a dead handle. The
    /// shell forwards the `DeviceLost` notification upstream.
    pub fn device_lost(&mut self) -> (r: Result<(), PortError>)
        requires
            old(self).wf(),
        ensures
            final(self).wf(),
            match r {
                Ok(_) => old(self).state() == PortState::Monitoring && final(self).state()
                    == PortState::Closed,
                Err(e) => old(self).state() != PortState::Monitoring && e == PortError::NotOpen
                    && final(self).state() == old(self).state() && final(self).handle() == old(self).handle(),
            },
    {
        if self.monitor.is_none() {
            return Err(PortError::NotOpen);
        }
        self.monitor = None;
        let cleared = self.registry.clear();
        proof {
            assert(cleared is Ok);
        }
        Ok(())
    }

    /// Whether the running loop has been asked to stop; the loop's
    /// driver polls this at least once per read iteration.
    pub fn is_cancel_requested(&self) -> (b: bool)
        ensures
            b == self.cancel_requested(),
    {
        match &self.monitor {
            Some(m) => m.is_cancelled(),
            None => false,
        }
    }


    /// The running loop's next sequence number and buffered byte
    /// count (0 when no loop is running), for callers that must
    /// check the feed precondition.
    pub fn monitor_counters(&self) -> (r: (u64, usize))
        ensures
            r.0 == self.monitor_seq(),
            r.1 == self.monitor_buf().len(),
    {
        match &self.monitor {
            Some(m) => (m.next_sequence(), m.buffered_len()),
            None => (0, 0),
        }
    }

    /// Feeds one chunk of device bytes to the running monitor loop;
    /// see `process_stream` for exactly what is pushed, counted and
    /// buffered. Rejected with `NotOpen` when no loop is running.
    pub fn feed_monitor(&mut self, bytes: &Vec<u8>, ts: u64, sink: &mut EventSink) -> (r:
        Result<usize, PortError>)
        requires
            old(self).wf(),
            old(self).monitor_seq() + old(self).monitor_buf().len() + bytes@.len()
                <= u64::MAX,
        ensures
            final(self).wf(),
            final(self).state() == old(self).state(),
            final(self).handle() == old(self).handle(),
            final(self).cancel_requested() == old(self).cancel_requested(),
            match r {
                Ok(warnings) => old(self).state() == PortState::Monitoring && ({
                    let out = process_stream(old(self).monitor_buf() + bytes@, old(self).monitor_seq() as int, ts);
                    &&& final(sink)@ == old(sink)@ + out.0
                    &&& warnings == out.1
                    &&& final(self).monitor_buf() == out.2
                    &&& final(self).monitor_seq() == old(self).monitor_seq() + out.0.len()
                }),
                Err(e) => old(self).state() != PortState::Monitoring && e == PortError::NotOpen
                    && final(sink)@ == old(sink)@ && final(self).monitor_seq() == old(self).monitor_seq() && final(self).monitor_buf() == old(self).monitor_buf(),
            },
    {
        match &mut self.monitor {
            Some(m) => {
                let warnings = m.feed_bytes(bytes, ts, sink);
                Ok(warnings)
            },
            None => Err(PortError::NotOpen),
        }
    }
}

/// Whether `baud` is one of the supported standard rates.
pub fn is_supported_baud(baud: u32) -> (b: bool)
    ensures
        b == supported_baud(baud),
{
    baud == 1200 || baud == 2400 || baud == 4800 || baud == 9600 || baud == 19200 || baud
        == 38400 || baud == 57600 || baud == 115200 || baud == 230400
}

} // verus!
