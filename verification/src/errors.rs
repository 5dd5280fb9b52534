//! Error taxonomy of the core: parameter errors, state-machine
//! contention errors, device errors and shutdown errors. Frame parse
//! problems are diagnostics, not errors, and are counted separately.

use vstd::prelude::*;

verus! {

/// Every failure an operation of the core can report.
///
/// - `InvalidParameter`: rejected before any I/O would happen.
/// - `AlreadyOpen`, `AlreadyMonitoring`, `AlreadyStreaming`, `NotOpen`:
///   a state-machine precondition was violated; state is unchanged.
/// - `DeviceUnavailable`: the device could not be opened.
/// - `DeviceLost`: the device disappeared while monitoring.
/// - `ShutdownTimeout`: the monitor loop did not confirm exit in time.
/// - `EnumerationFailed`: the host's device enumeration itself failed.
#[derive(Clone, Copy, Debug, PartialEq, Eq, Structural)]
pub enum PortError {
    InvalidParameter,
    DeviceUnavailable,
    AlreadyOpen,
    NotOpen,
    AlreadyMonitoring,
    AlreadyStreaming,
    DeviceLost,
    ShutdownTimeout,
    EnumerationFailed,
}

} // verus!
