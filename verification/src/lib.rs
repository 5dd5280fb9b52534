//! Core of a serial-telemetry monitor: port lifecycle state machine,
//! a registry that owns the single open device handle, a cancellable
//! monitor engine that frames raw device bytes into telemetry records,
//! and a simulator that produces the same record shape without hardware.
//!
//! All device I/O, timing and delivery to the surrounding shell happen
//! outside this crate; every operation here is a pure decision or
//! computation over plain values, with a verified contract.

pub mod errors;
pub mod frame;
pub mod lifecycle;
pub mod monitor;
pub mod ports;
pub mod registry;
pub mod record;
pub mod simulator;
pub mod sink;
