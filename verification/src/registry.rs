//! The port handle registry: the single source of truth for "is a
//! port currently open". It exclusively owns the one optional open
//! handle; every open and close goes through it, so no two callers
//! can ever observe or install a handle at the same time. The
//! registry performs no I/O itself.

use vstd::prelude::*;
use crate::errors::PortError;

verus! {

/// Model of one open device connection.
pub struct HandleModel {
    pub path: Seq<char>,
    pub baud_rate: u32,
    pub opened_at: u64,
}

/// One open device connection: the path it was opened from, the
/// configured baud rate, and the open timestamp. The underlying byte
/// stream itself lives with the surrounding shell; the core tracks
/// and arbitrates the connection through this value.
pub struct PortHandle {
    pub path: String,
    pub baud_rate: u32,
    pub opened_at: u64,
}

impl View for PortHandle {
    type V = HandleModel;

    open spec fn view(&self) -> HandleModel {
        HandleModel { path: self.path@, baud_rate: self.baud_rate, opened_at: self.opened_at }
    }
}

/// The mutually-exclusive slot holding the at-most-one open handle.
pub struct Registry {
    slot: Option<PortHandle>,
}

impl Registry {
    /// The handle currently installed, if any.
    pub closed spec fn slot_model(&self) -> Option<HandleModel> {
        match self.slot {
            Some(h) => Some(h@),
            None => None,
        }
    }

    /// Whether a handle is currently installed.
    pub open spec fn is_open(&self) -> bool {
        self.slot_model() is Some
    }

    /// How many handles the registry holds: 0 or 1 by construction.
    pub open spec fn handle_count(&self) -> int {
        if self.is_open() {
            1
        } else {
            0
        }
    }

    /// The registry can never hold more than one handle, whatever
    /// sequence of installs and clears produced it.
    pub proof fn lemma_at_most_one_handle(&self)
        ensures
            self.handle_count() <= 1,
    {
    }

    /// An empty registry: nothing open.
    pub fn new() -> (r: Registry)
        ensures
            !r.is_open(),
    {
        Registry { slot: None }
    }

    /// Installs a handle. Occupied slots are never overwritten: a
    /// second install fails with `AlreadyOpen` and changes nothing.
    pub fn install(&mut self, h: PortHandle) -> (r: Result<(), PortError>)
        ensures
            old(self).is_open() ==> r == Err::<(), PortError>(PortError::AlreadyOpen)
                && final(self).slot_model() == old(self).slot_model(),
            !old(self).is_open() ==> r == Ok::<(), PortError>(()) && final(self).slot_model()
                == Some(h@),
    {
        match self.slot {
            Some(_) => Err(PortError::AlreadyOpen),
            None => {
                self.slot = Some(h);
                Ok(())
            },
        }
    }

    /// A borrowed view of the current handle, or `NotOpen`.
    pub fn take_reference(&self) -> (r: Result<&PortHandle, PortError>)
        ensures
            match r {
                Ok(h) => self.slot_model() == Some(h@),
                Err(e) => !self.is_open() && e == PortError::NotOpen,
            },
    {
        match &self.slot {
            Some(h) => Ok(h),
            None => Err(PortError::NotOpen),
        }
    }

    /// Removes and returns the handle for disposal, or `NotOpen` if
    /// nothing is open.
    pub fn clear(&mut self) -> (r: Result<PortHandle, PortError>)
        ensures
            match r {
                Ok(h) => old(self).slot_model() == Some(h@) && !final(self).is_open(),
                Err(e) => !old(self).is_open() && e == PortError::NotOpen
                    && !final(self).is_open(),
            },
    {
        let taken = self.slot.take();
        match taken {
            Some(h) => Ok(h),
            None => Err(PortError::NotOpen),
        }
    }
}

} // verus!
