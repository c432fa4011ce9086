//! The one-time elevation of the caller's own privileges, which must come
//! before any operation on a process the caller does not own.
use vstd::prelude::*;

verus! {

/// Where the elevation stands.
#[derive(Debug, Clone, Copy, PartialEq, Eq, Structural)]
pub enum Elevation {
    /// Not attempted yet.
    NotRun,
    /// The debug privilege is enabled.
    Granted,
    /// The attempt failed with this system error code.
    Refused(u32),
}

/// Why no operation on another process can be attempted.
#[derive(Debug, Clone, Copy, PartialEq, Eq, Structural)]
pub enum PrecursorFailure {
    /// The elevation was never attempted.
    NotBootstrapped,
    /// The elevation failed with this system error code.
    ElevationFailed(u32),
}

/// Guards the elevation so that it is attempted once and its outcome kept.
#[derive(Debug, Clone, Copy, PartialEq, Eq, Structural)]
pub struct PrivilegeGuard {
    pub state: Elevation,
}

impl PrivilegeGuard {
    /// The answer that `ready` gives in each state.
    pub open spec fn ready_spec(&self) -> Result<(), PrecursorFailure> {
        match self.state {
            Elevation::NotRun => Err(PrecursorFailure::NotBootstrapped),
            Elevation::Granted => Ok(()),
            Elevation::Refused(code) => Err(PrecursorFailure::ElevationFailed(code)),
        }
    }

    /// A guard before any attempt.
    pub fn new() -> (r: PrivilegeGuard)
        ensures
            r.state == Elevation::NotRun,
    {
        PrivilegeGuard { state: Elevation::NotRun }
    }

    /// Whether the elevation is still to be attempted.
    pub fn needs_attempt(&self) -> (r: bool)
        ensures
            r == (self.state == Elevation::NotRun),
    {
        match self.state {
            Elevation::NotRun => true,
            _ => false,
        }
    }

    /// Keeps the outcome of an attempt. Only the first attempt counts: later
    /// outcomes leave the guard as it was.
    pub fn record(&mut self, outcome: Result<(), u32>)
        ensures
            old(self).state != Elevation::NotRun ==> *final(self) == *old(self),
            old(self).state == Elevation::NotRun ==> final(self).state == match outcome {
                Ok(()) => Elevation::Granted,
                Err(code) => Elevation::Refused(code),
            },
    {
        if self.needs_attempt() {
            self.state = match outcome {
                Ok(()) => Elevation::Granted,
                Err(code) => Elevation::Refused(code),
            };
        }
    }

    /// `Ok` when operations on other processes may go ahead; otherwise the
    /// failure that stops them all.
    pub fn ready(&self) -> (r: Result<(), PrecursorFailure>)
        ensures
            r == self.ready_spec(),
    {
        match self.state {
            Elevation::NotRun => Err(PrecursorFailure::NotBootstrapped),
            Elevation::Granted => Ok(()),
            Elevation::Refused(code) => Err(PrecursorFailure::ElevationFailed(code)),
        }
    }
}

} // verus!
