//! Wait-status decoding: the raw events a wait on the traced process can
//! report, the stop status the session works with, and the exact decoding
//! between them.

use vstd::prelude::*;

verus! {

/// The signal number of the trap signal that a traced process raises when
/// it executes a trap opcode or finishes its program load.
pub const SIGTRAP: i32 = 5;

/// One decoded outcome of a wait on the traced process.
#[derive(Clone, Copy, Debug, PartialEq, Eq, Structural)]
pub enum WaitEvent {
    /// The process exited normally with the given code.
    Exited(i32),
    /// The process was killed by the given signal.
    Signaled(i32),
    /// The process is alive and was stopped by the given signal.
    Stopped(i32),
    /// Any other wait outcome.
    Other,
}

/// The state of the traced process after a wait, as the session reports
/// it.
#[derive(Clone, Copy, Debug, PartialEq, Eq, Structural)]
pub enum Status {
    /// The process stopped: the signal that stopped it and the current
    /// instruction pointer.
    Stopped(i32, usize),
    /// The process exited normally with the given code.
    Exited(i32),
    /// The process was killed by the given signal.
    Signaled(i32),
}

/// An error from waiting on the traced process.
#[derive(Clone, Copy, Debug, PartialEq, Eq, Structural)]
pub enum WaitError {
    /// The kernel call failed with the given code.
    Kernel(i32),
    /// The wait reported a state this debugger does not handle.
    UnexpectedStatus,
    /// A stepping walk exceeded its instruction budget.
    StepLimit,
}

/// The status a wait event decodes to, given the instruction pointer read
/// from the stopped process's registers.
pub open spec fn spec_decode_event(ev: WaitEvent, ip: usize) -> Result<Status, WaitError> {
    match ev {
        WaitEvent::Exited(code) => Ok(Status::Exited(code)),
        WaitEvent::Signaled(sig) => Ok(Status::Signaled(sig)),
        WaitEvent::Stopped(sig) => Ok(Status::Stopped(sig, ip)),
        WaitEvent::Other => Err(WaitError::UnexpectedStatus),
    }
}

/// Decodes a wait event into a status; `ip` is the instruction pointer
/// read from the process's registers and is meaningful only for a stop.
pub fn decode_event(ev: WaitEvent, ip: usize) -> (r: Result<Status, WaitError>)
    ensures
        r == spec_decode_event(ev, ip),
{
    match ev {
        WaitEvent::Exited(code) => Ok(Status::Exited(code)),
        WaitEvent::Signaled(sig) => Ok(Status::Signaled(sig)),
        WaitEvent::Stopped(sig) => Ok(Status::Stopped(sig, ip)),
        WaitEvent::Other => Err(WaitError::UnexpectedStatus),
    }
}

} // verus!
