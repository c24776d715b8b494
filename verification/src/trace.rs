//! The kernel tracing boundary: every direct use of the OS process-tracing
//! facility lives here, one wrapper per outside function. The wrappers take
//! and return plain values (a raw process id, an address, a word); what
//! they return depends on the state of the traced process, so their
//! contracts claim nothing of the values that come back.

use vstd::prelude::*;

use crate::status::WaitEvent;

verus! {

/// The saved register block of a stopped traced process, as the kernel
/// hands it out. Opaque here: it is read and written only through the
/// accessor wrappers below.
#[verifier::external_type_specification]
#[verifier::external_body]
pub struct ExUserRegs(nix::libc::user_regs_struct);

/// The option flags a wait on the traced process may carry. Opaque: they
/// pass through to the kernel call unread.
#[verifier::external_type_specification]
#[verifier::external_body]
pub struct ExWaitPidFlag(nix::sys::wait::WaitPidFlag);

/// Relies on nix::sys::wait::waitpid: blocks until the child next
/// changes state and decodes the C wait status into one event; every
/// status other than a stop, an exit or a termination by signal becomes
/// `WaitEvent::Other`.
#[verifier::external_body]
pub(crate) fn wait_event(pid: i32, options: Option<nix::sys::wait::WaitPidFlag>) -> (r: Result<
    WaitEvent,
    i32,
>) {
    match nix::sys::wait::waitpid(nix::unistd::Pid::from_raw(pid), options) {
        Ok(nix::sys::wait::WaitStatus::Exited(_, code)) => Ok(WaitEvent::Exited(code)),
        Ok(nix::sys::wait::WaitStatus::Signaled(_, sig, _)) => Ok(WaitEvent::Signaled(sig as i32)),
        Ok(nix::sys::wait::WaitStatus::Stopped(_, sig)) => Ok(WaitEvent::Stopped(sig as i32)),
        Ok(_) => Ok(WaitEvent::Other),
        Err(e) => Err(e as i32),
    }
}

/// Relies on nix::sys::ptrace::getregs: reads the register block of a
/// stopped traced process.
#[verifier::external_body]
pub(crate) fn read_registers(pid: i32) -> (r: Result<nix::libc::user_regs_struct, i32>) {
    match nix::sys::ptrace::getregs(nix::unistd::Pid::from_raw(pid)) {
        Ok(regs) => Ok(regs),
        Err(e) => Err(e as i32),
    }
}

/// Relies on nix::sys::ptrace::setregs: writes a register block back into
/// a stopped traced process.
#[verifier::external_body]
pub(crate) fn write_registers(pid: i32, regs: nix::libc::user_regs_struct) -> (r: Result<(), i32>) {
    match nix::sys::ptrace::setregs(nix::unistd::Pid::from_raw(pid), regs) {
        Ok(()) => Ok(()),
        Err(e) => Err(e as i32),
    }
}

/// Picks the instruction pointer out of a saved register block.
#[verifier::external_body]
pub(crate) fn regs_instruction_ptr(regs: &nix::libc::user_regs_struct) -> u64 {
    regs.rip
}

/// Picks the base pointer out of a saved register block.
#[verifier::external_body]
pub(crate) fn regs_base_ptr(regs: &nix::libc::user_regs_struct) -> u64 {
    regs.rbp
}

/// Returns the register block with its instruction pointer replaced.
#[verifier::external_body]
pub(crate) fn regs_with_instruction_ptr(
    regs: nix::libc::user_regs_struct,
    ip: u64,
) -> nix::libc::user_regs_struct {
    let mut r = regs;
    r.rip = ip;
    r
}

/// Relies on nix::sys::ptrace::cont (no signal): lets the stopped traced
/// process continue executing.
#[verifier::external_body]
pub(crate) fn pt_continue(pid: i32) -> (r: Result<(), i32>) {
    match nix::sys::ptrace::cont(nix::unistd::Pid::from_raw(pid), None) {
        Ok(()) => Ok(()),
        Err(e) => Err(e as i32),
    }
}

/// Relies on nix::sys::ptrace::step (no signal): advances the stopped
/// traced process by exactly one machine instruction.
#[verifier::external_body]
pub(crate) fn pt_single_step(pid: i32) -> (r: Result<(), i32>) {
    match nix::sys::ptrace::step(nix::unistd::Pid::from_raw(pid), None) {
        Ok(()) => Ok(()),
        Err(e) => Err(e as i32),
    }
}

/// Relies on nix::sys::ptrace::read: reads one machine word from the
/// traced process's memory at the given address.
#[verifier::external_body]
pub(crate) fn pt_read_word(pid: i32, addr: usize) -> (r: Result<u64, i32>) {
    match nix::sys::ptrace::read(
        nix::unistd::Pid::from_raw(pid),
        addr as nix::sys::ptrace::AddressType,
    ) {
        Ok(w) => Ok(w as u64),
        Err(e) => Err(e as i32),
    }
}

/// Relies on nix::sys::ptrace::write: writes one machine word into the
/// traced process's memory at the given address.
#[verifier::external_body]
pub(crate) fn pt_write_word(pid: i32, addr: usize, word: u64) -> (r: Result<(), i32>) {
    match nix::sys::ptrace::write(
        nix::unistd::Pid::from_raw(pid),
        addr as nix::sys::ptrace::AddressType,
        word as nix::libc::c_long,
    ) {
        Ok(()) => Ok(()),
        Err(e) => Err(e as i32),
    }
}

/// Relies on nix::sys::signal::kill with SIGKILL: requests forced
/// termination of the process.
#[verifier::external_body]
pub(crate) fn send_kill(pid: i32) -> (r: Result<(), i32>) {
    match nix::sys::signal::kill(nix::unistd::Pid::from_raw(pid), nix::sys::signal::Signal::SIGKILL)
    {
        Ok(()) => Ok(()),
        Err(e) => Err(e as i32),
    }
}

} // verus!
