//! The traced process: a single-owner handle on one OS process under
//! trace. Every operation blocks until the process next changes state and
//! decodes the outcome; raw memory access works on naturally aligned
//! machine words, with the byte of interest masked in and out at the
//! correct offset.

use vstd::prelude::*;

use crate::status::{decode_event, Status, WaitError, WaitEvent};
use crate::trace::{
    pt_continue, pt_read_word, pt_single_step, pt_write_word, read_registers, regs_base_ptr,
    regs_instruction_ptr, regs_with_instruction_ptr, send_kill, wait_event, write_registers,
};
use crate::word_patch::{align_addr_to_word, extract_byte, replace_byte, TRAP_OPCODE};

verus! {

/// One OS process under trace, owned exclusively: the process stays traced
/// for its entire lifetime, and only this handle may issue trace
/// operations against it.
pub struct Inferior {
    /// The raw OS process id of the traced child.
    pub pid: i32,
}

impl Inferior {
    /// Takes ownership of an already-spawned traced child. The caller must
    /// have spawned the process with tracing requested before its program
    /// load, so that its first stop is observable.
    pub fn from_pid(pid: i32) -> (r: Inferior)
        ensures
            r.pid == pid,
    {
        Inferior { pid }
    }

    /// Returns the process id of this traced process.
    pub fn pid(&self) -> (r: i32)
        ensures
            r == self.pid,
    {
        self.pid
    }

    /// Blocks until the process next stops, exits, or is killed by a
    /// signal, and decodes the outcome. On a stop, the instruction pointer
    /// is read from the process's register state; what comes back depends
    /// on the traced process alone, so nothing is claimed of the values —
    /// only that the result is a decoded event or a kernel error, never
    /// the stepping layer's budget error.
    pub fn wait(&self, options: Option<nix::sys::wait::WaitPidFlag>) -> (r: Result<
        Status,
        WaitError,
    >)
        ensures
            r != Err::<Status, WaitError>(WaitError::StepLimit),
    {
        let ev = match wait_event(self.pid, options) {
            Ok(ev) => ev,
            Err(e) => {
                return Err(WaitError::Kernel(e));
            },
        };
        let ip: usize = match ev {
            WaitEvent::Stopped(_) => {
                match read_registers(self.pid) {
                    Ok(regs) => regs_instruction_ptr(&regs) as usize,
                    Err(e) => {
                        return Err(WaitError::Kernel(e));
                    },
                }
            },
            _ => 0,
        };
        decode_event(ev, ip)
    }

    /// Lets the process continue executing, then blocks until it next
    /// stops or terminates.
    pub fn cont(&self) -> (r: Result<Status, WaitError>)
        ensures
            r != Err::<Status, WaitError>(WaitError::StepLimit),
    {
        match pt_continue(self.pid) {
            Ok(()) => self.wait(None),
            Err(e) => Err(WaitError::Kernel(e)),
        }
    }

    /// Advances the process by exactly one machine instruction and blocks
    /// for the resulting status.
    pub fn single_step(&self) -> (r: Result<Status, WaitError>)
        ensures
            r != Err::<Status, WaitError>(WaitError::StepLimit),
    {
        match pt_single_step(self.pid) {
            Ok(()) => self.wait(None),
            Err(e) => Err(WaitError::Kernel(e)),
        }
    }

    /// Sends a kill request and blocks until the process is reaped, so
    /// that no zombie is left behind.
    pub fn kill(&mut self) -> (r: Result<(), i32>)
        ensures
            final(self).pid == old(self).pid,
    {
        match send_kill(self.pid) {
            Ok(()) => {},
            Err(e) => {
                return Err(e);
            },
        }
        match wait_event(self.pid, None) {
            Ok(_) => Ok(()),
            Err(e) => Err(e),
        }
    }

    /// Reads the instruction pointer and base pointer of the stopped
    /// process.
    pub fn read_frame_pointers(&self) -> (r: Result<(usize, usize), i32>) {
        match read_registers(self.pid) {
            Ok(regs) => Ok(
                (regs_instruction_ptr(&regs) as usize, regs_base_ptr(&regs) as usize),
            ),
            Err(e) => Err(e),
        }
    }

    /// Rewrites the stopped process's instruction pointer.
    pub fn set_instruction_ptr(&self, ip: usize) -> (r: Result<(), i32>) {
        match read_registers(self.pid) {
            Ok(regs) => write_registers(self.pid, regs_with_instruction_ptr(regs, ip as u64)),
            Err(e) => Err(e),
        }
    }

    /// Reads one machine word from the process's memory.
    pub fn read_word(&self, addr: usize) -> (r: Result<u64, i32>) {
        pt_read_word(self.pid, addr)
    }

    /// Writes one machine word into the process's memory.
    pub fn write_word(&mut self, addr: usize, word: u64) -> (r: Result<(), i32>)
        ensures
            final(self).pid == old(self).pid,
    {
        pt_write_word(self.pid, addr, word)
    }

    /// Overwrites the byte at `addr` with `val` and returns the byte that
    /// was there before. The containing word is read, the byte of interest
    /// is extracted and replaced by bit-shift masking at its offset within
    /// the word — the word arithmetic is the verified pair in
    /// `word_patch` — and the word is written back.
    pub fn write_byte(&mut self, addr: usize, val: u8) -> (r: Result<u8, i32>)
        ensures
            final(self).pid == old(self).pid,
    {
        let aligned_addr = align_addr_to_word(addr);
        let byte_offset: u64 = (addr - aligned_addr) as u64;
        let word = match pt_read_word(self.pid, aligned_addr) {
            Ok(w) => w,
            Err(e) => {
                return Err(e);
            },
        };
        let orig_byte = extract_byte(word, byte_offset);
        let updated_word = replace_byte(word, byte_offset, val);
        match pt_write_word(self.pid, aligned_addr, updated_word) {
            Ok(()) => Ok(orig_byte),
            Err(e) => Err(e),
        }
    }

    /// Installs the trap opcode at `addr`, returning the original byte for
    /// later restoration.
    pub fn install_break_points(&mut self, addr: usize) -> (r: Result<u8, i32>)
        ensures
            final(self).pid == old(self).pid,
    {
        self.write_byte(addr, TRAP_OPCODE)
    }

    /// Restores a previously saved original byte at `addr`, undoing a trap
    /// installation.
    pub fn restore_byte(&mut self, addr: usize, original_byte: u8) -> (r: Result<(), i32>)
        ensures
            final(self).pid == old(self).pid,
    {
        match self.write_byte(addr, original_byte) {
            Ok(_) => Ok(()),
            Err(e) => Err(e),
        }
    }
}

} // verus!
