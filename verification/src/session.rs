//! The session controller: at most one traced process, the breakpoint
//! table, and the symbol table, driven by one operator operation at a
//! time. Each operation validates against the current state, delegates to
//! the traced process, breakpoint table, or unwinding, and reports a stop
//! location, an error, or a process exit. Every error is recoverable at
//! this level: the session itself never dies of one.

use vstd::prelude::*;

use crate::breakpoints::BreakpointTable;
use crate::command::spec_parse_address;
use crate::inferior::Inferior;
use crate::status::{Status, WaitError, SIGTRAP};
use crate::symbols::{
    spec_addr_for_function, spec_addr_for_line, FunctionEntry, LineEntry, SymbolTable,
};
use crate::text::{parse_uint_chars, spec_parse_uint, str_to_chars};
use crate::unwind::{spec_frame_resolvable, Frame};

verus! {

/// An error from one session operation.
#[derive(Clone, Copy, Debug, PartialEq, Eq, Structural)]
pub enum DebugError {
    /// A continue, next, or backtrace was issued with no traced process.
    NoActiveProcess,
    /// A breakpoint target that no resolution strategy could map to an
    /// address.
    UnresolvedTarget,
    /// The trace handshake with a freshly spawned child failed.
    SpawnFailed,
    /// A kernel wait or register access failed with the given code.
    Wait(i32),
    /// A kernel memory access failed with the given code.
    Memory(i32),
    /// A wait reported a state this debugger does not handle.
    UnexpectedStatus,
    /// A stepping walk exceeded its instruction budget.
    StepLimit,
}

/// The session-level reading of a wait-level error.
pub open spec fn spec_map_wait_error(e: WaitError) -> DebugError {
    match e {
        WaitError::Kernel(c) => DebugError::Wait(c),
        WaitError::UnexpectedStatus => DebugError::UnexpectedStatus,
        WaitError::StepLimit => DebugError::StepLimit,
    }
}

/// Maps a wait-level error to the session-level error.
pub fn map_wait_error(e: WaitError) -> (r: DebugError)
    ensures
        r == spec_map_wait_error(e),
{
    match e {
        WaitError::Kernel(c) => DebugError::Wait(c),
        WaitError::UnexpectedStatus => DebugError::UnexpectedStatus,
        WaitError::StepLimit => DebugError::StepLimit,
    }
}

/// Resolution of a breakpoint target: `*<hex-address>` (the `0x` prefix
/// optional), else a bare decimal line number looked up in the line
/// table, else a function name looked up in the function table — in that
/// priority order.
pub open spec fn spec_resolve_target(
    s: Seq<char>,
    lines: Seq<LineEntry>,
    functions: Seq<FunctionEntry>,
) -> Option<usize> {
    if s.len() >= 1 && s[0] == '*' {
        spec_parse_address(s.skip(1))
    } else {
        match spec_parse_uint(s, 10) {
            Some(line) => spec_addr_for_line(lines, line as u64),
            None => spec_addr_for_function(functions, s),
        }
    }
}

/// Whether a freshly spawned child's first wait outcome is the
/// successful trace handshake: the trap stop that follows the traced
/// child's program load.
pub fn handshake_ok(first: &Result<Status, WaitError>) -> (r: bool)
    ensures
        r == (match *first {
            Ok(Status::Stopped(sig, _)) => sig == SIGTRAP,
            _ => false,
        }),
{
    match first {
        Ok(Status::Stopped(sig, _)) => *sig == SIGTRAP,
        _ => false,
    }
}

/// One debugging run: the target path, the symbol table loaded from it,
/// the breakpoint table, and at most one traced process.
pub struct Session {
    /// The path of the target executable.
    pub target: String,
    /// The symbol information of the target.
    pub symbols: SymbolTable,
    /// Every breakpoint ever declared, in insertion order.
    pub breakpoints: BreakpointTable,
    /// The one traced process, when one is running.
    pub inferior: Option<Inferior>,
}

impl Session {
    /// A fresh session with no traced process and no breakpoints.
    pub fn new(target: String, symbols: SymbolTable) -> (r: Session)
        ensures
            r.target == target,
            r.symbols == symbols,
            r.breakpoints.entries@.len() == 0,
            r.inferior is None,
    {
        Session { target, symbols, breakpoints: BreakpointTable::new(), inferior: None }
    }

    /// Resolves a breakpoint target specification to an address.
    pub fn resolve_target(&self, target: &str) -> (r: Option<usize>)
        ensures
            r == spec_resolve_target(target@, self.symbols.lines@, self.symbols.functions@),
    {
        let v = str_to_chars(target);
        if v.len() >= 1 && v[0] == '*' {
            let from: usize = if v.len() >= 3 && v[1] == '0' && (v[2] == 'x' || v[2] == 'X') {
                3
            } else {
                1
            };
            proof {
                let inner = v@.skip(1);
                assert(inner.len() == v@.len() - 1);
                if v@.len() >= 3 {
                    assert(inner[0] == v@[1]);
                    assert(inner[1] == v@[2]);
                    assert(v@.skip(1).skip(2) =~= v@.skip(3));
                }
            }
            parse_uint_chars(&v, from, 16)
        } else {
            proof {
                assert(v@.skip(0) =~= v@);
            }
            match parse_uint_chars(&v, 0, 10) {
                Some(line) => self.symbols.get_addr_for_line(line as u64),
                None => self.symbols.get_addr_for_function(target),
            }
        }
    }

    /// Declares a breakpoint. The target is resolved by the three
    /// strategies in priority order; an unresolvable target is reported
    /// with no state change. The new entry's index is its insertion
    /// order, never reused. With a traced process running, the trap byte
    /// is installed immediately and its original byte recorded; without
    /// one, the entry is recorded pending.
    pub fn cmd_break(&mut self, target: &str) -> (r: Result<usize, DebugError>)
        ensures
            final(self).target == old(self).target,
            final(self).symbols == old(self).symbols,
            match spec_resolve_target(
                target@,
                old(self).symbols.lines@,
                old(self).symbols.functions@,
            ) {
                None => {
                    &&& r == Err::<usize, DebugError>(DebugError::UnresolvedTarget)
                    &&& final(self).breakpoints == old(self).breakpoints
                    &&& final(self).inferior == old(self).inferior
                },
                Some(addr) => match r {
                    Ok(idx) => {
                        &&& idx == old(self).breakpoints.entries@.len()
                        &&& final(self).breakpoints.entries@.len() == idx + 1
                        &&& forall|k: int|
                            0 <= k < idx ==> final(self).breakpoints.entries@[k] == old(self).breakpoints.entries@[k]
                        &&& final(self).breakpoints.entries@[idx as int].addr == addr
                        &&& old(self).inferior is None ==> final(self).breakpoints.entries@[idx as int].original_byte is None
                        &&& old(self).inferior is Some ==> final(self).breakpoints.entries@[idx as int].original_byte is Some
                        &&& final(self).inferior == old(self).inferior
                    },
                    Err(e) => {
                        &&& e matches DebugError::Memory(_)
                        &&& old(self).inferior is Some
                        &&& final(self).breakpoints == old(self).breakpoints
                        &&& final(self).inferior == old(self).inferior
                    },
                },
            },
    {
        let resolved = self.resolve_target(target);
        let addr = match resolved {
            Some(a) => a,
            None => {
                return Err(DebugError::UnresolvedTarget);
            },
        };
        match self.inferior.take() {
            None => {
                let idx = self.breakpoints.add(addr, None);
                Ok(idx)
            },
            Some(mut inf) => {
                match inf.install_break_points(addr) {
                    Ok(orig) => {
                        self.inferior = Some(inf);
                        let idx = self.breakpoints.add(addr, Some(orig));
                        Ok(idx)
                    },
                    Err(e) => {
                        self.inferior = Some(inf);
                        Err(DebugError::Memory(e))
                    },
                }
            },
        }
    }

    /// Resumes the traced process. Resuming from an installed trap first
    /// restores the original byte at the stop address, rewinds the
    /// instruction pointer onto it, single-steps that one instruction and
    /// re-installs the trap — without this a resume would catch the same
    /// trap forever — leaving the table's record untouched. A terminal
    /// status clears the process slot; a kernel failure leaves the slot
    /// as it was, since the process's true state is unknown.
    pub fn cmd_continue(&mut self) -> (r: Result<Status, DebugError>)
        ensures
            final(self).target == old(self).target,
            final(self).symbols == old(self).symbols,
            final(self).breakpoints == old(self).breakpoints,
            (r == Err::<Status, DebugError>(DebugError::NoActiveProcess)) <==> old(self).inferior
                is None,
            match r {
                Ok(st) => match st {
                    Status::Stopped(_, _) => final(self).inferior == old(self).inferior,
                    _ => final(self).inferior is None,
                },
                Err(DebugError::NoActiveProcess) => final(self).inferior is None,
                Err(_) => final(self).inferior == old(self).inferior,
            },
    {
        let mut inf = match self.inferior.take() {
            Some(i) => i,
            None => {
                return Err(DebugError::NoActiveProcess);
            },
        };
        let ip = match inf.read_frame_pointers() {
            Ok((ip, _)) => ip,
            Err(e) => {
                self.inferior = Some(inf);
                return Err(DebugError::Wait(e));
            },
        };
        match self.breakpoints.breakpoint_hit(ip) {
            None => {},
            Some(idx) => {
                let bp = self.breakpoints.get(idx);
                let orig = match bp.original_byte {
                    Some(b) => b,
                    None => {
                        proof {
                            assert(false);
                        }
                        0
                    },
                };
                let addr = ip - 1;
                match inf.restore_byte(addr, orig) {
                    Ok(()) => {},
                    Err(e) => {
                        self.inferior = Some(inf);
                        return Err(DebugError::Memory(e));
                    },
                }
                match inf.set_instruction_ptr(addr) {
                    Ok(()) => {},
                    Err(e) => {
                        self.inferior = Some(inf);
                        return Err(DebugError::Wait(e));
                    },
                }
                match inf.single_step() {
                    Ok(Status::Stopped(_, _)) => {
                        match inf.install_break_points(addr) {
                            Ok(_) => {},
                            Err(e) => {
                                self.inferior = Some(inf);
                                return Err(DebugError::Memory(e));
                            },
                        }
                    },
                    Ok(st) => {
                        return Ok(st);
                    },
                    Err(e) => {
                        self.inferior = Some(inf);
                        return Err(map_wait_error(e));
                    },
                }
            },
        }
        match inf.cont() {
            Ok(Status::Stopped(sig, ip2)) => {
                self.inferior = Some(inf);
                Ok(Status::Stopped(sig, ip2))
            },
            Ok(st) => Ok(st),
            Err(e) => {
                self.inferior = Some(inf);
                Err(map_wait_error(e))
            },
        }
    }

    /// Steps the traced process to the next source line, reporting the
    /// new stop or the terminal status. A terminal status clears the
    /// process slot.
    pub fn cmd_next(&mut self) -> (r: Result<Status, DebugError>)
        ensures
            final(self).target == old(self).target,
            final(self).symbols == old(self).symbols,
            final(self).breakpoints == old(self).breakpoints,
            (r == Err::<Status, DebugError>(DebugError::NoActiveProcess)) <==> old(self).inferior
                is None,
            match r {
                Ok(st) => match st {
                    Status::Stopped(_, _) => final(self).inferior == old(self).inferior,
                    _ => final(self).inferior is None,
                },
                Err(DebugError::NoActiveProcess) => final(self).inferior is None,
                Err(_) => final(self).inferior == old(self).inferior,
            },
    {
        let inf = match self.inferior.take() {
            Some(i) => i,
            None => {
                return Err(DebugError::NoActiveProcess);
            },
        };
        let (entry_ip, _) = match inf.read_frame_pointers() {
            Ok(p) => p,
            Err(e) => {
                self.inferior = Some(inf);
                return Err(DebugError::Wait(e));
            },
        };
        let entry_line: Option<u64> = match self.symbols.get_line_from_addr(entry_ip) {
            Some(l) => Some(l.number),
            None => None,
        };
        match inf.next_line(&self.symbols, &self.breakpoints, entry_line) {
            Ok(Status::Stopped(sig, ip)) => {
                self.inferior = Some(inf);
                Ok(Status::Stopped(sig, ip))
            },
            Ok(st) => Ok(st),
            Err(e) => {
                self.inferior = Some(inf);
                Err(map_wait_error(e))
            },
        }
    }

    /// Reports the call stack of the stopped process, innermost frame
    /// first; no state changes. Every frame reported resolves against the
    /// symbol table.
    pub fn cmd_backtrace(&self) -> (r: Result<Vec<Frame>, DebugError>)
        ensures
            (r == Err::<Vec<Frame>, DebugError>(DebugError::NoActiveProcess)) <==> self.inferior
                is None,
            match r {
                Ok(frames) => forall|k: int|
                    0 <= k < frames@.len() ==> spec_frame_resolvable(
                        self.symbols.lines@,
                        self.symbols.functions@,
                        frames@[k],
                    ),
                Err(_) => true,
            },
    {
        match self.inferior.as_ref() {
            None => Err(DebugError::NoActiveProcess),
            Some(inf) => {
                match inf.backtrace(&self.symbols) {
                    Ok(frames) => Ok(frames),
                    Err(e) => Err(DebugError::Wait(e)),
                }
            },
        }
    }

    /// Ends the use of any traced process: terminates and reaps it. After
    /// this no process is owned, whatever the kill reported; the caller
    /// may log a failure, which is not fatal. Used by the quit operation,
    /// and before a run starts a new process.
    pub fn cmd_quit(&mut self) -> (r: Result<(), i32>)
        ensures
            final(self).inferior is None,
            final(self).target == old(self).target,
            final(self).symbols == old(self).symbols,
            final(self).breakpoints == old(self).breakpoints,
            old(self).inferior is None ==> r == Ok::<(), i32>(()),
    {
        match self.inferior.take() {
            None => Ok(()),
            Some(mut inf) => inf.kill(),
        }
    }

    /// Adopts a freshly spawned traced child for a run: waits for the
    /// trap stop that follows its program load, installs every declared
    /// breakpoint's trap byte, and resumes it once. Any handshake or
    /// install failure terminates the child, leaving no process; a
    /// terminal first status clears the slot; a failure of the resume
    /// leaves the slot filled, the process's true state being unknown.
    pub fn attach_run(&mut self, pid: i32) -> (r: Result<Status, DebugError>)
        requires
            old(self).inferior is None,
        ensures
            final(self).target == old(self).target,
            final(self).symbols == old(self).symbols,
            final(self).breakpoints.entries@.len() == old(self).breakpoints.entries@.len(),
            forall|k: int|
                0 <= k < final(self).breakpoints.entries@.len() ==> final(self).breakpoints.entries@[k].addr == old(self).breakpoints.entries@[k].addr,
            match r {
                Ok(st) => match st {
                    Status::Stopped(_, _) => final(self).inferior == Some(Inferior { pid })
                        && forall|k: int|
                        0 <= k < final(self).breakpoints.entries@.len() ==> final(self).breakpoints.entries@[k].original_byte is Some,
                    _ => final(self).inferior is None,
                },
                Err(DebugError::SpawnFailed) => final(self).inferior is None,
                Err(DebugError::Memory(_)) => final(self).inferior is None,
                Err(_) => final(self).inferior == Some(Inferior { pid }),
            },
    {
        let mut inf = Inferior::from_pid(pid);
        let first = inf.wait(None);
        if !handshake_ok(&first) {
            let _ = inf.kill();
            return Err(DebugError::SpawnFailed);
        }
        match self.breakpoints.install_all(&mut inf) {
            Ok(()) => {},
            Err(e) => {
                let _ = inf.kill();
                return Err(DebugError::Memory(e));
            },
        }
        match inf.cont() {
            Ok(Status::Stopped(sig, ip)) => {
                self.inferior = Some(inf);
                Ok(Status::Stopped(sig, ip))
            },
            Ok(st) => Ok(st),
            Err(e) => {
                self.inferior = Some(inf);
                Err(map_wait_error(e))
            },
        }
    }
}

} // verus!
