//! Source-line stepping: repeatedly single-step the traced process until
//! the resolved source line differs from the line at entry, or the
//! process stops for a non-step reason — a breakpoint hit, another
//! signal, an exit, or a termination. A step budget bounds the live walk,
//! so it provably ends even on a target that never changes line.

use vstd::prelude::*;

use crate::breakpoints::{spec_breakpoint_hit, Breakpoint, BreakpointTable};
use crate::inferior::Inferior;
use crate::status::{Status, WaitError, SIGTRAP};
use crate::symbols::{spec_best_line, LineEntry, SymbolTable};

verus! {

/// The greatest number of single steps one `next` operation may take.
pub const STEP_BUDGET: u64 = 0x1000_0000_0000;

/// The source line number governing address `ip`, if the line table
/// resolves one.
pub open spec fn spec_line_number_at(lines: Seq<LineEntry>, ip: usize) -> Option<u64> {
    match spec_best_line(lines, ip) {
        Some(e) => Some(e.number),
        None => None,
    }
}

/// Whether a trap stop at `ip` is one the next-line walk reports: a stop
/// by another signal, a breakpoint hit, or a resolved line that differs
/// from the line at entry.
pub open spec fn spec_reportable_stop(
    entries: Seq<Breakpoint>,
    lines: Seq<LineEntry>,
    entry_line: Option<u64>,
    sig: i32,
    ip: usize,
) -> bool {
    ||| sig != SIGTRAP
    ||| spec_breakpoint_hit(entries, ip) is Some
    ||| spec_line_number_at(lines, ip) != entry_line
}

/// Compares two optional line numbers.
pub fn opt_line_eq(a: Option<u64>, b: Option<u64>) -> (r: bool)
    ensures
        r == (a == b),
{
    match (a, b) {
        (None, None) => true,
        (Some(x), Some(y)) => x == y,
        _ => false,
    }
}

/// The step at which a line-granularity walk stops, over the modeled
/// trace of resolved lines after each successive single step: the first
/// step whose resolved line differs from the line at entry.
pub open spec fn spec_next_stop_index(trace: Seq<Option<u64>>, entry: Option<u64>) -> Option<int>
    decreases trace.len(),
{
    if trace.len() == 0 {
        None
    } else if trace[0] != entry {
        Some(0)
    } else {
        match spec_next_stop_index(trace.skip(1), entry) {
            Some(i) => Some(i + 1),
            None => None,
        }
    }
}

/// Finds the first step whose resolved line differs from the entry line,
/// over a modeled trace; `None` when no step changes line, so the walk
/// over any finite trace ends.
pub fn next_stop_index(trace: &Vec<Option<u64>>, entry: Option<u64>) -> (r: Option<usize>)
    ensures
        match r {
            Some(i) => i < trace@.len() && trace@[i as int] != entry && (forall|k: int|
                0 <= k < i ==> trace@[k] == entry) && spec_next_stop_index(trace@, entry) == Some(
                i as int,
            ),
            None => (forall|k: int| 0 <= k < trace@.len() ==> trace@[k] == entry)
                && spec_next_stop_index(trace@, entry) is None,
        },
{
    proof {
        assert(trace@.skip(0) =~= trace@);
    }
    let mut i: usize = 0;
    while i < trace.len()
        invariant
            0 <= i <= trace@.len(),
            forall|k: int| 0 <= k < i ==> trace@[k] == entry,
            spec_next_stop_index(trace@, entry) == (match spec_next_stop_index(
                trace@.skip(i as int),
                entry,
            ) {
                Some(k) => Some(k + i),
                None => None::<int>,
            }),
        decreases trace@.len() - i,
    {
        proof {
            assert(trace@.skip(i as int)[0] == trace@[i as int]);
            assert(trace@.skip(i as int).skip(1) =~= trace@.skip(i + 1));
        }
        if !opt_line_eq(trace[i], entry) {
            return Some(i);
        }
        i = i + 1;
    }
    None
}

/// Stepping from an entry line through a region whose resolved lines
/// never fall below it, the walk reports only the entry line until its
/// stopping step, and the line it stops at is strictly greater: the
/// lines it visits are non-decreasing. On a finite trace the walk always
/// ends, at the first change or at the trace's end.
pub proof fn lemma_next_visits_non_decreasing(trace: Seq<Option<u64>>, entry: u64, i: int)
    requires
        forall|k: int|
            0 <= k < trace.len() ==> trace[k] is Some && trace[k]->Some_0 >= entry,
        spec_next_stop_index(trace, Some(entry)) == Some(i),
    ensures
        0 <= i < trace.len(),
        forall|k: int| 0 <= k < i ==> trace[k] == Some(entry),
        trace[i] is Some && trace[i]->Some_0 > entry,
    decreases trace.len(),
{
    if trace.len() > 0 {
        if trace[0] != Some(entry) {
        } else {
            lemma_next_visits_non_decreasing(trace.skip(1), entry, i - 1);
            assert forall|k: int| 0 <= k < i implies trace[k] == Some(entry) by {
                if k > 0 {
                    assert(trace.skip(1)[k - 1] == trace[k]);
                }
            }
            assert(trace.skip(1)[i - 1] == trace[i]);
        }
    }
}

impl Inferior {
    /// Single-steps the stopped process until the resolved source line
    /// differs from `entry_line`, the line at entry, or the process stops
    /// for a non-step reason: a breakpoint hit, a signal other than the
    /// trap signal, an exit, or a termination by signal. Every trap stop
    /// it reports is such a reportable stop; a stop for a changed line
    /// reports the trap stop itself.
    pub fn next_line(
        &self,
        symbols: &SymbolTable,
        breakpoints: &BreakpointTable,
        entry_line: Option<u64>,
    ) -> (r: Result<Status, WaitError>)
        ensures
            match r {
                Ok(Status::Stopped(sig, ip)) => spec_reportable_stop(
                    breakpoints.entries@,
                    symbols.lines@,
                    entry_line,
                    sig,
                    ip,
                ),
                _ => true,
            },
    {
        let mut fuel: u64 = STEP_BUDGET;
        loop
            invariant
                fuel <= STEP_BUDGET,
            decreases fuel,
        {
            if fuel == 0 {
                return Err(WaitError::StepLimit);
            }
            fuel = fuel - 1;
            match self.single_step() {
                Err(e) => {
                    return Err(e);
                },
                Ok(Status::Exited(code)) => {
                    return Ok(Status::Exited(code));
                },
                Ok(Status::Signaled(sig)) => {
                    return Ok(Status::Signaled(sig));
                },
                Ok(Status::Stopped(sig, ip)) => {
                    if sig != SIGTRAP {
                        return Ok(Status::Stopped(sig, ip));
                    }
                    match breakpoints.breakpoint_hit(ip) {
                        Some(_) => {
                            return Ok(Status::Stopped(sig, ip));
                        },
                        None => {},
                    }
                    let line: Option<u64> = match symbols.get_line_from_addr(ip) {
                        Some(l) => Some(l.number),
                        None => None,
                    };
                    proof {
                        assert(line == spec_line_number_at(symbols.lines@, ip));
                    }
                    if !opt_line_eq(line, entry_line) {
                        return Ok(Status::Stopped(sig, ip));
                    }
                },
            }
        }
    }
}

} // verus!
