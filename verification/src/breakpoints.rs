//! The breakpoint table: an append-only ordered collection of patch
//! sites. An entry is created by address resolution and never deleted;
//! its index is its insertion order and is never reused. The saved
//! original byte is captured when the trap is installed into a live
//! process; a pending entry (declared before a process exists) holds none
//! yet.

use vstd::prelude::*;

use crate::inferior::Inferior;

verus! {

/// One patch site: the resolved virtual address and, once the trap byte
/// is installed, the instruction byte that occupied it before patching.
#[derive(Clone, Copy, Debug)]
pub struct Breakpoint {
    pub addr: usize,
    pub original_byte: Option<u8>,
}

/// The append-only ordered set of patch sites.
pub struct BreakpointTable {
    pub entries: Vec<Breakpoint>,
}

/// The first installed entry whose trap, one byte long, explains a stop
/// at instruction pointer `ip`: the trap opcode sits at `addr`, so the
/// reported instruction pointer after executing it is `addr + 1`.
pub open spec fn spec_breakpoint_hit(entries: Seq<Breakpoint>, ip: usize) -> Option<int>
    decreases entries.len(),
{
    if entries.len() == 0 {
        None
    } else if entries[0].original_byte is Some && entries[0].addr + 1 == ip {
        Some(0)
    } else {
        match spec_breakpoint_hit(entries.skip(1), ip) {
            Some(i) => Some(i + 1),
            None => None,
        }
    }
}

/// A stop explained by an installed breakpoint reports the instruction
/// pointer exactly one past the patch address — the trap opcode is one
/// byte long — never at it and never further.
pub proof fn lemma_breakpoint_stop_past_address(entries: Seq<Breakpoint>, ip: usize, i: int)
    requires
        spec_breakpoint_hit(entries, ip) == Some(i),
    ensures
        0 <= i < entries.len(),
        entries[i].addr + 1 == ip,
        entries[i].original_byte is Some,
    decreases entries.len(),
{
    if entries.len() > 0 {
        if entries[0].original_byte is Some && entries[0].addr + 1 == ip {
        } else {
            lemma_breakpoint_stop_past_address(entries.skip(1), ip, i - 1);
            assert(entries.skip(1)[i - 1] == entries[i]);
        }
    }
}

impl BreakpointTable {
    /// An empty table.
    pub fn new() -> (r: BreakpointTable)
        ensures
            r.entries@.len() == 0,
    {
        BreakpointTable { entries: Vec::new() }
    }

    /// The number of breakpoints ever declared.
    pub fn len(&self) -> (r: usize)
        ensures
            r == self.entries@.len(),
    {
        self.entries.len()
    }

    /// Appends a breakpoint at `addr`. `original_byte` is the saved byte
    /// when the trap was installed immediately, `None` when the entry is
    /// pending. Returns the new entry's index: the insertion order.
    pub fn add(&mut self, addr: usize, original_byte: Option<u8>) -> (idx: usize)
        ensures
            idx == old(self).entries@.len(),
            final(self).entries@ == old(self).entries@.push(Breakpoint { addr, original_byte }),
    {
        let idx = self.entries.len();
        self.entries.push(Breakpoint { addr, original_byte });
        idx
    }

    /// Reads one entry.
    pub fn get(&self, idx: usize) -> (r: Breakpoint)
        requires
            idx < self.entries@.len(),
        ensures
            r == self.entries@[idx as int],
    {
        self.entries[idx]
    }

    /// Finds the installed breakpoint whose trap explains a stop at
    /// instruction pointer `ip`, if any.
    pub fn breakpoint_hit(&self, ip: usize) -> (r: Option<usize>)
        ensures
            match r {
                Some(idx) => idx < self.entries@.len() && self.entries@[idx as int].original_byte
                    is Some && self.entries@[idx as int].addr + 1 == ip && spec_breakpoint_hit(
                    self.entries@,
                    ip,
                ) == Some(idx as int),
                None => spec_breakpoint_hit(self.entries@, ip) is None,
            },
    {
        proof {
            assert(self.entries@.skip(0) =~= self.entries@);
        }
        let mut i: usize = 0;
        while i < self.entries.len()
            invariant
                0 <= i <= self.entries@.len(),
                spec_breakpoint_hit(self.entries@, ip) == (match spec_breakpoint_hit(
                    self.entries@.skip(i as int),
                    ip,
                ) {
                    Some(k) => Some(k + i),
                    None => None::<int>,
                }),
            decreases self.entries@.len() - i,
        {
            proof {
                assert(self.entries@.skip(i as int)[0] == self.entries@[i as int]);
                assert(self.entries@.skip(i as int).skip(1) =~= self.entries@.skip(i + 1));
            }
            let e = self.entries[i];
            let installed = match e.original_byte {
                Some(_) => true,
                None => false,
            };
            if installed && ip >= 1 && e.addr == ip - 1 {
                return Some(i);
            }
            i = i + 1;
        }
        None
    }

    /// Installs every entry's trap byte into the traced process, as when a
    /// freshly spawned process must receive all previously declared
    /// breakpoints, recording each saved original byte. Stops at the first
    /// kernel failure; addresses and numbering are preserved either way.
    pub fn install_all(&mut self, inferior: &mut Inferior) -> (r: Result<(), i32>)
        ensures
            final(inferior).pid == old(inferior).pid,
            final(self).entries@.len() == old(self).entries@.len(),
            forall|k: int|
                0 <= k < final(self).entries@.len() ==> final(self).entries@[k].addr == old(
                    self,
                ).entries@[k].addr,
            r is Ok ==> forall|k: int|
                0 <= k < final(self).entries@.len() ==> final(self).entries@[k].original_byte
                    is Some,
    {
        let mut i: usize = 0;
        while i < self.entries.len()
            invariant
                0 <= i <= self.entries@.len(),
                inferior.pid == old(inferior).pid,
                self.entries@.len() == old(self).entries@.len(),
                forall|k: int|
                    0 <= k < self.entries@.len() ==> self.entries@[k].addr == old(
                        self,
                    ).entries@[k].addr,
                forall|k: int| 0 <= k < i ==> self.entries@[k].original_byte is Some,
            decreases self.entries@.len() - i,
        {
            let addr = self.entries[i].addr;
            match inferior.install_break_points(addr) {
                Ok(orig) => {
                    self.entries[i] = Breakpoint { addr, original_byte: Some(orig) };
                },
                Err(e) => {
                    return Err(e);
                },
            }
            i = i + 1;
        }
        Ok(())
    }
}

} // verus!
