//! The symbol resolver: the mapping between machine addresses and
//! source-level names and locations, loaded once from the target's debug
//! metadata and read-only afterwards. The table holds the line rows and
//! function ranges as plain values; every lookup is deterministic and
//! specified exactly.

use vstd::prelude::*;

use crate::text::str_eq;

verus! {

/// A source location: file name and line number.
pub struct Line {
    pub file: String,
    pub number: u64,
}

/// One row of the line table: from `addr` (up to the next row) the target
/// executes `file:number`.
pub struct LineEntry {
    pub addr: usize,
    pub file: String,
    pub number: u64,
}

/// One function of the target, covering the addresses `low..high`.
pub struct FunctionEntry {
    pub name: String,
    pub low: usize,
    pub high: usize,
}

/// The line rows and function ranges of the target.
pub struct SymbolTable {
    pub lines: Vec<LineEntry>,
    pub functions: Vec<FunctionEntry>,
}

/// The line row governing address `a`: the entry with the greatest
/// `addr <= a`, the earliest such row winning among equal addresses.
pub open spec fn spec_best_line(entries: Seq<LineEntry>, a: usize) -> Option<LineEntry>
    decreases entries.len(),
{
    if entries.len() == 0 {
        None
    } else {
        let prev = spec_best_line(entries.drop_last(), a);
        let e = entries.last();
        let better = match prev {
            Some(p) => p.addr < e.addr,
            None => true,
        };
        if e.addr <= a && better {
            Some(e)
        } else {
            prev
        }
    }
}

/// The first function range containing address `a`.
pub open spec fn spec_function_at(entries: Seq<FunctionEntry>, a: usize) -> Option<FunctionEntry>
    decreases entries.len(),
{
    if entries.len() == 0 {
        None
    } else if entries[0].low <= a < entries[0].high {
        Some(entries[0])
    } else {
        spec_function_at(entries.skip(1), a)
    }
}

/// The address of the first line row with the given line number.
pub open spec fn spec_addr_for_line(entries: Seq<LineEntry>, line: u64) -> Option<usize>
    decreases entries.len(),
{
    if entries.len() == 0 {
        None
    } else if entries[0].number == line {
        Some(entries[0].addr)
    } else {
        spec_addr_for_line(entries.skip(1), line)
    }
}

/// The entry address of the first function with the given name.
pub open spec fn spec_addr_for_function(entries: Seq<FunctionEntry>, name: Seq<char>) -> Option<
    usize,
>
    decreases entries.len(),
{
    if entries.len() == 0 {
        None
    } else if entries[0].name@ == name {
        Some(entries[0].low)
    } else {
        spec_addr_for_function(entries.skip(1), name)
    }
}

impl SymbolTable {
    /// An empty table: every lookup fails.
    pub fn new() -> (r: SymbolTable)
        ensures
            r.lines@.len() == 0,
            r.functions@.len() == 0,
    {
        SymbolTable { lines: Vec::new(), functions: Vec::new() }
    }

    /// Resolves an address to the source file and line executing there.
    pub fn get_line_from_addr(&self, addr: usize) -> (r: Option<Line>)
        ensures
            match r {
                Some(l) => match spec_best_line(self.lines@, addr) {
                    Some(e) => l.file == e.file && l.number == e.number,
                    None => false,
                },
                None => spec_best_line(self.lines@, addr) is None,
            },
    {
        let mut best: Option<usize> = None;
        let mut i: usize = 0;
        while i < self.lines.len()
            invariant
                0 <= i <= self.lines@.len(),
                match best {
                    Some(b) => b < i && spec_best_line(self.lines@.take(i as int), addr) == Some(
                        self.lines@[b as int],
                    ) && self.lines@[b as int].addr <= addr,
                    None => spec_best_line(self.lines@.take(i as int), addr) is None,
                },
            decreases self.lines@.len() - i,
        {
            proof {
                assert(self.lines@.take(i + 1).drop_last() =~= self.lines@.take(i as int));
                assert(self.lines@.take(i + 1).last() == self.lines@[i as int]);
            }
            let e_addr = self.lines[i].addr;
            if e_addr <= addr {
                let take = match best {
                    Some(b) => self.lines[b].addr < e_addr,
                    None => true,
                };
                if take {
                    best = Some(i);
                }
            }
            i = i + 1;
        }
        proof {
            assert(self.lines@.take(self.lines@.len() as int) =~= self.lines@);
        }
        match best {
            Some(b) => Some(
                Line { file: self.lines[b].file.clone(), number: self.lines[b].number },
            ),
            None => None,
        }
    }

    /// Resolves an address to the name of the function containing it.
    pub fn get_function_from_addr(&self, addr: usize) -> (r: Option<String>)
        ensures
            match r {
                Some(name) => match spec_function_at(self.functions@, addr) {
                    Some(e) => name == e.name,
                    None => false,
                },
                None => spec_function_at(self.functions@, addr) is None,
            },
    {
        proof {
            assert(self.functions@.skip(0) =~= self.functions@);
        }
        let mut i: usize = 0;
        while i < self.functions.len()
            invariant
                0 <= i <= self.functions@.len(),
                spec_function_at(self.functions@, addr) == spec_function_at(
                    self.functions@.skip(i as int),
                    addr,
                ),
            decreases self.functions@.len() - i,
        {
            proof {
                assert(self.functions@.skip(i as int)[0] == self.functions@[i as int]);
                assert(self.functions@.skip(i as int).skip(1) =~= self.functions@.skip(i + 1));
            }
            let low = self.functions[i].low;
            let high = self.functions[i].high;
            if low <= addr && addr < high {
                return Some(self.functions[i].name.clone());
            }
            i = i + 1;
        }
        None
    }

    /// Resolves a source line number to the address of its first line row.
    pub fn get_addr_for_line(&self, line: u64) -> (r: Option<usize>)
        ensures
            r == spec_addr_for_line(self.lines@, line),
    {
        proof {
            assert(self.lines@.skip(0) =~= self.lines@);
        }
        let mut i: usize = 0;
        while i < self.lines.len()
            invariant
                0 <= i <= self.lines@.len(),
                spec_addr_for_line(self.lines@, line) == spec_addr_for_line(
                    self.lines@.skip(i as int),
                    line,
                ),
            decreases self.lines@.len() - i,
        {
            proof {
                assert(self.lines@.skip(i as int)[0] == self.lines@[i as int]);
                assert(self.lines@.skip(i as int).skip(1) =~= self.lines@.skip(i + 1));
            }
            if self.lines[i].number == line {
                return Some(self.lines[i].addr);
            }
            i = i + 1;
        }
        None
    }

    /// Resolves a function name to the entry address of the first function
    /// carrying it.
    pub fn get_addr_for_function(&self, name: &str) -> (r: Option<usize>)
        ensures
            r == spec_addr_for_function(self.functions@, name@),
    {
        proof {
            assert(self.functions@.skip(0) =~= self.functions@);
        }
        let mut i: usize = 0;
        while i < self.functions.len()
            invariant
                0 <= i <= self.functions@.len(),
                spec_addr_for_function(self.functions@, name@) == spec_addr_for_function(
                    self.functions@.skip(i as int),
                    name@,
                ),
            decreases self.functions@.len() - i,
        {
            proof {
                assert(self.functions@.skip(i as int)[0] == self.functions@[i as int]);
                assert(self.functions@.skip(i as int).skip(1) =~= self.functions@.skip(i + 1));
            }
            if str_eq(self.functions[i].name.as_str(), name) {
                return Some(self.functions[i].low);
            }
            i = i + 1;
        }
        None
    }
}

} // verus!
