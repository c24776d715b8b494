//! Stack unwinding: walking the frame-pointer chain from the current
//! instruction pointer and base pointer, resolving each frame against the
//! symbol table. The walk stops at the program entry function `main`; it
//! also stops at any unreadable or unresolvable link and whenever the
//! next base pointer fails to increase strictly, so that it never re-reads
//! a base pointer and always makes progress. A frame whose address
//! resolves to no line or no function is skipped without ending the walk.

use vstd::prelude::*;

use crate::inferior::Inferior;
use crate::symbols::{spec_best_line, spec_function_at, FunctionEntry, LineEntry, SymbolTable};
use crate::text::str_eq;

verus! {

/// One reported stack frame: function name and source location.
#[derive(Clone, Debug)]
pub struct Frame {
    pub function: String,
    pub file: String,
    pub line: u64,
}

/// A word-addressed snapshot of process memory: the frame chain of a
/// stopped process as plain values, so that the walk itself can be
/// exercised outside any live process.
pub struct MemorySnapshot {
    pub words: Vec<(usize, u64)>,
}

/// The word a snapshot holds at `addr`: the first matching pair.
pub open spec fn spec_mem_read(words: Seq<(usize, u64)>, addr: usize) -> Option<u64>
    decreases words.len(),
{
    if words.len() == 0 {
        None
    } else if words[0].0 == addr {
        Some(words[0].1)
    } else {
        spec_mem_read(words.skip(1), addr)
    }
}

impl MemorySnapshot {
    /// An empty snapshot.
    pub fn new() -> (r: MemorySnapshot)
        ensures
            r.words@.len() == 0,
    {
        MemorySnapshot { words: Vec::new() }
    }

    /// Reads the word at `addr`, if the snapshot holds one.
    pub fn read_word(&self, addr: usize) -> (r: Option<u64>)
        ensures
            r == spec_mem_read(self.words@, addr),
    {
        proof {
            assert(self.words@.skip(0) =~= self.words@);
        }
        let mut i: usize = 0;
        while i < self.words.len()
            invariant
                0 <= i <= self.words@.len(),
                spec_mem_read(self.words@, addr) == spec_mem_read(
                    self.words@.skip(i as int),
                    addr,
                ),
            decreases self.words@.len() - i,
        {
            proof {
                assert(self.words@.skip(i as int)[0] == self.words@[i as int]);
                assert(self.words@.skip(i as int).skip(1) =~= self.words@.skip(i + 1));
            }
            if self.words[i].0 == addr {
                return Some(self.words[i].1);
            }
            i = i + 1;
        }
        None
    }
}

/// What one address resolves to: the frame to report, when both a source
/// line and a function are known there, and whether the walk ends here
/// because the function is the program entry function `main`.
pub open spec fn spec_frame_at(
    lines: Seq<LineEntry>,
    functions: Seq<FunctionEntry>,
    ip: usize,
) -> (Option<Frame>, bool) {
    match (spec_best_line(lines, ip), spec_function_at(functions, ip)) {
        (Some(l), Some(f)) => (
            Some(Frame { function: f.name, file: l.file, line: l.number }),
            f.name@ == "main"@,
        ),
        _ => (None, false),
    }
}

/// Resolves one address to its reportable frame and the end-of-walk flag.
pub fn resolve_frame(symbols: &SymbolTable, ip: usize) -> (r: (Option<Frame>, bool))
    ensures
        r == spec_frame_at(symbols.lines@, symbols.functions@, ip),
{
    let line = symbols.get_line_from_addr(ip);
    let func = symbols.get_function_from_addr(ip);
    match (line, func) {
        (Some(l), Some(name)) => {
            let is_main = str_eq(name.as_str(), "main");
            (Some(Frame { function: name, file: l.file, line: l.number }), is_main)
        },
        _ => (None, false),
    }
}

/// Whether some address resolves to exactly this frame.
pub open spec fn spec_frame_resolvable(
    lines: Seq<LineEntry>,
    functions: Seq<FunctionEntry>,
    f: Frame,
) -> bool {
    exists|a: usize| #[trigger] spec_frame_at(lines, functions, a).0 == Some(f)
}

/// The frames the walk reports from `ip`/`bp` over a memory snapshot:
/// innermost first; the entry function's frame is the last reported; a
/// frame with incomplete information is skipped; the walk ends at any
/// missing word and at any base pointer that fails to increase.
pub open spec fn spec_backtrace(
    words: Seq<(usize, u64)>,
    lines: Seq<LineEntry>,
    functions: Seq<FunctionEntry>,
    ip: usize,
    bp: usize,
) -> Seq<Frame>
    decreases usize::MAX - bp,
{
    let resolved = spec_frame_at(lines, functions, ip);
    let here = match resolved.0 {
        Some(f) => seq![f],
        None => Seq::empty(),
    };
    if resolved.1 {
        here
    } else if bp > usize::MAX - 8 {
        here
    } else {
        match (spec_mem_read(words, (bp + 8) as usize), spec_mem_read(words, bp)) {
            (Some(ret), Some(nbp)) => {
                if nbp as usize <= bp {
                    here
                } else {
                    here + spec_backtrace(words, lines, functions, ret as usize, nbp as usize)
                }
            },
            _ => here,
        }
    }
}

/// Walks the frame chain held in a memory snapshot, exactly as the walk
/// over a live process does.
pub fn backtrace_frames(
    mem: &MemorySnapshot,
    symbols: &SymbolTable,
    start_ip: usize,
    start_bp: usize,
) -> (frames: Vec<Frame>)
    ensures
        frames@ == spec_backtrace(
            mem.words@,
            symbols.lines@,
            symbols.functions@,
            start_ip,
            start_bp,
        ),
{
    let ghost total = spec_backtrace(
        mem.words@,
        symbols.lines@,
        symbols.functions@,
        start_ip,
        start_bp,
    );
    let mut frames: Vec<Frame> = Vec::new();
    let mut ip = start_ip;
    let mut bp = start_bp;
    proof {
        assert(frames@ + total =~= total);
    }
    loop
        invariant_except_break
            total == frames@ + spec_backtrace(mem.words@, symbols.lines@, symbols.functions@, ip, bp),
        invariant
            total == spec_backtrace(
                mem.words@,
                symbols.lines@,
                symbols.functions@,
                start_ip,
                start_bp,
            ),
        ensures
            frames@ == total,
        decreases usize::MAX - bp,
    {
        let ghost tail = spec_backtrace(mem.words@, symbols.lines@, symbols.functions@, ip, bp);
        let (frame_opt, is_main) = resolve_frame(symbols, ip);
        let ghost here = match spec_frame_at(symbols.lines@, symbols.functions@, ip).0 {
            Some(f) => seq![f],
            None => Seq::<Frame>::empty(),
        };
        match frame_opt {
            Some(f) => {
                frames.push(f);
            },
            None => {},
        }
        if is_main {
            proof {
                assert(frames@ =~= total);
            }
            break ;
        }
        if bp > usize::MAX - 8 {
            proof {
                assert(frames@ =~= total);
            }
            break ;
        }
        let ret = match mem.read_word(bp + 8) {
            Some(w) => w,
            None => {
                proof {
                    assert(frames@ =~= total);
                }
                break ;
            },
        };
        let nbp = match mem.read_word(bp) {
            Some(w) => w,
            None => {
                proof {
                    assert(frames@ =~= total);
                }
                break ;
            },
        };
        if nbp as usize <= bp {
            proof {
                assert(frames@ =~= total);
            }
            break ;
        }
        ip = ret as usize;
        bp = nbp as usize;
        proof {
            assert(tail =~= here + spec_backtrace(
                mem.words@,
                symbols.lines@,
                symbols.functions@,
                ip,
                bp,
            ));
            assert(total =~= frames@ + spec_backtrace(
                mem.words@,
                symbols.lines@,
                symbols.functions@,
                ip,
                bp,
            ));
        }
    }
    frames
}

/// Stopped three calls deep with an intact frame chain — the innermost
/// address resolving to `f0` in a function that is not the entry
/// function, the saved return address resolving to `f1` likewise, and
/// the outermost return address resolving to `f2` in the entry function
/// — with each link present in memory and each base pointer strictly
/// increasing, the walk reports exactly the three frames, innermost
/// first, the entry function's frame last.
pub proof fn lemma_backtrace_three_frames(
    words: Seq<(usize, u64)>,
    lines: Seq<LineEntry>,
    functions: Seq<FunctionEntry>,
    ip0: usize,
    bp0: usize,
    ret1: u64,
    bp1: u64,
    ret2: u64,
    bp2: u64,
    f0: Frame,
    f1: Frame,
    f2: Frame,
)
    requires
        spec_frame_at(lines, functions, ip0) == (Some(f0), false),
        bp0 <= usize::MAX - 8,
        spec_mem_read(words, (bp0 + 8) as usize) == Some(ret1),
        spec_mem_read(words, bp0) == Some(bp1),
        bp1 as usize > bp0,
        spec_frame_at(lines, functions, ret1 as usize) == (Some(f1), false),
        bp1 as usize <= usize::MAX - 8,
        spec_mem_read(words, (bp1 as usize + 8) as usize) == Some(ret2),
        spec_mem_read(words, bp1 as usize) == Some(bp2),
        bp2 as usize > bp1 as usize,
        spec_frame_at(lines, functions, ret2 as usize) == (Some(f2), true),
    ensures
        spec_backtrace(words, lines, functions, ip0, bp0) == seq![f0, f1, f2],
{
    assert(spec_backtrace(words, lines, functions, ret2 as usize, bp2 as usize) =~= seq![f2]);
    assert(spec_backtrace(words, lines, functions, ret1 as usize, bp1 as usize) =~= seq![f1]
        + spec_backtrace(words, lines, functions, ret2 as usize, bp2 as usize));
    assert(spec_backtrace(words, lines, functions, ip0, bp0) =~= seq![f0] + spec_backtrace(
        words,
        lines,
        functions,
        ret1 as usize,
        bp1 as usize,
    ));
    assert(spec_backtrace(words, lines, functions, ip0, bp0) =~= seq![f0, f1, f2]);
}

impl Inferior {
    /// Walks the frame-pointer chain of the stopped process, resolving
    /// each frame against the symbol table; reads go through the kernel,
    /// and a failed register read surfaces as an error, as the walk cannot
    /// start without the registers. Every frame reported resolves against
    /// the symbol table.
    pub fn backtrace(&self, symbols: &SymbolTable) -> (r: Result<Vec<Frame>, i32>)
        ensures
            match r {
                Ok(frames) => forall|k: int|
                    0 <= k < frames@.len() ==> spec_frame_resolvable(
                        symbols.lines@,
                        symbols.functions@,
                        frames@[k],
                    ),
                Err(_) => true,
            },
    {
        let (ip0, bp0) = match self.read_frame_pointers() {
            Ok(p) => p,
            Err(e) => {
                return Err(e);
            },
        };
        let mut frames: Vec<Frame> = Vec::new();
        let mut ip = ip0;
        let mut bp = bp0;
        loop
            invariant
                forall|k: int|
                    0 <= k < frames@.len() ==> spec_frame_resolvable(
                        symbols.lines@,
                        symbols.functions@,
                        frames@[k],
                    ),
            ensures
                forall|k: int|
                    0 <= k < frames@.len() ==> spec_frame_resolvable(
                        symbols.lines@,
                        symbols.functions@,
                        frames@[k],
                    ),
            decreases usize::MAX - bp,
        {
            let (frame_opt, is_main) = resolve_frame(symbols, ip);
            match frame_opt {
                Some(f) => {
                    proof {
                        assert(spec_frame_at(symbols.lines@, symbols.functions@, ip).0 == Some(
                            f,
                        ));
                    }
                    frames.push(f);
                },
                None => {},
            }
            if is_main {
                break ;
            }
            if bp > usize::MAX - 8 {
                break ;
            }
            let ret = match self.read_word(bp + 8) {
                Ok(w) => w,
                Err(e) => {
                    return Err(e);
                },
            };
            let nbp = match self.read_word(bp) {
                Ok(w) => w,
                Err(e) => {
                    return Err(e);
                },
            };
            if nbp as usize <= bp {
                break ;
            }
            ip = ret as usize;
            bp = nbp as usize;
        }
        Ok(frames)
    }
}

} // verus!
