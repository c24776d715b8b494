//! Operator commands: the textual debugger operations and the parsing of
//! whitespace-split token lists into them, together with the raw-address
//! parser used for `*<hex-address>` breakpoint targets.

use vstd::prelude::*;

use crate::text::{parse_uint_chars, spec_parse_uint, str_eq, str_to_chars};

verus! {

/// One discrete debugger operation, as parsed from an input line.
pub enum DebuggerCommand {
    Quit,
    Run(Vec<String>),
    Continue,
    BackTrace,
    Next,
    BreakPoint(String),
}

/// The hexadecimal reading of an address string: an optional `0x` or `0X`
/// prefix, then hex digits.
pub open spec fn spec_parse_address(s: Seq<char>) -> Option<usize> {
    let body = if s.len() >= 2 && s[0] == '0' && (s[1] == 'x' || s[1] == 'X') {
        s.skip(2)
    } else {
        s
    };
    spec_parse_uint(body, 16)
}

/// Parses a hexadecimal address, with or without a `0x` prefix.
pub fn parse_address(addr: &str) -> (r: Option<usize>)
    ensures
        r == spec_parse_address(addr@),
{
    let v = str_to_chars(addr);
    let from: usize = if v.len() >= 2 && v[0] == '0' && (v[1] == 'x' || v[1] == 'X') {
        2
    } else {
        0
    };
    proof {
        assert(v@.skip(0) =~= v@);
    }
    parse_uint_chars(&v, from, 16)
}

/// Whether `r` is the command that the token sequence `ts` denotes: the
/// first token selects the operation (with its short aliases), `run` takes
/// the remaining tokens as arguments, `break` requires a target token, and
/// anything else is unrecognized.
pub open spec fn spec_command_of_tokens(r: Option<DebuggerCommand>, ts: Seq<Seq<char>>) -> bool {
    if ts.len() == 0 {
        r is None
    } else {
        let t0 = ts[0];
        if t0 == "q"@ || t0 == "quit"@ {
            r == Some(DebuggerCommand::Quit)
        } else if t0 == "r"@ || t0 == "run"@ {
            match r {
                Some(DebuggerCommand::Run(args)) => args@.len() == ts.len() - 1 && (forall|i: int|
                    0 <= i < args@.len() ==> args@[i]@ == ts[i + 1]),
                _ => false,
            }
        } else if t0 == "c"@ || t0 == "cont"@ || t0 == "continue"@ {
            r == Some(DebuggerCommand::Continue)
        } else if t0 == "bt"@ || t0 == "backtrace"@ {
            r == Some(DebuggerCommand::BackTrace)
        } else if t0 == "n"@ || t0 == "next"@ {
            r == Some(DebuggerCommand::Next)
        } else if t0 == "break"@ || t0 == "b"@ {
            if ts.len() >= 2 {
                match r {
                    Some(DebuggerCommand::BreakPoint(target)) => target@ == ts[1],
                    _ => false,
                }
            } else {
                r is None
            }
        } else {
            r is None
        }
    }
}

impl DebuggerCommand {
    /// Parses a whitespace-split token list into a command, or `None` if
    /// the tokens form no recognized operation.
    pub fn from_tokens(tokens: &Vec<&str>) -> (r: Option<DebuggerCommand>)
        ensures
            spec_command_of_tokens(r, tokens@.map_values(|t: &str| t@)),
    {
        let ghost ts = tokens@.map_values(|t: &str| t@);
        if tokens.len() == 0 {
            return None;
        }
        let t0 = tokens[0];
        proof {
            assert(ts[0] == t0@);
        }
        if str_eq(t0, "q") || str_eq(t0, "quit") {
            return Some(DebuggerCommand::Quit);
        }
        if str_eq(t0, "r") || str_eq(t0, "run") {
            let mut args: Vec<String> = Vec::new();
            let mut i: usize = 1;
            while i < tokens.len()
                invariant
                    1 <= i <= tokens@.len(),
                    ts == tokens@.map_values(|t: &str| t@),
                    args@.len() == i - 1,
                    forall|k: int| 0 <= k < args@.len() ==> args@[k]@ == ts[k + 1],
                decreases tokens@.len() - i,
            {
                proof {
                    assert(ts[i as int] == tokens@[i as int]@);
                }
                args.push(tokens[i].to_owned());
                i = i + 1;
            }
            return Some(DebuggerCommand::Run(args));
        }
        if str_eq(t0, "c") || str_eq(t0, "cont") || str_eq(t0, "continue") {
            return Some(DebuggerCommand::Continue);
        }
        if str_eq(t0, "bt") || str_eq(t0, "backtrace") {
            return Some(DebuggerCommand::BackTrace);
        }
        if str_eq(t0, "n") || str_eq(t0, "next") {
            return Some(DebuggerCommand::Next);
        }
        if str_eq(t0, "break") || str_eq(t0, "b") {
            if tokens.len() >= 2 {
                proof {
                    assert(ts[1] == tokens@[1]@);
                }
                return Some(DebuggerCommand::BreakPoint(tokens[1].to_owned()));
            } else {
                return None;
            }
        }
        None
    }
}

} // verus!
