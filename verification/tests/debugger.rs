use deet::breakpoints::BreakpointTable;
use deet::command::{parse_address, DebuggerCommand};
use deet::session::{handshake_ok, DebugError, Session};
use deet::status::{decode_event, Status, WaitError, WaitEvent, SIGTRAP};
use deet::stepping::next_stop_index;
use deet::symbols::{FunctionEntry, LineEntry, SymbolTable};
use deet::unwind::{backtrace_frames, MemorySnapshot};
use deet::word_patch::{align_addr_to_word, extract_byte, replace_byte, TRAP_OPCODE};

fn sample_symbols() -> SymbolTable {
    SymbolTable {
        lines: vec![
            LineEntry { addr: 0x401190, file: "sample.c".to_string(), number: 8 },
            LineEntry { addr: 0x4011a0, file: "sample.c".to_string(), number: 10 },
            LineEntry { addr: 0x401200, file: "sample.c".to_string(), number: 20 },
        ],
        functions: vec![
            FunctionEntry { name: "main".to_string(), low: 0x401190, high: 0x401200 },
            FunctionEntry { name: "foo".to_string(), low: 0x401200, high: 0x401280 },
        ],
    }
}

#[test]
fn test_patch_restore_roundtrip_words() {
    let w: u64 = 0x1122334455667788;
    for k in 0..8u64 {
        let saved = extract_byte(w, k);
        let patched = replace_byte(w, k, TRAP_OPCODE);
        assert_eq!(extract_byte(patched, k), TRAP_OPCODE);
        let restored = replace_byte(patched, k, saved);
        assert_eq!(restored, w);
        for j in 0..8u64 {
            assert_eq!(extract_byte(restored, j), extract_byte(w, j));
        }
    }
}

#[test]
fn test_align_addr_to_word() {
    assert_eq!(align_addr_to_word(0x4011a3), 0x4011a0);
    assert_eq!(align_addr_to_word(0x4011a0), 0x4011a0);
    assert_eq!(align_addr_to_word(7), 0);
    assert_eq!(align_addr_to_word(8), 8);
}

#[test]
fn test_parse_address() {
    assert_eq!(parse_address("0x4011a0"), Some(0x4011a0));
    assert_eq!(parse_address("4011a0"), Some(0x4011a0));
    assert_eq!(parse_address("0X1F"), Some(31));
    assert_eq!(parse_address("0"), Some(0));
    assert_eq!(parse_address(""), None);
    assert_eq!(parse_address("0x"), None);
    assert_eq!(parse_address("zz"), None);
    assert_eq!(parse_address("0x10000000000000000"), None);
}

#[test]
fn test_from_tokens() {
    assert!(DebuggerCommand::from_tokens(&vec![]).is_none());
    assert!(matches!(
        DebuggerCommand::from_tokens(&vec!["q"]),
        Some(DebuggerCommand::Quit)
    ));
    assert!(matches!(
        DebuggerCommand::from_tokens(&vec!["quit"]),
        Some(DebuggerCommand::Quit)
    ));
    assert!(matches!(
        DebuggerCommand::from_tokens(&vec!["c"]),
        Some(DebuggerCommand::Continue)
    ));
    assert!(matches!(
        DebuggerCommand::from_tokens(&vec!["continue"]),
        Some(DebuggerCommand::Continue)
    ));
    assert!(matches!(
        DebuggerCommand::from_tokens(&vec!["bt"]),
        Some(DebuggerCommand::BackTrace)
    ));
    assert!(matches!(
        DebuggerCommand::from_tokens(&vec!["n"]),
        Some(DebuggerCommand::Next)
    ));
    match DebuggerCommand::from_tokens(&vec!["run", "alpha", "beta"]) {
        Some(DebuggerCommand::Run(args)) => {
            assert_eq!(args, vec!["alpha".to_string(), "beta".to_string()]);
        }
        _ => panic!("run was not parsed"),
    }
    match DebuggerCommand::from_tokens(&vec!["b", "*0x4011a0"]) {
        Some(DebuggerCommand::BreakPoint(target)) => {
            assert_eq!(target, "*0x4011a0".to_string());
        }
        _ => panic!("break was not parsed"),
    }
    assert!(DebuggerCommand::from_tokens(&vec!["b"]).is_none());
    assert!(DebuggerCommand::from_tokens(&vec!["bogus"]).is_none());
}

#[test]
fn test_decode_event() {
    assert_eq!(decode_event(WaitEvent::Exited(3), 0), Ok(Status::Exited(3)));
    assert_eq!(decode_event(WaitEvent::Signaled(9), 0), Ok(Status::Signaled(9)));
    assert_eq!(
        decode_event(WaitEvent::Stopped(SIGTRAP), 0x4011a1),
        Ok(Status::Stopped(SIGTRAP, 0x4011a1))
    );
    assert_eq!(
        decode_event(WaitEvent::Other, 0),
        Err(WaitError::UnexpectedStatus)
    );
}

#[test]
fn test_breakpoint_hit_detection() {
    let mut table = BreakpointTable::new();
    assert_eq!(table.len(), 0);
    let i0 = table.add(0x4011a0, Some(0x55));
    let i1 = table.add(0x401200, None);
    assert_eq!(i0, 0);
    assert_eq!(i1, 1);
    // The trap byte is one byte long, so a stop at addr + 1 is its hit.
    assert_eq!(table.breakpoint_hit(0x4011a1), Some(0));
    // A pending (not installed) entry explains no stop.
    assert_eq!(table.breakpoint_hit(0x401201), None);
    assert_eq!(table.breakpoint_hit(0x4011a0), None);
    let bp = table.get(0);
    assert_eq!(bp.addr, 0x4011a0);
    assert_eq!(bp.original_byte, Some(0x55));
}

#[test]
fn test_breakpoint_resolution() {
    let mut session = Session::new("sample".to_string(), sample_symbols());
    let first = session.cmd_break("10");
    assert_eq!(first, Ok(0));
    assert_eq!(session.breakpoints.get(0).addr, 0x4011a0);
    let second = session.cmd_break("foo");
    assert_eq!(second, Ok(1));
    assert_eq!(session.breakpoints.get(1).addr, 0x401200);
    let third = session.cmd_break("bogus_symbol");
    assert_eq!(third, Err(DebugError::UnresolvedTarget));
    assert_eq!(session.breakpoints.len(), 2);
}

#[test]
fn test_breakpoint_raw_address() {
    let mut session = Session::new("sample".to_string(), sample_symbols());
    assert_eq!(session.cmd_break("*0x7fff1234"), Ok(0));
    assert_eq!(session.breakpoints.get(0).addr, 0x7fff1234);
    assert_eq!(session.cmd_break("*cafe"), Ok(1));
    assert_eq!(session.breakpoints.get(1).addr, 0xcafe);
    assert_eq!(session.cmd_break("*xyz"), Err(DebugError::UnresolvedTarget));
}

#[test]
fn test_breakpoint_line_without_row() {
    let mut session = Session::new("sample".to_string(), sample_symbols());
    // A decimal target is a line lookup and never falls through to the
    // function strategy.
    assert_eq!(session.cmd_break("99"), Err(DebugError::UnresolvedTarget));
    assert_eq!(session.breakpoints.len(), 0);
}

#[test]
fn test_session_requires_active_process() {
    let mut session = Session::new("sample".to_string(), sample_symbols());
    assert_eq!(session.cmd_continue(), Err(DebugError::NoActiveProcess));
    assert_eq!(session.cmd_next(), Err(DebugError::NoActiveProcess));
    assert!(matches!(
        session.cmd_backtrace(),
        Err(DebugError::NoActiveProcess)
    ));
}

#[test]
fn test_handshake_ok() {
    assert!(handshake_ok(&Ok(Status::Stopped(SIGTRAP, 0x1000))));
    assert!(!handshake_ok(&Ok(Status::Stopped(11, 0x1000))));
    assert!(!handshake_ok(&Ok(Status::Exited(0))));
    assert!(!handshake_ok(&Err(WaitError::Kernel(3))));
}

#[test]
fn test_quit_without_process() {
    let mut session = Session::new("sample".to_string(), sample_symbols());
    assert_eq!(session.cmd_quit(), Ok(()));
    assert!(session.inferior.is_none());
}

#[test]
fn test_symbol_lookups() {
    let symbols = sample_symbols();
    let line = symbols.get_line_from_addr(0x4011b5).unwrap();
    assert_eq!(line.number, 10);
    assert_eq!(line.file, "sample.c".to_string());
    assert!(symbols.get_line_from_addr(0x40118f).is_none());
    assert_eq!(
        symbols.get_function_from_addr(0x4011ff),
        Some("main".to_string())
    );
    assert!(symbols.get_function_from_addr(0x401280).is_none());
    assert_eq!(symbols.get_addr_for_line(20), Some(0x401200));
    assert_eq!(symbols.get_addr_for_line(99), None);
    assert_eq!(symbols.get_addr_for_function("foo"), Some(0x401200));
    assert_eq!(symbols.get_addr_for_function("nope"), None);
}

#[test]
fn test_backtrace_three_frames() {
    let symbols = SymbolTable {
        lines: vec![
            LineEntry { addr: 0x1000, file: "t.c".to_string(), number: 1 },
            LineEntry { addr: 0x1100, file: "t.c".to_string(), number: 10 },
            LineEntry { addr: 0x1200, file: "t.c".to_string(), number: 20 },
        ],
        functions: vec![
            FunctionEntry { name: "main".to_string(), low: 0x1000, high: 0x1100 },
            FunctionEntry { name: "f".to_string(), low: 0x1100, high: 0x1200 },
            FunctionEntry { name: "g".to_string(), low: 0x1200, high: 0x1300 },
        ],
    };
    // Stopped inside g, called from f, called from main.
    let mem = MemorySnapshot {
        words: vec![
            (0x7008, 0x1150),
            (0x7000, 0x7100),
            (0x7108, 0x1050),
            (0x7100, 0x7200),
        ],
    };
    let frames = backtrace_frames(&mem, &symbols, 0x1250, 0x7000);
    assert_eq!(frames.len(), 3);
    assert_eq!(frames[0].function, "g".to_string());
    assert_eq!(frames[0].line, 20);
    assert_eq!(frames[1].function, "f".to_string());
    assert_eq!(frames[1].line, 10);
    assert_eq!(frames[2].function, "main".to_string());
    assert_eq!(frames[2].line, 1);
}

#[test]
fn test_backtrace_stops_without_progress() {
    let symbols = SymbolTable {
        lines: vec![LineEntry { addr: 0x1200, file: "t.c".to_string(), number: 20 }],
        functions: vec![FunctionEntry { name: "g".to_string(), low: 0x1200, high: 0x1300 }],
    };
    // The chain loops back onto the same base pointer: one frame only.
    let mem = MemorySnapshot { words: vec![(0x7008, 0x1250), (0x7000, 0x7000)] };
    let frames = backtrace_frames(&mem, &symbols, 0x1250, 0x7000);
    assert_eq!(frames.len(), 1);
    assert_eq!(frames[0].function, "g".to_string());
}

#[test]
fn test_next_stop_index() {
    assert_eq!(
        next_stop_index(&vec![Some(3), Some(3), Some(4)], Some(3)),
        Some(2)
    );
    assert_eq!(next_stop_index(&vec![Some(3), Some(3)], Some(3)), None);
    assert_eq!(next_stop_index(&vec![], Some(3)), None);
    assert_eq!(next_stop_index(&vec![None, Some(3)], Some(3)), Some(0));
}
