//! A small interactive native debugger and the supporting utilities around
//! it: word-level breakpoint patching, command parsing, symbol lookup,
//! traced-process control, stack unwinding and line stepping, together with
//! a handful of stand-alone data-structure and text utilities.

pub mod breakpoints;
pub mod command;
pub mod diff;
pub mod factors;
pub mod grid;
pub mod hangman;
pub mod inferior;
pub mod linked_list;
pub mod pmap;
pub mod procinfo;
pub mod session;
pub mod status;
pub mod stepping;
pub mod symbols;
pub mod text;
pub mod trace;
pub mod unwind;
pub mod warmup;
pub mod wc;
pub mod word_patch;
