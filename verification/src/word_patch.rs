//! Byte-level patching of machine words.
//!
//! Installing a software breakpoint overwrites one byte of a word read from
//! the traced process with the trap opcode, keeping the rest of the word
//! intact; removing it writes the saved byte back. The functions here do the
//! word arithmetic; the round-trip law says that restoring after patching
//! reproduces the original word exactly.

use vstd::prelude::*;

verus! {

/// The single-byte trap instruction installed at a breakpoint address.
pub const TRAP_OPCODE: u8 = 0xcc;

/// The size of a machine word in bytes, as used for word-aligned memory
/// access into the traced process.
pub const WORD_SIZE: u64 = 8;

/// The byte at offset `k` (0 = least significant) of word `w`.
pub open spec fn spec_byte_of(w: u64, k: u64) -> u8 {
    ((w >> (8 * k)) & 0xff) as u8
}

/// Word `w` with the byte at offset `k` replaced by `val`.
pub open spec fn spec_replace_byte(w: u64, k: u64, val: u8) -> u64 {
    (w & !(0xffu64 << (8 * k))) | ((val as u64) << (8 * k))
}

/// Rounds an address down to the start of the machine word containing it.
pub fn align_addr_to_word(addr: usize) -> (r: usize)
    ensures
        r == addr - addr % 8,
        r <= addr,
        r % 8 == 0,
{
    proof {
        assert(addr & !7usize == addr - addr % 8 && (addr & !7usize) % 8 == 0)
            by (bit_vector);
    }
    addr & !7usize
}

/// Extracts the byte at offset `k` of word `w`.
pub fn extract_byte(w: u64, k: u64) -> (r: u8)
    requires
        k < WORD_SIZE,
    ensures
        r == spec_byte_of(w, k),
{
    ((w >> (8 * k)) & 0xff) as u8
}

/// Returns word `w` with the byte at offset `k` replaced by `val`.
pub fn replace_byte(w: u64, k: u64, val: u8) -> (r: u64)
    requires
        k < WORD_SIZE,
    ensures
        r == spec_replace_byte(w, k, val),
{
    (w & !(0xffu64 << (8 * k))) | ((val as u64) << (8 * k))
}

/// Replacing the byte at `k` makes that byte read back as the new value.
pub proof fn lemma_replace_byte_same(w: u64, k: u64, val: u8)
    requires
        k < WORD_SIZE,
    ensures
        spec_byte_of(spec_replace_byte(w, k, val), k) == val,
{
    assert(k < 8 ==> ((((w & !(0xffu64 << (8 * k))) | ((val as u64) << (8 * k))) >> (8 * k))
        & 0xff) as u8 == val) by (bit_vector);
}

/// Replacing the byte at `k` leaves every other byte of the word unchanged.
pub proof fn lemma_replace_byte_other(w: u64, k: u64, j: u64, val: u8)
    requires
        k < WORD_SIZE,
        j < WORD_SIZE,
        j != k,
    ensures
        spec_byte_of(spec_replace_byte(w, k, val), j) == spec_byte_of(w, j),
{
    assert(k < 8 && j < 8 && j != k ==> ((((w & !(0xffu64 << (8 * k))) | ((val as u64) << (8
        * k))) >> (8 * j)) & 0xff) as u8 == ((w >> (8 * j)) & 0xff) as u8) by (bit_vector);
}

/// Round-trip law: patching a byte (saving the original) and then restoring
/// the saved byte reproduces the word exactly, so reading any byte of the
/// word after restoration gives the byte it held before patching.
pub proof fn lemma_patch_restore_roundtrip(w: u64, k: u64, trap: u8)
    requires
        k < WORD_SIZE,
    ensures
        spec_replace_byte(spec_replace_byte(w, k, trap), k, spec_byte_of(w, k)) == w,
{
    assert(k < 8 ==> ((((w & !(0xffu64 << (8 * k))) | ((trap as u64) << (8 * k))) & !(0xffu64
        << (8 * k))) | ((((w >> (8 * k)) & 0xff) as u8 as u64) << (8 * k))) == w)
        by (bit_vector);
}

} // verus!
