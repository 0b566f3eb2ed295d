//! The built-in hex digit font.

use vstd::prelude::*;
use crate::data::Address;

verus! {

/// Where the font table sits in memory.
pub const FONT_START: Address = 0x050;

/// Bytes per glyph: five sprite rows.
pub const GLYPH_SIZE: usize = 5;

/// Bytes in the whole table: one glyph for each hex digit.
pub const FONT_SIZE: usize = 80;

/// The built-in glyphs for the hex digits `0` to `F`, in order. Each is a
/// sprite of five rows, four columns wide, in the high half of every byte.
pub const FONT: [u8; FONT_SIZE] = [
    0xF0, 0x90, 0x90, 0x90, 0xF0,
    0x20, 0x60, 0x20, 0x20, 0x70,
    0xF0, 0x10, 0xF0, 0x80, 0xF0,
    0xF0, 0x10, 0xF0, 0x10, 0xF0,
    0x90, 0x90, 0xF0, 0x10, 0x10,
    0xF0, 0x80, 0xF0, 0x10, 0xF0,
    0xF0, 0x80, 0xF0, 0x90, 0xF0,
    0xF0, 0x10, 0x20, 0x40, 0x40,
    0xF0, 0x90, 0xF0, 0x90, 0xF0,
    0xF0, 0x90, 0xF0, 0x10, 0xF0,
    0xF0, 0x90, 0xF0, 0x90, 0x90,
    0xE0, 0x90, 0xE0, 0x90, 0xE0,
    0xF0, 0x80, 0x80, 0x80, 0xF0,
    0xE0, 0x90, 0x90, 0x90, 0xE0,
    0xF0, 0x80, 0xF0, 0x80, 0xF0,
    0xF0, 0x80, 0xF0, 0x80, 0x80,
];

/// Address of the glyph for `digit`.
pub open spec fn glyph_address(digit: int) -> int {
    FONT_START + digit * GLYPH_SIZE
}

} // verus!
