//! Bit-level facts: the masks and shifts of the instruction decoder and of the
//! shift instructions, stated as arithmetic.

use vstd::prelude::*;

verus! {

/// The masks and shifts that cut an instruction word into its fields, as
/// divisions and remainders.
pub proof fn lemma_fields(op: u16)
    by (bit_vector)
    ensures
        (op & 0xF000u16) >> 12u16 == op / 0x1000u16,
        (op & 0x0F00u16) >> 8u16 == (op / 0x100u16) % 0x10u16,
        (op & 0x00F0u16) >> 4u16 == (op / 0x10u16) % 0x10u16,
        op & 0x000Fu16 == op % 0x10u16,
        op & 0x00FFu16 == op % 0x100u16,
        op & 0x0FFFu16 == op % 0x1000u16,
{
}

/// A byte's lowest and highest bit, and its right shift by one, as
/// arithmetic.
pub proof fn lemma_shift_right(a: u8)
    by (bit_vector)
    ensures
        a & 1u8 == a % 2u8,
        a >> 1u8 == a / 2u8,
        (a & 0x80u8) >> 7u8 == a / 0x80u8,
{
}

/// A byte's left shift by one is doubling, with the carry dropped.
pub proof fn lemma_shift_left(a: u8)
    by (bit_vector)
    ensures
        (a << 1u8) as int == (a * 2) % 0x100,
{
}

/// Two bytes joined into a word, the first one high.
pub proof fn lemma_big_endian(left: u8, right: u8)
    by (bit_vector)
    ensures
        ((left as u16) << 8u16 | (right as u16)) as int == left * 0x100 + right,
{
}

} // verus!
