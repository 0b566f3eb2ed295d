//! The words the machine works on, and the faults it can report.

use vstd::prelude::*;

verus! {

/// A location in the machine's memory. Only `0..=0xFFF` names a byte.
pub type Address = u16;

/// A 16-bit instruction word.
pub type OpCode = u16;

/// Why the machine refused to carry out an instruction.
#[derive(Clone, Copy, Debug, PartialEq, Eq, Structural)]
pub enum Fault {
    /// The word is not an instruction of its family.
    Decode(OpCode),
    /// An address the instruction computes lies outside memory, or does not
    /// fit the register that would hold it.
    Address,
    /// A register names a key or a font glyph, and holds more than `0xF`.
    Operand,
}

} // verus!
