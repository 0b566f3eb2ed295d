//! The register file.

use vstd::prelude::*;

verus! {

/// Number of return addresses the call stack holds.
pub const STACK_SIZE: usize = 16;

/// The register file: sixteen byte registers `V0..VF`, the index register
/// `I`, the program counter and the stack pointer.
pub struct Registers {
    pub v: [u8; 16],
    pub i: u16,
    pub pc: u16,
    pub sp: usize,
}

impl Default for Registers {
    fn default() -> (registers: Registers)
        ensures
            registers.v@ == Seq::new(16, |k: int| 0u8),
            registers.i == 0,
            registers.pc == 0,
            registers.sp == 0,
    {
        Registers { v: [0; 16], i: 0, pc: 0, sp: 0 }
    }
}

} // verus!
