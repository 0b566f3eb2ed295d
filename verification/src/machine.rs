//! The machine as a mathematical value, and what each instruction does to
//! it.

use vstd::prelude::*;
use crate::cpu::Interrupt;
use crate::data::{Fault, OpCode};
use crate::display::{blank, blit, erases, Pixel, DISPLAY_SIZE};
use crate::font::{glyph_address, FONT, FONT_START};
use crate::keyboard::KEY_COUNT;
use crate::memory::{overlay, window, MEMORY_SIZE, PROGRAM_START};
use crate::registers::STACK_SIZE;
use crate::timer::ticked;

verus! {

/// Index of the flag register `VF`.
pub const FLAG: usize = 0xF;

/// The machine as a mathematical value: everything an instruction can read
/// or change. The random number generator is left out; the byte it yields
/// enters as an argument where an instruction asks for one.
pub struct Machine {
    pub v: Seq<u8>,
    pub i: u16,
    pub pc: u16,
    pub sp: int,
    pub stack: Seq<u16>,
    pub memory: Seq<u8>,
    pub keys: Seq<bool>,
    pub pixels: Seq<Pixel>,
    pub drawing: bool,
    pub interrupt: Interrupt,
    pub delay: u8,
    pub sound: u8,
}

impl Machine {
    /// The sizes of the parts are those of the hardware, the stack pointer
    /// names a stack slot, and a pending key wait names a register.
    pub open spec fn wf(self) -> bool {
        &&& self.v.len() == 16
        &&& self.stack.len() == STACK_SIZE
        &&& self.memory.len() == MEMORY_SIZE
        &&& self.keys.len() == KEY_COUNT
        &&& self.pixels.len() == DISPLAY_SIZE
        &&& 0 <= self.sp < STACK_SIZE
        &&& (self.interrupt matches Interrupt::KeyPress(x) ==> x < 16)
    }

    /// The machine at power-on: everything zero, off or empty.
    pub open spec fn reset() -> Machine {
        Machine {
            v: Seq::new(16, |k: int| 0u8),
            i: 0,
            pc: 0,
            sp: 0,
            stack: Seq::new(STACK_SIZE as nat, |k: int| 0u16),
            memory: Seq::new(MEMORY_SIZE as nat, |k: int| 0u8),
            keys: Seq::new(KEY_COUNT as nat, |k: int| false),
            pixels: blank(),
            drawing: false,
            interrupt: Interrupt::Idle,
            delay: 0,
            sound: 0,
        }
    }

    /// The machine at power-on with the font table in place, `rom` loaded at
    /// the program start, and the program counter pointing at it.
    pub open spec fn loaded(rom: Seq<u8>) -> Machine {
        Machine {
            memory: overlay(
                overlay(Machine::reset().memory, FONT_START as int, FONT@),
                PROGRAM_START as int,
                rom,
            ),
            pc: PROGRAM_START,
            ..Machine::reset()
        }
    }

    pub open spec fn set_v(self, x: int, value: u8) -> Machine {
        Machine { v: self.v.update(x, value), ..self }
    }

    /// The program counter moves past the next instruction if `condition`
    /// holds.
    pub open spec fn skip_if(self, condition: bool) -> Machine {
        if condition {
            Machine { pc: (self.pc + 2) as u16, ..self }
        } else {
            self
        }
    }

    /// A skip is refused when the program counter cannot hold the address it
    /// would move to.
    pub open spec fn skip_fault(self, condition: bool) -> Option<Fault> {
        if condition && self.pc + 2 > u16::MAX {
            Some(Fault::Address)
        } else {
            None
        }
    }

    /// Subroutine call: the stack pointer moves up one slot, but never past
    /// the last; the return address goes into the slot it then names.
    pub open spec fn called(self, target: u16) -> Machine {
        let sp = if self.sp + 1 < STACK_SIZE {
            self.sp + 1
        } else {
            self.sp
        };
        Machine { sp, stack: self.stack.update(sp, self.pc), pc: target, ..self }
    }

    /// Subroutine return: execution goes on at the address in the slot the
    /// stack pointer names, and the stack pointer moves down one slot, but
    /// never below the first.
    pub open spec fn returned(self) -> Machine {
        Machine {
            pc: self.stack[self.sp],
            sp: if self.sp > 0 {
                self.sp - 1
            } else {
                0
            },
            ..self
        }
    }

    /// The sprite of `n` rows at `I` is drawn at `(V[x], V[y])`; `VF` tells
    /// whether that turned a lit cell off.
    pub open spec fn drawn(self, x: int, y: int, n: int) -> Machine {
        let sprite = window(self.memory, self.i as int, n as nat);
        let (left, top) = (self.v[x] as int, self.v[y] as int);
        Machine {
            pixels: blit(self.pixels, left, top, sprite),
            drawing: true,
            v: self.v.update(
                FLAG as int,
                if erases(self.pixels, left, top, sprite) {
                    1u8
                } else {
                    0u8
                },
            ),
            ..self
        }
    }

    /// Both timers count down one step.
    pub open spec fn timers_ticked(self) -> Machine {
        Machine { delay: ticked(self.delay), sound: ticked(self.sound), ..self }
    }

    /// Key `key` goes down. A pending key wait ends: the key's number goes
    /// into the register the wait names.
    pub open spec fn key_pressed(self, key: u8) -> Machine {
        let held = Machine { keys: self.keys.update(key as int, true), ..self };
        match self.interrupt {
            Interrupt::KeyPress(x) => Machine {
                v: self.v.update(x as int, key),
                interrupt: Interrupt::Idle,
                ..held
            },
            Interrupt::Idle => held,
        }
    }

    pub open spec fn key_released(self, key: u8) -> Machine {
        Machine { keys: self.keys.update(key as int, false), ..self }
    }

    /// The framebuffer has been sampled: nothing new is left to show.
    pub open spec fn sampled(self) -> Machine {
        Machine { drawing: false, ..self }
    }

    /// Whether the next instruction cannot be read: one of its two bytes
    /// lies beyond the end of memory.
    pub open spec fn fetch_fault(self) -> bool {
        self.pc + 1 >= MEMORY_SIZE
    }

    /// The instruction word at the program counter: two bytes, the high one
    /// first.
    pub open spec fn next_word(self) -> OpCode {
        (self.memory[self.pc as int] * 0x100 + self.memory[self.pc + 1]) as u16
    }

    /// The program counter moves past the word just read.
    pub open spec fn fetched(self) -> Machine {
        Machine { pc: (self.pc + 2) as u16, ..self }
    }
}

/// Which of the sixteen instruction families a word belongs to: its top
/// nibble.
#[verifier::opaque]
pub open spec fn family(op: OpCode) -> int {
    op as int / 0x1000
}

/// Operand `X`: the second nibble, a register index.
#[verifier::opaque]
pub open spec fn x_of(op: OpCode) -> int {
    (op as int / 0x100) % 0x10
}

/// Operand `Y`: the third nibble, a register index.
#[verifier::opaque]
pub open spec fn y_of(op: OpCode) -> int {
    (op as int / 0x10) % 0x10
}

/// Operand `N`: the last nibble.
#[verifier::opaque]
pub open spec fn n_of(op: OpCode) -> int {
    op as int % 0x10
}

/// Operand `NN`: the low byte.
#[verifier::opaque]
pub open spec fn nn_of(op: OpCode) -> int {
    op as int % 0x100
}

/// Operand `NNN`: the low twelve bits, an address.
#[verifier::opaque]
pub open spec fn nnn_of(op: OpCode) -> int {
    op as int % 0x1000
}

/// The fields of an instruction word are as wide as their nibbles.
pub proof fn lemma_field_ranges(op: OpCode)
    ensures
        0 <= family(op) < 0x10,
        0 <= x_of(op) < 0x10,
        0 <= y_of(op) < 0x10,
        0 <= n_of(op) < 0x10,
        0 <= nn_of(op) < 0x100,
        0 <= nnn_of(op) < 0x1000,
{
    reveal(family);
    reveal(x_of);
    reveal(y_of);
    reveal(n_of);
    reveal(nn_of);
    reveal(nnn_of);
}

/// The three decimal digits of a byte: hundreds, tens, ones.
pub open spec fn bcd(value: u8) -> Seq<u8> {
    seq![value / 100, (value / 10) % 10, value % 10]
}

/// The register file after the register-to-register instruction `8XYN`.
/// The sum and the two differences are written before the flag, the shifts
/// after it.
pub open spec fn alu(v: Seq<u8>, x: int, y: int, n: int) -> Seq<u8> {
    let (a, b) = (v[x], v[y]);
    if n == 0x0 {
        v.update(x, b)
    } else if n == 0x1 {
        v.update(x, a | b)
    } else if n == 0x2 {
        v.update(x, a & b)
    } else if n == 0x3 {
        v.update(x, a ^ b)
    } else if n == 0x4 {
        v.update(x, ((a + b) % 0x100) as u8).update(FLAG as int, alu_flag(n, a, b))
    } else if n == 0x5 {
        v.update(x, ((a - b) % 0x100) as u8).update(FLAG as int, alu_flag(n, a, b))
    } else if n == 0x6 {
        let w = v.update(FLAG as int, alu_flag(n, a, b));
        w.update(x, w[x] / 2)
    } else if n == 0x7 {
        v.update(x, ((b - a) % 0x100) as u8).update(FLAG as int, alu_flag(n, a, b))
    } else {
        let w = v.update(FLAG as int, alu_flag(n, a, b));
        w.update(x, ((w[x] * 2) % 0x100) as u8)
    }
}

/// The flag that `8XYN` derives from its operands `a = V[x]` and `b = V[y]`:
/// carry out of the sum, no borrow in a difference, the bit shifted out.
pub open spec fn alu_flag(n: int, a: u8, b: u8) -> u8 {
    if n == 0x4 {
        if a + b > 0xFF {
            1
        } else {
            0
        }
    } else if n == 0x5 {
        if a >= b {
            1
        } else {
            0
        }
    } else if n == 0x6 {
        a % 2
    } else if n == 0x7 {
        if b >= a {
            1
        } else {
            0
        }
    } else {
        a / 0x80
    }
}

/// Whether `op` is one of the skips: `3XNN`, `4XNN`, `5XY0`, `9XY0`, `EX9E`,
/// `EXA1`.
pub open spec fn is_skip(op: OpCode) -> bool {
    let f = family(op);
    f == 0x3 || f == 0x4 || f == 0x5 || f == 0x9 || f == 0xE
}

/// The condition on which the skip `op` moves the program counter past the
/// next instruction: `V[x]` equals `NN` or not, `V[x]` equals `V[y]` or not,
/// the key that `V[x]` names is down or up.
pub open spec fn skip_condition(s: Machine, op: OpCode) -> bool {
    let (f, x, y, nn) = (family(op), x_of(op), y_of(op), nn_of(op));
    if f == 0x3 {
        s.v[x] == nn
    } else if f == 0x4 {
        s.v[x] != nn
    } else if f == 0x5 {
        s.v[x] == s.v[y]
    } else if f == 0x9 {
        s.v[x] != s.v[y]
    } else if nn == 0x9E {
        s.keys[s.v[x] as int]
    } else {
        !s.keys[s.v[x] as int]
    }
}

/// Whether `op` is a word of its family. The family `0NNN` takes every
/// word: what is neither `00E0` nor `00EE` does nothing.
pub open spec fn decodes(op: OpCode) -> bool {
    let (f, n, nn) = (family(op), n_of(op), nn_of(op));
    if f == 0x5 || f == 0x9 {
        n == 0
    } else if f == 0x8 {
        n <= 0x7 || n == 0xE
    } else if f == 0xE {
        nn == 0x9E || nn == 0xA1
    } else if f == 0xF {
        nn == 0x07 || nn == 0x0A || nn == 0x15 || nn == 0x18 || nn == 0x1E || nn == 0x29 || nn
            == 0x33 || nn == 0x55 || nn == 0x65
    } else {
        true
    }
}

/// Why the machine in state `s` refuses the instruction `op`, if it does:
/// the word is no instruction; or a register that names a key or a glyph
/// holds more than `0xF`; or an address that the instruction reads, writes
/// or leaves in a register lies beyond what memory or the register holds.
pub open spec fn fault(s: Machine, op: OpCode) -> Option<Fault> {
    let (f, x, n, nn) = (family(op), x_of(op), n_of(op), nn_of(op));
    if !decodes(op) {
        Some(Fault::Decode(op))
    } else if (f == 0xE && s.v[x] >= KEY_COUNT) || (f == 0xF && nn == 0x29 && s.v[x] > 0xF) {
        Some(Fault::Operand)
    } else if is_skip(op) {
        s.skip_fault(skip_condition(s, op))
    } else if (f == 0xD && n > 0 && s.i + n > MEMORY_SIZE) || (f == 0xF && nn == 0x1E && s.i
        + s.v[x] > u16::MAX) || (f == 0xF && nn == 0x33 && s.i + 2 >= MEMORY_SIZE) || (f == 0xF
        && (nn == 0x55 || nn == 0x65) && s.i + x >= MEMORY_SIZE) {
        Some(Fault::Address)
    } else {
        None
    }
}

/// The state that the instruction `op` leaves behind when it is carried out
/// in state `s`; `rnd` is the random byte it gets if it asks for one.
pub open spec fn effect(s: Machine, op: OpCode, rnd: u8) -> Machine {
    let (f, x, y, n) = (family(op), x_of(op), y_of(op), n_of(op));
    let (nn, nnn) = (nn_of(op), nnn_of(op));
    if f == 0x0 {
        if nn == 0xE0 {
            Machine { pixels: blank(), ..s }
        } else if nn == 0xEE {
            s.returned()
        } else {
            s
        }
    } else if f == 0x1 {
        Machine { pc: nnn as u16, ..s }
    } else if f == 0x2 {
        s.called(nnn as u16)
    } else if is_skip(op) {
        s.skip_if(skip_condition(s, op))
    } else if f == 0x6 {
        s.set_v(x, nn as u8)
    } else if f == 0x7 {
        s.set_v(x, ((s.v[x] + nn) % 0x100) as u8)
    } else if f == 0x8 {
        Machine { v: alu(s.v, x, y, n), ..s }
    } else if f == 0xA {
        Machine { i: nnn as u16, ..s }
    } else if f == 0xB {
        Machine { pc: (nnn + s.v[0]) as u16, ..s }
    } else if f == 0xC {
        s.set_v(x, rnd & (nn as u8))
    } else if f == 0xD {
        s.drawn(x, y, n)
    } else if nn == 0x07 {
        s.set_v(x, s.delay)
    } else if nn == 0x0A {
        Machine { interrupt: Interrupt::KeyPress(x as u8), ..s }
    } else if nn == 0x15 {
        Machine { delay: s.v[x], ..s }
    } else if nn == 0x18 {
        Machine { sound: s.v[x], ..s }
    } else if nn == 0x1E {
        Machine { i: (s.i + s.v[x]) as u16, ..s }
    } else if nn == 0x29 {
        Machine { i: glyph_address(s.v[x] as int) as u16, ..s }
    } else if nn == 0x33 {
        Machine { memory: overlay(s.memory, s.i as int, bcd(s.v[x])), ..s }
    } else if nn == 0x55 {
        Machine { memory: overlay(s.memory, s.i as int, s.v.take(x + 1)), ..s }
    } else {
        Machine { v: overlay(s.v, 0, window(s.memory, s.i as int, (x + 1) as nat)), ..s }
    }
}

/// One instruction: the state after `op` if the machine carries it out, the
/// state as it was if the machine refuses it.
pub open spec fn step(s: Machine, op: OpCode, rnd: u8) -> Machine {
    if fault(s, op) is None {
        effect(s, op, rnd)
    } else {
        s
    }
}

/// Whether `op` asks for a random byte.
pub open spec fn draws_random(op: OpCode) -> bool {
    family(op) == 0xC
}

/// Why a clock cycle fails in state `s`, if it does: the next instruction
/// cannot be read, or the machine refuses it. A machine that waits for a key
/// does nothing, so nothing fails.
pub open spec fn cycle_fault(s: Machine) -> Option<Fault> {
    if s.interrupt is KeyPress {
        None
    } else if s.fetch_fault() {
        Some(Fault::Address)
    } else {
        fault(s.fetched(), s.next_word())
    }
}

/// One clock cycle: a machine that waits for a key stays as it is; any other
/// reads the word at the program counter, moves past it, and carries it out.
pub open spec fn cycle(s: Machine, rnd: u8) -> Machine {
    if s.interrupt is KeyPress || s.fetch_fault() {
        s
    } else {
        step(s.fetched(), s.next_word(), rnd)
    }
}

/// Whether a clock cycle in state `s` runs an instruction that asks for a
/// random byte.
pub open spec fn cycle_draws_random(s: Machine) -> bool {
    !(s.interrupt is KeyPress) && !s.fetch_fault() && draws_random(s.next_word())
}

/// The result that reports `f`.
pub open spec fn reported(f: Option<Fault>) -> Result<(), Fault> {
    match f {
        Some(e) => Err(e),
        None => Ok(()),
    }
}

} // verus!
