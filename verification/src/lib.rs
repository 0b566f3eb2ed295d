//! A CHIP-8 virtual machine: registers, memory, call stack, keypad, timers
//! and a 64x32 display, with the instruction set that drives them.
//!
//! [`cpu::Cpu`] is the machine. [`machine::Machine`] is the same machine as a
//! mathematical value, and [`machine::step`] says what each instruction does
//! to it; the contracts of the `Cpu` are written over these. [`laws`] and
//! [`redraw`] hold what follows from them.

pub mod bits;
pub mod cpu;
pub mod data;
pub mod display;
pub mod font;
pub mod keyboard;
pub mod laws;
pub mod machine;
pub mod memory;
pub mod redraw;
pub mod registers;
pub mod render;
pub mod system;
pub mod timer;
