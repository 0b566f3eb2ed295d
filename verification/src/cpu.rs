//! The machine itself, and the cycle that fetches and carries out its
//! instructions.

use vstd::prelude::*;
use rand::rngs::OsRng;
use rand::Rng;
use rand::SeedableRng;
use rand_pcg::Pcg64Mcg;
use crate::bits::{lemma_big_endian, lemma_fields, lemma_shift_left, lemma_shift_right};
use crate::data::{Address, Fault, OpCode};
use crate::display::{Display, Pixel, DISPLAY_SIZE};
use crate::font::{FONT, FONT_START, GLYPH_SIZE};
use crate::keyboard::{Keyboard, KEY_COUNT};
use crate::laws::lemma_step_keeps_wf;
use crate::machine::{
    alu, bcd, cycle, cycle_draws_random, cycle_fault, decodes, draws_random, effect, family,
    fault, is_skip, n_of, nn_of, nnn_of, reported, skip_condition, step, x_of, y_of, Machine,
    FLAG,
};
use crate::memory::{overlay, window, MemoryBus, MEMORY_SIZE, PROGRAM_START};
use crate::registers::{Registers, STACK_SIZE};
use crate::timer::Timer;

verus! {

/// Instructions per second that the machine is meant to run at.
pub const FREQUENCY: u32 = 500;

/// The call stack: return addresses, one slot per nesting level.
pub type Stack = [Address; STACK_SIZE];

/// `Mcg128Xsl64` of rand_pcg, which `Pcg64Mcg` is another name for: a
/// random number generator, carried along and never looked into.
#[verifier::external_type_specification]
#[verifier::external_body]
pub struct ExMcg128Xsl64(rand_pcg::Mcg128Xsl64);

/// What holds the machine up, if anything.
#[derive(Clone, Copy, Debug, PartialEq, Eq, Structural)]
pub enum Interrupt {
    /// Nothing is pending: instructions run.
    Idle,
    /// The machine waits for a key; the key's number goes into the register
    /// with this index.
    KeyPress(u8),
}

impl Default for Interrupt {
    fn default() -> (interrupt: Interrupt)
        ensures
            interrupt == Interrupt::Idle,
    {
        Interrupt::Idle
    }
}

/// The machine: registers, memory, call stack, keypad, display, the two
/// timers, and the random number generator that `CXNN` draws from.
pub struct Cpu {
    pub registers: Registers,
    pub memory: MemoryBus,
    pub stack: Stack,
    pub keyboard: Keyboard,
    pub display: Display,
    /// Set when a sprite is drawn, cleared when the framebuffer is sampled.
    pub drawing: bool,
    pub rng: Pcg64Mcg,
    pub interrupt: Interrupt,
    pub delay: Timer,
    pub sound: Timer,
}

impl View for Cpu {
    type V = Machine;

    open spec fn view(&self) -> Machine {
        Machine {
            v: self.registers.v@,
            i: self.registers.i,
            pc: self.registers.pc,
            sp: self.registers.sp as int,
            stack: self.stack@,
            memory: self.memory@,
            keys: self.keyboard@,
            pixels: self.display@,
            drawing: self.drawing,
            interrupt: self.interrupt,
            delay: self.delay@,
            sound: self.sound@,
        }
    }
}

/// `Pcg64Mcg::from_rng` (the method of rand's `SeedableRng`) on rand's
/// `OsRng`: a generator seeded from the operating system, or nothing where
/// the operating system gives no seed. Nothing is claimed of the generator,
/// nor of when there is one.
#[verifier::external_body]
fn entropy_rng() -> (rng: Option<Pcg64Mcg>) {
    Pcg64Mcg::from_rng(OsRng).ok()
}

/// `Rng::gen::<u8>` of rand, on a `Pcg64Mcg`: the generator's next byte.
/// Nothing is claimed of the byte.
#[verifier::external_body]
fn random_byte(rng: &mut Pcg64Mcg) -> (byte: u8) {
    rng.gen::<u8>()
}

/// The sum of two bytes, without the carry, and the carry.
fn sum_and_carry(a: u8, b: u8) -> (r: (u8, u8))
    ensures
        r.0 == (a + b) % 0x100,
        r.1 == (if a + b > 0xFF {
            1u8
        } else {
            0u8
        }),
{
    (
        a.wrapping_add(b),
        if b > 0xFF - a {
            1
        } else {
            0
        },
    )
}

/// The difference of two bytes, with a borrow where it is needed, and
/// whether none was.
fn difference_and_no_borrow(a: u8, b: u8) -> (r: (u8, u8))
    ensures
        r.0 == (a - b) % 0x100,
        r.1 == (if a >= b {
            1u8
        } else {
            0u8
        }),
{
    (
        a.wrapping_sub(b),
        if a >= b {
            1
        } else {
            0
        },
    )
}

fn lowest_bit(a: u8) -> (bit: u8)
    ensures
        bit == a % 2,
{
    proof {
        lemma_shift_right(a);
    }
    a & 0b0000_0001
}

fn highest_bit(a: u8) -> (bit: u8)
    ensures
        bit == a / 0x80,
{
    proof {
        lemma_shift_right(a);
    }
    (a & 0b1000_0000) >> 7
}

fn halved(a: u8) -> (half: u8)
    ensures
        half == a / 2,
{
    proof {
        lemma_shift_right(a);
    }
    a >> 1
}

fn doubled(a: u8) -> (twice: u8)
    ensures
        twice == (a * 2) % 0x100,
{
    proof {
        lemma_shift_left(a);
    }
    a << 1
}

fn operand_family(instr: OpCode) -> (f: u16)
    ensures
        f == family(instr),
        f < 16,
{
    proof {
        reveal(family);
        lemma_fields(instr);
    }
    (instr & 0xF000) >> 12
}

fn operand_x(instr: OpCode) -> (x: usize)
    ensures
        x == x_of(instr),
        x < 16,
{
    proof {
        reveal(x_of);
        lemma_fields(instr);
    }
    ((instr & 0x0F00) >> 8) as usize
}

fn operand_y(instr: OpCode) -> (y: usize)
    ensures
        y == y_of(instr),
        y < 16,
{
    proof {
        reveal(y_of);
        lemma_fields(instr);
    }
    ((instr & 0x00F0) >> 4) as usize
}

fn operand_n(instr: OpCode) -> (n: u16)
    ensures
        n == n_of(instr),
        n < 16,
{
    proof {
        reveal(n_of);
        lemma_fields(instr);
    }
    instr & 0x000F
}

fn operand_nn(instr: OpCode) -> (nn: u8)
    ensures
        nn == nn_of(instr),
{
    proof {
        reveal(nn_of);
        lemma_fields(instr);
    }
    (instr & 0x00FF) as u8
}

fn operand_nnn(instr: OpCode) -> (nnn: Address)
    ensures
        nnn == nnn_of(instr),
        nnn < MEMORY_SIZE,
{
    proof {
        reveal(nnn_of);
        lemma_fields(instr);
    }
    instr & 0x0FFF
}

impl Cpu {
    /// A machine at power-on that draws its random bytes from `rng`.
    pub fn with_generator(rng: Pcg64Mcg) -> (cpu: Cpu)
        ensures
            cpu@ == Machine::reset(),
            cpu.rng == rng,
            cpu.wf(),
    {
        let cpu = Cpu {
            registers: Registers::default(),
            memory: MemoryBus::default(),
            stack: [0; STACK_SIZE],
            keyboard: [false; KEY_COUNT],
            display: Display::default(),
            drawing: false,
            rng,
            interrupt: Interrupt::Idle,
            delay: Timer::new(),
            sound: Timer::new(),
        };
        proof {
            let m = Machine::reset();
            assert(cpu@.v =~= m.v);
            assert(cpu@.stack =~= m.stack);
            assert(cpu@.memory =~= m.memory);
            assert(cpu@.keys =~= m.keys);
            assert(cpu@.pixels =~= m.pixels);
        }
        cpu
    }

    /// A machine at power-on, with a random number generator seeded by the
    /// operating system; nothing where the operating system gives no seed.
    /// An associated function, not the `Default` trait.
    pub fn default() -> (cpu: Option<Cpu>)
        ensures
            cpu matches Some(c) ==> c@ == Machine::reset() && c.wf(),
    {
        match entropy_rng() {
            Some(rng) => Some(Cpu::with_generator(rng)),
            None => None,
        }
    }

    /// The stack pointer names a stack slot, and a pending key wait names a
    /// register.
    pub open spec fn wf(&self) -> bool {
        self@.wf()
    }

    /// Whether the machine is well-formed: a test for callers that cannot
    /// prove it.
    pub fn well_formed(&self) -> (ok: bool)
        ensures
            ok == self.wf(),
    {
        self.registers.sp < STACK_SIZE && match self.interrupt {
            Interrupt::KeyPress(x) => x < 16,
            Interrupt::Idle => true,
        }
    }

    /// A machine with the font table in place and `rom` loaded, ready to run
    /// it, that draws its random bytes from `rng`.
    pub fn init_with_generator(rom: &[u8], rng: Pcg64Mcg) -> (cpu: Cpu)
        requires
            rom@.len() <= MEMORY_SIZE - PROGRAM_START,
        ensures
            cpu@ == Machine::loaded(rom@),
            cpu.rng == rng,
            cpu.wf(),
    {
        let mut cpu = Cpu::with_generator(rng);
        let font = FONT;
        cpu.memory.write_bytes(FONT_START, font.as_slice());
        cpu.memory.write_bytes(PROGRAM_START, rom);
        cpu.registers.pc = PROGRAM_START;
        cpu
    }

    /// A machine with the font table in place and `rom` loaded, ready to run
    /// it, with a random number generator seeded by the operating system;
    /// nothing where the operating system gives no seed.
    pub fn init(rom: &[u8]) -> (cpu: Option<Cpu>)
        requires
            rom@.len() <= MEMORY_SIZE - PROGRAM_START,
        ensures
            cpu matches Some(c) ==> c@ == Machine::loaded(rom@) && c.wf(),
    {
        match entropy_rng() {
            Some(rng) => Some(Cpu::init_with_generator(rom, rng)),
            None => None,
        }
    }

    /// The framebuffer as it is now. Taking it marks the frame as shown.
    pub fn pixels(&mut self) -> (pixels: &[Pixel; DISPLAY_SIZE])
        ensures
            pixels@ == old(self)@.pixels,
            final(self)@ == old(self)@.sampled(),
    {
        self.drawing = false;
        &self.display.pixels
    }

    /// One cycle of the instruction clock: nothing while the machine waits
    /// for a key, else one instruction fetched and carried out. A fault in
    /// the fetch leaves the machine as it was; a fault in the instruction
    /// leaves the program counter behind the refused word.
    pub fn tick(&mut self) -> (res: Result<(), Fault>)
        requires
            old(self).wf(),
        ensures
            final(self).wf(),
            res == reported(cycle_fault(old(self)@)),
            exists|rnd: u8| final(self)@ == #[trigger] cycle(old(self)@, rnd),
            !cycle_draws_random(old(self)@) ==> final(self)@ == cycle(old(self)@, 0),
    {
        match self.interrupt {
            Interrupt::KeyPress(_) => {
                assert(self@ == cycle(self@, 0));
                Ok(())
            },
            Interrupt::Idle => {
                match self.fetch() {
                    Err(e) => {
                        assert(self@ == cycle(old(self)@, 0));
                        Err(e)
                    },
                    Ok(instr) => {
                        let ghost before = self@;
                        let res = self.execute(instr);
                        proof {
                            let rnd = choose|rnd: u8| self@ == #[trigger] step(before, instr, rnd);
                            assert(self@ == cycle(old(self)@, rnd));
                        }
                        res
                    },
                }
            },
        }
    }

    /// One cycle of the timer clock: both timers count down one step.
    pub fn tick_timers(&mut self)
        ensures
            final(self)@ == old(self)@.timers_ticked(),
    {
        self.delay.tick();
        self.sound.tick();
    }

    /// Key `key` goes down. If the machine waits for a key, this is the
    /// key: its number goes into the register the wait names, and the wait
    /// is over.
    pub fn key_down(&mut self, key: u8)
        requires
            old(self).wf(),
            key < KEY_COUNT,
        ensures
            final(self).wf(),
            final(self)@ == old(self)@.key_pressed(key),
    {
        self.keyboard[key as usize] = true;
        if let Interrupt::KeyPress(x) = self.interrupt {
            self.registers.v[x as usize] = key;
            self.interrupt = Interrupt::Idle;
        }
    }

    /// Key `key` is let go.
    pub fn key_up(&mut self, key: u8)
        requires
            key < KEY_COUNT,
        ensures
            final(self)@ == old(self)@.key_released(key),
    {
        self.keyboard[key as usize] = false;
    }

    /// Reads the instruction word at the program counter and moves the
    /// program counter past it.
    pub fn fetch(&mut self) -> (res: Result<OpCode, Fault>)
        ensures
            old(self)@.fetch_fault() ==> res == Err::<OpCode, Fault>(Fault::Address)
                && final(self)@ == old(self)@,
            !old(self)@.fetch_fault() ==> res == Ok::<OpCode, Fault>(old(self)@.next_word())
                && final(self)@ == old(self)@.fetched(),
    {
        let pc = self.registers.pc;
        if pc as usize + 1 >= MEMORY_SIZE {
            return Err(Fault::Address);
        }
        let left = self.memory.read(pc);
        let right = self.memory.read(pc + 1);
        let instruction = (left as u16) << 8 | right as u16;
        proof {
            lemma_big_endian(left, right);
        }
        self.registers.pc += 2;
        Ok(instruction)
    }

    /// Carries out one instruction, with a byte from the random number
    /// generator where the instruction asks for one. An instruction that
    /// the machine refuses changes nothing.
    pub fn execute(&mut self, instr: OpCode) -> (res: Result<(), Fault>)
        requires
            old(self).wf(),
        ensures
            final(self).wf(),
            res == reported(fault(old(self)@, instr)),
            exists|rnd: u8| final(self)@ == #[trigger] step(old(self)@, instr, rnd),
            !draws_random(instr) ==> final(self)@ == step(old(self)@, instr, 0),
    {
        let rnd = if operand_family(instr) == 0xC {
            random_byte(&mut self.rng)
        } else {
            0
        };
        let res = self.execute_with(instr, rnd);
        assert(self@ == step(old(self)@, instr, rnd));
        res
    }

    /// Carries out one instruction; `rnd` is the random byte it gets if it
    /// asks for one.
    pub fn execute_with(&mut self, instr: OpCode, rnd: u8) -> (res: Result<(), Fault>)
        requires
            old(self).wf(),
        ensures
            final(self).wf(),
            res == reported(fault(old(self)@, instr)),
            final(self)@ == step(old(self)@, instr, rnd),
    {
        proof {
            lemma_step_keeps_wf(self@, instr, rnd);
        }
        match operand_family(instr) {
            0x0 | 0x1 | 0x2 | 0xB => self.flow(instr),
            0x3 | 0x4 | 0x5 | 0x9 | 0xE => self.conditional(instr),
            0x6 | 0x7 | 0xA | 0xC => self.load(instr, rnd),
            0x8 => self.combine(instr),
            0xD => self.draw_sprite(instr),
            _ => self.miscellaneous(instr),
        }
    }

    /// `00E0`, `00EE`, `0NNN`, `1NNN`, `2NNN`, `BNNN`: clearing the display,
    /// and what moves the program counter for good.
    fn flow(&mut self, instr: OpCode) -> (res: Result<(), Fault>)
        requires
            old(self).wf(),
            family(instr) == 0x0 || family(instr) == 0x1 || family(instr) == 0x2 || family(instr)
                == 0xB,
        ensures
            res == reported(fault(old(self)@, instr)),
            final(self)@ == step(old(self)@, instr, 0),
    {
        match operand_family(instr) {
            0x0 => {
                match operand_nn(instr) {
                    0xE0 => self.display.clear(),
                    0xEE => self.ret(),
                    _ => self.sys_addr(instr),
                }
                assert(self@ == effect(old(self)@, instr, 0));
            },
            0x1 => {
                self.jump_addr(operand_nnn(instr));
                assert(self@ == effect(old(self)@, instr, 0));
            },
            0x2 => {
                self.call_addr(operand_nnn(instr));
                assert(self@ == effect(old(self)@, instr, 0));
            },
            _ => {
                self.jump_addr(operand_nnn(instr) + self.registers.v[0] as u16);
                assert(self@ == effect(old(self)@, instr, 0));
            },
        }
        assert(fault(old(self)@, instr) is None);
        Ok(())
    }

    /// `3XNN`, `4XNN`, `5XY0`, `9XY0`, `EX9E`, `EXA1`: the skips.
    fn conditional(&mut self, instr: OpCode) -> (res: Result<(), Fault>)
        requires
            old(self).wf(),
            family(instr) == 0x3 || family(instr) == 0x4 || family(instr) == 0x5 || family(instr)
                == 0x9 || family(instr) == 0xE,
        ensures
            res == reported(fault(old(self)@, instr)),
            final(self)@ == step(old(self)@, instr, 0),
    {
        let vx = operand_x(instr);
        let vy = operand_y(instr);
        let nn = operand_nn(instr);
        let f = operand_family(instr);
        let condition = match f {
            0x3 => self.registers.v[vx] == nn,
            0x4 => self.registers.v[vx] != nn,
            0x5 | 0x9 => {
                if operand_n(instr) != 0 {
                    return Err(Fault::Decode(instr));
                }
                if f == 0x5 {
                    self.registers.v[vx] == self.registers.v[vy]
                } else {
                    self.registers.v[vx] != self.registers.v[vy]
                }
            },
            _ => {
                if nn != 0x9E && nn != 0xA1 {
                    return Err(Fault::Decode(instr));
                }
                let key = self.registers.v[vx] as usize;
                if key >= KEY_COUNT {
                    return Err(Fault::Operand);
                }
                if nn == 0x9E {
                    self.keyboard[key]
                } else {
                    !self.keyboard[key]
                }
            },
        };
        assert(decodes(instr) && is_skip(instr));
        assert(condition == skip_condition(self@, instr));
        self.skip_if(condition)
    }

    /// `6XNN`, `7XNN`, `ANNN`, `CXNN`: constants into registers.
    fn load(&mut self, instr: OpCode, rnd: u8) -> (res: Result<(), Fault>)
        requires
            old(self).wf(),
            family(instr) == 0x6 || family(instr) == 0x7 || family(instr) == 0xA || family(instr)
                == 0xC,
        ensures
            res == reported(fault(old(self)@, instr)),
            final(self)@ == step(old(self)@, instr, rnd),
    {
        let vx = operand_x(instr);
        let nn = operand_nn(instr);
        match operand_family(instr) {
            0x6 => {
                self.registers.v[vx] = nn;
                assert(self@ == effect(old(self)@, instr, rnd));
            },
            0x7 => {
                self.registers.v[vx] = sum_and_carry(self.registers.v[vx], nn).0;
                assert(self@ == effect(old(self)@, instr, rnd));
            },
            0xA => {
                self.registers.i = operand_nnn(instr);
                assert(self@ == effect(old(self)@, instr, rnd));
            },
            _ => {
                self.registers.v[vx] = rnd & nn;
                assert(self@ == effect(old(self)@, instr, rnd));
            },
        }
        assert(fault(old(self)@, instr) is None);
        Ok(())
    }

    /// `8XYN`: one register combined with another.
    fn combine(&mut self, instr: OpCode) -> (res: Result<(), Fault>)
        requires
            old(self).wf(),
            family(instr) == 0x8,
        ensures
            res == reported(fault(old(self)@, instr)),
            final(self)@ == step(old(self)@, instr, 0),
    {
        if self.arithmetic(operand_x(instr), operand_y(instr), operand_n(instr)) {
            assert(decodes(instr) && !is_skip(instr));
            assert(self@ == effect(old(self)@, instr, 0));
            Ok(())
        } else {
            assert(!decodes(instr));
            Err(Fault::Decode(instr))
        }
    }

    /// `8XYN`: register-to-register moves, logic and arithmetic. Returns
    /// whether `n` selects one of them; where it does not, nothing changes.
    fn arithmetic(&mut self, vx: usize, vy: usize, n: u16) -> (known: bool)
        requires
            vx < 16,
            vy < 16,
        ensures
            known == (n <= 0x7 || n == 0xE),
            known ==> final(self)@ == (Machine {
                v: alu(old(self)@.v, vx as int, vy as int, n as int),
                ..old(self)@
            }),
            !known ==> final(self)@ == old(self)@,
    {
        let ghost before = self.registers.v@;
        let a = self.registers.v[vx];
        let b = self.registers.v[vy];
        match n {
            0x0 => {
                self.registers.v[vx] = b;
                assert(self.registers.v@ == alu(before, vx as int, vy as int, 0x0));
            },
            0x1 => {
                self.registers.v[vx] = a | b;
                assert(self.registers.v@ == alu(before, vx as int, vy as int, 0x1));
            },
            0x2 => {
                self.registers.v[vx] = a & b;
                assert(self.registers.v@ == alu(before, vx as int, vy as int, 0x2));
            },
            0x3 => {
                self.registers.v[vx] = a ^ b;
                assert(self.registers.v@ == alu(before, vx as int, vy as int, 0x3));
            },
            0x4 => {
                let (sum, carry) = sum_and_carry(a, b);
                self.registers.v[vx] = sum;
                self.registers.v[FLAG] = carry;
                assert(self.registers.v@ == alu(before, vx as int, vy as int, 0x4));
            },
            0x5 => {
                let (difference, no_borrow) = difference_and_no_borrow(a, b);
                self.registers.v[vx] = difference;
                self.registers.v[FLAG] = no_borrow;
                assert(self.registers.v@ == alu(before, vx as int, vy as int, 0x5));
            },
            0x6 => {
                self.registers.v[FLAG] = lowest_bit(a);
                self.registers.v[vx] = halved(self.registers.v[vx]);
                assert(self.registers.v@ == alu(before, vx as int, vy as int, 0x6));
            },
            0x7 => {
                let (difference, no_borrow) = difference_and_no_borrow(b, a);
                self.registers.v[vx] = difference;
                self.registers.v[FLAG] = no_borrow;
                assert(self.registers.v@ == alu(before, vx as int, vy as int, 0x7));
            },
            0xE => {
                self.registers.v[FLAG] = highest_bit(a);
                self.registers.v[vx] = doubled(self.registers.v[vx]);
                assert(self.registers.v@ == alu(before, vx as int, vy as int, 0xE));
            },
            _ => {
                return false;
            },
        }
        true
    }

    /// `DXYN`: draws the sprite of `N` rows that `I` points at.
    fn draw_sprite(&mut self, instr: OpCode) -> (res: Result<(), Fault>)
        requires
            old(self).wf(),
            family(instr) == 0xD,
        ensures
            res == reported(fault(old(self)@, instr)),
            final(self)@ == step(old(self)@, instr, 0),
    {
        let vx = operand_x(instr);
        let vy = operand_y(instr);
        let n = operand_n(instr) as usize;
        if n > 0 && self.registers.i as usize + n > MEMORY_SIZE {
            return Err(Fault::Address);
        }
        let sprite = self.memory.read_bytes(self.registers.i, n);
        let x = self.registers.v[vx] as usize;
        let y = self.registers.v[vy] as usize;
        let collision = self.display.draw(x, y, sprite.as_slice());
        self.drawing = true;
        self.registers.v[FLAG] = if collision {
            1
        } else {
            0
        };
        Ok(())
    }

    /// `FXNN`: timers, the key wait, the index register, and memory
    /// transfers.
    fn miscellaneous(&mut self, instr: OpCode) -> (res: Result<(), Fault>)
        requires
            old(self).wf(),
            family(instr) == 0xF,
        ensures
            res == reported(fault(old(self)@, instr)),
            final(self)@ == step(old(self)@, instr, 0),
    {
        let vx = operand_x(instr);
        let value = self.registers.v[vx];
        let index = self.registers.i;
        match operand_nn(instr) {
            0x07 => {
                self.registers.v[vx] = self.delay.get();
                assert(self@ == effect(old(self)@, instr, 0));
            },
            0x0A => {
                self.interrupt = Interrupt::KeyPress(vx as u8);
                assert(self@ == effect(old(self)@, instr, 0));
            },
            0x15 => {
                self.delay.set(value);
                assert(self@ == effect(old(self)@, instr, 0));
            },
            0x18 => {
                self.sound.set(value);
                assert(self@ == effect(old(self)@, instr, 0));
            },
            0x1E => {
                if value as u16 > u16::MAX - index {
                    assert(fault(self@, instr) == Some(Fault::Address));
                    return Err(Fault::Address);
                }
                self.registers.i = index + value as u16;
                assert(self@ == effect(old(self)@, instr, 0));
            },
            0x29 => {
                if value > 0xF {
                    assert(fault(self@, instr) == Some(Fault::Operand));
                    return Err(Fault::Operand);
                }
                assert(value * GLYPH_SIZE <= 0xF * GLYPH_SIZE) by (nonlinear_arith)
                    requires
                        value <= 0xF,
                ;
                self.registers.i = (value as u16 * GLYPH_SIZE as u16) + FONT_START;
                assert(self@ == effect(old(self)@, instr, 0));
            },
            0x33 => {
                if index as usize + 2 >= MEMORY_SIZE {
                    assert(fault(self@, instr) == Some(Fault::Address));
                    return Err(Fault::Address);
                }
                self.memory.write(index, value / 100);
                self.memory.write(index + 1, (value / 10) % 10);
                self.memory.write(index + 2, value % 10);
                assert(self@.memory =~= overlay(old(self)@.memory, index as int, bcd(value)));
                assert(self@ == effect(old(self)@, instr, 0));
            },
            0x55 => {
                if index as usize + vx >= MEMORY_SIZE {
                    assert(fault(self@, instr) == Some(Fault::Address));
                    return Err(Fault::Address);
                }
                self.store_registers(vx);
                assert(self@ == effect(old(self)@, instr, 0));
            },
            0x65 => {
                if index as usize + vx >= MEMORY_SIZE {
                    assert(fault(self@, instr) == Some(Fault::Address));
                    return Err(Fault::Address);
                }
                self.load_registers(vx);
                assert(self@ == effect(old(self)@, instr, 0));
            },
            _ => {
                assert(!decodes(instr));
                return Err(Fault::Decode(instr));
            },
        }
        assert(fault(old(self)@, instr) is None);
        Ok(())
    }

    /// Copies `V0..=Vx` into memory, from the address in `I` on.
    fn store_registers(&mut self, vx: usize)
        requires
            vx < 16,
            old(self).registers.i + vx < MEMORY_SIZE,
        ensures
            final(self)@ == (Machine {
                memory: overlay(
                    old(self)@.memory,
                    old(self)@.i as int,
                    old(self)@.v.take(vx + 1),
                ),
                ..old(self)@
            }),
    {
        let index = self.registers.i;
        let mut k: usize = 0;
        while k <= vx
            invariant
                k <= vx + 1,
                vx < 16,
                index + vx < MEMORY_SIZE,
                index == old(self)@.i,
                self@ == (Machine { memory: self@.memory, ..old(self)@ }),
                self@.memory == overlay(old(self)@.memory, index as int, old(self)@.v.take(k as int)),
            decreases vx + 1 - k,
        {
            self.memory.write(index + k as u16, self.registers.v[k]);
            k += 1;
        }
    }

    /// Fills `V0..=Vx` from memory, from the address in `I` on.
    fn load_registers(&mut self, vx: usize)
        requires
            vx < 16,
            old(self).registers.i + vx < MEMORY_SIZE,
        ensures
            final(self)@ == (Machine {
                v: overlay(
                    old(self)@.v,
                    0,
                    window(old(self)@.memory, old(self)@.i as int, (vx + 1) as nat),
                ),
                ..old(self)@
            }),
    {
        let index = self.registers.i;
        let mut k: usize = 0;
        while k <= vx
            invariant
                k <= vx + 1,
                vx < 16,
                index + vx < MEMORY_SIZE,
                index == old(self)@.i,
                self@ == (Machine { v: self@.v, ..old(self)@ }),
                self@.v == overlay(
                    old(self)@.v,
                    0,
                    window(old(self)@.memory, index as int, k as nat),
                ),
            decreases vx + 1 - k,
        {
            self.registers.v[k] = self.memory.read(index + k as u16);
            k += 1;
        }
    }

    /// Moves the program counter past the next instruction if `condition`
    /// holds.
    fn skip_if(&mut self, condition: bool) -> (res: Result<(), Fault>)
        ensures
            res == reported(old(self)@.skip_fault(condition)),
            res is Ok ==> final(self)@ == old(self)@.skip_if(condition),
            res is Err ==> final(self)@ == old(self)@,
    {
        if condition {
            if self.registers.pc > u16::MAX - 2 {
                return Err(Fault::Address);
            }
            self.registers.pc += 2;
        }
        Ok(())
    }

    /// `00EE`: return from a subroutine.
    fn ret(&mut self)
        requires
            old(self).wf(),
        ensures
            final(self)@ == old(self)@.returned(),
    {
        self.registers.pc = self.stack[self.registers.sp];
        self.registers.sp = self.registers.sp.saturating_sub(1);
    }

    /// `0NNN`: a call into the host system, which there is none of.
    fn sys_addr(&mut self, _addr: Address)
        ensures
            final(self)@ == old(self)@,
    {
    }

    /// `1NNN`, `BNNN`: execution goes on at `addr`.
    fn jump_addr(&mut self, addr: Address)
        ensures
            final(self)@ == (Machine { pc: addr, ..old(self)@ }),
    {
        self.registers.pc = addr;
    }

    /// `2NNN`: call of the subroutine at `addr`.
    fn call_addr(&mut self, addr: Address)
        requires
            old(self).wf(),
        ensures
            final(self)@ == old(self)@.called(addr),
    {
        if self.registers.sp + 1 < STACK_SIZE {
            self.registers.sp += 1;
        }
        self.stack[self.registers.sp] = self.registers.pc;
        self.registers.pc = addr;
    }
}

} // verus!
