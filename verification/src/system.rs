//! The two clocks that drive a running machine, and what the workers behind
//! them decide after each cycle.

use vstd::prelude::*;
use crate::cpu::{Cpu, FREQUENCY};
use crate::data::Fault;
use crate::machine::{cycle, cycle_draws_random, cycle_fault, Machine};
use crate::memory::{MEMORY_SIZE, PROGRAM_START};

verus! {

/// Times per second that the two timers count down.
pub const TIMER_FREQUENCY: u32 = 60;

/// Milliseconds in a second.
pub const MILLIS_PER_SECOND: u64 = 1000;

/// The pause between two cycles of a clock that runs `frequency` times a
/// second, in whole milliseconds.
pub open spec fn cycle_millis(frequency: u32) -> int {
    MILLIS_PER_SECOND as int / frequency as int
}

/// The two clocks that drive the machine, each on a schedule of its own.
#[derive(Clone, Copy, Debug, PartialEq, Eq, Structural)]
pub enum Clock {
    /// Runs instructions, one a cycle.
    Instruction,
    /// Counts the timers down, one step a cycle.
    Timer,
}

/// What the worker that drives a clock does after a cycle.
#[derive(Clone, Copy, Debug, PartialEq, Eq, Structural)]
pub enum Next {
    /// Sleep for this many milliseconds, then run the next cycle.
    Sleep(u64),
    /// Leave the loop: the system is being stopped.
    Stop,
    /// Leave the loop and report the fault: the machine cannot go on.
    Halt(Fault),
}

impl Clock {
    /// Cycles per second.
    pub open spec fn spec_frequency(self) -> u32 {
        match self {
            Clock::Instruction => FREQUENCY,
            Clock::Timer => TIMER_FREQUENCY,
        }
    }

    #[verifier::when_used_as_spec(spec_frequency)]
    pub fn frequency(self) -> (frequency: u32)
        ensures
            frequency == self.spec_frequency(),
            frequency > 0,
    {
        match self {
            Clock::Instruction => FREQUENCY,
            Clock::Timer => TIMER_FREQUENCY,
        }
    }

    /// The pause between two cycles, in whole milliseconds.
    pub fn period(self) -> (millis: u64)
        ensures
            millis == cycle_millis(self.frequency()),
    {
        MILLIS_PER_SECOND / self.frequency() as u64
    }
}

/// One cycle of a clock, run by its worker while it holds the machine. A
/// worker that has been told to stop leaves the machine alone. The timer
/// clock always goes on; the instruction clock goes on unless the machine
/// refuses to.
pub fn turn(cpu: &mut Cpu, clock: Clock, stopping: bool) -> (next: Next)
    requires
        old(cpu).wf(),
    ensures
        final(cpu).wf(),
        stopping ==> next == Next::Stop && final(cpu)@ == old(cpu)@,
        !stopping && clock == Clock::Timer ==> next == Next::Sleep(
            cycle_millis(TIMER_FREQUENCY) as u64,
        ) && final(cpu)@ == old(cpu)@.timers_ticked(),
        !stopping && clock == Clock::Instruction ==> next == (match cycle_fault(old(cpu)@) {
            Some(fault) => Next::Halt(fault),
            None => Next::Sleep(cycle_millis(FREQUENCY) as u64),
        }) && exists|rnd: u8| final(cpu)@ == #[trigger] cycle(old(cpu)@, rnd),
        !stopping && clock == Clock::Instruction && !cycle_draws_random(old(cpu)@) ==> final(cpu)@
            == cycle(old(cpu)@, 0),
{
    if stopping {
        return Next::Stop;
    }
    match clock {
        Clock::Timer => {
            cpu.tick_timers();
            Next::Sleep(clock.period())
        },
        Clock::Instruction => match cpu.tick() {
            Ok(()) => Next::Sleep(clock.period()),
            Err(fault) => Next::Halt(fault),
        },
    }
}

/// Holds a program until the system that runs it is started.
pub struct SystemBuilder<'a> {
    rom: &'a [u8],
}

impl<'a> SystemBuilder<'a> {
    /// The program held.
    pub closed spec fn program(&self) -> Seq<u8> {
        self.rom@
    }

    /// Whether the program fits into memory behind the program start.
    pub open spec fn fits(&self) -> bool {
        self.program().len() <= MEMORY_SIZE - PROGRAM_START
    }

    pub fn new(rom: &'a [u8]) -> (builder: SystemBuilder<'a>)
        ensures
            builder.program() == rom@,
    {
        SystemBuilder { rom }
    }

    /// Whether the program fits into memory, and so can be run.
    pub fn can_run(&self) -> (fits: bool)
        ensures
            fits == self.fits(),
    {
        self.rom.len() <= MEMORY_SIZE - PROGRAM_START as usize
    }

    /// The machine with the program loaded, for the workers to drive;
    /// nothing where the operating system gives no seed for the machine's
    /// random number generator.
    pub fn machine(self) -> (cpu: Option<Cpu>)
        requires
            self.fits(),
        ensures
            cpu matches Some(c) ==> c@ == Machine::loaded(self.program()) && c.wf(),
    {
        Cpu::init(self.rom)
    }
}

} // verus!
