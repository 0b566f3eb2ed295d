use chip8::cpu::{Cpu, FREQUENCY};
use chip8::data::Fault;
use chip8::system::{turn, Clock, Next, SystemBuilder, TIMER_FREQUENCY};

#[test]
fn clock_rates_and_periods() {
    assert_eq!(FREQUENCY, 500);
    assert_eq!(TIMER_FREQUENCY, 60);
    assert_eq!(Clock::Instruction.frequency(), 500);
    assert_eq!(Clock::Timer.frequency(), 60);
    assert_eq!(Clock::Instruction.period(), 2);
    assert_eq!(Clock::Timer.period(), 16);
}

#[test]
fn a_stopping_worker_leaves_the_machine_alone() {
    for clock in [Clock::Instruction, Clock::Timer] {
        let mut cpu = Cpu::init(&[0x60, 0x42]).unwrap();
        cpu.delay.set(9);
        assert_eq!(turn(&mut cpu, clock, true), Next::Stop);
        assert_eq!(cpu.registers.pc, 0x200);
        assert_eq!(cpu.registers.v[0], 0);
        assert_eq!(cpu.delay.get(), 9);
    }
}

#[test]
fn the_timer_worker_counts_down_and_sleeps() {
    let mut cpu = Cpu::init(&[0x60, 0x42]).unwrap();
    cpu.delay.set(9);
    cpu.sound.set(1);
    assert_eq!(turn(&mut cpu, Clock::Timer, false), Next::Sleep(16));
    assert_eq!(cpu.delay.get(), 8);
    assert_eq!(cpu.sound.get(), 0);
    assert_eq!(cpu.registers.pc, 0x200);
}

#[test]
fn the_instruction_worker_runs_one_instruction_and_sleeps() {
    let mut cpu = Cpu::init(&[0x60, 0x42, 0x61, 0x43]).unwrap();
    cpu.delay.set(9);
    assert_eq!(turn(&mut cpu, Clock::Instruction, false), Next::Sleep(2));
    assert_eq!(cpu.registers.v[0], 0x42);
    assert_eq!(cpu.registers.v[1], 0);
    assert_eq!(cpu.registers.pc, 0x202);
    assert_eq!(cpu.delay.get(), 9);
}

#[test]
fn the_instruction_worker_keeps_waking_while_the_machine_waits_for_a_key() {
    let mut cpu = Cpu::init(&[0xF0, 0x0A]).unwrap();
    assert_eq!(turn(&mut cpu, Clock::Instruction, false), Next::Sleep(2));
    for _ in 0..3 {
        assert_eq!(turn(&mut cpu, Clock::Instruction, false), Next::Sleep(2));
        assert_eq!(cpu.registers.pc, 0x202);
    }
}

#[test]
fn the_instruction_worker_halts_on_a_fault() {
    let mut cpu = Cpu::init(&[0xE0, 0x00]).unwrap();
    assert_eq!(turn(&mut cpu, Clock::Instruction, false), Next::Halt(Fault::Decode(0xE000)));
    let mut cpu = Cpu::init(&[]).unwrap();
    cpu.registers.pc = 0xFFF;
    assert_eq!(turn(&mut cpu, Clock::Instruction, false), Next::Halt(Fault::Address));
    let mut cpu = Cpu::init(&[0x60, 0x10, 0xF0, 0x29]).unwrap();
    assert_eq!(turn(&mut cpu, Clock::Instruction, false), Next::Sleep(2));
    assert_eq!(turn(&mut cpu, Clock::Instruction, false), Next::Halt(Fault::Operand));
}

#[test]
fn builder_hands_over_the_loaded_machine() {
    let rom = [0x12, 0x00];
    let builder = SystemBuilder::new(&rom);
    assert!(builder.can_run());
    let cpu = builder.machine().unwrap();
    assert_eq!(cpu.registers.pc, 0x200);
    assert_eq!(cpu.memory.read_bytes(0x200, 2), vec![0x12, 0x00]);
    assert_eq!(cpu.memory.read(0x050), 0xF0);
}

#[test]
fn builder_tells_a_program_that_is_too_long() {
    let fits = vec![0u8; 3584];
    let too_long = vec![0u8; 3585];
    assert!(SystemBuilder::new(&fits).can_run());
    assert!(!SystemBuilder::new(&too_long).can_run());
    assert!(SystemBuilder::new(&[]).can_run());
}
