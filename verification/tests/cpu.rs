use chip8::cpu::{Cpu, Interrupt};
use chip8::data::{Address, OpCode};
use chip8::display::{Pixel, DISPLAY_WIDTH};
use chip8::font::FONT_START;
use rand::SeedableRng;
use rand_pcg::Pcg64Mcg;

#[test]
#[allow(non_snake_case)]
fn test_tick_timers() {
    let mut cpu = Cpu::default().unwrap();
    cpu.delay.set(0x12);
    cpu.sound.set(0x34);

    cpu.tick_timers();
    assert_eq!(cpu.delay.get(), 0x11);
    assert_eq!(cpu.sound.get(), 0x33);
}

#[test]
#[allow(non_snake_case)]
fn test_fetch() {
    let mut cpu = Cpu::default().unwrap();
    cpu.registers.pc = 0x200;
    cpu.memory.write(0x200, 0x12);
    cpu.memory.write(0x201, 0x34);

    assert_eq!(cpu.fetch(), Ok(0x1234)); // check that the instruction is read correctly
    assert_eq!(cpu.registers.pc, 0x202); // check that the program counter is incremented
}

#[test]
#[allow(non_snake_case)]
fn test_RET() {
    const RET: OpCode = 0x00EE;

    let mut cpu = Cpu::default().unwrap();
    cpu.registers.sp = 1;
    cpu.stack[0] = 0x1234;
    cpu.stack[1] = 0x5678;

    cpu.execute(RET).unwrap();
    assert_eq!(cpu.registers.pc, 0x5678);
    assert_eq!(cpu.registers.sp, 0);

    cpu.execute(RET).unwrap();
    assert_eq!(cpu.registers.pc, 0x1234);
    assert_eq!(cpu.registers.sp, 0); // saturating_sub should prevent underflow
}

#[test]
#[allow(non_snake_case)]
fn test_JMP_addr() {
    const JMP: OpCode = 0x1234;

    let mut cpu = Cpu::default().unwrap();
    assert_eq!(cpu.registers.pc, 0);
    cpu.execute(JMP).unwrap();
    assert_eq!(cpu.registers.pc, 0x234);
}

#[test]
#[allow(non_snake_case)]
fn test_CALL_addr() {
    const CALL: OpCode = 0x2345;

    let mut cpu = Cpu::default().unwrap();
    cpu.registers.pc = 0x200;
    cpu.registers.sp = 0;

    cpu.execute(CALL).unwrap();

    assert_eq!(cpu.registers.pc, 0x345);
    assert_eq!(cpu.stack[cpu.registers.sp], 0x200);
}

#[test]
#[allow(non_snake_case)]
fn test_SE_Vx_byte() {
    let mut cpu = Cpu::default().unwrap();
    cpu.registers.v[0] = 0x12;
    cpu.registers.pc = 0x200;

    cpu.execute(0x3012).unwrap();
    assert_eq!(cpu.registers.pc, 0x202);

    cpu.execute(0x3013).unwrap();
    assert_eq!(cpu.registers.pc, 0x202);
}

#[test]
#[allow(non_snake_case)]
fn test_SNE_Vx_byte() {
    let mut cpu = Cpu::default().unwrap();
    cpu.registers.v[0] = 0x12;
    cpu.registers.pc = 0x200;

    cpu.execute(0x4013).unwrap();
    assert_eq!(cpu.registers.pc, 0x202);

    cpu.execute(0x4012).unwrap();
    assert_eq!(cpu.registers.pc, 0x202);
}

#[test]
#[allow(non_snake_case)]
fn test_SE_Vx_Vy() {
    let mut cpu = Cpu::default().unwrap();
    cpu.registers.v[0] = 0x12;
    cpu.registers.v[1] = 0x12;
    cpu.registers.v[2] = 0x13;
    cpu.registers.pc = 0x200;

    cpu.execute(0x5010).unwrap();
    assert_eq!(cpu.registers.pc, 0x202);

    cpu.execute(0x5020).unwrap();
    assert_eq!(cpu.registers.pc, 0x202);
}

#[test]
#[allow(non_snake_case)]
fn test_LD_Vx_byte() {
    let mut cpu = Cpu::default().unwrap();
    cpu.registers.v[0] = 0x00;

    cpu.execute(0x6012).unwrap();
    assert_eq!(cpu.registers.v[0], 0x12);
}

#[test]
#[allow(non_snake_case)]
fn test_ADD_Vx_byte() {
    let mut cpu = Cpu::default().unwrap();
    cpu.registers.v[0] = 0x12;

    cpu.execute(0x7012).unwrap();
    assert_eq!(cpu.registers.v[0], 0x24);

    cpu.registers.v[0] = 0xFF;

    cpu.execute(0x7001).unwrap();
    assert_eq!(cpu.registers.v[0], 0x00);
}

#[test]
#[allow(non_snake_case)]
fn test_LD_Vx_Vy() {
    let mut cpu = Cpu::default().unwrap();
    cpu.registers.v[0] = 0x12;
    cpu.registers.v[1] = 0x34;

    cpu.execute(0x8010).unwrap();
    assert_eq!(cpu.registers.v[0], 0x34);
}

#[test]
#[allow(non_snake_case)]
fn test_OR_Vx_Vy() {
    let mut cpu = Cpu::default().unwrap();
    cpu.registers.v[0] = 0b1100;
    cpu.registers.v[1] = 0b1010;

    cpu.execute(0x8011).unwrap();
    assert_eq!(cpu.registers.v[0], 0b1110);
}

#[test]
#[allow(non_snake_case)]
fn test_AND_Vx_Vy() {
    let mut cpu = Cpu::default().unwrap();
    cpu.registers.v[0] = 0b1100;
    cpu.registers.v[1] = 0b1010;

    cpu.execute(0x8012).unwrap();
    assert_eq!(cpu.registers.v[0], 0b1000);
}

#[test]
#[allow(non_snake_case)]
fn test_XOR_Vx_Vy() {
    let mut cpu = Cpu::default().unwrap();
    cpu.registers.v[0] = 0b1100;
    cpu.registers.v[1] = 0b1010;

    cpu.execute(0x8013).unwrap();
    assert_eq!(cpu.registers.v[0], 0b0110);
}

#[test]
#[allow(non_snake_case)]
fn test_ADD_Vx_Vy() {
    let mut cpu = Cpu::default().unwrap();
    cpu.registers.v[0] = 0x12;
    cpu.registers.v[1] = 0x34;

    cpu.execute(0x8014).unwrap();
    assert_eq!(cpu.registers.v[0], 0x46);
    assert_eq!(cpu.registers.v[0xF], 0);

    cpu.registers.v[0] = 0xFF;
    cpu.registers.v[1] = 0x01;

    cpu.execute(0x8014).unwrap();
    assert_eq!(cpu.registers.v[0], 0x00);
    assert_eq!(cpu.registers.v[0xF], 1);
}

#[test]
#[allow(non_snake_case)]
fn test_SUB_Vx_Vy() {
    let mut cpu = Cpu::default().unwrap();
    cpu.registers.v[0] = 0x34;
    cpu.registers.v[1] = 0x12;

    cpu.execute(0x8015).unwrap();
    assert_eq!(cpu.registers.v[0], 0x22);
    assert_eq!(cpu.registers.v[0xF], 1);

    cpu.registers.v[0] = 0x12;
    cpu.registers.v[1] = 0x34;

    cpu.execute(0x8015).unwrap();
    assert_eq!(cpu.registers.v[0], 0xDE);
    assert_eq!(cpu.registers.v[0xF], 0);
}

#[test]
#[allow(non_snake_case)]
fn test_SHR_Vx() {
    let mut cpu = Cpu::default().unwrap();
    cpu.registers.v[0] = 0b0000_1100;

    cpu.execute(0x8006).unwrap();
    assert_eq!(cpu.registers.v[0], 0b0000_0110);
    assert_eq!(cpu.registers.v[0xF], 0);

    cpu.registers.v[0] = 0b0000_1101;

    cpu.execute(0x8006).unwrap();
    assert_eq!(cpu.registers.v[0], 0b0000_0110);
    assert_eq!(cpu.registers.v[0xF], 1);
}

#[test]
#[allow(non_snake_case)]
fn test_SUBN_Vx_Vy() {
    let mut cpu = Cpu::default().unwrap();
    cpu.registers.v[0] = 0x12;
    cpu.registers.v[1] = 0x34;

    cpu.execute(0x8017).unwrap();
    assert_eq!(cpu.registers.v[0], 0x22);
    assert_eq!(cpu.registers.v[0xF], 1);

    cpu.registers.v[0] = 0x34;
    cpu.registers.v[1] = 0x12;

    cpu.execute(0x8017).unwrap();
    assert_eq!(cpu.registers.v[0], 0xDE);
    assert_eq!(cpu.registers.v[0xF], 0);
}

#[test]
#[allow(non_snake_case)]
fn test_SHL_Vx() {
    let mut cpu = Cpu::default().unwrap();
    cpu.registers.v[0] = 0b1100_0000;

    cpu.execute(0x800E).unwrap();
    assert_eq!(cpu.registers.v[0], 0b1000_0000);
    assert_eq!(cpu.registers.v[0xF], 1);

    cpu.registers.v[0] = 0b0100_0000;

    cpu.execute(0x800E).unwrap();
    assert_eq!(cpu.registers.v[0], 0b1000_0000);
    assert_eq!(cpu.registers.v[0xF], 0);
}

#[test]
#[allow(non_snake_case)]
fn test_SNE_Vx_Vy() {
    let mut cpu = Cpu::default().unwrap();
    cpu.registers.v[0] = 0x12;
    cpu.registers.v[1] = 0x12;
    cpu.registers.v[2] = 0x13;
    cpu.registers.pc = 0x200;

    cpu.execute(0x9010).unwrap();
    assert_eq!(cpu.registers.pc, 0x200);

    cpu.execute(0x9020).unwrap();
    assert_eq!(cpu.registers.pc, 0x202);
}

#[test]
#[allow(non_snake_case)]
fn test_LD_I_addr() {
    let mut cpu = Cpu::default().unwrap();
    cpu.registers.i = 0x1234;

    cpu.execute(0xA432).unwrap();
    assert_eq!(cpu.registers.i, 0x0432);
}

#[test]
#[allow(non_snake_case)]
fn test_JP_V0_addr() {
    let mut cpu = Cpu::default().unwrap();
    cpu.registers.v[0] = 0x12;

    cpu.execute(0xB234).unwrap();
    assert_eq!(cpu.registers.pc, 0x0246);
}

#[test]
#[allow(non_snake_case)]
fn test_RND_Vx_byte() {
    let mut cpu = Cpu::default().unwrap();
    cpu.rng = Pcg64Mcg::seed_from_u64(0);
    cpu.execute(0xC012).unwrap();
    assert_eq!(cpu.registers.v[0], 0x02);
}

#[test]
#[allow(non_snake_case)]
fn test_DRW_Vx_Vy_nibble() {
    let mut cpu = Cpu::default().unwrap();
    cpu.registers.i = 0x200;
    cpu.registers.v[0] = 0;
    cpu.registers.v[1] = 0;
    cpu.memory.write(0x200, 0b11110000);
    cpu.memory.write(0x201, 0b00001111);

    cpu.execute(0xD012).unwrap();
    assert_eq!(cpu.registers.v[0xF], 0);
    assert!(cpu.drawing);

    let on_pixels = [
        (0, 0),
        (1, 0),
        (2, 0),
        (3, 0),
        (4, 1),
        (5, 1),
        (6, 1),
        (7, 1),
    ];
    for &(x, y) in on_pixels.iter() {
        assert_eq!(cpu.display.pixels[y * DISPLAY_WIDTH + x], Pixel::On);
    }
}

#[test]
#[allow(non_snake_case)]
fn test_SKP_Vx() {
    let mut cpu = Cpu::default().unwrap();
    cpu.keyboard[0xB] = true;
    cpu.registers.v[0] = 0xB;
    cpu.registers.pc = 0x200;

    cpu.execute(0xE09E).unwrap();
    assert_eq!(cpu.registers.pc, 0x202);

    cpu.execute(0xE19E).unwrap();
    assert_eq!(cpu.registers.pc, 0x202);
}

#[test]
#[allow(non_snake_case)]
fn test_SKNP_Vx() {
    let mut cpu = Cpu::default().unwrap();
    cpu.keyboard[0xB] = true;
    cpu.registers.v[0] = 0xB;
    cpu.registers.pc = 0x200;

    cpu.execute(0xE0A1).unwrap();
    assert_eq!(cpu.registers.pc, 0x200);

    cpu.execute(0xE1A1).unwrap();
    assert_eq!(cpu.registers.pc, 0x202);
}

#[test]
#[allow(non_snake_case)]
fn test_LD_Vx_DT() {
    let mut cpu = Cpu::default().unwrap();
    cpu.delay.set(0x12);
    cpu.registers.v[0] = 0x00;

    cpu.execute(0xF007).unwrap();
    assert_eq!(cpu.registers.v[0], 0x12);
}

#[test]
#[allow(non_snake_case)]
fn test_LD_Vx_K() {
    let mut cpu = Cpu::default().unwrap();
    cpu.registers.v[0] = 0xFF;

    cpu.execute(0xF00A).unwrap();
    assert_eq!(cpu.interrupt, Interrupt::KeyPress(0));

    cpu.key_down(0xB);
    assert_eq!(cpu.interrupt, Interrupt::Idle);
    assert_eq!(cpu.registers.v[0], 0xB);
}

#[test]
#[allow(non_snake_case)]
fn test_LD_DT_Vx() {
    let mut cpu = Cpu::default().unwrap();
    cpu.registers.v[0] = 0x12;
    cpu.delay.set(0x00);

    cpu.execute(0xF015).unwrap();
    assert_eq!(cpu.delay.get(), 0x12);
}

#[test]
#[allow(non_snake_case)]
fn test_LD_ST_Vx() {
    let mut cpu = Cpu::default().unwrap();
    cpu.registers.v[0] = 0x12;
    cpu.sound.set(0x00);

    cpu.execute(0xF018).unwrap();
    assert_eq!(cpu.sound.get(), 0x12);
}

#[test]
#[allow(non_snake_case)]
fn test_ADD_I_Vx() {
    let mut cpu = Cpu::default().unwrap();
    cpu.registers.i = 0x1234;
    cpu.registers.v[0] = 0x12;

    cpu.execute(0xF01E).unwrap();
    assert_eq!(cpu.registers.i, 0x1246);
}

#[test]
#[allow(non_snake_case)]
fn test_LD_F_Vx() {
    let mut cpu = Cpu::default().unwrap();
    for i in 0x0..=0xF_u16 {
        cpu.registers.v[0] = i as u8;
        cpu.registers.i = 0x000;

        cpu.execute(0xF029).unwrap();
        assert_eq!(cpu.registers.i, (i * 5) + FONT_START);
    }
}

#[test]
#[allow(non_snake_case)]
fn test_LD_B_Vx() {
    let mut cpu = Cpu::default().unwrap();
    cpu.registers.i = 0x200;
    cpu.registers.v[0] = 123;

    cpu.execute(0xF033).unwrap();
    assert_eq!(cpu.memory.read(0x200), 1);
    assert_eq!(cpu.memory.read(0x201), 2);
    assert_eq!(cpu.memory.read(0x202), 3);
}

#[test]
#[allow(non_snake_case)]
fn test_LD_I_Vx() {
    let mut cpu = Cpu::default().unwrap();
    for i in 0x0..=0xF {
        cpu.registers.v[i as usize] = i;
    }

    cpu.registers.i = 0x200;
    cpu.execute(0xF755).unwrap();

    for i in 0x0..=0xF_u8 {
        if i <= 0x7 {
            assert_eq!(cpu.memory.read(0x200 + i as Address), i);
        } else {
            assert_eq!(cpu.memory.read(0x200 + i as Address), 0);
        }
    }

    cpu.execute(0xFF55).unwrap();

    for i in 0x0..=0xF_u8 {
        assert_eq!(cpu.memory.read(0x200 + i as Address), i);
    }
}

#[test]
#[allow(non_snake_case)]
fn test_LD_Vx_I() {
    let mut cpu = Cpu::default().unwrap();
    for i in 0x0..=0xF {
        cpu.memory.write(0x200 + i as Address, i);
    }

    cpu.registers.i = 0x200;
    cpu.execute(0xF765).unwrap();

    for i in 0x0..=0xF_u8 {
        if i <= 0x7 {
            assert_eq!(cpu.registers.v[i as usize], i);
        } else {
            assert_eq!(cpu.registers.v[i as usize], 0);
        }
    }

    cpu.execute(0xFF65).unwrap();

    for i in 0x0..=0xF_u8 {
        assert_eq!(cpu.registers.v[i as usize], i);
    }
}
