use chip8::data::Address;
use chip8::memory::MemoryBus;

#[test]
fn memory_test_write() {
    let mut mem = MemoryBus::default();

    let addresses = vec![0x000, 0x0FF, 0xFFF];
    let values = vec![0x0F, 0xF0, 0xAA];

    for addr in &addresses {
        for val in &values {
            mem.write(*addr, *val);
            assert_eq!(*val, mem.memory[*addr as usize])
        }
    }
}

#[test]
fn test_write_bytes() {
    let mut mem = MemoryBus::default();

    let addr: Address = 0x000;
    let values = [0x0F, 0xF0, 0xAA];

    mem.write_bytes(addr, &values);
    for (i, val) in values.iter().enumerate() {
        assert_eq!(*val, mem.memory[addr as usize + i])
    }
}

#[test]
fn memory_test_read() {
    let mut mem = MemoryBus::default();

    let addresses = vec![0x000, 0x0FF, 0xFFF];
    let values = vec![0x0F, 0xF0, 0xAA];

    for addr in &addresses {
        for val in &values {
            mem.memory[*addr as usize] = *val;
            let result = mem.read(*addr);
            assert_eq!(result, *val)
        }
    }
}

#[test]
fn write_bytes_leaves_the_rest_alone() {
    let mut mem = MemoryBus::default();
    mem.write(0x0FF, 0x11);
    mem.write(0x103, 0x22);
    mem.write_bytes(0x100, &[1, 2, 3]);
    assert_eq!(mem.read(0x0FF), 0x11);
    assert_eq!(mem.read(0x100), 1);
    assert_eq!(mem.read(0x101), 2);
    assert_eq!(mem.read(0x102), 3);
    assert_eq!(mem.read(0x103), 0x22);
}

#[test]
fn write_bytes_reaches_the_last_byte() {
    let mut mem = MemoryBus::default();
    mem.write_bytes(0xFFE, &[0xAB, 0xCD]);
    assert_eq!(mem.read(0xFFE), 0xAB);
    assert_eq!(mem.read(0xFFF), 0xCD);
}

#[test]
fn read_bytes_returns_the_window() {
    let mut mem = MemoryBus::default();
    mem.write_bytes(0x200, &[9, 8, 7, 6]);
    assert_eq!(mem.read_bytes(0x201, 2), vec![8, 7]);
    assert_eq!(mem.read_bytes(0xFFF, 1), vec![0]);
}

#[test]
fn read_bytes_of_nothing_is_empty() {
    let mem = MemoryBus::default();
    assert_eq!(mem.read_bytes(0x200, 0), Vec::<u8>::new());
    assert_eq!(mem.read_bytes(0xFFFF, 0), Vec::<u8>::new());
}
