//! The machine's memory.

use vstd::prelude::*;
use crate::data::Address;

verus! {

/// Number of bytes the machine can address.
pub const MEMORY_SIZE: usize = 0x1000;

/// Where programs are loaded and where execution starts.
pub const PROGRAM_START: Address = 0x200;

/// The machine's flat byte memory.
pub struct MemoryBus {
    pub memory: [u8; MEMORY_SIZE],
}

impl View for MemoryBus {
    type V = Seq<u8>;

    open spec fn view(&self) -> Seq<u8> {
        self.memory@
    }
}

/// `mem` with `data` laid over it from `addr` on; bytes outside
/// `addr .. addr + data.len()` are those of `mem`.
pub open spec fn overlay(mem: Seq<u8>, addr: int, data: Seq<u8>) -> Seq<u8> {
    Seq::new(
        mem.len(),
        |k: int| if addr <= k < addr + data.len() { data[k - addr] } else { mem[k] },
    )
}

/// The `len` bytes of `mem` that start at `addr`.
pub open spec fn window(mem: Seq<u8>, addr: int, len: nat) -> Seq<u8> {
    Seq::new(len, |k: int| mem[addr + k])
}

impl Default for MemoryBus {
    /// Memory with every byte zero.
    fn default() -> (bus: MemoryBus)
        ensures
            bus@ == Seq::new(MEMORY_SIZE as nat, |k: int| 0u8),
    {
        MemoryBus { memory: [0; MEMORY_SIZE] }
    }
}

impl MemoryBus {
    /// Stores `data` at `addr`.
    pub fn write(&mut self, addr: Address, data: u8)
        requires
            addr < MEMORY_SIZE,
        ensures
            final(self)@ == old(self)@.update(addr as int, data),
    {
        self.memory[addr as usize] = data;
    }

    /// Stores `data` at `addr` and the addresses that follow it.
    pub fn write_bytes(&mut self, addr: Address, data: &[u8])
        requires
            addr + data@.len() <= MEMORY_SIZE,
        ensures
            final(self)@ == overlay(old(self)@, addr as int, data@),
    {
        let mut i: usize = 0;
        while i < data.len()
            invariant
                i <= data@.len(),
                addr + data@.len() <= MEMORY_SIZE,
                self@ == overlay(old(self)@, addr as int, data@.take(i as int)),
            decreases data@.len() - i,
        {
            self.write(addr + i as Address, data[i]);
            i += 1;
        }
        assert(data@.take(data@.len() as int) == data@);
    }

    /// The byte at `addr`.
    pub fn read(&self, addr: Address) -> (byte: u8)
        requires
            addr < MEMORY_SIZE,
        ensures
            byte == self@[addr as int],
    {
        self.memory[addr as usize]
    }

    /// The `len` bytes from `addr` on. Where `len` is zero, `addr` may be any
    /// address.
    pub fn read_bytes(&self, addr: Address, len: usize) -> (data: Vec<u8>)
        requires
            len == 0 || addr + len <= MEMORY_SIZE,
        ensures
            data@ == window(self@, addr as int, len as nat),
    {
        let mut data = Vec::with_capacity(len);
        let mut i: usize = 0;
        while i < len
            invariant
                i <= len,
                len == 0 || addr + len <= MEMORY_SIZE,
                data@ == window(self@, addr as int, i as nat),
            decreases len - i,
        {
            data.push(self.read(addr + i as Address));
            i += 1;
        }
        data
    }
}

} // verus!
