//! Flat addressable byte memory with typed read/write helpers.
//!
//! Addresses are 12-bit effective (0x000..=0xFFF); every access is bounds
//! checked by contract, so no read or write ever goes past the 4096-byte
//! space.

use vstd::prelude::*;

verus! {

/// The 4096-byte address space of the machine.
pub struct Memory {
    ram: Vec<u8>,
}

impl Memory {
    /// The memory contents as a mathematical sequence of bytes.
    pub closed spec fn view(&self) -> Seq<u8> {
        self.ram@
    }

    /// Well-formedness: the address space always holds exactly 4096 bytes.
    pub open spec fn wf(&self) -> bool {
        self@.len() == 4096
    }

    /// Fresh memory, all bytes zero.
    pub fn new() -> (m: Memory)
        ensures
            m.wf(),
            forall|a: int| 0 <= a < 4096 ==> m@[a] == 0u8,
    {
        Memory { ram: vec![0u8; 4096] }
    }

    /// Write one byte at `address`.
    pub fn write_byte(&mut self, address: u16, value: u8)
        requires
            old(self).wf(),
            address < 4096,
        ensures
            final(self).wf(),
            final(self)@ == old(self)@.update(address as int, value),
    {
        self.ram[address as usize] = value;
        proof {
            assert(self@ =~= old(self)@.update(address as int, value));
        }
    }

    /// Read one byte at `address`.
    pub fn read_byte(&self, address: u16) -> (b: u8)
        requires
            self.wf(),
            address < 4096,
        ensures
            b == self@[address as int],
    {
        self.ram[address as usize]
    }

    /// Read two consecutive bytes at `address`, big-endian, as one 16-bit word.
    pub fn read_doublebyte(&self, address: u16) -> (w: u16)
        requires
            self.wf(),
            address + 1 < 4096,
        ensures
            w == self@[address as int] * 256 + self@[address as int + 1],
    {
        let hi = self.ram[address as usize];
        let lo = self.ram[address as usize + 1];
        (hi as u16) * 256 + (lo as u16)
    }

    /// Copy `chunk` into memory starting at `address`.
    pub fn write_chunk(&mut self, address: u16, chunk: &[u8])
        requires
            old(self).wf(),
            address + chunk@.len() <= 4096,
        ensures
            final(self).wf(),
            forall|a: int|
                address <= a < address + chunk@.len() ==> final(self)@[a] == chunk@[a - address],
            forall|a: int|
                0 <= a < 4096 && !(address <= a < address + chunk@.len()) ==> final(self)@[a]
                    == old(self)@[a],
    {
        let mut count: usize = 0;
        while count < chunk.len()
            invariant
                self.wf(),
                count <= chunk@.len(),
                address + chunk@.len() <= 4096,
                forall|a: int| address <= a < address + count ==> self@[a] == chunk@[a - address],
                forall|a: int|
                    0 <= a < 4096 && !(address <= a < address + count) ==> self@[a] == old(
                        self,
                    )@[a],
            decreases chunk@.len() - count,
        {
            let b = chunk[count];
            self.ram[address as usize + count] = b;
            count += 1;
        }
    }

    /// Read `size` consecutive bytes starting at `address`.
    pub fn read_chunk(&self, address: u16, size: usize) -> (chunk: Vec<u8>)
        requires
            self.wf(),
            address + size <= 4096,
        ensures
            chunk@ == self@.subrange(address as int, address + size),
    {
        let mut chunk: Vec<u8> = Vec::new();
        let mut i: usize = 0;
        while i < size
            invariant
                self.wf(),
                i <= size,
                address + size <= 4096,
                chunk@ == self@.subrange(address as int, address + i),
            decreases size - i,
        {
            chunk.push(self.ram[address as usize + i]);
            proof {
                assert(chunk@ =~= self@.subrange(address as int, address + i + 1));
            }
            i += 1;
        }
        chunk
    }
}

} // verus!
