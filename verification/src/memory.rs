//! Byte-addressable memory with an access policy that reserves the low
//! addresses: the font region and the interpreter region may not be read.

use vstd::prelude::*;

use crate::MEMORY_LENGTH;
use crate::PROGRAM_OFFSET;

verus! {

/// True of the addresses this core may read: at or past the program origin
/// and inside the memory image. Addresses below the origin denote the
/// reserved font and interpreter regions.
pub open spec fn readable(address: int) -> bool {
    PROGRAM_OFFSET as int <= address < MEMORY_LENGTH as int
}

/// The memory image. Reads are policed by `readable`; writes are unchecked
/// pass-through to the backing array.
pub struct Memory {
    memory: [u8; 0xfff],
}

impl View for Memory {
    type V = Seq<u8>;

    closed spec fn view(&self) -> Seq<u8> {
        self.memory@
    }
}

impl Memory {
    /// A fresh, zero-filled memory image.
    pub fn new() -> (r: Self)
        ensures
            r@.len() == MEMORY_LENGTH as int,
            forall|a: int| 0 <= a < MEMORY_LENGTH as int ==> r@[a] == 0u8,
    {
        Self { memory: [0u8; 0xfff] }
    }

    /// The byte stored at the given address. Reads of the reserved regions
    /// below the program origin, and of addresses past the end of the image,
    /// are ruled out by contract.
    pub fn read(&self, address: u16) -> (b: u8)
        requires
            readable(address as int),
        ensures
            b == self@[address as int],
    {
        self.memory[address as usize]
    }

    /// Store a byte at the given address. No access policy applies to
    /// writes beyond the bound of the image itself.
    pub fn write(&mut self, address: u16, value: u8)
        requires
            (address as int) < MEMORY_LENGTH as int,
        ensures
            final(self)@ == old(self)@.update(address as int, value),
    {
        self.memory[address as usize] = value;
    }

    /// Copy a program image into memory, byte by byte, starting at `origin`.
    pub fn load(&mut self, origin: u16, image: &[u8])
        requires
            origin as int + image@.len() <= MEMORY_LENGTH as int,
        ensures
            final(self)@.len() == old(self)@.len(),
            forall|a: int|
                origin as int <= a < origin as int + image@.len() ==> final(self)@[a] == image@[a
                    - origin as int],
            forall|a: int|
                0 <= a < MEMORY_LENGTH as int && !(origin as int <= a < origin as int
                    + image@.len()) ==> final(self)@[a] == old(self)@[a],
    {
        let mut k: usize = 0;
        while k < image.len()
            invariant
                origin as int + image@.len() <= MEMORY_LENGTH as int,
                k <= image@.len(),
                self@.len() == old(self)@.len(),
                forall|a: int|
                    origin as int <= a < origin as int + k ==> self@[a] == image@[a
                        - origin as int],
                forall|a: int|
                    0 <= a < MEMORY_LENGTH as int && !(origin as int <= a < origin as int + k)
                        ==> self@[a] == old(self)@[a],
            decreases image@.len() - k,
        {
            self.write(origin + k as u16, image[k]);
            k = k + 1;
        }
    }
}

} // verus!
