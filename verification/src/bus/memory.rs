use vstd::prelude::*;

verus! {

/// Chip-8 RAM: 4096 contiguous bytes, zero-initialized.
pub struct Memory([u8; 4096]);

impl Memory {
    /// Size of the address space in bytes.
    pub const SIZE: usize = 0x1000;
}

impl View for Memory {
    type V = Seq<u8>;

    closed spec fn view(&self) -> Seq<u8> {
        self.0@
    }
}

impl Default for Memory {
    /// A fresh memory holds 4096 zero bytes.
    fn default() -> (r: Self)
        ensures
            r@.len() == 0x1000,
            forall|i: int| 0 <= i < 0x1000 ==> r@[i] == 0u8,
    {
        Memory([0u8; 4096])
    }
}

impl Memory {
    /// Reads the byte at an in-range offset.
    pub fn read(&self, offset: usize) -> (r: u8)
        requires
            offset < 0x1000,
        ensures
            r == self@[offset as int],
    {
        self.0[offset]
    }

    /// Overwrites the byte at an in-range offset.
    pub fn write(&mut self, offset: usize, data: u8)
        requires
            offset < 0x1000,
        ensures
            final(self)@ == old(self)@.update(offset as int, data),
    {
        self.0[offset] = data;
    }
}

} // verus!
