pub mod memory;

use crate::bus::memory::Memory;
use vstd::prelude::*;

verus! {

/// An address reduced to the 12-bit bus width: every access wraps silently
/// modulo 4096 instead of faulting.
pub open spec fn masked(a: u16) -> int {
    a as int % 0x1000
}

/// The byte a memory of 4096 bytes holds at a (masked) address.
pub open spec fn byte_at(mem: Seq<u8>, a: u16) -> u8 {
    mem[masked(a)]
}

/// The big-endian 16-bit word read from a (masked) address and its
/// successor; when the first byte sits at the last valid address, the
/// second wraps around to address 0.
pub open spec fn word_at(mem: Seq<u8>, a: u16) -> u16 {
    (256 * byte_at(mem, a) + byte_at(mem, ((a + 1) % 0x10000) as u16)) as u16
}

/// `read_word` composes two byte reads, at an address and its wrapping
/// successor, into one big-endian word: this restates the definition of
/// `word_at` so the composition is on record.
pub proof fn lemma_read_word_composes(mem: Seq<u8>, a: u16)
    ensures
        word_at(mem, a) == 256 * byte_at(mem, a) + byte_at(
            mem,
            ((a + 1) % 0x10000) as u16,
        ),
{
    assert(256 * byte_at(mem, a) + byte_at(mem, ((a + 1) % 0x10000) as u16) <= 0xFFFF);
}

/// Chip-8 address (12-bit): carries a raw 16-bit value and masks it on use.
#[derive(Clone, Copy)]
pub struct Address(u16);

impl View for Address {
    type V = u16;

    closed spec fn view(&self) -> u16 {
        self.0
    }
}

proof fn lemma_mask_is_mod(a: u16)
    by (bit_vector)
    ensures
        (a & 0xFFF) as int == a as int % 0x1000,
{
}

impl Address {
    pub fn new(addr: u16) -> (r: Self)
        ensures
            r@ == addr,
    {
        Address(addr)
    }

    /// Masked address for byte accesses.
    pub fn masked_address(&self) -> (r: usize)
        ensures
            r == masked(self@),
            r < 0x1000,
    {
        proof {
            lemma_mask_is_mod(self.0);
        }
        (self.0 & 0xFFF) as usize
    }

    /// Masked next address for word accesses: the successor wraps at the
    /// end of the 16-bit range before masking, which lands it on 0 either
    /// way.
    pub fn masked_next_address(&self) -> (r: usize)
        ensures
            r as int == (self@ + 1) % 0x1000,
            r < 0x1000,
    {
        let next = self.0.wrapping_add(1);
        proof {
            lemma_mask_is_mod(next);
            if self.0 == 0xFFFF {
                assert(next == 0);
            } else {
                assert(next == self.0 + 1);
            }
        }
        (next & 0xFFF) as usize
    }
}

/// Wraps `Memory` behind address masking: all reads and writes land in
/// range whatever 16-bit address arithmetic produced.
pub struct Bus {
    mem: Memory,
}

impl View for Bus {
    type V = Seq<u8>;

    closed spec fn view(&self) -> Seq<u8> {
        self.mem@
    }
}

impl Bus {
    pub fn new(mem: Memory) -> (r: Self)
        ensures
            r@ == mem@,
    {
        Bus { mem }
    }

    pub fn read_byte(&self, addr: Address) -> (r: u8)
        ensures
            r == byte_at(self@, addr@),
    {
        self.mem.read(addr.masked_address())
    }

    pub fn read_word(&self, addr: Address) -> (r: u16)
        ensures
            r == word_at(self@, addr@),
    {
        let hi = self.mem.read(addr.masked_address());
        let lo = self.mem.read(addr.masked_next_address());
        hi as u16 * 256 + lo as u16
    }

    pub fn write_byte(&mut self, addr: Address, data: u8)
        ensures
            final(self)@ == old(self)@.update(masked(addr@), data),
    {
        let offset = addr.masked_address();
        self.mem.write(offset, data);
    }
}

} // verus!
