use vstd::prelude::*;

verus! {

/// Register index in bits 8-11 of a raw instruction.
pub open spec fn op_x(raw: u16) -> int {
    raw as int / 0x100 % 0x10
}

/// Register index in bits 4-7 of a raw instruction.
pub open spec fn op_y(raw: u16) -> int {
    raw as int / 0x10 % 0x10
}

/// Small immediate/count in bits 0-3 of a raw instruction.
pub open spec fn op_n(raw: u16) -> int {
    raw as int % 0x10
}

/// Byte immediate in bits 0-7 of a raw instruction.
pub open spec fn op_kk(raw: u16) -> u8 {
    (raw as int % 0x100) as u8
}

/// Address immediate in bits 0-11 of a raw instruction.
pub open spec fn op_nnn(raw: u16) -> u16 {
    (raw as int % 0x1000) as u16
}

/// One fetched 16-bit instruction; the accessors are pure views of its
/// nibble-aligned sub-fields.
#[derive(Clone, Copy)]
pub struct Opcode(u16);

impl View for Opcode {
    type V = u16;

    closed spec fn view(&self) -> u16 {
        self.0
    }
}

impl Opcode {
    pub fn new(opcode: u16) -> (r: Self)
        ensures
            r@ == opcode,
    {
        Opcode(opcode)
    }

    pub fn raw(&self) -> (r: u16)
        ensures
            r == self@,
    {
        self.0
    }

    pub fn kk(&self) -> (r: u8)
        ensures
            r == op_kk(self@),
    {
        let raw = self.0;
        proof {
            assert((raw & 0xFF) as int == raw as int % 0x100) by (bit_vector);
        }
        (raw & 0xFF) as u8
    }

    pub fn n(&self) -> (r: usize)
        ensures
            r == op_n(self@),
            r < 0x10,
    {
        let raw = self.0;
        proof {
            assert((raw & 0xF) as int == raw as int % 0x10) by (bit_vector);
        }
        (raw & 0xF) as usize
    }

    pub fn nnn(&self) -> (r: u16)
        ensures
            r == op_nnn(self@),
            r < 0x1000,
    {
        let raw = self.0;
        proof {
            assert((raw & 0xFFF) as int == raw as int % 0x1000) by (bit_vector);
        }
        raw & 0xFFF
    }

    pub fn x(&self) -> (r: usize)
        ensures
            r == op_x(self@),
            r < 0x10,
    {
        let raw = self.0;
        proof {
            assert(((raw >> 8) & 0xF) as int == raw as int / 0x100 % 0x10) by (bit_vector);
        }
        ((raw >> 8) & 0xF) as usize
    }

    pub fn y(&self) -> (r: usize)
        ensures
            r == op_y(self@),
            r < 0x10,
    {
        let raw = self.0;
        proof {
            assert(((raw >> 4) & 0xF) as int == raw as int / 0x10 % 0x10) by (bit_vector);
        }
        ((raw >> 4) & 0xF) as usize
    }
}

} // verus!
