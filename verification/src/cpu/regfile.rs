use vstd::prelude::*;

verus! {

/// Number of general-purpose registers.
pub const NUM_GPRS: usize = 16;

/// VF is the flag register: carry, borrow and sprite collision land here.
pub const VF: usize = 15;

/// Chip-8 general-purpose registers V0-VF.
pub struct Gprs([u8; 16]);

impl View for Gprs {
    type V = Seq<u8>;

    closed spec fn view(&self) -> Seq<u8> {
        self.0@
    }
}

impl Default for Gprs {
    /// All registers reset to 0.
    fn default() -> (r: Self)
        ensures
            r@.len() == 16,
            forall|i: int| 0 <= i < 16 ==> r@[i] == 0u8,
    {
        Gprs([0u8; 16])
    }
}

impl Gprs {
    pub fn read(&self, idx: usize) -> (r: u8)
        requires
            idx < 16,
        ensures
            r == self@[idx as int],
    {
        self.0[idx]
    }

    pub fn write(&mut self, idx: usize, data: u8)
        requires
            idx < 16,
        ensures
            final(self)@ == old(self)@.update(idx as int, data),
    {
        self.0[idx] = data;
    }
}

/// 8-bit downcounter.
pub struct Timer(u8);

impl View for Timer {
    type V = u8;

    closed spec fn view(&self) -> u8 {
        self.0
    }
}

impl Default for Timer {
    /// A fresh timer starts at the top of its range.
    fn default() -> (r: Self)
        ensures
            r@ == 0xFFu8,
    {
        Timer(0xFF)
    }
}

impl Timer {
    /// The current counter.
    pub fn counter_value(&self) -> (r: u8)
        ensures
            r == self@,
    {
        self.0
    }

    /// A mutable borrow of the counter itself.
    pub fn counter(&mut self) -> (r: &mut u8)
        ensures
            *r == old(self)@,
            final(self)@ == *final(r),
    {
        &mut self.0
    }

    /// Decrements the counter only if it is not already 0: the counter is
    /// floored at 0 and never wraps around.
    pub fn decrement(&mut self)
        ensures
            final(self)@ == if old(self)@ == 0 {
                0u8
            } else {
                (old(self)@ - 1) as u8
            },
    {
        if self.0 > 0 {
            self.0 = self.0 - 1;
        }
    }
}

/// Chip-8 register file.
pub struct RegFile {
    /// 12-bit program counter (held in 16 bits; masked by the bus at fetch).
    pub pc: u16,
    /// 16 8-bit general purpose registers, V0-VF.
    pub gprs: Gprs,
    /// 16-bit index register.
    pub index: u16,
    /// Delay timer.
    pub delay_timer: Timer,
    /// Sound timer.
    pub sound_timer: Timer,
}

impl RegFile {
    /// Moves the program counter to the next instruction word, wrapping at
    /// the end of the 16-bit range.
    pub fn advance_pc(&mut self)
        ensures
            final(self).pc as int == (old(self).pc + 2) % 0x10000,
            final(self).gprs == old(self).gprs,
            final(self).index == old(self).index,
            final(self).delay_timer == old(self).delay_timer,
            final(self).sound_timer == old(self).sound_timer,
    {
        self.pc = self.pc.wrapping_add(2);
    }

    /// Moves the program counter back one instruction word, wrapping at the
    /// start of the 16-bit range.
    pub fn rewind_pc(&mut self)
        ensures
            final(self).pc as int == (old(self).pc - 2) % 0x10000,
            final(self).gprs == old(self).gprs,
            final(self).index == old(self).index,
            final(self).delay_timer == old(self).delay_timer,
            final(self).sound_timer == old(self).sound_timer,
    {
        self.pc = self.pc.wrapping_sub(2);
    }
}

impl Default for RegFile {
    /// Register file reset values: execution starts at the conventional
    /// program origin with cleared registers and both timers at their
    /// reset value.
    fn default() -> (r: Self)
        ensures
            r.pc == 0x200u16,
            r.gprs@.len() == 16,
            forall|i: int| 0 <= i < 16 ==> r.gprs@[i] == 0u8,
            r.index == 0u16,
            r.delay_timer@ == 0xFFu8,
            r.sound_timer@ == 0xFFu8,
    {
        RegFile {
            pc: 0x200,
            gprs: Gprs::default(),
            index: 0,
            delay_timer: Timer::default(),
            sound_timer: Timer::default(),
        }
    }
}

} // verus!
