//! A verified interpreter core for the Chip-8 virtual machine: a flat
//! 4096-byte memory behind an address-masking bus, sixteen 8-bit registers,
//! a bounded call stack, two countdown timers, a 64x32 monochrome
//! framebuffer and a 16-key keypad, driven one instruction at a time.
//!
//! The host around the core is left to the embedder: it reads the program
//! image from wherever it lives, presents the framebuffer, polls real
//! input, and paces `step` and `tick` calls; the core only consumes plain
//! bytes and key states and produces pixel values and events.

pub mod bus;
pub mod cpu;
pub mod display;
pub mod keypad;

use crate::bus::Bus;
use crate::bus::memory::Memory;
use crate::cpu::{spec_step, Cpu, CpuEvent, CpuFault, CpuV};
use crate::display::Display;
use crate::keypad::Keypad;
use vstd::prelude::*;

verus! {

/// Host-level configuration: where the program image lives. Parsing the
/// command line into it is the host's business.
pub struct Args {
    /// Path to Chip-8 ROM
    pub rom_path: String,
}

/// The canonical 80-byte font: 16 glyphs of 5 rows each, one row per
/// byte, pixels most-significant-bit-first.
pub open spec fn font_table() -> Seq<u8> {
    seq![
        0xF0u8, 0x90, 0x90, 0x90, 0xF0,
        0x20, 0x60, 0x20, 0x20, 0x70,
        0xF0, 0x10, 0xF0, 0x80, 0xF0,
        0xF0, 0x10, 0xF0, 0x10, 0xF0,
        0x90, 0x90, 0xF0, 0x10, 0x10,
        0xF0, 0x80, 0xF0, 0x10, 0xF0,
        0xF0, 0x80, 0xF0, 0x90, 0xF0,
        0xF0, 0x10, 0x20, 0x40, 0x40,
        0xF0, 0x90, 0xF0, 0x90, 0xF0,
        0xF0, 0x90, 0xF0, 0x10, 0xF0,
        0xF0, 0x90, 0xF0, 0x90, 0x90,
        0xE0, 0x90, 0xE0, 0x90, 0xE0,
        0xF0, 0x80, 0x80, 0x80, 0xF0,
        0xE0, 0x90, 0x90, 0x90, 0xE0,
        0xF0, 0x80, 0xF0, 0x80, 0xF0,
        0xF0, 0x80, 0xF0, 0x80, 0x80,
    ]
}

/// How many program bytes fit: anything past the end of memory is
/// truncated at the destination boundary.
pub open spec fn rom_len(rom: Seq<u8>) -> int {
    if rom.len() <= 0xE00 {
        rom.len() as int
    } else {
        0xE00
    }
}

/// Memory as one loaded program sees it: the font at its conventional
/// offset, the program image verbatim from the program origin on, zero
/// everywhere else.
pub open spec fn loaded_memory(rom: Seq<u8>) -> Seq<u8> {
    Seq::new(
        4096,
        |i: int|
            if 0x50 <= i < 0xA0 {
                font_table()[i - 0x50]
            } else if 0x200 <= i < 0x200 + rom_len(rom) {
                rom[i - 0x200]
            } else {
                0u8
            },
    )
}

/// What the host sees of the whole machine: the CPU-owned state, the
/// framebuffer, and the key states.
pub struct CoreV {
    pub cpu: CpuV,
    pub disp: Seq<u32>,
    pub keys: Seq<bool>,
}

/// One whole machine: the CPU with its bus and memory, the framebuffer,
/// and the keypad, built once around a loaded program image.
pub struct Core {
    cpu: Cpu,
    display: Display,
    keypad: Keypad,
}

impl View for Core {
    type V = CoreV;

    closed spec fn view(&self) -> CoreV {
        CoreV { cpu: self.cpu@, disp: self.display@, keys: self.keypad@ }
    }
}

impl Core {
    /// Where the font table starts.
    pub const SPRITES_START: usize = 0x50;

    /// Where the loaded program image starts, and where execution begins.
    pub const ROM_START: usize = 0x200;

    /// Bytes per font glyph.
    pub const SPRITE_SIZE: usize = 5;

    /// Number of font glyphs.
    pub const NUM_SPRITES: usize = 16;

    /// Bytes of the whole font table.
    pub const SPRITES_SIZE: usize = 80;

    /// Longest program image that fits below the end of memory.
    pub const MAX_ROM_SIZE: usize = 0x1000 - 0x200;

    /// The CPU's opcode table is in place; established at construction and
    /// kept by every operation.
    pub closed spec fn wf(&self) -> bool {
        self.cpu.wf()
    }

    /// Builds the machine around a program image: the font and the image
    /// are laid into a fresh memory (the image truncated to what fits),
    /// the framebuffer starts dark, every key starts released, and
    /// execution will begin at the program origin.
    pub fn new(rom: Vec<u8>) -> (r: Self)
        ensures
            r.wf(),
            r@.cpu.mem == loaded_memory(rom@),
            r@.cpu.pc == 0x200u16,
            r@.cpu.gprs == Seq::new(16, |i: int| 0u8),
            r@.cpu.index == 0u16,
            r@.cpu.dt == 0xFFu8,
            r@.cpu.st == 0xFFu8,
            r@.cpu.stack == Seq::<u16>::empty(),
            r@.disp == Seq::new(2048, |j: int| 0u32),
            r@.keys == Seq::new(16, |k: int| false),
    {
        let sprites: [u8; 80] = [
            0xF0, 0x90, 0x90, 0x90, 0xF0,
            0x20, 0x60, 0x20, 0x20, 0x70,
            0xF0, 0x10, 0xF0, 0x80, 0xF0,
            0xF0, 0x10, 0xF0, 0x10, 0xF0,
            0x90, 0x90, 0xF0, 0x10, 0x10,
            0xF0, 0x80, 0xF0, 0x10, 0xF0,
            0xF0, 0x80, 0xF0, 0x90, 0xF0,
            0xF0, 0x10, 0x20, 0x40, 0x40,
            0xF0, 0x90, 0xF0, 0x90, 0xF0,
            0xF0, 0x90, 0xF0, 0x10, 0xF0,
            0xF0, 0x90, 0xF0, 0x90, 0x90,
            0xE0, 0x90, 0xE0, 0x90, 0xE0,
            0xF0, 0x80, 0x80, 0x80, 0xF0,
            0xE0, 0x90, 0x90, 0x90, 0xE0,
            0xF0, 0x80, 0xF0, 0x80, 0xF0,
            0xF0, 0x80, 0xF0, 0x80, 0x80,
        ];
        proof {
            assert(sprites@ =~= font_table());
        }
        let mut mem = Memory::default();
        let mut i: usize = 0;
        while i < 80
            invariant
                i <= 80,
                sprites@ == font_table(),
                mem@.len() == 0x1000,
                forall|j: int|
                    0x50 <= j < 0x50 + i ==> mem@[j] == font_table()[j - 0x50],
                forall|j: int|
                    0 <= j < 0x1000 && !(0x50 <= j < 0x50 + i) ==> mem@[j] == 0u8,
            decreases 80 - i,
        {
            mem.write(0x50 + i, sprites[i]);
            i = i + 1;
        }
        let len = if rom.len() < 0xE00 {
            rom.len()
        } else {
            0xE00
        };
        let mut k: usize = 0;
        while k < len
            invariant
                k <= len,
                len == rom_len(rom@),
                mem@.len() == 0x1000,
                forall|j: int| 0x50 <= j < 0xA0 ==> mem@[j] == font_table()[j - 0x50],
                forall|j: int|
                    0x200 <= j < 0x200 + k ==> mem@[j] == rom@[j - 0x200],
                forall|j: int|
                    0 <= j < 0x1000 && !(0x50 <= j < 0xA0) && !(0x200 <= j < 0x200 + k)
                        ==> mem@[j] == 0u8,
            decreases len - k,
        {
            mem.write(0x200 + k, rom[k]);
            k = k + 1;
        }
        proof {
            assert(mem@ =~= loaded_memory(rom@));
        }
        let core = Core {
            cpu: Cpu::new(Bus::new(mem)),
            display: Display::default(),
            keypad: Keypad::default(),
        };
        proof {
            assert(core@.disp =~= Seq::new(2048, |j: int| 0u32));
            assert(core@.keys =~= Seq::new(16, |kk: int| false));
        }
        core
    }

    /// Executes one instruction against the machine's own framebuffer and
    /// keypad; see `spec_step` for the whole effect.
    pub fn step(&mut self) -> (r: Result<Option<CpuEvent>, CpuFault>)
        requires
            old(self).wf(),
        ensures
            final(self).wf(),
            final(self)@.cpu == spec_step(old(self)@.cpu, old(self)@.disp, old(self)@.keys).cpu,
            final(self)@.disp == spec_step(old(self)@.cpu, old(self)@.disp, old(self)@.keys).disp,
            r == spec_step(old(self)@.cpu, old(self)@.disp, old(self)@.keys).res,
            final(self)@.keys == old(self)@.keys,
    {
        self.cpu.step(&mut self.display, &self.keypad)
    }

    /// Ticks both countdown timers once, each floored at 0.
    pub fn tick(&mut self)
        requires
            old(self).wf(),
        ensures
            final(self).wf(),
            final(self)@.cpu == (CpuV {
                dt: crate::cpu::spec_tick(old(self)@.cpu.dt),
                st: crate::cpu::spec_tick(old(self)@.cpu.st),
                ..old(self)@.cpu
            }),
            final(self)@.disp == old(self)@.disp,
            final(self)@.keys == old(self)@.keys,
    {
        self.cpu.tick();
    }

    /// Replaces the key state from the physical key positions the host
    /// saw down in its latest poll.
    pub fn update_keys(&mut self, keys: Vec<usize>)
        requires
            old(self).wf(),
        ensures
            final(self).wf(),
            final(self)@.cpu == old(self)@.cpu,
            final(self)@.disp == old(self)@.disp,
            final(self)@.keys.len() == 16,
            forall|j: usize| j < 16 ==> final(self)@.keys[j as int] == keys@.contains(j),
    {
        self.keypad.update_state(keys);
    }

    /// Read-only view of the framebuffer for presentation.
    pub fn display(&self) -> (r: &Display)
        ensures
            r@ == self@.disp,
    {
        &self.display
    }

    /// The CPU, for inspection.
    pub fn cpu(&self) -> (r: &Cpu)
        ensures
            r@ == self@.cpu,
    {
        &self.cpu
    }
}

} // verus!
