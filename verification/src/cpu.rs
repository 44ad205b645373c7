pub mod opcode;
pub mod regfile;

use crate::bus::{byte_at, masked, word_at, Address, Bus};
use crate::cpu::opcode::{op_kk, op_n, op_nnn, op_x, op_y, Opcode};
use crate::cpu::regfile::{RegFile, VF};
use crate::display::Display;
use crate::keypad::{pressed, spec_any_key, Keypad};
use vstd::prelude::*;

verus! {

broadcast use crate::display::lemma_display_len;

/// What a `step` asks of the host: flush the frame after a sprite draw, or
/// stop stepping until a key is down.
#[derive(Clone, Copy, Debug, PartialEq, Eq, Structural)]
pub enum CpuEvent {
    Draw,
    WaitForKey,
}

/// A fatal condition: a malformed program cannot be meaningfully
/// continued, and `step` surfaces the reason to the host.
#[derive(Clone, Copy, Debug, PartialEq, Eq, Structural)]
pub enum CpuFault {
    /// Dispatch found no entry matching this raw instruction.
    UnimplementedOpcode(u16),
    /// A 17th return address was pushed.
    StackOverflow,
    /// A return executed with no call outstanding.
    StackUnderflow,
}

/// Identifies the handler an opcode table entry dispatches to.
#[derive(Clone, Copy, Debug, PartialEq, Eq, Structural)]
pub enum OpcodeKind {
    Cls,
    Ret,
    Jp,
    Call,
    SeImm,
    SneImm,
    SeReg,
    LdvImm,
    AddImm,
    LdvReg,
    Or,
    And,
    Xor,
    AddReg,
    Sub,
    Shr,
    Subn,
    Shl,
    SneReg,
    LdiImm,
    JpIdx,
    Drw,
    Skp,
    Sknp,
    LdvDt,
    LdvKey,
    Lddt,
    Addi,
    Ldb,
    LdiMem,
    LdvMem,
    /// The fallback when no entry matches.
    Dummy,
}

/// Opcode descriptor: an instruction belongs to this entry when masking it
/// with `mask` leaves exactly `pattern`.
#[derive(Clone, Copy, Debug, PartialEq, Eq, Structural)]
pub struct OpcodeDesc {
    pub pattern: u16,
    pub mask: u16,
    pub kind: OpcodeKind,
}

/// Whether a raw instruction belongs to an opcode table entry.
pub open spec fn matches_desc(desc: OpcodeDesc, raw: u16) -> bool {
    raw & desc.mask == desc.pattern
}

/// First-match-wins resolution of a raw instruction against an ordered
/// opcode table; no match resolves to the fatal fallback.
pub open spec fn spec_match(descs: Seq<OpcodeDesc>, raw: u16) -> OpcodeKind
    decreases descs.len(),
{
    if descs.len() == 0 {
        OpcodeKind::Dummy
    } else if matches_desc(descs[0], raw) {
        descs[0].kind
    } else {
        spec_match(descs.drop_first(), raw)
    }
}

/// An instruction matching no entry of the table resolves to the fatal
/// fallback.
pub proof fn lemma_match_none(descs: Seq<OpcodeDesc>, raw: u16)
    requires
        forall|j: int| 0 <= j < descs.len() ==> !matches_desc(descs[j], raw),
    ensures
        spec_match(descs, raw) == OpcodeKind::Dummy,
    decreases descs.len(),
{
    if descs.len() > 0 {
        lemma_match_none(descs.drop_first(), raw);
    }
}

/// An instruction matching an entry, and no earlier entry, resolves to
/// that entry's handler: first match wins.
pub proof fn lemma_match_first(descs: Seq<OpcodeDesc>, raw: u16, i: int)
    requires
        0 <= i < descs.len(),
        matches_desc(descs[i], raw),
        forall|j: int| 0 <= j < i ==> !matches_desc(descs[j], raw),
    ensures
        spec_match(descs, raw) == descs[i].kind,
    decreases i,
{
    if i > 0 {
        lemma_match_first(descs.drop_first(), raw, i - 1);
    }
}

/// Ordered list of opcode descriptors; dispatch takes the first whose
/// pattern the instruction matches under the entry's mask.
pub struct OpcodeMatcher {
    registered_opcodes: Vec<OpcodeDesc>,
}

impl View for OpcodeMatcher {
    type V = Seq<OpcodeDesc>;

    closed spec fn view(&self) -> Seq<OpcodeDesc> {
        self.registered_opcodes@
    }
}

impl Default for OpcodeMatcher {
    fn default() -> (r: Self)
        ensures
            r@ == Seq::<OpcodeDesc>::empty(),
    {
        OpcodeMatcher { registered_opcodes: Vec::new() }
    }
}

impl OpcodeMatcher {
    /// Appends a descriptor; earlier registrations take precedence at
    /// dispatch.
    pub fn register(&mut self, desc: OpcodeDesc)
        ensures
            final(self)@ == old(self)@.push(desc),
    {
        self.registered_opcodes.push(desc);
    }

    /// Matches an instruction against the registered descriptors, in
    /// registration order, and returns the first matching entry's handler
    /// identifier, or the fatal fallback when none matches.
    pub fn match_opcode(&self, opcode: u16) -> (r: OpcodeKind)
        ensures
            r == spec_match(self@, opcode),
    {
        let len = self.registered_opcodes.len();
        let mut i: usize = 0;
        while i < len
            invariant
                0 <= i <= len,
                len == self@.len(),
                forall|j: int| 0 <= j < i ==> !matches_desc(self@[j], opcode),
            decreases len - i,
        {
            let desc = self.registered_opcodes[i];
            if opcode & desc.mask == desc.pattern {
                proof {
                    lemma_match_first(self@, opcode, i as int);
                }
                return desc.kind;
            }
            i = i + 1;
        }
        proof {
            lemma_match_none(self@, opcode);
        }
        OpcodeKind::Dummy
    }
}

/// Bounded LIFO of return addresses. Exceeding the depth, or popping with
/// nothing outstanding, marks a malformed program and is reported as a
/// fault, never wrapped or truncated silently.
pub struct Stack {
    stack: Vec<u16>,
}

impl Stack {
    /// Greatest number of outstanding return addresses.
    pub const MAX_DEPTH: usize = 16;
}

impl View for Stack {
    type V = Seq<u16>;

    closed spec fn view(&self) -> Seq<u16> {
        self.stack@
    }
}

impl Default for Stack {
    fn default() -> (r: Self)
        ensures
            r@ == Seq::<u16>::empty(),
    {
        Stack { stack: Vec::new() }
    }
}

impl Stack {
    /// Removes and returns the most recent address; underflow is fatal.
    pub fn pop(&mut self) -> (r: Result<u16, CpuFault>)
        ensures
            old(self)@.len() > 0 ==> r == Ok::<u16, CpuFault>(old(self)@.last())
                && final(self)@ == old(self)@.drop_last(),
            old(self)@.len() == 0 ==> r == Err::<u16, CpuFault>(CpuFault::StackUnderflow)
                && final(self)@ == old(self)@,
    {
        if self.stack.len() > 0 {
            match self.stack.pop() {
                Some(data) => Ok(data),
                None => Err(CpuFault::StackUnderflow),
            }
        } else {
            Err(CpuFault::StackUnderflow)
        }
    }

    /// Appends a return address; a 17th outstanding address is fatal.
    pub fn push(&mut self, data: u16) -> (r: Result<(), CpuFault>)
        ensures
            old(self)@.len() < 16 ==> r == Ok::<(), CpuFault>(())
                && final(self)@ == old(self)@.push(data),
            old(self)@.len() >= 16 ==> r == Err::<(), CpuFault>(CpuFault::StackOverflow)
                && final(self)@ == old(self)@,
    {
        if self.stack.len() < Self::MAX_DEPTH {
            self.stack.push(data);
            Ok(())
        } else {
            Err(CpuFault::StackOverflow)
        }
    }
}

/// 16-bit wrapping addition, as address and index arithmetic performs it.
pub open spec fn add16(a: u16, b: u16) -> u16 {
    ((a + b) % 0x10000) as u16
}

/// 16-bit wrapping subtraction.
pub open spec fn sub16(a: u16, b: u16) -> u16 {
    ((a - b) % 0x10000) as u16
}

/// 0 or 1, as stored into the flag register VF.
pub open spec fn flag_val(b: bool) -> u8 {
    if b {
        1u8
    } else {
        0u8
    }
}

/// A countdown timer one tick later: floored at 0, never wrapping.
pub open spec fn spec_tick(v: u8) -> u8 {
    if v == 0 {
        0u8
    } else {
        (v - 1) as u8
    }
}

/// The whole machine state a `step` acts on, apart from the framebuffer
/// and keypad, which the host owns and hands in per call.
pub struct CpuV {
    pub mem: Seq<u8>,
    pub pc: u16,
    pub gprs: Seq<u8>,
    pub index: u16,
    pub dt: u8,
    pub st: u8,
    pub stack: Seq<u16>,
}

/// The program counter moved past one instruction word.
pub open spec fn advanced(pre: CpuV) -> CpuV {
    CpuV { pc: add16(pre.pc, 2), ..pre }
}

/// The next instruction skipped when the condition holds.
pub open spec fn spec_skip_if(pre: CpuV, condition: bool) -> CpuV {
    if condition {
        advanced(pre)
    } else {
        pre
    }
}

/// The opcode table the CPU registers, in registration order.
pub open spec fn standard_table() -> Seq<OpcodeDesc> {
    seq![
        OpcodeDesc { pattern: 0x00E0, mask: 0xFFFF, kind: OpcodeKind::Cls },
        OpcodeDesc { pattern: 0x00EE, mask: 0xFFFF, kind: OpcodeKind::Ret },
        OpcodeDesc { pattern: 0x1000, mask: 0xF000, kind: OpcodeKind::Jp },
        OpcodeDesc { pattern: 0x2000, mask: 0xF000, kind: OpcodeKind::Call },
        OpcodeDesc { pattern: 0x3000, mask: 0xF000, kind: OpcodeKind::SeImm },
        OpcodeDesc { pattern: 0x4000, mask: 0xF000, kind: OpcodeKind::SneImm },
        OpcodeDesc { pattern: 0x5000, mask: 0xF00F, kind: OpcodeKind::SeReg },
        OpcodeDesc { pattern: 0x6000, mask: 0xF000, kind: OpcodeKind::LdvImm },
        OpcodeDesc { pattern: 0x7000, mask: 0xF000, kind: OpcodeKind::AddImm },
        OpcodeDesc { pattern: 0x8000, mask: 0xF00F, kind: OpcodeKind::LdvReg },
        OpcodeDesc { pattern: 0x8001, mask: 0xF00F, kind: OpcodeKind::Or },
        OpcodeDesc { pattern: 0x8002, mask: 0xF00F, kind: OpcodeKind::And },
        OpcodeDesc { pattern: 0x8003, mask: 0xF00F, kind: OpcodeKind::Xor },
        OpcodeDesc { pattern: 0x8004, mask: 0xF00F, kind: OpcodeKind::AddReg },
        OpcodeDesc { pattern: 0x8005, mask: 0xF00F, kind: OpcodeKind::Sub },
        OpcodeDesc { pattern: 0x8006, mask: 0xF00F, kind: OpcodeKind::Shr },
        OpcodeDesc { pattern: 0x8007, mask: 0xF00F, kind: OpcodeKind::Subn },
        OpcodeDesc { pattern: 0x800E, mask: 0xF00F, kind: OpcodeKind::Shl },
        OpcodeDesc { pattern: 0x9000, mask: 0xF00F, kind: OpcodeKind::SneReg },
        OpcodeDesc { pattern: 0xA000, mask: 0xF000, kind: OpcodeKind::LdiImm },
        OpcodeDesc { pattern: 0xB000, mask: 0xF000, kind: OpcodeKind::JpIdx },
        OpcodeDesc { pattern: 0xD000, mask: 0xF000, kind: OpcodeKind::Drw },
        OpcodeDesc { pattern: 0xE09E, mask: 0xF0FF, kind: OpcodeKind::Skp },
        OpcodeDesc { pattern: 0xE0A1, mask: 0xF0FF, kind: OpcodeKind::Sknp },
        OpcodeDesc { pattern: 0xF007, mask: 0xF0FF, kind: OpcodeKind::LdvDt },
        OpcodeDesc { pattern: 0xF00A, mask: 0xF0FF, kind: OpcodeKind::LdvKey },
        OpcodeDesc { pattern: 0xF015, mask: 0xF0FF, kind: OpcodeKind::Lddt },
        OpcodeDesc { pattern: 0xF01E, mask: 0xF0FF, kind: OpcodeKind::Addi },
        OpcodeDesc { pattern: 0xF033, mask: 0xF0FF, kind: OpcodeKind::Ldb },
        OpcodeDesc { pattern: 0xF055, mask: 0xF0FF, kind: OpcodeKind::LdiMem },
        OpcodeDesc { pattern: 0xF065, mask: 0xF0FF, kind: OpcodeKind::LdvMem },
    ]
}

// --- Per-instruction transition functions

/// `jp nnn`: jump.
pub open spec fn spec_jp(pre: CpuV, raw: u16) -> CpuV {
    CpuV { pc: op_nnn(raw), ..pre }
}

/// `jp_idx nnn`: jump to nnn displaced by V0, with the natural 16-bit
/// wrap; masking to the address space happens later, at fetch.
pub open spec fn spec_jp_idx(pre: CpuV, raw: u16) -> CpuV {
    CpuV { pc: add16(op_nnn(raw), pre.gprs[0] as u16), ..pre }
}

/// `call nnn`: push the already-advanced pc and jump; a full stack is
/// fatal and leaves everything but the pc advance undone.
pub open spec fn spec_call(pre: CpuV, raw: u16) -> (CpuV, Result<Option<CpuEvent>, CpuFault>) {
    if pre.stack.len() < 16 {
        (
            CpuV { pc: op_nnn(raw), stack: pre.stack.push(pre.pc), ..pre },
            Ok(None),
        )
    } else {
        (pre, Err(CpuFault::StackOverflow))
    }
}

/// `ret`: pop into the pc; an empty stack is fatal.
pub open spec fn spec_ret(pre: CpuV) -> (CpuV, Result<Option<CpuEvent>, CpuFault>) {
    if pre.stack.len() > 0 {
        (
            CpuV { pc: pre.stack.last(), stack: pre.stack.drop_last(), ..pre },
            Ok(None),
        )
    } else {
        (pre, Err(CpuFault::StackUnderflow))
    }
}

/// `se Vx,kk`: skip when equal.
pub open spec fn spec_se_imm(pre: CpuV, raw: u16) -> CpuV {
    spec_skip_if(pre, pre.gprs[op_x(raw)] == op_kk(raw))
}

/// `sne Vx,kk`: skip when not equal.
pub open spec fn spec_sne_imm(pre: CpuV, raw: u16) -> CpuV {
    spec_skip_if(pre, pre.gprs[op_x(raw)] != op_kk(raw))
}

/// `se Vx,Vy`: skip when equal.
pub open spec fn spec_se_reg(pre: CpuV, raw: u16) -> CpuV {
    spec_skip_if(pre, pre.gprs[op_x(raw)] == pre.gprs[op_y(raw)])
}

/// `sne Vx,Vy`: skip when not equal.
pub open spec fn spec_sne_reg(pre: CpuV, raw: u16) -> CpuV {
    spec_skip_if(pre, pre.gprs[op_x(raw)] != pre.gprs[op_y(raw)])
}

/// `ldv Vx,kk`: load immediate.
pub open spec fn spec_ldv_imm(pre: CpuV, raw: u16) -> CpuV {
    CpuV { gprs: pre.gprs.update(op_x(raw), op_kk(raw)), ..pre }
}

/// `ldv Vx,Vy`: copy register.
pub open spec fn spec_ldv_reg(pre: CpuV, raw: u16) -> CpuV {
    CpuV { gprs: pre.gprs.update(op_x(raw), pre.gprs[op_y(raw)]), ..pre }
}

/// `add Vx,kk`: 8-bit wrapping add of an immediate; no flag.
pub open spec fn spec_add_imm(pre: CpuV, raw: u16) -> CpuV {
    let x = op_x(raw);
    CpuV {
        gprs: pre.gprs.update(x, ((pre.gprs[x] + op_kk(raw)) % 0x100) as u8),
        ..pre
    }
}

/// `add Vx,Vy`: 8-bit wrapping add; VF = 1 exactly when the addition
/// overflowed.
pub open spec fn spec_add_reg(pre: CpuV, raw: u16) -> CpuV {
    let x = op_x(raw);
    let y = op_y(raw);
    let sum = pre.gprs[x] + pre.gprs[y];
    CpuV {
        gprs: pre.gprs.update(x, (sum % 0x100) as u8).update(15, flag_val(sum > 0xFF)),
        ..pre
    }
}

/// `or Vx,Vy`: no flag.
pub open spec fn spec_or(pre: CpuV, raw: u16) -> CpuV {
    let x = op_x(raw);
    CpuV { gprs: pre.gprs.update(x, pre.gprs[x] | pre.gprs[op_y(raw)]), ..pre }
}

/// `and Vx,Vy`: no flag.
pub open spec fn spec_and(pre: CpuV, raw: u16) -> CpuV {
    let x = op_x(raw);
    CpuV { gprs: pre.gprs.update(x, pre.gprs[x] & pre.gprs[op_y(raw)]), ..pre }
}

/// `xor Vx,Vy`: no flag.
pub open spec fn spec_xor(pre: CpuV, raw: u16) -> CpuV {
    let x = op_x(raw);
    CpuV { gprs: pre.gprs.update(x, pre.gprs[x] ^ pre.gprs[op_y(raw)]), ..pre }
}

/// `sub Vx,Vy`: 8-bit wrapping subtract; VF = 1 exactly when no borrow
/// occurred, that is when Vx >= Vy.
pub open spec fn spec_sub(pre: CpuV, raw: u16) -> CpuV {
    let x = op_x(raw);
    let y = op_y(raw);
    CpuV {
        gprs: pre.gprs.update(x, ((pre.gprs[x] - pre.gprs[y]) % 0x100) as u8).update(
            15,
            flag_val(pre.gprs[x] >= pre.gprs[y]),
        ),
        ..pre
    }
}

/// `subn Vx,Vy`: Vy - Vx with the same not-borrow flag convention.
pub open spec fn spec_subn(pre: CpuV, raw: u16) -> CpuV {
    let x = op_x(raw);
    let y = op_y(raw);
    CpuV {
        gprs: pre.gprs.update(x, ((pre.gprs[y] - pre.gprs[x]) % 0x100) as u8).update(
            15,
            flag_val(pre.gprs[y] >= pre.gprs[x]),
        ),
        ..pre
    }
}

/// `shr Vx`: shift right by 1; VF = the bit shifted out at the bottom.
pub open spec fn spec_shr(pre: CpuV, raw: u16) -> CpuV {
    let x = op_x(raw);
    CpuV {
        gprs: pre.gprs.update(x, (pre.gprs[x] / 2) as u8).update(
            15,
            flag_val(pre.gprs[x] % 2 == 1),
        ),
        ..pre
    }
}

/// `shl Vx`: shift left by 1 with 8-bit truncation; VF = the bit shifted
/// out at the top.
pub open spec fn spec_shl(pre: CpuV, raw: u16) -> CpuV {
    let x = op_x(raw);
    CpuV {
        gprs: pre.gprs.update(x, ((pre.gprs[x] * 2) % 0x100) as u8).update(
            15,
            flag_val(pre.gprs[x] >= 0x80),
        ),
        ..pre
    }
}

/// `ldi nnn`: load the index register.
pub open spec fn spec_ldi_imm(pre: CpuV, raw: u16) -> CpuV {
    CpuV { index: op_nnn(raw), ..pre }
}

/// `addi`: index += Vx, with the natural 16-bit wrap.
pub open spec fn spec_addi(pre: CpuV, raw: u16) -> CpuV {
    CpuV { index: add16(pre.index, pre.gprs[op_x(raw)] as u16), ..pre }
}

/// `lddt`: delay timer = Vx.
pub open spec fn spec_lddt(pre: CpuV, raw: u16) -> CpuV {
    CpuV { dt: pre.gprs[op_x(raw)], ..pre }
}

/// `ldv_dt`: Vx = delay timer.
pub open spec fn spec_ldv_dt(pre: CpuV, raw: u16) -> CpuV {
    CpuV { gprs: pre.gprs.update(op_x(raw), pre.dt), ..pre }
}

/// `skp`: skip when the key numbered by Vx's low nibble is down.
pub open spec fn spec_skp(pre: CpuV, raw: u16, keys: Seq<bool>) -> CpuV {
    spec_skip_if(pre, pressed(keys, pre.gprs[op_x(raw)] as int % 16))
}

/// `sknp`: skip when that key is not down.
pub open spec fn spec_sknp(pre: CpuV, raw: u16, keys: Seq<bool>) -> CpuV {
    spec_skip_if(pre, !pressed(keys, pre.gprs[op_x(raw)] as int % 16))
}

/// `ldv_key`: when some key is down, Vx receives the first pressed key in
/// physical order; otherwise the pc is rewound onto this same instruction
/// and the host is told to wait for a key.
pub open spec fn spec_ldv_key(pre: CpuV, raw: u16, keys: Seq<bool>) -> (
    CpuV,
    Result<Option<CpuEvent>, CpuFault>,
) {
    match spec_any_key(keys, 0) {
        Some(key) => (
            CpuV { gprs: pre.gprs.update(op_x(raw), key), ..pre },
            Ok(None),
        ),
        None => (
            CpuV { pc: sub16(pre.pc, 2), ..pre },
            Ok(Some(CpuEvent::WaitForKey)),
        ),
    }
}

/// `ldb`: the three decimal digits of Vx stored at index, index+1,
/// index+2, each address masked on use.
pub open spec fn spec_ldb(pre: CpuV, raw: u16) -> CpuV {
    let vx = pre.gprs[op_x(raw)];
    CpuV {
        mem: pre.mem.update(masked(pre.index), (vx / 100) as u8).update(
            masked(add16(pre.index, 1)),
            ((vx / 10) % 10) as u8,
        ).update(masked(add16(pre.index, 2)), (vx % 10) as u8),
        ..pre
    }
}

/// Memory after the first `count` registers are stored in order at
/// consecutive (masked) addresses from `index` on.
pub open spec fn spec_store_regs(mem: Seq<u8>, gprs: Seq<u8>, index: u16, count: int) -> Seq<u8>
    decreases count,
{
    if count <= 0 {
        mem
    } else {
        spec_store_regs(mem, gprs, index, count - 1).update(
            masked(add16(index, (count - 1) as u16)),
            gprs[count - 1],
        )
    }
}

/// Registers after the first `count` of them are loaded in order from
/// consecutive (masked) addresses from `index` on.
pub open spec fn spec_load_regs(gprs: Seq<u8>, mem: Seq<u8>, index: u16, count: int) -> Seq<u8>
    decreases count,
{
    if count <= 0 {
        gprs
    } else {
        spec_load_regs(gprs, mem, index, count - 1).update(
            count - 1,
            byte_at(mem, add16(index, (count - 1) as u16)),
        )
    }
}

/// `ldi_mem`: V0..=Vx stored to memory at the index register on.
pub open spec fn spec_ldi_mem(pre: CpuV, raw: u16) -> CpuV {
    CpuV { mem: spec_store_regs(pre.mem, pre.gprs, pre.index, op_x(raw) + 1), ..pre }
}

/// `ldv_mem`: V0..=Vx loaded from memory at the index register on.
pub open spec fn spec_ldv_mem(pre: CpuV, raw: u16) -> CpuV {
    CpuV { gprs: spec_load_regs(pre.gprs, pre.mem, pre.index, op_x(raw) + 1), ..pre }
}

// --- Sprite drawing

/// Bit `i` of a sprite row byte, most-significant-bit-first: bit 0 is the
/// leftmost pixel of the row.
pub open spec fn row_bit(byte: u8, i: int) -> bool {
    byte >> ((7 - i) as u8) & 1 == 1
}

/// Whether the sprite being drawn has pixel `(r, i)` set: bit `i` of the
/// `r`-th byte from the index register on, addresses masked on read.
pub open spec fn sprite_bit(mem: Seq<u8>, index: u16, r: int, i: int) -> bool {
    row_bit(byte_at(mem, add16(index, r as u16)), i)
}

/// Row-major framebuffer position that sprite pixel `(r, i)` lands on when
/// drawn at `(x, y)`: both coordinates wrap around the screen edges.
pub open spec fn pixel_pos(x: int, y: int, r: int, i: int) -> int {
    64 * ((y + r) % 32) + ((x + i) % 64)
}

/// The sprite row that covers framebuffer position `j` when drawing at
/// vertical origin `y`: the inverse of the row part of `pixel_pos`.
pub open spec fn sprite_row_of(j: int, y: int) -> int {
    (j / 64 - y % 32 + 32) % 32
}

/// The sprite column that covers framebuffer position `j` when drawing at
/// horizontal origin `x`: the inverse of the column part of `pixel_pos`.
pub open spec fn sprite_col_of(j: int, x: int) -> int {
    (j % 64 - x % 64 + 64) % 64
}

/// Decoding the position a sprite pixel was encoded to recovers that
/// sprite pixel: the sprite's footprint never overlaps itself.
pub proof fn lemma_pos_decode(x: int, y: int, r: int, i: int)
    requires
        0 <= r < 32,
        0 <= i < 64,
        0 <= x,
        0 <= y,
    ensures
        0 <= pixel_pos(x, y, r, i) < 2048,
        sprite_row_of(pixel_pos(x, y, r, i), y) == r,
        sprite_col_of(pixel_pos(x, y, r, i), x) == i,
{
    let pr = (y + r) % 32;
    let pi = (x + i) % 64;
    let j = pixel_pos(x, y, r, i);
    assert(0 <= pr < 32 && 0 <= pi < 64) by (nonlinear_arith)
        requires
            pr == (y + r) % 32 && pi == (x + i) % 64 && 0 <= y + r && 0 <= x + i,
    ;
    assert(j / 64 == pr && j % 64 == pi) by (nonlinear_arith)
        requires
            j == 64 * pr + pi && 0 <= pi < 64 && 0 <= pr,
    ;
    let a = y % 32;
    assert(0 <= a < 32) by (nonlinear_arith)
        requires
            a == y % 32 && 0 <= y,
    ;
    assert(pr == (a + r) % 32) by (nonlinear_arith)
        requires
            pr == (y + r) % 32 && a == y % 32 && 0 <= y && 0 <= r,
    ;
    assert((a + r) % 32 == if a + r < 32 {
        a + r
    } else {
        a + r - 32
    }) by (nonlinear_arith)
        requires
            0 <= a < 32 && 0 <= r < 32,
    ;
    assert((pr - a + 32) % 32 == r) by (nonlinear_arith)
        requires
            0 <= r < 32 && (pr - a + 32 == r || pr - a + 32 == r + 32),
    ;
    let b = x % 64;
    assert(0 <= b < 64) by (nonlinear_arith)
        requires
            b == x % 64 && 0 <= x,
    ;
    assert(pi == (b + i) % 64) by (nonlinear_arith)
        requires
            pi == (x + i) % 64 && b == x % 64 && 0 <= x && 0 <= i,
    ;
    assert((b + i) % 64 == if b + i < 64 {
        b + i
    } else {
        b + i - 64
    }) by (nonlinear_arith)
        requires
            0 <= b < 64 && 0 <= i < 64,
    ;
    assert((pi - b + 64) % 64 == i) by (nonlinear_arith)
        requires
            0 <= i < 64 && (pi - b + 64 == i || pi - b + 64 == i + 64),
    ;
}

/// Every framebuffer position is covered by exactly the sprite pixel its
/// decoding names: encoding the decoded pixel gives the position back.
pub proof fn lemma_pos_encode(x: int, y: int, j: int)
    requires
        0 <= j < 2048,
        0 <= x,
        0 <= y,
    ensures
        0 <= sprite_row_of(j, y) < 32,
        0 <= sprite_col_of(j, x) < 64,
        pixel_pos(x, y, sprite_row_of(j, y), sprite_col_of(j, x)) == j,
{
    let pr = j / 64;
    let pi = j % 64;
    assert(0 <= pr < 32 && 0 <= pi < 64 && j == 64 * pr + pi) by (nonlinear_arith)
        requires
            0 <= j < 2048 && pr == j / 64 && pi == j % 64,
    ;
    let a = y % 32;
    let b = x % 64;
    assert(0 <= a < 32 && 0 <= b < 64) by (nonlinear_arith)
        requires
            a == y % 32 && b == x % 64 && 0 <= x && 0 <= y,
    ;
    let r = (pr - a + 32) % 32;
    let i = (pi - b + 64) % 64;
    assert(r == if pr - a + 32 < 32 {
        pr - a + 32
    } else {
        pr - a
    } && 0 <= r < 32) by (nonlinear_arith)
        requires
            r == (pr - a + 32) % 32 && 0 <= pr < 32 && 0 <= a < 32,
    ;
    assert(i == if pi - b + 64 < 64 {
        pi - b + 64
    } else {
        pi - b
    } && 0 <= i < 64) by (nonlinear_arith)
        requires
            i == (pi - b + 64) % 64 && 0 <= pi < 64 && 0 <= b < 64,
    ;
    assert((y + r) % 32 == (a + r) % 32) by (nonlinear_arith)
        requires
            a == y % 32 && 0 <= y && 0 <= r,
    ;
    assert((a + r) % 32 == pr) by (nonlinear_arith)
        requires
            0 <= pr < 32 && 0 <= a < 32 && (a + r == pr || a + r == pr + 32),
    ;
    assert((x + i) % 64 == (b + i) % 64) by (nonlinear_arith)
        requires
            b == x % 64 && 0 <= x && 0 <= i,
    ;
    assert((b + i) % 64 == pi) by (nonlinear_arith)
        requires
            0 <= pi < 64 && 0 <= b < 64 && (b + i == pi || b + i == pi + 64),
    ;
}

/// One framebuffer pixel after the draw has processed the sprite pixels
/// before `(r_done, i_done)` in row-major order.
pub open spec fn draw_pixel_upto(
    disp: Seq<u32>,
    mem: Seq<u8>,
    index: u16,
    x: int,
    y: int,
    r_done: int,
    i_done: int,
    j: int,
) -> u32 {
    let r = sprite_row_of(j, y);
    let i = sprite_col_of(j, x);
    if i < 8 && (r < r_done || (r == r_done && i < i_done)) && sprite_bit(mem, index, r, i) {
        disp[j] ^ 0xFFFFFFFFu32
    } else {
        disp[j]
    }
}

/// Whether the draw has collided among the sprite pixels before
/// `(r_done, i_done)` in row-major order.
pub open spec fn draw_hit_upto(
    disp: Seq<u32>,
    mem: Seq<u8>,
    index: u16,
    x: int,
    y: int,
    r_done: int,
    i_done: int,
) -> bool {
    exists|r: int, i: int|
        0 <= r && 0 <= i < 8 && (r < r_done || (r == r_done && i < i_done)) && sprite_bit(
            mem,
            index,
            r,
            i,
        ) && disp[pixel_pos(x, y, r, i)] == 0xFFFFFFFFu32
}


/// Masking an instruction keeps its top nibble wherever the entry's mask
/// covers the top nibble, as every standard-table mask does.
proof fn lemma_mask_top(raw: u16, m: u16, p: u16)
    by (bit_vector)
    requires
        raw & m == p,
        m & 0xF000 == 0xF000,
    ensures
        raw & 0xF000 == p & 0xF000,
{
}

/// Dispatch over the standard table is unambiguous: an instruction that
/// matches any entry resolves to exactly that entry's handler, because the
/// standard entries' patterns are pairwise disjoint under their masks.
#[verifier::rlimit(100)]
#[verifier::spinoff_prover]
pub proof fn lemma_standard_dispatch(raw: u16, i: int)
    requires
        0 <= i < standard_table().len(),
        matches_desc(standard_table()[i], raw),
    ensures
        spec_match(standard_table(), raw) == standard_table()[i].kind,
{
    let t = standard_table();
    assert(0xFFFFu16 & 0xF000 == 0xF000 && 0xF000u16 & 0xF000 == 0xF000 && 0xF00Fu16 & 0xF000
        == 0xF000 && 0xF0FFu16 & 0xF000 == 0xF000) by (bit_vector);
    assert(0x00E0u16 & 0xF000 == 0x0000 && 0x00EEu16 & 0xF000 == 0x0000 && 0x1000u16 & 0xF000 == 0x1000 && 0x2000u16 & 0xF000 == 0x2000 && 0x3000u16 & 0xF000 == 0x3000 && 0x4000u16 & 0xF000 == 0x4000 && 0x5000u16 & 0xF000 == 0x5000 && 0x6000u16 & 0xF000 == 0x6000 && 0x7000u16 & 0xF000 == 0x7000 && 0x8000u16 & 0xF000 == 0x8000 && 0x8001u16 & 0xF000 == 0x8000 && 0x8002u16 & 0xF000 == 0x8000 && 0x8003u16 & 0xF000 == 0x8000 && 0x8004u16 & 0xF000 == 0x8000 && 0x8005u16 & 0xF000 == 0x8000 && 0x8006u16 & 0xF000 == 0x8000 && 0x8007u16 & 0xF000 == 0x8000 && 0x800Eu16 & 0xF000 == 0x8000 && 0x9000u16 & 0xF000 == 0x9000 && 0xA000u16 & 0xF000 == 0xA000 && 0xB000u16 & 0xF000 == 0xB000 && 0xD000u16 & 0xF000 == 0xD000 && 0xE09Eu16 & 0xF000 == 0xE000 && 0xE0A1u16 & 0xF000 == 0xE000 && 0xF007u16 & 0xF000 == 0xF000 && 0xF00Au16 & 0xF000 == 0xF000 && 0xF015u16 & 0xF000 == 0xF000 && 0xF01Eu16 & 0xF000 == 0xF000 && 0xF033u16 & 0xF000 == 0xF000 && 0xF055u16 & 0xF000 == 0xF000 && 0xF065u16 & 0xF000 == 0xF000) by (bit_vector);
    assert forall|j: int| 0 <= j < i implies !matches_desc(t[j], raw) by {
        if matches_desc(t[j], raw) {
            lemma_mask_top(raw, t[i].mask, t[i].pattern);
            lemma_mask_top(raw, t[j].mask, t[j].pattern);
        }
    }
    lemma_match_first(t, raw, i);
}

/// The pixel-value identities the blit loop and its laws rest on.
proof fn lemma_pixel_ops(o: u32)
    by (bit_vector)
    ensures
        0xFFFFFFFFu32 & o == o,
        0u32 & o == 0u32,
        o ^ 0u32 == o,
        (o ^ 0xFFFFFFFFu32) ^ 0xFFFFFFFFu32 == o,
        (o ^ 0xFFFFFFFFu32 == 0xFFFFFFFFu32) == (o == 0u32),
{
}

/// One framebuffer pixel after an n-row sprite draw at `(x, y)`: toggled
/// exactly when some set sprite pixel lands on it, untouched otherwise.
pub open spec fn draw_pixel(
    disp: Seq<u32>,
    mem: Seq<u8>,
    index: u16,
    x: int,
    y: int,
    n: int,
    j: int,
) -> u32 {
    let r = sprite_row_of(j, y);
    let i = sprite_col_of(j, x);
    if r < n && i < 8 && sprite_bit(mem, index, r, i) {
        disp[j] ^ 0xFFFFFFFFu32
    } else {
        disp[j]
    }
}

/// The whole framebuffer after an n-row sprite draw at `(x, y)`.
pub open spec fn draw_disp(
    disp: Seq<u32>,
    mem: Seq<u8>,
    index: u16,
    x: int,
    y: int,
    n: int,
) -> Seq<u32> {
    Seq::new(2048, |j: int| draw_pixel(disp, mem, index, x, y, n, j))
}

/// Whether the draw collided: some set sprite pixel landed on a pixel
/// that was already lit before the draw.
pub open spec fn draw_collision(
    disp: Seq<u32>,
    mem: Seq<u8>,
    index: u16,
    x: int,
    y: int,
    n: int,
) -> bool {
    exists|r: int, i: int|
        0 <= r < n && 0 <= i < 8 && sprite_bit(mem, index, r, i) && disp[pixel_pos(
            x,
            y,
            r,
            i,
        )] == 0xFFFFFFFFu32
}

/// `drw Vx,Vy,n`: XOR-blit of the n-row sprite at the index register onto
/// the framebuffer at `(Vx, Vy)`, with coordinate wraparound; VF reports
/// the collision.
pub open spec fn spec_drw(pre: CpuV, raw: u16, disp: Seq<u32>) -> (CpuV, Seq<u32>) {
    let x = pre.gprs[op_x(raw)] as int;
    let y = pre.gprs[op_y(raw)] as int;
    let n = op_n(raw);
    let hit = draw_collision(disp, pre.mem, pre.index, x, y, n);
    (
        CpuV { gprs: pre.gprs.update(15, flag_val(hit)), ..pre },
        draw_disp(disp, pre.mem, pre.index, x, y, n),
    )
}

// --- The step itself

/// Everything one `step` leaves behind: the machine state, the
/// framebuffer, and what the call reported to the host.
pub struct StepOut {
    pub cpu: CpuV,
    pub disp: Seq<u32>,
    pub res: Result<Option<CpuEvent>, CpuFault>,
}

/// One whole fetch-decode-execute step: fetch the word at pc, advance pc
/// past it, resolve the instruction in the standard table, and apply that
/// instruction's transition. This is the reference the executable `step`
/// is held to.
pub open spec fn spec_step(pre: CpuV, disp: Seq<u32>, keys: Seq<bool>) -> StepOut {
    let raw = word_at(pre.mem, pre.pc);
    let m = advanced(pre);
    match spec_match(standard_table(), raw) {
        OpcodeKind::Cls => StepOut {
            cpu: m,
            disp: Seq::new(2048, |j: int| 0u32),
            res: Ok(None),
        },
        OpcodeKind::Ret => StepOut { cpu: spec_ret(m).0, disp, res: spec_ret(m).1 },
        OpcodeKind::Jp => StepOut { cpu: spec_jp(m, raw), disp, res: Ok(None) },
        OpcodeKind::Call => StepOut { cpu: spec_call(m, raw).0, disp, res: spec_call(m, raw).1 },
        OpcodeKind::SeImm => StepOut { cpu: spec_se_imm(m, raw), disp, res: Ok(None) },
        OpcodeKind::SneImm => StepOut { cpu: spec_sne_imm(m, raw), disp, res: Ok(None) },
        OpcodeKind::SeReg => StepOut { cpu: spec_se_reg(m, raw), disp, res: Ok(None) },
        OpcodeKind::LdvImm => StepOut { cpu: spec_ldv_imm(m, raw), disp, res: Ok(None) },
        OpcodeKind::AddImm => StepOut { cpu: spec_add_imm(m, raw), disp, res: Ok(None) },
        OpcodeKind::LdvReg => StepOut { cpu: spec_ldv_reg(m, raw), disp, res: Ok(None) },
        OpcodeKind::Or => StepOut { cpu: spec_or(m, raw), disp, res: Ok(None) },
        OpcodeKind::And => StepOut { cpu: spec_and(m, raw), disp, res: Ok(None) },
        OpcodeKind::Xor => StepOut { cpu: spec_xor(m, raw), disp, res: Ok(None) },
        OpcodeKind::AddReg => StepOut { cpu: spec_add_reg(m, raw), disp, res: Ok(None) },
        OpcodeKind::Sub => StepOut { cpu: spec_sub(m, raw), disp, res: Ok(None) },
        OpcodeKind::Shr => StepOut { cpu: spec_shr(m, raw), disp, res: Ok(None) },
        OpcodeKind::Subn => StepOut { cpu: spec_subn(m, raw), disp, res: Ok(None) },
        OpcodeKind::Shl => StepOut { cpu: spec_shl(m, raw), disp, res: Ok(None) },
        OpcodeKind::SneReg => StepOut { cpu: spec_sne_reg(m, raw), disp, res: Ok(None) },
        OpcodeKind::LdiImm => StepOut { cpu: spec_ldi_imm(m, raw), disp, res: Ok(None) },
        OpcodeKind::JpIdx => StepOut { cpu: spec_jp_idx(m, raw), disp, res: Ok(None) },
        OpcodeKind::Drw => StepOut {
            cpu: spec_drw(m, raw, disp).0,
            disp: spec_drw(m, raw, disp).1,
            res: Ok(Some(CpuEvent::Draw)),
        },
        OpcodeKind::Skp => StepOut { cpu: spec_skp(m, raw, keys), disp, res: Ok(None) },
        OpcodeKind::Sknp => StepOut { cpu: spec_sknp(m, raw, keys), disp, res: Ok(None) },
        OpcodeKind::LdvDt => StepOut { cpu: spec_ldv_dt(m, raw), disp, res: Ok(None) },
        OpcodeKind::LdvKey => StepOut {
            cpu: spec_ldv_key(m, raw, keys).0,
            disp,
            res: spec_ldv_key(m, raw, keys).1,
        },
        OpcodeKind::Lddt => StepOut { cpu: spec_lddt(m, raw), disp, res: Ok(None) },
        OpcodeKind::Addi => StepOut { cpu: spec_addi(m, raw), disp, res: Ok(None) },
        OpcodeKind::Ldb => StepOut { cpu: spec_ldb(m, raw), disp, res: Ok(None) },
        OpcodeKind::LdiMem => StepOut { cpu: spec_ldi_mem(m, raw), disp, res: Ok(None) },
        OpcodeKind::LdvMem => StepOut { cpu: spec_ldv_mem(m, raw), disp, res: Ok(None) },
        OpcodeKind::Dummy => StepOut {
            cpu: m,
            disp,
            res: Err(CpuFault::UnimplementedOpcode(raw)),
        },
    }
}

/// The fetch-decode-execute engine: owns the bus, the register file, the
/// call stack and the opcode table; borrows the framebuffer and keypad
/// from the host for the duration of each step.
pub struct Cpu {
    bus: Bus,
    matcher: OpcodeMatcher,
    regfile: RegFile,
    stack: Stack,
}

impl View for Cpu {
    type V = CpuV;

    closed spec fn view(&self) -> CpuV {
        CpuV {
            mem: self.bus@,
            pc: self.regfile.pc,
            gprs: self.regfile.gprs@,
            index: self.regfile.index,
            dt: self.regfile.delay_timer@,
            st: self.regfile.sound_timer@,
            stack: self.stack@,
        }
    }
}

impl Cpu {
    /// How many instruction steps a host conventionally batches between
    /// presentation frames.
    pub const STEPS: usize = 256;

    /// The opcode table is the standard one; `new` establishes this and
    /// every step keeps it.
    pub closed spec fn wf(&self) -> bool {
        self.matcher@ == standard_table()
    }

    pub fn new(bus: Bus) -> (r: Self)
        ensures
            r.wf(),
            r@.mem == bus@,
            r@.pc == 0x200u16,
            r@.gprs == Seq::new(16, |i: int| 0u8),
            r@.index == 0u16,
            r@.dt == 0xFFu8,
            r@.st == 0xFFu8,
            r@.stack == Seq::<u16>::empty(),
    {
        let mut matcher = OpcodeMatcher::default();
        matcher.register(OpcodeDesc { pattern: 0x00E0, mask: 0xFFFF, kind: OpcodeKind::Cls });
        matcher.register(OpcodeDesc { pattern: 0x00EE, mask: 0xFFFF, kind: OpcodeKind::Ret });
        matcher.register(OpcodeDesc { pattern: 0x1000, mask: 0xF000, kind: OpcodeKind::Jp });
        matcher.register(OpcodeDesc { pattern: 0x2000, mask: 0xF000, kind: OpcodeKind::Call });
        matcher.register(OpcodeDesc { pattern: 0x3000, mask: 0xF000, kind: OpcodeKind::SeImm });
        matcher.register(OpcodeDesc { pattern: 0x4000, mask: 0xF000, kind: OpcodeKind::SneImm });
        matcher.register(OpcodeDesc { pattern: 0x5000, mask: 0xF00F, kind: OpcodeKind::SeReg });
        matcher.register(OpcodeDesc { pattern: 0x6000, mask: 0xF000, kind: OpcodeKind::LdvImm });
        matcher.register(OpcodeDesc { pattern: 0x7000, mask: 0xF000, kind: OpcodeKind::AddImm });
        matcher.register(OpcodeDesc { pattern: 0x8000, mask: 0xF00F, kind: OpcodeKind::LdvReg });
        matcher.register(OpcodeDesc { pattern: 0x8001, mask: 0xF00F, kind: OpcodeKind::Or });
        matcher.register(OpcodeDesc { pattern: 0x8002, mask: 0xF00F, kind: OpcodeKind::And });
        matcher.register(OpcodeDesc { pattern: 0x8003, mask: 0xF00F, kind: OpcodeKind::Xor });
        matcher.register(OpcodeDesc { pattern: 0x8004, mask: 0xF00F, kind: OpcodeKind::AddReg });
        matcher.register(OpcodeDesc { pattern: 0x8005, mask: 0xF00F, kind: OpcodeKind::Sub });
        matcher.register(OpcodeDesc { pattern: 0x8006, mask: 0xF00F, kind: OpcodeKind::Shr });
        matcher.register(OpcodeDesc { pattern: 0x8007, mask: 0xF00F, kind: OpcodeKind::Subn });
        matcher.register(OpcodeDesc { pattern: 0x800E, mask: 0xF00F, kind: OpcodeKind::Shl });
        matcher.register(OpcodeDesc { pattern: 0x9000, mask: 0xF00F, kind: OpcodeKind::SneReg });
        matcher.register(OpcodeDesc { pattern: 0xA000, mask: 0xF000, kind: OpcodeKind::LdiImm });
        matcher.register(OpcodeDesc { pattern: 0xB000, mask: 0xF000, kind: OpcodeKind::JpIdx });
        matcher.register(OpcodeDesc { pattern: 0xD000, mask: 0xF000, kind: OpcodeKind::Drw });
        matcher.register(OpcodeDesc { pattern: 0xE09E, mask: 0xF0FF, kind: OpcodeKind::Skp });
        matcher.register(OpcodeDesc { pattern: 0xE0A1, mask: 0xF0FF, kind: OpcodeKind::Sknp });
        matcher.register(OpcodeDesc { pattern: 0xF007, mask: 0xF0FF, kind: OpcodeKind::LdvDt });
        matcher.register(OpcodeDesc { pattern: 0xF00A, mask: 0xF0FF, kind: OpcodeKind::LdvKey });
        matcher.register(OpcodeDesc { pattern: 0xF015, mask: 0xF0FF, kind: OpcodeKind::Lddt });
        matcher.register(OpcodeDesc { pattern: 0xF01E, mask: 0xF0FF, kind: OpcodeKind::Addi });
        matcher.register(OpcodeDesc { pattern: 0xF033, mask: 0xF0FF, kind: OpcodeKind::Ldb });
        matcher.register(OpcodeDesc { pattern: 0xF055, mask: 0xF0FF, kind: OpcodeKind::LdiMem });
        matcher.register(OpcodeDesc { pattern: 0xF065, mask: 0xF0FF, kind: OpcodeKind::LdvMem });
        proof {
            assert(matcher@ =~= standard_table());
        }
        let cpu = Cpu { bus, matcher, regfile: RegFile::default(), stack: Stack::default() };
        proof {
            assert(cpu@.gprs =~= Seq::new(16, |i: int| 0u8));
        }
        cpu
    }

    /// The program counter.
    pub fn pc(&self) -> (r: u16)
        ensures
            r == self@.pc,
    {
        self.regfile.pc
    }

    /// The index register.
    pub fn i(&self) -> (r: u16)
        ensures
            r == self@.index,
    {
        self.regfile.index
    }

    /// The delay timer's counter.
    pub fn dt(&self) -> (r: u8)
        ensures
            r == self@.dt,
    {
        self.regfile.delay_timer.counter_value()
    }

    /// A general-purpose register.
    pub fn v(&self, idx: usize) -> (r: u8)
        requires
            idx < 16,
        ensures
            r == self@.gprs[idx as int],
    {
        self.regfile.gprs.read(idx)
    }

    /// Ticks the delay and sound timers: each decrements independently,
    /// floored at 0.
    pub fn tick(&mut self)
        requires
            old(self).wf(),
        ensures
            final(self).wf(),
            final(self)@ == (CpuV {
                dt: spec_tick(old(self)@.dt),
                st: spec_tick(old(self)@.st),
                ..old(self)@
            }),
    {
        self.regfile.delay_timer.decrement();
        self.regfile.sound_timer.decrement();
    }

    /// Skip the next instruction if the condition is true.
    fn skip(&mut self, condition: bool)
        requires
            old(self).wf(),
        ensures
            final(self).wf(),
            final(self)@ == spec_skip_if(old(self)@, condition),
    {
        if condition {
            self.regfile.advance_pc();
        }
    }

    /// Executes a single instruction: fetch the word at pc, advance pc
    /// past it (handlers that transfer control overwrite this advanced
    /// value), decode, dispatch through the opcode table, execute. The
    /// whole effect on machine state, framebuffer and result equals
    /// `spec_step`.
    pub fn step(&mut self, display: &mut Display, keypad: &Keypad) -> (r: Result<
        Option<CpuEvent>,
        CpuFault,
    >)
        requires
            old(self).wf(),
        ensures
            final(self).wf(),
            final(self)@ == spec_step(old(self)@, old(display)@, keypad@).cpu,
            final(display)@ == spec_step(old(self)@, old(display)@, keypad@).disp,
            r == spec_step(old(self)@, old(display)@, keypad@).res,
    {
        let pc = self.regfile.pc;
        let opcode = Opcode::new(self.bus.read_word(Address::new(pc)));
        self.regfile.advance_pc();
        let kind = self.matcher.match_opcode(opcode.raw());
        proof {
            assert(self@ == advanced(old(self)@));
        }
        match kind {
            OpcodeKind::Cls => self.cls(opcode, display),
            OpcodeKind::Ret => self.ret(opcode),
            OpcodeKind::Jp => self.jp(opcode),
            OpcodeKind::Call => self.call(opcode),
            OpcodeKind::SeImm => self.se_imm(opcode),
            OpcodeKind::SneImm => self.sne_imm(opcode),
            OpcodeKind::SeReg => self.se_reg(opcode),
            OpcodeKind::LdvImm => self.ldv_imm(opcode),
            OpcodeKind::AddImm => self.add_imm(opcode),
            OpcodeKind::LdvReg => self.ldv_reg(opcode),
            OpcodeKind::Or => self.or(opcode),
            OpcodeKind::And => self.and(opcode),
            OpcodeKind::Xor => self.xor(opcode),
            OpcodeKind::AddReg => self.add_reg(opcode),
            OpcodeKind::Sub => self.sub(opcode),
            OpcodeKind::Shr => self.shr(opcode),
            OpcodeKind::Subn => self.subn(opcode),
            OpcodeKind::Shl => self.shl(opcode),
            OpcodeKind::SneReg => self.sne_reg(opcode),
            OpcodeKind::LdiImm => self.ldi_imm(opcode),
            OpcodeKind::JpIdx => self.jp_idx(opcode),
            OpcodeKind::Drw => self.drw(opcode, display),
            OpcodeKind::Skp => self.skp(opcode, keypad),
            OpcodeKind::Sknp => self.sknp(opcode, keypad),
            OpcodeKind::LdvDt => self.ldv_dt(opcode),
            OpcodeKind::LdvKey => self.ldv_key(opcode, keypad),
            OpcodeKind::Lddt => self.lddt(opcode),
            OpcodeKind::Addi => self.addi(opcode),
            OpcodeKind::Ldb => self.ldb(opcode),
            OpcodeKind::LdiMem => self.ldi_mem(opcode),
            OpcodeKind::LdvMem => self.ldv_mem(opcode),
            OpcodeKind::Dummy => self.dummy(opcode),
        }
    }

    // --- Opcode handlers

    /// Fallback for an unmatched instruction: fatal, reporting the raw
    /// value.
    fn dummy(&mut self, opcode: Opcode) -> (r: Result<Option<CpuEvent>, CpuFault>)
        requires
            old(self).wf(),
        ensures
            final(self).wf(),
            final(self)@ == old(self)@,
            r == Err::<Option<CpuEvent>, CpuFault>(CpuFault::UnimplementedOpcode(opcode@)),
    {
        Err(CpuFault::UnimplementedOpcode(opcode.raw()))
    }

    /// Vx += kk
    fn add_imm(&mut self, opcode: Opcode) -> (r: Result<Option<CpuEvent>, CpuFault>)
        requires
            old(self).wf(),
        ensures
            final(self).wf(),
            final(self)@ == spec_add_imm(old(self)@, opcode@),
            r == Ok::<Option<CpuEvent>, CpuFault>(None),
    {
        let x = opcode.x();
        let sum: u16 = self.regfile.gprs.read(x) as u16 + opcode.kk() as u16;
        self.regfile.gprs.write(x, (sum % 0x100) as u8);
        Ok(None)
    }

    /// Vx += Vy, VF = carry
    fn add_reg(&mut self, opcode: Opcode) -> (r: Result<Option<CpuEvent>, CpuFault>)
        requires
            old(self).wf(),
        ensures
            final(self).wf(),
            final(self)@ == spec_add_reg(old(self)@, opcode@),
            r == Ok::<Option<CpuEvent>, CpuFault>(None),
    {
        let x = opcode.x();
        let sum: u16 = self.regfile.gprs.read(x) as u16 + self.regfile.gprs.read(opcode.y()) as u16;
        self.regfile.gprs.write(x, (sum % 0x100) as u8);
        self.regfile.gprs.write(VF, if sum > 0xFF { 1 } else { 0 });
        Ok(None)
    }

    /// I += Vx
    fn addi(&mut self, opcode: Opcode) -> (r: Result<Option<CpuEvent>, CpuFault>)
        requires
            old(self).wf(),
        ensures
            final(self).wf(),
            final(self)@ == spec_addi(old(self)@, opcode@),
            r == Ok::<Option<CpuEvent>, CpuFault>(None),
    {
        let sum: u32 = self.regfile.index as u32 + self.regfile.gprs.read(opcode.x()) as u32;
        self.regfile.index = (sum % 0x10000) as u16;
        Ok(None)
    }

    /// Vx = Vx AND Vy
    fn and(&mut self, opcode: Opcode) -> (r: Result<Option<CpuEvent>, CpuFault>)
        requires
            old(self).wf(),
        ensures
            final(self).wf(),
            final(self)@ == spec_and(old(self)@, opcode@),
            r == Ok::<Option<CpuEvent>, CpuFault>(None),
    {
        let x = opcode.x();
        let value = self.regfile.gprs.read(x) & self.regfile.gprs.read(opcode.y());
        self.regfile.gprs.write(x, value);
        Ok(None)
    }

    /// Call subroutine
    fn call(&mut self, opcode: Opcode) -> (r: Result<Option<CpuEvent>, CpuFault>)
        requires
            old(self).wf(),
        ensures
            final(self).wf(),
            final(self)@ == spec_call(old(self)@, opcode@).0,
            r == spec_call(old(self)@, opcode@).1,
    {
        let return_addr = self.regfile.pc;
        match self.stack.push(return_addr) {
            Ok(()) => {
                self.regfile.pc = opcode.nnn();
                Ok(None)
            },
            Err(fault) => Err(fault),
        }
    }

    /// Jump
    fn jp(&mut self, opcode: Opcode) -> (r: Result<Option<CpuEvent>, CpuFault>)
        requires
            old(self).wf(),
        ensures
            final(self).wf(),
            final(self)@ == spec_jp(old(self)@, opcode@),
            r == Ok::<Option<CpuEvent>, CpuFault>(None),
    {
        self.regfile.pc = opcode.nnn();
        Ok(None)
    }

    /// Jump with index
    fn jp_idx(&mut self, opcode: Opcode) -> (r: Result<Option<CpuEvent>, CpuFault>)
        requires
            old(self).wf(),
        ensures
            final(self).wf(),
            final(self)@ == spec_jp_idx(old(self)@, opcode@),
            r == Ok::<Option<CpuEvent>, CpuFault>(None),
    {
        let sum: u32 = opcode.nnn() as u32 + self.regfile.gprs.read(0) as u32;
        self.regfile.pc = (sum % 0x10000) as u16;
        Ok(None)
    }

    /// [I] = BCD(Vx)
    fn ldb(&mut self, opcode: Opcode) -> (r: Result<Option<CpuEvent>, CpuFault>)
        requires
            old(self).wf(),
        ensures
            final(self).wf(),
            final(self)@ == spec_ldb(old(self)@, opcode@),
            r == Ok::<Option<CpuEvent>, CpuFault>(None),
    {
        let index = self.regfile.index;
        let vx = self.regfile.gprs.read(opcode.x());
        self.bus.write_byte(Address::new(index), vx / 100);
        self.bus.write_byte(Address::new(index.wrapping_add(1)), (vx / 10) % 10);
        self.bus.write_byte(Address::new(index.wrapping_add(2)), vx % 10);
        Ok(None)
    }

    /// Delay timer = Vx
    fn lddt(&mut self, opcode: Opcode) -> (r: Result<Option<CpuEvent>, CpuFault>)
        requires
            old(self).wf(),
        ensures
            final(self).wf(),
            final(self)@ == spec_lddt(old(self)@, opcode@),
            r == Ok::<Option<CpuEvent>, CpuFault>(None),
    {
        *self.regfile.delay_timer.counter() = self.regfile.gprs.read(opcode.x());
        Ok(None)
    }

    /// I = nnn
    fn ldi_imm(&mut self, opcode: Opcode) -> (r: Result<Option<CpuEvent>, CpuFault>)
        requires
            old(self).wf(),
        ensures
            final(self).wf(),
            final(self)@ == spec_ldi_imm(old(self)@, opcode@),
            r == Ok::<Option<CpuEvent>, CpuFault>(None),
    {
        self.regfile.index = opcode.nnn();
        Ok(None)
    }

    /// [I] = V0-Vx
    fn ldi_mem(&mut self, opcode: Opcode) -> (r: Result<Option<CpuEvent>, CpuFault>)
        requires
            old(self).wf(),
        ensures
            final(self).wf(),
            final(self)@ == spec_ldi_mem(old(self)@, opcode@),
            r == Ok::<Option<CpuEvent>, CpuFault>(None),
    {
        let index = self.regfile.index;
        let x = opcode.x();
        let mut i: usize = 0;
        while i <= x
            invariant
                old(self).wf(),
                self.wf(),
                x < 16,
                0 <= i <= x + 1,
                index == old(self)@.index,
                self.regfile == old(self).regfile,
                self.stack@ == old(self)@.stack,
                self.bus@ == spec_store_regs(
                    old(self)@.mem,
                    old(self)@.gprs,
                    index,
                    i as int,
                ),
            decreases x + 1 - i,
        {
            let vx = self.regfile.gprs.read(i);
            self.bus.write_byte(Address::new(index.wrapping_add(i as u16)), vx);
            i = i + 1;
        }
        Ok(None)
    }

    /// Vx = delay timer
    fn ldv_dt(&mut self, opcode: Opcode) -> (r: Result<Option<CpuEvent>, CpuFault>)
        requires
            old(self).wf(),
        ensures
            final(self).wf(),
            final(self)@ == spec_ldv_dt(old(self)@, opcode@),
            r == Ok::<Option<CpuEvent>, CpuFault>(None),
    {
        let value = self.regfile.delay_timer.counter_value();
        self.regfile.gprs.write(opcode.x(), value);
        Ok(None)
    }

    /// Vx = kk
    fn ldv_imm(&mut self, opcode: Opcode) -> (r: Result<Option<CpuEvent>, CpuFault>)
        requires
            old(self).wf(),
        ensures
            final(self).wf(),
            final(self)@ == spec_ldv_imm(old(self)@, opcode@),
            r == Ok::<Option<CpuEvent>, CpuFault>(None),
    {
        self.regfile.gprs.write(opcode.x(), opcode.kk());
        Ok(None)
    }

    /// Vx = key: stores the first pressed key, or rewinds onto this very
    /// instruction and asks the host to wait until a key is down.
    fn ldv_key(&mut self, opcode: Opcode, keypad: &Keypad) -> (r: Result<
        Option<CpuEvent>,
        CpuFault,
    >)
        requires
            old(self).wf(),
        ensures
            final(self).wf(),
            final(self)@ == spec_ldv_key(old(self)@, opcode@, keypad@).0,
            r == spec_ldv_key(old(self)@, opcode@, keypad@).1,
    {
        match keypad.any_key() {
            Some(key) => {
                self.regfile.gprs.write(opcode.x(), key);
                Ok(None)
            },
            None => {
                self.regfile.rewind_pc();
                Ok(Some(CpuEvent::WaitForKey))
            },
        }
    }

    /// V0-Vx = [I]
    fn ldv_mem(&mut self, opcode: Opcode) -> (r: Result<Option<CpuEvent>, CpuFault>)
        requires
            old(self).wf(),
        ensures
            final(self).wf(),
            final(self)@ == spec_ldv_mem(old(self)@, opcode@),
            r == Ok::<Option<CpuEvent>, CpuFault>(None),
    {
        let index = self.regfile.index;
        let x = opcode.x();
        let mut i: usize = 0;
        while i <= x
            invariant
                old(self).wf(),
                self.wf(),
                x < 16,
                0 <= i <= x + 1,
                index == old(self)@.index,
                self.bus@ == old(self)@.mem,
                self.regfile.pc == old(self)@.pc,
                self.regfile.index == old(self)@.index,
                self.regfile.delay_timer == old(self).regfile.delay_timer,
                self.regfile.sound_timer == old(self).regfile.sound_timer,
                self.stack@ == old(self)@.stack,
                self.regfile.gprs@ == spec_load_regs(
                    old(self)@.gprs,
                    old(self)@.mem,
                    index,
                    i as int,
                ),
            decreases x + 1 - i,
        {
            let data = self.bus.read_byte(Address::new(index.wrapping_add(i as u16)));
            self.regfile.gprs.write(i, data);
            i = i + 1;
        }
        Ok(None)
    }

    /// Vx = Vy
    fn ldv_reg(&mut self, opcode: Opcode) -> (r: Result<Option<CpuEvent>, CpuFault>)
        requires
            old(self).wf(),
        ensures
            final(self).wf(),
            final(self)@ == spec_ldv_reg(old(self)@, opcode@),
            r == Ok::<Option<CpuEvent>, CpuFault>(None),
    {
        let value = self.regfile.gprs.read(opcode.y());
        self.regfile.gprs.write(opcode.x(), value);
        Ok(None)
    }

    /// Vx = Vx OR Vy
    fn or(&mut self, opcode: Opcode) -> (r: Result<Option<CpuEvent>, CpuFault>)
        requires
            old(self).wf(),
        ensures
            final(self).wf(),
            final(self)@ == spec_or(old(self)@, opcode@),
            r == Ok::<Option<CpuEvent>, CpuFault>(None),
    {
        let x = opcode.x();
        let value = self.regfile.gprs.read(x) | self.regfile.gprs.read(opcode.y());
        self.regfile.gprs.write(x, value);
        Ok(None)
    }

    /// Return
    fn ret(&mut self, _opcode: Opcode) -> (r: Result<Option<CpuEvent>, CpuFault>)
        requires
            old(self).wf(),
        ensures
            final(self).wf(),
            final(self)@ == spec_ret(old(self)@).0,
            r == spec_ret(old(self)@).1,
    {
        match self.stack.pop() {
            Ok(addr) => {
                self.regfile.pc = addr;
                Ok(None)
            },
            Err(fault) => Err(fault),
        }
    }

    /// Skip if Vx == kk
    fn se_imm(&mut self, opcode: Opcode) -> (r: Result<Option<CpuEvent>, CpuFault>)
        requires
            old(self).wf(),
        ensures
            final(self).wf(),
            final(self)@ == spec_se_imm(old(self)@, opcode@),
            r == Ok::<Option<CpuEvent>, CpuFault>(None),
    {
        let condition = self.regfile.gprs.read(opcode.x()) == opcode.kk();
        self.skip(condition);
        Ok(None)
    }

    /// Skip if Vx == Vy
    fn se_reg(&mut self, opcode: Opcode) -> (r: Result<Option<CpuEvent>, CpuFault>)
        requires
            old(self).wf(),
        ensures
            final(self).wf(),
            final(self)@ == spec_se_reg(old(self)@, opcode@),
            r == Ok::<Option<CpuEvent>, CpuFault>(None),
    {
        let condition = self.regfile.gprs.read(opcode.x()) == self.regfile.gprs.read(opcode.y());
        self.skip(condition);
        Ok(None)
    }

    /// Vx <<= 1, VF = bit shifted out at the top
    fn shl(&mut self, opcode: Opcode) -> (r: Result<Option<CpuEvent>, CpuFault>)
        requires
            old(self).wf(),
        ensures
            final(self).wf(),
            final(self)@ == spec_shl(old(self)@, opcode@),
            r == Ok::<Option<CpuEvent>, CpuFault>(None),
    {
        let x = opcode.x();
        let vx = self.regfile.gprs.read(x);
        let doubled: u16 = vx as u16 * 2;
        self.regfile.gprs.write(x, (doubled % 0x100) as u8);
        self.regfile.gprs.write(VF, if vx >= 0x80 { 1 } else { 0 });
        Ok(None)
    }

    /// Vx >>= 1, VF = bit shifted out at the bottom
    fn shr(&mut self, opcode: Opcode) -> (r: Result<Option<CpuEvent>, CpuFault>)
        requires
            old(self).wf(),
        ensures
            final(self).wf(),
            final(self)@ == spec_shr(old(self)@, opcode@),
            r == Ok::<Option<CpuEvent>, CpuFault>(None),
    {
        let x = opcode.x();
        let vx = self.regfile.gprs.read(x);
        self.regfile.gprs.write(x, vx / 2);
        self.regfile.gprs.write(VF, if vx % 2 == 1 { 1 } else { 0 });
        Ok(None)
    }

    /// Skip if the key numbered by Vx is pressed
    fn skp(&mut self, opcode: Opcode, keypad: &Keypad) -> (r: Result<Option<CpuEvent>, CpuFault>)
        requires
            old(self).wf(),
        ensures
            final(self).wf(),
            final(self)@ == spec_skp(old(self)@, opcode@, keypad@),
            r == Ok::<Option<CpuEvent>, CpuFault>(None),
    {
        let code = (self.regfile.gprs.read(opcode.x()) % 16) as usize;
        let condition = keypad.is_key_pressed(code);
        self.skip(condition);
        Ok(None)
    }

    /// Skip if the key numbered by Vx is not pressed
    fn sknp(&mut self, opcode: Opcode, keypad: &Keypad) -> (r: Result<Option<CpuEvent>, CpuFault>)
        requires
            old(self).wf(),
        ensures
            final(self).wf(),
            final(self)@ == spec_sknp(old(self)@, opcode@, keypad@),
            r == Ok::<Option<CpuEvent>, CpuFault>(None),
    {
        let code = (self.regfile.gprs.read(opcode.x()) % 16) as usize;
        let condition = !keypad.is_key_pressed(code);
        self.skip(condition);
        Ok(None)
    }

    /// Skip if Vx != kk
    fn sne_imm(&mut self, opcode: Opcode) -> (r: Result<Option<CpuEvent>, CpuFault>)
        requires
            old(self).wf(),
        ensures
            final(self).wf(),
            final(self)@ == spec_sne_imm(old(self)@, opcode@),
            r == Ok::<Option<CpuEvent>, CpuFault>(None),
    {
        let condition = self.regfile.gprs.read(opcode.x()) != opcode.kk();
        self.skip(condition);
        Ok(None)
    }

    /// Skip if Vx != Vy
    fn sne_reg(&mut self, opcode: Opcode) -> (r: Result<Option<CpuEvent>, CpuFault>)
        requires
            old(self).wf(),
        ensures
            final(self).wf(),
            final(self)@ == spec_sne_reg(old(self)@, opcode@),
            r == Ok::<Option<CpuEvent>, CpuFault>(None),
    {
        let condition = self.regfile.gprs.read(opcode.x()) != self.regfile.gprs.read(opcode.y());
        self.skip(condition);
        Ok(None)
    }

    /// Vx -= Vy, VF = not-borrow
    fn sub(&mut self, opcode: Opcode) -> (r: Result<Option<CpuEvent>, CpuFault>)
        requires
            old(self).wf(),
        ensures
            final(self).wf(),
            final(self)@ == spec_sub(old(self)@, opcode@),
            r == Ok::<Option<CpuEvent>, CpuFault>(None),
    {
        let x = opcode.x();
        let vx = self.regfile.gprs.read(x);
        let vy = self.regfile.gprs.read(opcode.y());
        let diff: u16 = (vx as u16 + 0x100 - vy as u16) % 0x100;
        self.regfile.gprs.write(x, diff as u8);
        self.regfile.gprs.write(VF, if vx >= vy { 1 } else { 0 });
        Ok(None)
    }

    /// Vx = Vy - Vx, VF = not-borrow
    fn subn(&mut self, opcode: Opcode) -> (r: Result<Option<CpuEvent>, CpuFault>)
        requires
            old(self).wf(),
        ensures
            final(self).wf(),
            final(self)@ == spec_subn(old(self)@, opcode@),
            r == Ok::<Option<CpuEvent>, CpuFault>(None),
    {
        let x = opcode.x();
        let vx = self.regfile.gprs.read(x);
        let vy = self.regfile.gprs.read(opcode.y());
        let diff: u16 = (vy as u16 + 0x100 - vx as u16) % 0x100;
        self.regfile.gprs.write(x, diff as u8);
        self.regfile.gprs.write(VF, if vy >= vx { 1 } else { 0 });
        Ok(None)
    }

    /// Vx = Vx XOR Vy
    fn xor(&mut self, opcode: Opcode) -> (r: Result<Option<CpuEvent>, CpuFault>)
        requires
            old(self).wf(),
        ensures
            final(self).wf(),
            final(self)@ == spec_xor(old(self)@, opcode@),
            r == Ok::<Option<CpuEvent>, CpuFault>(None),
    {
        let x = opcode.x();
        let value = self.regfile.gprs.read(x) ^ self.regfile.gprs.read(opcode.y());
        self.regfile.gprs.write(x, value);
        Ok(None)
    }

    /// Draw sprite: XOR-blit with coordinate wraparound; VF reports
    /// whether any set sprite pixel landed on an already-lit pixel.
    #[verifier::loop_isolation(false)]
    #[verifier::rlimit(100)]
    #[verifier::spinoff_prover]
    fn drw(&mut self, opcode: Opcode, display: &mut Display) -> (r: Result<
        Option<CpuEvent>,
        CpuFault,
    >)
        requires
            old(self).wf(),
        ensures
            final(self).wf(),
            final(self)@ == spec_drw(old(self)@, opcode@, old(display)@).0,
            final(display)@ == spec_drw(old(self)@, opcode@, old(display)@).1,
            r == Ok::<Option<CpuEvent>, CpuFault>(Some(CpuEvent::Draw)),
    {
        let index = self.regfile.index;
        let x = self.regfile.gprs.read(opcode.x()) as usize;
        let y = self.regfile.gprs.read(opcode.y()) as usize;
        let n = opcode.n();

        let ghost disp0 = display@;
        let ghost mem = self@.mem;
        let ghost gx = x as int;
        let ghost gy = y as int;

        let mut has_collided = false;
        let mut row: usize = 0;
        while row < n
            invariant
                row <= n,
                forall|j: int|
                    0 <= j < 2048 ==> display@[j] == draw_pixel_upto(
                        disp0,
                        mem,
                        index,
                        gx,
                        gy,
                        row as int,
                        0,
                        j,
                    ),
                has_collided == draw_hit_upto(disp0, mem, index, gx, gy, row as int, 0),
            decreases n - row,
        {
            let pixels = self.bus.read_byte(Address::new(index.wrapping_add(row as u16)));
            let mut i: usize = 0;
            while i < 8
                invariant
                    i <= 8,
                    forall|j: int|
                        0 <= j < 2048 ==> display@[j] == draw_pixel_upto(
                            disp0,
                            mem,
                            index,
                            gx,
                            gy,
                            row as int,
                            i as int,
                            j,
                        ),
                    has_collided == draw_hit_upto(disp0, mem, index, gx, gy, row as int, i as int),
                decreases 8 - i,
            {
                let display_idx = 64 * ((y + row) % 32) + ((x + i) % 64);
                let shift: u8 = (7 - i) as u8;
                let bit = (pixels >> shift) & 1;
                let pixel: u32 = if bit == 1 {
                    0xFFFFFFFF
                } else {
                    0
                };
                proof {
                    lemma_pos_decode(gx, gy, row as int, i as int);
                }
                let old_pixel = display.read(display_idx);
                let collides_here = (pixel & old_pixel) == 0xFFFFFFFF;
                display.write(display_idx, old_pixel ^ pixel);
                proof {
                    lemma_pixel_ops(old_pixel);
                    let jj = display_idx as int;
                    let hit_bit = sprite_bit(mem, index, row as int, i as int);
                    assert(jj == pixel_pos(gx, gy, row as int, i as int));
                    assert(hit_bit == (bit == 1));
                    assert(old_pixel == disp0[jj]);
                    assert(collides_here == (hit_bit && disp0[jj] == 0xFFFFFFFFu32));
                    assert forall|j: int| 0 <= j < 2048 implies display@[j] == draw_pixel_upto(
                        disp0,
                        mem,
                        index,
                        gx,
                        gy,
                        row as int,
                        i + 1,
                        j,
                    ) by {
                        lemma_pos_encode(gx, gy, j);
                        let rj = sprite_row_of(j, gy);
                        let cj = sprite_col_of(j, gx);
                        if j != jj {
                            assert(!(rj == row as int && cj == i as int));
                        }
                    }
                    let hc0 = has_collided;
                    assert((hc0 || collides_here) == draw_hit_upto(
                        disp0,
                        mem,
                        index,
                        gx,
                        gy,
                        row as int,
                        i + 1,
                    )) by {
                        if hc0 || collides_here {
                            if hc0 {
                                let (r0, i0) = choose|r0: int, i0: int|
                                    0 <= r0 && 0 <= i0 < 8 && (r0 < row as int || (r0 == row as int
                                        && i0 < i as int)) && sprite_bit(mem, index, r0, i0)
                                        && disp0[pixel_pos(gx, gy, r0, i0)] == 0xFFFFFFFFu32;
                                assert(0 <= r0 && 0 <= i0 < 8 && (r0 < row as int || (r0
                                    == row as int && i0 < i + 1)) && sprite_bit(mem, index, r0, i0)
                                    && disp0[pixel_pos(gx, gy, r0, i0)] == 0xFFFFFFFFu32);
                            } else {
                                let rw = row as int;
                                let iw = i as int;
                                assert(0 <= rw && 0 <= iw && iw < 8 && (rw < rw || (rw == rw && iw
                                    < i + 1)) && sprite_bit(mem, index, rw, iw) && disp0[pixel_pos(
                                    gx,
                                    gy,
                                    rw,
                                    iw,
                                )] == 0xFFFFFFFFu32);
                            }
                        }
                        if draw_hit_upto(disp0, mem, index, gx, gy, row as int, i + 1) {
                            let (r0, i0) = choose|r0: int, i0: int|
                                0 <= r0 && 0 <= i0 < 8 && (r0 < row as int || (r0 == row as int
                                    && i0 < i + 1)) && sprite_bit(mem, index, r0, i0) && disp0[
                                    pixel_pos(gx, gy, r0, i0)] == 0xFFFFFFFFu32;
                            if r0 == row as int && i0 == i as int {
                                assert(collides_here);
                            } else {
                                assert(0 <= r0 && 0 <= i0 < 8 && (r0 < row as int || (r0
                                    == row as int && i0 < i as int)) && sprite_bit(
                                    mem,
                                    index,
                                    r0,
                                    i0,
                                ) && disp0[pixel_pos(gx, gy, r0, i0)] == 0xFFFFFFFFu32);
                            }
                        }
                    }
                }
                has_collided = has_collided || collides_here;
                i = i + 1;
            }
            proof {
                assert forall|j: int| 0 <= j < 2048 implies display@[j] == draw_pixel_upto(
                    disp0,
                    mem,
                    index,
                    gx,
                    gy,
                    row + 1,
                    0,
                    j,
                ) by {
                    lemma_pos_encode(gx, gy, j);
                }
                assert(has_collided == draw_hit_upto(disp0, mem, index, gx, gy, row + 1, 0)) by {
                    if has_collided {
                        let (r0, i0) = choose|r0: int, i0: int|
                            0 <= r0 && 0 <= i0 < 8 && (r0 < row as int || (r0 == row as int && i0
                                < 8)) && sprite_bit(mem, index, r0, i0) && disp0[pixel_pos(
                                gx,
                                gy,
                                r0,
                                i0,
                            )] == 0xFFFFFFFFu32;
                        assert(0 <= r0 && 0 <= i0 < 8 && (r0 < row + 1 || (r0 == row + 1 && i0
                            < 0)) && sprite_bit(mem, index, r0, i0) && disp0[pixel_pos(
                            gx,
                            gy,
                            r0,
                            i0,
                        )] == 0xFFFFFFFFu32);
                    }
                    if draw_hit_upto(disp0, mem, index, gx, gy, row + 1, 0) {
                        let (r0, i0) = choose|r0: int, i0: int|
                            0 <= r0 && 0 <= i0 < 8 && (r0 < row + 1 || (r0 == row + 1 && i0 < 0))
                                && sprite_bit(mem, index, r0, i0) && disp0[pixel_pos(
                                gx,
                                gy,
                                r0,
                                i0,
                            )] == 0xFFFFFFFFu32;
                        assert(0 <= r0 && 0 <= i0 < 8 && (r0 < row as int || (r0 == row as int
                            && i0 < 8)) && sprite_bit(mem, index, r0, i0) && disp0[pixel_pos(
                            gx,
                            gy,
                            r0,
                            i0,
                        )] == 0xFFFFFFFFu32);
                    }
                }
            }
            row = row + 1;
        }
        self.regfile.gprs.write(VF, if has_collided { 1 } else { 0 });
        proof {
            assert(display@ =~= draw_disp(disp0, mem, index, gx, gy, n as int));
            assert(has_collided == draw_collision(disp0, mem, index, gx, gy, n as int)) by {
                if has_collided {
                    let (r0, i0) = choose|r0: int, i0: int|
                        0 <= r0 && 0 <= i0 < 8 && (r0 < n as int || (r0 == n as int && i0 < 0))
                            && sprite_bit(mem, index, r0, i0) && disp0[pixel_pos(gx, gy, r0, i0)]
                            == 0xFFFFFFFFu32;
                    assert(0 <= r0 < n as int && 0 <= i0 < 8 && sprite_bit(mem, index, r0, i0)
                        && disp0[pixel_pos(gx, gy, r0, i0)] == 0xFFFFFFFFu32);
                }
                if draw_collision(disp0, mem, index, gx, gy, n as int) {
                    let (r0, i0) = choose|r0: int, i0: int|
                        0 <= r0 < n as int && 0 <= i0 < 8 && sprite_bit(mem, index, r0, i0)
                            && disp0[pixel_pos(gx, gy, r0, i0)] == 0xFFFFFFFFu32;
                    assert(0 <= r0 && 0 <= i0 < 8 && (r0 < n as int || (r0 == n as int && i0 < 0))
                        && sprite_bit(mem, index, r0, i0) && disp0[pixel_pos(gx, gy, r0, i0)]
                        == 0xFFFFFFFFu32);
                }
            }
        }
        Ok(Some(CpuEvent::Draw))
    }

    /// Clear screen
    fn cls(&mut self, _opcode: Opcode, display: &mut Display) -> (r: Result<
        Option<CpuEvent>,
        CpuFault,
    >)
        requires
            old(self).wf(),
        ensures
            final(self).wf(),
            final(self)@ == old(self)@,
            final(display)@ == Seq::new(2048, |j: int| 0u32),
            r == Ok::<Option<CpuEvent>, CpuFault>(None),
    {
        display.clear();
        Ok(None)
    }
}

/// An XOR-sprite-blit only toggles pixels between "off" and fully "on".
proof fn lemma_draw_preserves_monochrome(
    disp: Seq<u32>,
    mem: Seq<u8>,
    index: u16,
    x: int,
    y: int,
    n: int,
)
    requires
        disp.len() == 2048,
        crate::display::monochrome(disp),
    ensures
        crate::display::monochrome(draw_disp(disp, mem, index, x, y, n)),
{
    let d1 = draw_disp(disp, mem, index, x, y, n);
    assert forall|j: int| 0 <= j < d1.len() implies d1[j] == 0u32 || d1[j] == 0xFFFFFFFFu32 by {
        let v = disp[j];
        assert(v == 0u32 || v == 0xFFFFFFFFu32 ==> v ^ 0xFFFFFFFFu32 == 0xFFFFFFFFu32 || v
            ^ 0xFFFFFFFFu32 == 0u32) by (bit_vector);
    }
}

/// The only pixel values a step ever writes are "off" and fully "on": a
/// framebuffer of such pixels stays that way through every instruction.
#[verifier::rlimit(100)]
#[verifier::spinoff_prover]
pub proof fn lemma_step_preserves_monochrome(pre: CpuV, disp: Seq<u32>, keys: Seq<bool>)
    requires
        disp.len() == 2048,
        crate::display::monochrome(disp),
    ensures
        crate::display::monochrome(spec_step(pre, disp, keys).disp),
{
    let raw = word_at(pre.mem, pre.pc);
    let m = advanced(pre);
    match spec_match(standard_table(), raw) {
        OpcodeKind::Cls => {
        },
        OpcodeKind::Drw => {
            lemma_draw_preserves_monochrome(
                disp,
                m.mem,
                m.index,
                m.gprs[op_x(raw)] as int,
                m.gprs[op_y(raw)] as int,
                op_n(raw),
            );
        },
        _ => {
        },
    }
}

/// A step never grows the call stack past its depth: only a call pushes,
/// and a call onto a full stack is refused as fatal instead.
pub proof fn lemma_step_bounds_stack(pre: CpuV, disp: Seq<u32>, keys: Seq<bool>)
    requires
        pre.stack.len() <= 16,
    ensures
        spec_step(pre, disp, keys).cpu.stack.len() <= 16,
{
}

/// Drawing the same sprite at the same coordinates twice in succession
/// restores the framebuffer exactly, and the second draw collides
/// precisely where the sprite has a set pixel whose pre-draw pixel was
/// off: the first draw lit exactly those, and the second finds them lit.
pub proof fn lemma_double_draw(disp: Seq<u32>, mem: Seq<u8>, index: u16, x: int, y: int, n: int)
    requires
        disp.len() == 2048,
        0 <= x,
        0 <= y,
        0 <= n <= 15,
    ensures
        draw_disp(draw_disp(disp, mem, index, x, y, n), mem, index, x, y, n) == disp,
        draw_collision(draw_disp(disp, mem, index, x, y, n), mem, index, x, y, n) <==> (exists|
            r: int,
            i: int,
        |
            0 <= r < n && 0 <= i < 8 && sprite_bit(mem, index, r, i) && disp[pixel_pos(
                x,
                y,
                r,
                i,
            )] == 0u32),
{
    let d1 = draw_disp(disp, mem, index, x, y, n);
    let d2 = draw_disp(d1, mem, index, x, y, n);
    assert forall|j: int| 0 <= j < 2048 implies d2[j] == disp[j] by {
        let v = disp[j];
        lemma_pixel_ops(v);
    }
    assert(d2 =~= disp);
    if draw_collision(d1, mem, index, x, y, n) {
        let (r0, i0) = choose|r0: int, i0: int|
            0 <= r0 < n && 0 <= i0 < 8 && sprite_bit(mem, index, r0, i0) && d1[pixel_pos(
                x,
                y,
                r0,
                i0,
            )] == 0xFFFFFFFFu32;
        lemma_pos_decode(x, y, r0, i0);
        let jj = pixel_pos(x, y, r0, i0);
        assert(d1[jj] == disp[jj] ^ 0xFFFFFFFFu32);
        lemma_pixel_ops(disp[jj]);
        assert(disp[jj] == 0u32);
    }
    if exists|r: int, i: int|
        0 <= r < n && 0 <= i < 8 && sprite_bit(mem, index, r, i) && disp[pixel_pos(x, y, r, i)]
            == 0u32 {
        let (r0, i0) = choose|r0: int, i0: int|
            0 <= r0 < n && 0 <= i0 < 8 && sprite_bit(mem, index, r0, i0) && disp[pixel_pos(
                x,
                y,
                r0,
                i0,
            )] == 0u32;
        lemma_pos_decode(x, y, r0, i0);
        let jj = pixel_pos(x, y, r0, i0);
        assert(d1[jj] == disp[jj] ^ 0xFFFFFFFFu32);
        lemma_pixel_ops(disp[jj]);
        assert(d1[jj] == 0xFFFFFFFFu32);
        assert(draw_collision(d1, mem, index, x, y, n));
    }
}

/// A call followed immediately, at its target, by a return lands the
/// program counter on the instruction after the call, with the stack,
/// registers, memory and framebuffer exactly as before the pair.
pub proof fn lemma_call_ret_round_trip(pre: CpuV, disp: Seq<u32>, keys: Seq<bool>)
    requires
        word_at(pre.mem, pre.pc) & 0xF000 == 0x2000,
        word_at(pre.mem, op_nnn(word_at(pre.mem, pre.pc))) == 0x00EE,
        pre.stack.len() < 16,
    ensures
        ({
            let s1 = spec_step(pre, disp, keys);
            let s2 = spec_step(s1.cpu, s1.disp, keys);
            s1.res == Ok::<Option<CpuEvent>, CpuFault>(None) && s2.res == Ok::<
                Option<CpuEvent>,
                CpuFault,
            >(None) && s2.cpu == (CpuV { pc: add16(pre.pc, 2), ..pre }) && s2.disp == disp
        }),
{
    let t = standard_table();
    let raw1 = word_at(pre.mem, pre.pc);
    let nnn = op_nnn(raw1);
    assert((raw1 & 0xFFFF != 0x00E0 && raw1 & 0xFFFF != 0x00EE) && raw1 & 0xF000 != 0x1000)
        by (bit_vector)
        requires
            raw1 & 0xF000 == 0x2000,
    ;
    lemma_match_first(t, raw1, 3);
    let s1 = spec_step(pre, disp, keys);
    let pushed = add16(pre.pc, 2);
    assert(s1.cpu.pc == nnn && s1.cpu.stack == pre.stack.push(pushed));
    let raw2 = word_at(pre.mem, nnn);
    assert(raw2 & 0xFFFF == raw2 && (0x00EEu16 & 0xFFFF == 0x00EE)) by (bit_vector);
    lemma_match_first(t, raw2, 1);
    let s2 = spec_step(s1.cpu, s1.disp, keys);
    assert(s1.cpu.stack.last() == pushed);
    assert(s1.cpu.stack.drop_last() =~= pre.stack);
    assert(s2.cpu == (CpuV { pc: pushed, ..pre }));
}

/// With no key down, the key-wait instruction reports *Wait-for-key* and
/// leaves the whole machine, the framebuffer included, exactly as it was:
/// the next step fetches the identical instruction again, and will do so
/// until a key is down.
pub proof fn lemma_wait_for_key(pre: CpuV, disp: Seq<u32>, keys: Seq<bool>)
    requires
        word_at(pre.mem, pre.pc) & 0xF0FF == 0xF00A,
        forall|k: int| 0 <= k < 16 ==> !keys[k],
    ensures
        spec_step(pre, disp, keys).res == Ok::<Option<CpuEvent>, CpuFault>(
            Some(CpuEvent::WaitForKey),
        ),
        spec_step(pre, disp, keys).cpu == pre,
        spec_step(pre, disp, keys).disp == disp,
{
    let t = standard_table();
    let raw = word_at(pre.mem, pre.pc);
    assert(raw & 0xF000 == 0xF000 && raw & 0xF00F == 0xF00A && raw & 0xF0FF == 0xF00A && raw
        & 0xFFFF != 0x00E0 && raw & 0xFFFF != 0x00EE) by (bit_vector)
        requires
            raw & 0xF0FF == 0xF00A,
    ;
    lemma_match_first(t, raw, 25);
    crate::keypad::lemma_any_key_none(keys, 0);
    let m = advanced(pre);
    assert(sub16(m.pc, 2) == pre.pc) by (nonlinear_arith)
        requires
            m.pc == (pre.pc + 2) % 0x10000 && sub16(m.pc, 2) == ((m.pc - 2) % 0x10000) as u16 && 0
                <= pre.pc < 0x10000,
    ;
    assert(spec_step(pre, disp, keys).cpu == pre);
}

} // verus!
