use myuchip::bus::memory::Memory;
use myuchip::bus::Bus;
use myuchip::cpu::regfile::{RegFile, Timer};
use myuchip::cpu::{Cpu, CpuEvent, CpuFault, OpcodeDesc, OpcodeKind, OpcodeMatcher, Stack};
use myuchip::display::Display;
use myuchip::keypad::Keypad;

/// Lays a program of 16-bit words at the program origin and builds the
/// machine around it.
fn machine(program: &[u16]) -> Cpu {
    let mut mem = Memory::default();
    let mut addr = 0x200;
    for word in program {
        mem.write(addr, (word >> 8) as u8);
        mem.write(addr + 1, (word & 0xFF) as u8);
        addr += 2;
    }
    Cpu::new(Bus::new(mem))
}

fn run(cpu: &mut Cpu, steps: usize) {
    let mut display = Display::default();
    let keypad = Keypad::default();
    for _ in 0..steps {
        cpu.step(&mut display, &keypad).unwrap();
    }
}

#[test]
fn matcher_first_match_wins() {
    let mut matcher = OpcodeMatcher::default();
    matcher.register(OpcodeDesc { pattern: 0x1000, mask: 0xF000, kind: OpcodeKind::Jp });
    matcher.register(OpcodeDesc { pattern: 0x1230, mask: 0xFFF0, kind: OpcodeKind::Call });
    assert_eq!(matcher.match_opcode(0x1234), OpcodeKind::Jp);
    assert_eq!(matcher.match_opcode(0x2000), OpcodeKind::Dummy);
}

#[test]
fn matcher_resolves_standard_opcodes() {
    let mut cpu = machine(&[0x00E0]);
    let mut display = Display::default();
    let keypad = Keypad::default();
    assert_eq!(cpu.step(&mut display, &keypad), Ok(None));
}

#[test]
fn unmatched_opcode_is_fatal_with_raw_value() {
    let mut cpu = machine(&[0x0123]);
    let mut display = Display::default();
    let keypad = Keypad::default();
    assert_eq!(
        cpu.step(&mut display, &keypad),
        Err(CpuFault::UnimplementedOpcode(0x0123))
    );
}

#[test]
fn add_imm_wraps_without_flag() {
    // V5 = 0xFE, V5 += 4 -> 0x02, VF untouched (stays 0)
    let mut cpu = machine(&[0x65FE, 0x7504]);
    run(&mut cpu, 2);
    assert_eq!(cpu.v(5), 0x02);
    assert_eq!(cpu.v(0xF), 0x00);
}

#[test]
fn add_reg_sets_carry() {
    // V0 = 0xFF, V1 = 0x01, V0 += V1 -> 0x00 with VF = 1
    let mut cpu = machine(&[0x60FF, 0x6101, 0x8014]);
    run(&mut cpu, 3);
    assert_eq!(cpu.v(0), 0x00);
    assert_eq!(cpu.v(0xF), 1);
}

#[test]
fn add_reg_clears_carry() {
    // V0 = 0x01, V1 = 0x01, V0 += V1 -> 0x02 with VF = 0
    let mut cpu = machine(&[0x6001, 0x6101, 0x8014]);
    run(&mut cpu, 3);
    assert_eq!(cpu.v(0), 0x02);
    assert_eq!(cpu.v(0xF), 0);
}

#[test]
fn sub_without_borrow() {
    // V0 = 5, V1 = 3, V0 -= V1 -> 2 with VF = 1 (no borrow)
    let mut cpu = machine(&[0x6005, 0x6103, 0x8015]);
    run(&mut cpu, 3);
    assert_eq!(cpu.v(0), 0x02);
    assert_eq!(cpu.v(0xF), 1);
}

#[test]
fn sub_with_borrow() {
    // V0 = 3, V1 = 5, V0 -= V1 -> 0xFE with VF = 0 (borrow)
    let mut cpu = machine(&[0x6003, 0x6105, 0x8015]);
    run(&mut cpu, 3);
    assert_eq!(cpu.v(0), 0xFE);
    assert_eq!(cpu.v(0xF), 0);
}

#[test]
fn subn_uses_not_borrow_convention() {
    // V0 = 3, V1 = 5, V0 = V1 - V0 -> 2 with VF = 1
    let mut cpu = machine(&[0x6003, 0x6105, 0x8017]);
    run(&mut cpu, 3);
    assert_eq!(cpu.v(0), 0x02);
    assert_eq!(cpu.v(0xF), 1);
}

#[test]
fn shr_reports_low_bit() {
    // V0 = 3, V0 >>= 1 -> 1 with VF = 1
    let mut cpu = machine(&[0x6003, 0x8006]);
    run(&mut cpu, 2);
    assert_eq!(cpu.v(0), 0x01);
    assert_eq!(cpu.v(0xF), 1);
}

#[test]
fn shr_clears_flag_on_even_value() {
    let mut cpu = machine_with_flag(&[0x6004, 0x8006]);
    assert_eq!(cpu.v(0), 0x02);
    assert_eq!(cpu.v(0xF), 0);
}

fn machine_with_flag(program: &[u16]) -> Cpu {
    let mut cpu = machine(program);
    run(&mut cpu, program.len());
    cpu
}

#[test]
fn shl_clears_flag_on_small_value() {
    let mut cpu = machine_with_flag(&[0x6004, 0x800E]);
    assert_eq!(cpu.v(0), 0x08);
    assert_eq!(cpu.v(0xF), 0);
}

#[test]
fn shl_reports_high_bit() {
    // V0 = 0x81, V0 <<= 1 -> 0x02 with VF = 1
    let mut cpu = machine(&[0x6081, 0x800E]);
    run(&mut cpu, 2);
    assert_eq!(cpu.v(0), 0x02);
    assert_eq!(cpu.v(0xF), 1);
}

#[test]
fn logical_ops_set_no_flag() {
    // V0 = 0x0F, V1 = 0xF0: or -> 0xFF, and -> 0xF0 after reload, xor -> 0xFF
    let mut cpu = machine(&[0x600F, 0x61F0, 0x8011]);
    run(&mut cpu, 3);
    assert_eq!(cpu.v(0), 0xFF);
    assert_eq!(cpu.v(0xF), 0);

    let mut cpu = machine(&[0x60FF, 0x61F0, 0x8012]);
    run(&mut cpu, 3);
    assert_eq!(cpu.v(0), 0xF0);

    let mut cpu = machine(&[0x600F, 0x61FF, 0x8013]);
    run(&mut cpu, 3);
    assert_eq!(cpu.v(0), 0xF0);
}

#[test]
fn ldv_reg_copies() {
    let mut cpu = machine(&[0x6137, 0x8010]);
    run(&mut cpu, 2);
    assert_eq!(cpu.v(0), 0x37);
}

#[test]
fn jp_sets_pc() {
    let mut cpu = machine(&[0x1234]);
    run(&mut cpu, 1);
    assert_eq!(cpu.pc(), 0x234);
}

#[test]
fn jp_idx_adds_v0() {
    let mut cpu = machine(&[0x6012, 0xB234]);
    run(&mut cpu, 2);
    assert_eq!(cpu.pc(), 0x246);
}

#[test]
fn se_imm_skips_when_equal() {
    let mut cpu = machine(&[0x6042, 0x3042]);
    run(&mut cpu, 2);
    assert_eq!(cpu.pc(), 0x206);
    let mut cpu = machine(&[0x6042, 0x3043]);
    run(&mut cpu, 2);
    assert_eq!(cpu.pc(), 0x204);
}

#[test]
fn sne_imm_skips_when_not_equal() {
    let mut cpu = machine(&[0x6042, 0x4043]);
    run(&mut cpu, 2);
    assert_eq!(cpu.pc(), 0x206);
    let mut cpu = machine(&[0x6042, 0x4042]);
    run(&mut cpu, 2);
    assert_eq!(cpu.pc(), 0x204);
}

#[test]
fn se_and_sne_reg_variants() {
    let mut cpu = machine(&[0x6007, 0x6107, 0x5010]);
    run(&mut cpu, 3);
    assert_eq!(cpu.pc(), 0x208);
    let mut cpu = machine(&[0x6007, 0x6108, 0x9010]);
    run(&mut cpu, 3);
    assert_eq!(cpu.pc(), 0x208);
    let mut cpu = machine(&[0x6007, 0x6107, 0x9010]);
    run(&mut cpu, 3);
    assert_eq!(cpu.pc(), 0x206);
}

#[test]
fn call_then_ret_restores_pc() {
    // call 0x206, which holds ret: pc lands on the word after the call
    let mut cpu = machine(&[0x2206, 0x6011, 0x6022, 0x00EE]);
    run(&mut cpu, 1);
    assert_eq!(cpu.pc(), 0x206);
    run(&mut cpu, 1); // ret
    assert_eq!(cpu.pc(), 0x202);
    run(&mut cpu, 1); // the instruction after the call
    assert_eq!(cpu.v(0), 0x11);
}

#[test]
fn ldi_imm_and_addi() {
    let mut cpu = machine(&[0xA100, 0x6A05, 0xFA1E]);
    run(&mut cpu, 3);
    assert_eq!(cpu.i(), 0x105);
}

#[test]
fn bcd_store_and_reload() {
    // V10 = 156; BCD at 0x300; reload V0..V2
    let mut cpu = machine(&[0x6A9C, 0xA300, 0xFA33, 0xF265]);
    run(&mut cpu, 4);
    assert_eq!(cpu.v(0), 1);
    assert_eq!(cpu.v(1), 5);
    assert_eq!(cpu.v(2), 6);
}

#[test]
fn store_and_load_registers_inclusive() {
    // V0..V2 = 9,8,7; store through V2 at 0x300; clear; reload through V2
    let mut cpu = machine(&[
        0x6009, 0x6108, 0x6207, 0xA300, 0xF255, 0x6000, 0x6100, 0x6200, 0xF265,
    ]);
    run(&mut cpu, 9);
    assert_eq!(cpu.v(0), 9);
    assert_eq!(cpu.v(1), 8);
    assert_eq!(cpu.v(2), 7);
}

#[test]
fn delay_timer_round_trip() {
    // V0 = 5; delay timer = V0; V1 = delay timer
    let mut cpu = machine(&[0x6005, 0xF015, 0xF107]);
    run(&mut cpu, 3);
    assert_eq!(cpu.v(1), 5);
    assert_eq!(cpu.dt(), 5);
}

#[test]
fn tick_floors_at_zero() {
    // Delay timer = 1: one tick reaches 0, further ticks stay at 0.
    let mut cpu = machine(&[0x6001, 0xF015]);
    run(&mut cpu, 2);
    assert_eq!(cpu.dt(), 1);
    cpu.tick();
    assert_eq!(cpu.dt(), 0);
    cpu.tick();
    assert_eq!(cpu.dt(), 0);
}

#[test]
fn tick_decrements_from_reset_value() {
    let mut cpu = machine(&[]);
    assert_eq!(cpu.dt(), 0xFF);
    cpu.tick();
    assert_eq!(cpu.dt(), 0xFE);
}

#[test]
fn timer_decrement_floors_at_zero() {
    let mut timer = Timer::default();
    assert_eq!(timer.counter_value(), 0xFF);
    *timer.counter() = 1;
    timer.decrement();
    assert_eq!(timer.counter_value(), 0);
    timer.decrement();
    assert_eq!(timer.counter_value(), 0);
}

#[test]
fn regfile_pc_steps_and_wraps() {
    let mut regfile = RegFile::default();
    assert_eq!(regfile.pc, 0x200);
    regfile.advance_pc();
    assert_eq!(regfile.pc, 0x202);
    regfile.rewind_pc();
    regfile.rewind_pc();
    assert_eq!(regfile.pc, 0x1FE);
    regfile.pc = 0xFFFE;
    regfile.advance_pc();
    assert_eq!(regfile.pc, 0);
    regfile.rewind_pc();
    assert_eq!(regfile.pc, 0xFFFE);
}

#[test]
fn stack_depth_is_sixteen() {
    let mut stack = Stack::default();
    for depth in 0u16..16 {
        assert_eq!(stack.push(0x200 + depth), Ok(()));
    }
    assert_eq!(stack.push(0x300), Err(CpuFault::StackOverflow));
    for depth in (0u16..16).rev() {
        assert_eq!(stack.pop(), Ok(0x200 + depth));
    }
    assert_eq!(stack.pop(), Err(CpuFault::StackUnderflow));
}

#[test]
fn seventeenth_nested_call_is_fatal() {
    // call-to-self: every step pushes another return address
    let mut cpu = machine(&[0x2200]);
    let mut display = Display::default();
    let keypad = Keypad::default();
    for _ in 0..16 {
        assert_eq!(cpu.step(&mut display, &keypad), Ok(None));
    }
    assert_eq!(
        cpu.step(&mut display, &keypad),
        Err(CpuFault::StackOverflow)
    );
}

#[test]
fn ret_on_empty_stack_is_fatal() {
    let mut cpu = machine(&[0x00EE]);
    let mut display = Display::default();
    let keypad = Keypad::default();
    assert_eq!(
        cpu.step(&mut display, &keypad),
        Err(CpuFault::StackUnderflow)
    );
}

#[test]
fn draw_reports_draw_event() {
    let mut cpu = machine(&[0xD001]);
    let mut display = Display::default();
    let keypad = Keypad::default();
    assert_eq!(cpu.step(&mut display, &keypad), Ok(Some(CpuEvent::Draw)));
}
