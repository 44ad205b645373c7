use myuchip::bus::memory::Memory;
use myuchip::bus::Bus;
use myuchip::cpu::{Cpu, CpuEvent};
use myuchip::display::Display;
use myuchip::keypad::{Keymap, Keypad};

fn machine_with(program: &[u16], data: &[(usize, u8)]) -> Cpu {
    let mut mem = Memory::default();
    let mut addr = 0x200;
    for word in program {
        mem.write(addr, (word >> 8) as u8);
        mem.write(addr + 1, (word & 0xFF) as u8);
        addr += 2;
    }
    for &(at, byte) in data {
        mem.write(at, byte);
    }
    Cpu::new(Bus::new(mem))
}

#[test]
fn draw_sets_pixels_and_wraps() {
    // one row 0b1010_0000 drawn at (62, 31): wraps both edges
    let mut cpu = machine_with(
        &[0x603E, 0x611F, 0xA300, 0xD011],
        &[(0x300, 0xA0)],
    );
    let mut display = Display::default();
    let keypad = Keypad::default();
    for _ in 0..4 {
        cpu.step(&mut display, &keypad).unwrap();
    }
    let last_row = 64 * 31;
    assert_eq!(display.read(last_row + 62), 0xFFFFFFFF); // bit 0
    assert_eq!(display.read(last_row + 63), 0); // bit 1 clear
    assert_eq!(display.read(last_row + 0), 0xFFFFFFFF); // bit 2, wrapped column
    assert_eq!(cpu.v(0xF), 0); // nothing was lit before
}

#[test]
fn draw_twice_restores_framebuffer() {
    // draw the same two-row sprite twice at the same coordinates
    let mut cpu = machine_with(
        &[0x6005, 0x6106, 0xA300, 0xD012, 0xD012],
        &[(0x300, 0xA0), (0x301, 0x50)],
    );
    let mut display = Display::default();
    let keypad = Keypad::default();
    for _ in 0..4 {
        cpu.step(&mut display, &keypad).unwrap();
    }
    // after the first draw: set bits lit, no collision
    assert_eq!(display.read(64 * 6 + 5), 0xFFFFFFFF);
    assert_eq!(display.read(64 * 6 + 7), 0xFFFFFFFF);
    assert_eq!(display.read(64 * 7 + 6), 0xFFFFFFFF);
    assert_eq!(cpu.v(0xF), 0);
    // the second draw undoes every pixel and reports the collision
    assert_eq!(cpu.step(&mut display, &keypad), Ok(Some(CpuEvent::Draw)));
    for idx in 0..2048 {
        assert_eq!(display.read(idx), 0);
    }
    assert_eq!(cpu.v(0xF), 1);
}

#[test]
fn draw_zero_rows_changes_nothing() {
    let mut cpu = machine_with(&[0xA300, 0xD010], &[(0x300, 0xFF)]);
    let mut display = Display::default();
    let keypad = Keypad::default();
    cpu.step(&mut display, &keypad).unwrap();
    assert_eq!(cpu.step(&mut display, &keypad), Ok(Some(CpuEvent::Draw)));
    for idx in 0..2048 {
        assert_eq!(display.read(idx), 0);
    }
    assert_eq!(cpu.v(0xF), 0);
}

#[test]
fn cls_clears_every_pixel() {
    let mut cpu = machine_with(&[0xD011, 0x00E0], &[(0x000, 0xFF)]);
    let mut display = Display::default();
    let keypad = Keypad::default();
    cpu.step(&mut display, &keypad).unwrap(); // draws the font-free byte at I=0
    cpu.step(&mut display, &keypad).unwrap(); // cls
    for idx in 0..2048 {
        assert_eq!(display.read(idx), 0);
    }
}

#[test]
fn wait_for_key_rewinds_until_key_is_down() {
    let mut cpu = machine_with(&[0xF00A], &[]);
    let mut display = Display::default();
    let mut keypad = Keypad::default();
    assert_eq!(cpu.pc(), 0x200);
    assert_eq!(
        cpu.step(&mut display, &keypad),
        Ok(Some(CpuEvent::WaitForKey))
    );
    assert_eq!(cpu.pc(), 0x200);
    assert_eq!(
        cpu.step(&mut display, &keypad),
        Ok(Some(CpuEvent::WaitForKey))
    );
    assert_eq!(cpu.pc(), 0x200);
    // key at physical position 5 goes down: V0 receives its CPU code
    keypad.update_state(vec![5]);
    assert_eq!(cpu.step(&mut display, &keypad), Ok(None));
    assert_eq!(cpu.pc(), 0x202);
    assert_eq!(cpu.v(0), 0x5);
}

#[test]
fn skp_skips_only_when_key_down() {
    // V0 = 4; skip if key 4 pressed
    let mut cpu = machine_with(&[0x6004, 0xE09E], &[]);
    let mut display = Display::default();
    let mut keypad = Keypad::default();
    cpu.step(&mut display, &keypad).unwrap();
    keypad.update_state(vec![Keymap::key_index(4)]);
    cpu.step(&mut display, &keypad).unwrap();
    assert_eq!(cpu.pc(), 0x206);

    let mut cpu = machine_with(&[0x6004, 0xE09E], &[]);
    let keypad = Keypad::default();
    cpu.step(&mut display, &keypad).unwrap();
    cpu.step(&mut display, &keypad).unwrap();
    assert_eq!(cpu.pc(), 0x204);
}

#[test]
fn sknp_skips_only_when_key_up() {
    let mut cpu = machine_with(&[0x6004, 0xE0A1], &[]);
    let mut display = Display::default();
    let keypad = Keypad::default();
    cpu.step(&mut display, &keypad).unwrap();
    cpu.step(&mut display, &keypad).unwrap();
    assert_eq!(cpu.pc(), 0x206);

    let mut cpu = machine_with(&[0x6004, 0xE0A1], &[]);
    let mut keypad = Keypad::default();
    cpu.step(&mut display, &keypad).unwrap();
    keypad.update_state(vec![Keymap::key_index(4)]);
    cpu.step(&mut display, &keypad).unwrap();
    assert_eq!(cpu.pc(), 0x204);
}

#[test]
fn keymap_tables_are_inverses() {
    for code in 0..16 {
        assert_eq!(Keymap::cpu_index(Keymap::key_index(code)) as usize, code);
    }
    // the physical layout's first row holds 1, 2, 3, C
    assert_eq!(Keymap::cpu_index(0), 0x1);
    assert_eq!(Keymap::cpu_index(3), 0xC);
    assert_eq!(Keymap::key_index(0x0), 0xD);
}

#[test]
fn any_key_prefers_lowest_physical_position() {
    let mut keypad = Keypad::default();
    assert_eq!(keypad.any_key(), None);
    keypad.update_state(vec![13, 2]);
    // physical 2 wins over physical 13; its CPU code is 3
    assert_eq!(keypad.any_key(), Some(0x3));
}

#[test]
fn update_state_replaces_whole_state() {
    let mut keypad = Keypad::default();
    keypad.update_state(vec![0, 1]);
    assert!(keypad.is_key_pressed(0x1)); // physical 0 carries CPU code 1
    assert!(keypad.is_key_pressed(0x2));
    keypad.update_state(vec![4]);
    assert!(!keypad.is_key_pressed(0x1)); // released by the new poll
    assert!(keypad.is_key_pressed(0x4));
    // out-of-range positions are ignored
    keypad.update_state(vec![99]);
    assert_eq!(keypad.any_key(), None);
}

#[test]
fn display_as_slice_matches_reads() {
    let mut cpu = machine_with(&[0x6000, 0x6100, 0xA300, 0xD011], &[(0x300, 0x80)]);
    let mut display = Display::default();
    let keypad = Keypad::default();
    for _ in 0..4 {
        cpu.step(&mut display, &keypad).unwrap();
    }
    let slice = display.as_slice();
    assert_eq!(slice.len(), 2048);
    assert_eq!(slice[0], 0xFFFFFFFF);
    assert_eq!(slice[1], 0);
}
