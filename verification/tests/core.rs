use myuchip::cpu::{CpuEvent, CpuFault};
use myuchip::Core;

fn rom_of(words: &[u16]) -> Vec<u8> {
    let mut rom = Vec::new();
    for word in words {
        rom.push((word >> 8) as u8);
        rom.push((word & 0xFF) as u8);
    }
    rom
}

#[test]
fn core_starts_at_program_origin() {
    let core = Core::new(Vec::new());
    assert_eq!(core.cpu().pc(), 0x200);
    assert_eq!(core.cpu().i(), 0);
    for idx in 0..16 {
        assert_eq!(core.cpu().v(idx), 0);
    }
    assert_eq!(core.cpu().dt(), 0xFF);
}

#[test]
fn core_executes_loaded_program() {
    let mut core = Core::new(rom_of(&[0x6042, 0x7101]));
    assert_eq!(core.step(), Ok(None));
    assert_eq!(core.step(), Ok(None));
    assert_eq!(core.cpu().v(0), 0x42);
    assert_eq!(core.cpu().v(1), 0x01);
    assert_eq!(core.cpu().pc(), 0x204);
}

#[test]
fn core_installs_font_at_conventional_offset() {
    // load glyph 0 (five rows from 0x050) into V0..V4
    let mut core = Core::new(rom_of(&[0xA050, 0xF465]));
    core.step().unwrap();
    core.step().unwrap();
    assert_eq!(core.cpu().v(0), 0xF0);
    assert_eq!(core.cpu().v(1), 0x90);
    assert_eq!(core.cpu().v(2), 0x90);
    assert_eq!(core.cpu().v(3), 0x90);
    assert_eq!(core.cpu().v(4), 0xF0);
    // glyph F starts at 0x050 + 15 * 5
    let mut core = Core::new(rom_of(&[0xA09B, 0xF465]));
    core.step().unwrap();
    core.step().unwrap();
    assert_eq!(core.cpu().v(0), 0xF0);
    assert_eq!(core.cpu().v(1), 0x80);
    assert_eq!(core.cpu().v(2), 0xF0);
    assert_eq!(core.cpu().v(3), 0x80);
    assert_eq!(core.cpu().v(4), 0x80);
}

#[test]
fn core_truncates_oversized_rom() {
    // exactly 0xE00 bytes fit; anything further is dropped at the boundary
    let mut rom = vec![0u8; 0xE00];
    rom[0] = 0x1F; // 0x200: jp 0xFFE
    rom[1] = 0xFE;
    rom[0xDFE] = 0x60; // 0xFFE, the last word that fits: V0 = 0x55
    rom[0xDFF] = 0x55;
    rom.extend_from_slice(&[0x60, 0x66]); // past the boundary: dropped
    let mut core = Core::new(rom);
    assert_eq!(core.step(), Ok(None));
    assert_eq!(core.step(), Ok(None));
    assert_eq!(core.cpu().v(0), 0x55);
    // pc wrapped past the end; the dropped bytes never landed at address 0
    assert_eq!(core.step(), Err(CpuFault::UnimplementedOpcode(0)));
}

#[test]
fn core_tick_reaches_zero_and_stays() {
    let mut core = Core::new(rom_of(&[0x6001, 0xF015]));
    core.step().unwrap();
    core.step().unwrap();
    assert_eq!(core.cpu().dt(), 1);
    core.tick();
    assert_eq!(core.cpu().dt(), 0);
    core.tick();
    assert_eq!(core.cpu().dt(), 0);
}

#[test]
fn core_wait_for_key_and_resume() {
    let mut core = Core::new(rom_of(&[0xF00A]));
    assert_eq!(core.step(), Ok(Some(CpuEvent::WaitForKey)));
    assert_eq!(core.cpu().pc(), 0x200);
    core.update_keys(vec![0]);
    assert_eq!(core.step(), Ok(None));
    assert_eq!(core.cpu().v(0), 0x1);
    assert_eq!(core.cpu().pc(), 0x202);
}

#[test]
fn core_draw_shows_in_display_view() {
    let mut core = Core::new(rom_of(&[0xA050, 0xD011]));
    core.step().unwrap();
    assert_eq!(core.step(), Ok(Some(CpuEvent::Draw)));
    // glyph 0's top row 0xF0: four lit pixels from the origin
    assert_eq!(core.display().read(0), 0xFFFFFFFF);
    assert_eq!(core.display().read(3), 0xFFFFFFFF);
    assert_eq!(core.display().read(4), 0);
}

#[test]
fn core_surfaces_faults() {
    let mut core = Core::new(rom_of(&[0x0ABC]));
    assert_eq!(core.step(), Err(CpuFault::UnimplementedOpcode(0x0ABC)));
    let mut core = Core::new(rom_of(&[0x00EE]));
    assert_eq!(core.step(), Err(CpuFault::StackUnderflow));
}
