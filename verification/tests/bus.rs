use myuchip::bus::memory::Memory;
use myuchip::bus::{Address, Bus};
use myuchip::cpu::opcode::Opcode;

#[test]
fn memory_starts_zeroed() {
    let mem = Memory::default();
    assert_eq!(mem.read(0), 0);
    assert_eq!(mem.read(0x200), 0);
    assert_eq!(mem.read(0xFFF), 0);
}

#[test]
fn memory_read_back() {
    let mut mem = Memory::default();
    mem.write(0x123, 0xAB);
    assert_eq!(mem.read(0x123), 0xAB);
    assert_eq!(mem.read(0x124), 0x00);
}

#[test]
fn address_masks_to_12_bits() {
    assert_eq!(Address::new(0x0ABC).masked_address(), 0xABC);
    assert_eq!(Address::new(0x1ABC).masked_address(), 0xABC);
    assert_eq!(Address::new(0xFFFF).masked_address(), 0xFFF);
}

#[test]
fn address_next_wraps() {
    assert_eq!(Address::new(0x0123).masked_next_address(), 0x124);
    assert_eq!(Address::new(0x0FFF).masked_next_address(), 0x000);
    assert_eq!(Address::new(0xFFFF).masked_next_address(), 0x000);
}

#[test]
fn read_byte_masks_address() {
    let mut mem = Memory::default();
    mem.write(0x045, 0x5A);
    let bus = Bus::new(mem);
    assert_eq!(bus.read_byte(Address::new(0x045)), 0x5A);
    // Same byte through a wrapped 16-bit address.
    assert_eq!(bus.read_byte(Address::new(0x3045)), 0x5A);
}

#[test]
fn read_word_is_big_endian() {
    let mut mem = Memory::default();
    mem.write(0x200, 0x12);
    mem.write(0x201, 0x34);
    let bus = Bus::new(mem);
    assert_eq!(bus.read_word(Address::new(0x200)), 0x1234);
}

#[test]
fn read_word_wraps_at_end_of_memory() {
    let mut mem = Memory::default();
    mem.write(0xFFF, 0xAB);
    mem.write(0x000, 0xCD);
    let bus = Bus::new(mem);
    assert_eq!(bus.read_word(Address::new(0xFFF)), 0xABCD);
}

#[test]
fn write_byte_masks_address() {
    let mem = Memory::default();
    let mut bus = Bus::new(mem);
    bus.write_byte(Address::new(0x2010), 0x77);
    assert_eq!(bus.read_byte(Address::new(0x010)), 0x77);
}

#[test]
fn opcode_fields_decode() {
    let op = Opcode::new(0xD123);
    assert_eq!(op.raw(), 0xD123);
    assert_eq!(op.x(), 0x1);
    assert_eq!(op.y(), 0x2);
    assert_eq!(op.n(), 0x3);
    assert_eq!(op.kk(), 0x23);
    assert_eq!(op.nnn(), 0x123);
}

#[test]
fn opcode_fields_decode_extremes() {
    let op = Opcode::new(0xFFFF);
    assert_eq!(op.x(), 0xF);
    assert_eq!(op.y(), 0xF);
    assert_eq!(op.n(), 0xF);
    assert_eq!(op.kk(), 0xFF);
    assert_eq!(op.nnn(), 0xFFF);
    let zero = Opcode::new(0x0000);
    assert_eq!(zero.x(), 0);
    assert_eq!(zero.y(), 0);
    assert_eq!(zero.n(), 0);
    assert_eq!(zero.kk(), 0);
    assert_eq!(zero.nnn(), 0);
}
