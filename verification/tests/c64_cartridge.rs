//! Banking with and without a cartridge.

use c64research::c64::{Board, Cartridge};
use c64research::mos6502::Bus;

/// Blank ROMs: these tests are about *banking*, so what the ROMs contain
/// doesn't matter: only which of them the CPU can see.
fn board() -> Board {
    Board::new(&[0x11; 0x2000], &[0x22; 0x2000], &[0; 0x1000])
}

#[test]
fn without_a_cartridge_8000_is_plain_ram() {
    let mut b = board();
    b.ram[0x8000] = 0x5A;
    assert_eq!(b.read(0x8000), 0x5A);
    assert_eq!(b.read(0xA000), 0x22, "BASIC ROM is visible at $A000");
}

#[test]
fn an_8k_cartridge_appears_at_8000_and_leaves_basic_alone() {
    let mut b = board();
    let mut rom = [0u8; 0x2000];
    rom[0] = 0xAB;
    b.set_cartridge(Some(Cartridge::lo8k(&rom)));

    assert_eq!(b.read(0x8000), 0xAB, "ROML is visible");
    assert_eq!(b.read(0xA000), 0x22, "an 8K cartridge must not displace BASIC");
}

/// The defining property of a 16 KB cartridge: it takes `$A000` away from
/// BASIC, which is how it owns the machine.
#[test]
fn a_16k_cartridge_replaces_basic_rom() {
    let mut b = board();
    let mut rom = [0u8; 0x4000];
    rom[0] = 0xAB; // ROML
    rom[0x2000] = 0xCD; // ROMH
    b.set_cartridge(Some(Cartridge::hi16k(&rom)));

    assert_eq!(b.read(0x8000), 0xAB, "ROML at $8000");
    assert_eq!(b.read(0xA000), 0xCD, "ROMH replaces BASIC at $A000");
}

/// Writes still go to the RAM underneath, exactly as they do beneath the
/// ROMs: the rule RAMTAS depends on.
#[test]
fn writes_under_a_cartridge_reach_ram() {
    let mut b = board();
    let mut rom = [0u8; 0x2000];
    rom[0] = 0xAB;
    b.set_cartridge(Some(Cartridge::lo8k(&rom)));

    b.write(0x8000, 0x77);
    assert_eq!(b.read(0x8000), 0xAB, "the read still sees the cartridge");
    // Bank the cartridge out (HIRAM low) and the write is revealed.
    b.write(0x0000, 0xFF); // all outputs
    b.write(0x0001, 0x00); // LORAM/HIRAM/CHAREN all low
    assert_eq!(b.read(0x8000), 0x77, "the write landed in RAM underneath");
}

#[test]
fn cbm80_signature_marks_an_autostart_cartridge() {
    let mut rom = [0u8; 0x2000];
    assert!(!Cartridge::lo8k(&rom).is_autostart());
    rom[0x04..0x09].copy_from_slice(&[0xC3, 0xC2, 0xCD, 0x38, 0x30]);
    assert!(Cartridge::lo8k(&rom).is_autostart());
}

#[test]
fn a_short_image_is_zero_padded() {
    let c = Cartridge::lo8k(&[0x01, 0x02]);
    assert_eq!(c.roml[0], 0x01);
    assert_eq!(c.roml[2], 0x00, "the rest reads as zero rather than panicking");
}

/// What is said to be banked in is what a read finds there: a 16 KB cartridge
/// takes BASIC's place, an 8 KB one does not.
#[test]
fn banking_tells_of_a_cartridge() {
    let mut b = board();
    b.write(0x0000, 0x2F);
    b.write(0x0001, 0x37);
    assert_eq!(b.banking(), (true, true, true, false));
    b.set_cartridge(Some(Cartridge::lo8k(&[0; 0x2000])));
    assert_eq!(b.banking(), (true, true, true, false));
    b.set_cartridge(Some(Cartridge::hi16k(&[0; 0x4000])));
    assert_eq!(b.banking(), (false, true, true, false));
    b.set_cartridge(None);
    b.write(0x0001, 0x33);
    assert_eq!(b.banking(), (true, true, false, true));
    b.write(0x0001, 0x30);
    assert_eq!(b.banking(), (false, false, false, false));
}
