//! Joysticks on the keyboard's port.

use c64research::c64::{joystick, Board};
use c64research::mos6502::Bus;

/// Blank ROMs: these tests only exercise the CIA1 port reads.
fn board() -> Board {
    Board::new(&[0; 0x2000], &[0; 0x2000], &[0; 0x1000])
}

#[test]
fn joystick2_pulls_dc00_bits_low() {
    let mut b = board();
    // Up + fire held (active-low: clear those bits).
    b.joy2 = joystick::CENTER & !(joystick::UP | joystick::FIRE);
    let v = b.read(0xDC00); // I/O is mapped at reset ($37 banking)
    assert_eq!(v & joystick::UP, 0, "up is pressed -> bit low");
    assert_eq!(v & joystick::FIRE, 0, "fire is pressed -> bit low");
    assert_eq!(v & joystick::DOWN, joystick::DOWN, "down is released -> bit high");
    assert_eq!(v & joystick::RIGHT, joystick::RIGHT, "right is released -> bit high");
}

#[test]
fn joystick1_and_the_keyboard_share_dc01() {
    let mut b = board();
    b.joy1 = joystick::CENTER & !joystick::LEFT; // left held on joystick 1
    let v = b.read(0xDC01);
    assert_eq!(v & joystick::LEFT, 0, "joystick 1 pulls its DATA line low on $DC01");
}

#[test]
fn centered_joystick_reads_all_ones() {
    let mut b = board();
    // No keys, no joystick: $DC00 low bits all high (nothing pressed).
    assert_eq!(b.read(0xDC00) & 0x1F, 0x1F);
}
