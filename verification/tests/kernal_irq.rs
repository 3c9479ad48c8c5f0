//! The interrupt handler and the keyboard.

use c64research::kernal::irq::{blink_cursor, decode_and_buffer, irq_handler};
use c64research::kernal::{loc, C64Mem, STKEY, TIME_LO};

/// A machine set up the way the editor state is just after CINT, with no
/// keys held (keyboard columns read $FF).
fn ready() -> C64Mem {
    let mut m = C64Mem::new();
    m.w(loc::CIA1_PRB, 0xFF); // no key pressed
    m.w(0x0289, 0x0A); // buffer max = 10
    m.w(loc::CURSOR_ENABLE, 0x00); // cursor enabled
    m.w(loc::BLINK_COUNTDOWN, 0x01); // toggles on the next tick
    m.w(loc::LINE_PTR, 0x00); // cursor line -> $0400
    m.w(loc::LINE_PTR + 1, 0x04);
    m.w(loc::TEXT_COLOR, 0x0E);
    m.w(loc::LAST_KEY, 0x40);
    m
}

#[test]
fn irq_advances_the_jiffy_clock() {
    let mut m = ready();
    let before = m.r(TIME_LO);
    irq_handler(&mut m);
    assert_eq!(m.r(TIME_LO), before.wrapping_add(1));
    // No key held -> STOP key latch reads the empty column ($FF).
    assert_eq!(m.r(STKEY), 0xFF);
}

#[test]
fn cursor_blink_draws_reverse_block() {
    let mut m = ready();
    m.w(0x0400, 0x01); // an 'A' screen code at the cursor
    irq_handler(&mut m);
    // Block turned on: the cell now shows the reverse-video version.
    assert_eq!(m.r(0x0400), 0x01 ^ 0x80);
}

#[test]
fn decoding_key_index_62_types_q() {
    // Matrix index 62 is 'Q'; unshifted it decodes to PETSCII $51.
    let mut m = ready();
    decode_and_buffer(&mut m, 62);
    assert_eq!(m.r(loc::KBD_COUNT), 1);
    assert_eq!(m.r(loc::KBD_BUFFER), 0x51); // 'Q'
}

#[test]
fn shifted_key_uses_the_shift_table() {
    let mut m = ready();
    m.w(loc::MODIFIERS, 0x01); // SHIFT held
    m.w(loc::LAST_KEY, 0x40);
    decode_and_buffer(&mut m, 8); // index 8: unshifted '3' / shifted '#'
    assert_eq!(m.r(loc::KBD_BUFFER), 0x23); // '#'
}

#[test]
fn debounce_suppresses_a_held_key() {
    let mut m = ready();
    decode_and_buffer(&mut m, 62); // first press -> buffered
    decode_and_buffer(&mut m, 62); // still held -> ignored
    assert_eq!(m.r(loc::KBD_COUNT), 1);
}

/// The cell under the cursor gets its own character and colour back.
#[test]
fn a_blink_restores_what_was_under_the_cursor() {
    let mut m = ready();
    m.w(0x0400, 0x01);
    m.w(0xD800, 0x05);
    blink_cursor(&mut m);
    assert_eq!((m.r(0x0400), m.r(0xD800)), (0x81, 0x0E));
    m.w(loc::BLINK_COUNTDOWN, 0x01);
    m.w(loc::TEXT_COLOR, 0x07);
    blink_cursor(&mut m);
    assert_eq!((m.r(0x0400), m.r(0xD800)), (0x01, 0x05));
}
