//! Typing characters on the key matrix.

use std::collections::VecDeque;
use c64research::c64::C64;
use c64research::harness::keyboard::{char_map, is_printable, Typist};

#[test]
fn maps_the_characters_a_load_command_needs() {
    let m = char_map();
    for c in "load\"*\",8,1\r".chars() {
        assert!(m.contains_key(c), "no C64 key for {c:?}");
    }
}

#[test]
fn shifted_characters_are_marked_as_shifted() {
    let m = char_map();
    let (_, shift) = m.get('"').unwrap();
    assert!(shift, "a quote is SHIFT+2 on a C64");
    let (_, shift) = m.get('8').unwrap();
    assert!(!shift, "a digit is unshifted");
}

#[test]
fn control_codes_are_not_characters() {
    for cp in [0x00, 0x08, 0x0A, 0x0D, 0x1B, 0x7F, 0x9F] {
        assert!(!is_printable(cp), "${cp:02X} is a control code");
    }
    for cp in [0x20, b'A' as u32, 0x7E, 0xA0] {
        assert!(is_printable(cp), "${cp:02X} is printable");
    }
}

/// A machine with blank ROMs. Enough to exercise the key matrix, since
/// nothing here ever steps the CPU.
fn matrix_only_machine() -> Box<C64> {
    Box::new(C64::new(&[0; 0x2000], &[0; 0x2000], &[0; 0x1000]))
}

#[test]
fn unmapped_characters_are_recorded_not_swallowed() {
    let map = char_map();
    let mut c64 = matrix_only_machine();
    let mut q: VecDeque<char> = "a\u{1F600}b".chars().collect();
    let mut t = Typist::default();

    // Run long enough to drain all three.
    for _ in 0..24 {
        c64.board.key_matrix = [0; 8];
        t.frame(&mut c64, &mut q, &map);
    }
    assert!(q.is_empty(), "every character should have been consumed");
    assert_eq!(t.dropped(), &['\u{1F600}'], "the emoji has no C64 key");
}

/// Each character is held, then released, so the KERNAL's scan sees both.
#[test]
fn a_character_is_pressed_then_released() {
    let map = char_map();
    let (code, _) = map.get('a').unwrap();
    let (line, bit) = ((code / 8) as usize, code % 8);

    let mut c64 = matrix_only_machine();
    let mut q: VecDeque<char> = "a".chars().collect();
    let mut t = Typist::default();

    let mut pressed = 0;
    let mut released_after = false;
    for _ in 0..(Typist::HOLD_FRAMES + Typist::GAP_FRAMES + 1) {
        c64.board.key_matrix = [0; 8];
        t.frame(&mut c64, &mut q, &map);
        if c64.board.key_matrix[line] & (1 << bit) != 0 {
            pressed += 1;
        } else if pressed > 0 {
            released_after = true;
        }
    }
    assert_eq!(pressed, Typist::HOLD_FRAMES, "held for HOLD_FRAMES frames");
    assert!(released_after, "and released afterwards, or the next key is debounced away");
}
