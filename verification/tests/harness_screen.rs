//! Reading the text screen.

use c64research::harness::screen::{codes_for, contains, text, CELLS, COLS, ROWS, SCREEN};

fn blank() -> Vec<u8> {
    let mut ram = vec![0u8; 0x10000];
    ram[SCREEN..SCREEN + CELLS].fill(0x20);
    ram
}

fn write(ram: &mut [u8], row: usize, s: &str) {
    for (i, c) in codes_for(s).into_iter().enumerate() {
        ram[SCREEN + row * COLS + i] = c;
    }
}

#[test]
fn finds_plain_text() {
    let mut ram = blank();
    write(&mut ram, 3, "READY.");
    assert!(contains(&ram, "READY."));
    assert!(!contains(&ram, "NOTHING"));
}

/// The one that matters: reverse video must not hide text.
#[test]
fn finds_reverse_video_text() {
    let mut ram = blank();
    write(&mut ram, 0, "TEST DISK");
    for cell in &mut ram[SCREEN..SCREEN + COLS] {
        *cell |= 0x80; // RVS ON, as a directory header is printed
    }
    assert!(contains(&ram, "TEST DISK"), "bit 7 is reverse video, not the character");
}

#[test]
fn dump_is_readable_and_trimmed() {
    let mut ram = blank();
    write(&mut ram, 0, "HELLO");
    let dump = text(&ram);
    assert_eq!(dump.lines().next(), Some("HELLO"), "trailing blanks trimmed");
    // `split` rather than `lines`: every row is present, including blank
    // trailing ones, which `lines()` would swallow after the final newline.
    assert_eq!(dump.split('\n').count(), ROWS, "one line per screen row");
}

#[test]
fn an_empty_needle_matches_nothing() {
    assert!(!contains(&blank(), ""));
}
