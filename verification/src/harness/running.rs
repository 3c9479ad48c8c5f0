//! What a frame of the rig does, and what its screen shows, cell by cell.

use vstd::prelude::*;
use crate::bits::{bit_of, lemma_masks};
use crate::c64::machine;
use crate::c64::memory;
use crate::c64::Board;
use crate::harness::keyboard;
use crate::harness::{self, screen, Rig};
use crate::{c64, text};

verus! {

// ---- the screen ----

/// Text is shown where 1000 cells from $0400 hold its codes, whatever their bit 7: a
/// letter's code is its place in the alphabet, and other characters stand for
/// themselves, but for `@`, which is 0.
pub proof fn law_shown_text(ram: Seq<u8>, text: Seq<char>, at: int)
    requires
        vstd::utf8::is_ascii_chars(text),
        text.len() > 0,
        0 <= at,
        at + text.len() <= 1000,
        forall|k: int| 0 <= k < text.len() ==> cell_shows(#[trigger] ram[0x0400 + at + k], text[k]),
    ensures
        screen::shows(ram, text),
{
    broadcast use vstd::utf8::is_ascii_chars_encode_utf8;

    let needle = screen::codes(text);
    let bytes = vstd::utf8::encode_utf8(text);
    assert(needle.len() == text.len());
    assert forall|k: int| 0 <= k < needle.len() implies
        ram[screen::SCREEN + at + k] as int % 128 == #[trigger] needle[k] by {
        assert(bytes[k] == text[k] as u8);
        assert(cell_shows(ram[0x0400 + at + k], text[k]));
    }
    assert(screen::stands_at(ram, needle, at));
}

/// Nothing else shows the text.
pub proof fn law_text_shown_stands_there(ram: Seq<u8>, text: Seq<char>) -> (at: int)
    requires
        vstd::utf8::is_ascii_chars(text),
        screen::shows(ram, text),
    ensures
        0 <= at,
        at + text.len() <= 1000,
        forall|k: int| 0 <= k < text.len() ==> cell_shows(ram[0x0400 + at + k], #[trigger] text[k]),
{
    broadcast use vstd::utf8::is_ascii_chars_encode_utf8;

    let needle = screen::codes(text);
    let bytes = vstd::utf8::encode_utf8(text);
    let at = choose|at: int| 0 <= at <= screen::CELLS - needle.len()
        && #[trigger] screen::stands_at(ram, needle, at);
    assert forall|k: int| 0 <= k < text.len() implies
        cell_shows(ram[0x0400 + at + k], #[trigger] text[k]) by {
        assert(bytes[k] == text[k] as u8);
        assert(needle[k] == screen::screen_code(bytes[k]));
        assert(ram[screen::SCREEN + at + k] as int % 128 == needle[k]);
    }
    at
}

/// Does a screen cell show a character? Capitals and small letters look the same.
pub open spec fn cell_shows(cell: u8, c: char) -> bool {
    let code = cell as int % 128;
    if 'A' <= c <= 'Z' {
        code == c as int - 'A' as int + 1
    } else if 'a' <= c <= 'z' {
        code == c as int - 'a' as int + 1
    } else if c == '@' {
        code == 0
    } else {
        code == c as int
    }
}

/// A cell reads as the character that it shows, as far as that is on a plain keyboard.
pub proof fn law_cells_read_back(cell: u8, c: char)
    requires
        'A' <= c <= 'Z' || ' ' <= c <= '?' || c == '@',
        cell_shows(cell, c),
    ensures
        screen::glyph(cell) == c,
{
}

/// A row reads as its 40 cells, without the blanks at its end.
pub proof fn law_rows(ram: Seq<u8>, row: int, col: int)
    requires
        0 <= row < 25,
        0 <= col < 40,
    ensures
        ({
            let text = screen::row_text(ram, row);
            &&& text.len() <= 40
            &&& col < text.len() ==> text[col] == screen::glyph(ram[0x0400 + 40 * row + col])
            &&& col >= text.len() ==> text::is_space_char(screen::glyph(ram[0x0400 + 40 * row + col]))
            &&& text.len() > 0 ==> !text::is_space_char(text.last())
        }),
{
    let cells = Seq::new(40, |col: int| screen::glyph(ram[screen::SCREEN + row * screen::COLS + col]));
    let hi = text::law_trimmed_end(cells);
    assert(cells[col] == screen::glyph(ram[0x0400 + 40 * row + col]));
}

// ---- typing ----

/// A keystroke presses its own key and, where it needs it, SHIFT, and no other.
pub proof fn law_keystroke(b: Board, code: u8, shift: bool, c: int, r: u8)
    requires
        code < 64,
        0 <= c < 8,
        r < 8,
    ensures
        bit_of(keyboard::pressed(b, code, shift).key_matrix[c], r)
            == (8 * c + r == code || shift && 8 * c + r == 15 || bit_of(b.key_matrix[c], r)),
{
    memory::law_key_places(b, code, true, c, r);
    memory::law_key_places(c64::key_set(b, code, true), 15, true, c, r);
}

/// What a frame finds on the keyboard: the key that the typist holds or takes up, and
/// nothing else.
pub proof fn law_keyboard_of_a_frame(r: Rig, c: int, k: u8)
    requires
        0 <= c < 8,
        k < 8,
        r.typing.hold matches Some(h) ==> h.0 < 64,
        forall|ch: u32| #[trigger] r.keys.dom().contains(ch) ==> r.keys[ch].0 < 64,
    ensures
        ({
            let down = bit_of(harness::keystroke_typed(r).c64.board.key_matrix[c], k);
            let key = match r.typing.hold {
                Some((code, shift, _)) => Some((code, shift)),
                None => if r.typing.gap == 0 && r.queue.len() > 0
                    && r.keys.dom().contains(r.queue[0] as u32) {
                    Some(r.keys[r.queue[0] as u32])
                } else {
                    None
                },
            };
            down == (key matches Some(t) && (8 * c + k == t.0 || t.1 && 8 * c + k == 15))
        }),
{
    let b = Board {
        key_matrix: vstd::array::spec_array_fill_for_copy_type::<u8, 8>(0), ..r.c64.board
    };
    lemma_masks(k);
    assert(b.key_matrix[c] == 0);
    match keyboard::key_down(r.typing, r.queue, r.keys) {
        Some((code, shift)) => law_keystroke(b, code, shift, c, k),
        None => {},
    }
}

// ---- time ----

/// A frame is 19700 cycles, and it ends with the instruction that reaches them.
pub proof fn law_frame_length(r: Rig)
    requires
        harness::has_time(r, 1),
    ensures
        ({
            let t = harness::frame_run(r).c64.cpu.cycles;
            r.c64.cpu.cycles + 19700 <= t <= r.c64.cpu.cycles + 19700 + machine::MAX_STEP
        }),
{
    harness::law_frame_takes_its_time(r);
}

/// A step of the rig: the computer's instruction, then each drive for just as long, on
/// the same bus.
pub proof fn law_rig_step(r: Rig)
    ensures
        ({
            let (m, n) = machine::stepped(r.c64);
            let s = harness::rig_stepped(r);
            &&& s.typing == r.typing && s.queue == r.queue && s.keys == r.keys
            &&& s.c64 == harness::on_bus(m, s.c64.board.iec)
            &&& r.drive is None && r.real_drive is None ==> s.c64 == m
            &&& r.drive is Some && r.real_drive is None ==> {
                let (d, bus) = harness::drive_clocked(r.drive->0, m.board.iec, n as nat);
                s.drive == Some(d) && s.c64.board.iec == bus
            }
            &&& r.drive is None && r.real_drive is Some ==> {
                let (d, bus) = harness::real_clocked(r.real_drive->0, m.board.iec, n as u32);
                s.real_drive == Some(d) && s.c64.board.iec == bus
            }
        }),
{
    reveal(harness::rig_stepped);
}

/// A drive with a clock of its own keeps up: it never stays behind, and is ahead by
/// less than its last instruction took.
pub proof fn law_drive_keeps_up(d: harness::RealDrive, bus: crate::iec::Bus, cycles: u32)
    ensures
        d.ahead >= cycles ==> harness::real_clocked(d, bus, cycles).0.ahead == d.ahead - cycles
            && harness::real_clocked(d, bus, cycles).0.machine == d.machine
            && harness::real_clocked(d, bus, cycles).1 == bus,
        d.ahead < cycles ==> {
            let (e, b, over) = harness::caught_up(d.machine, bus, (cycles - d.ahead) as nat);
            &&& harness::real_clocked(d, bus, cycles).0.machine == e
            &&& harness::real_clocked(d, bus, cycles).1 == b
            &&& harness::real_clocked(d, bus, cycles).0.ahead == over as u32
        },
{
}

/// Catching up is one step on the bus, and then the rest of the time.
pub proof fn law_catching_up(m: crate::c1541::Machine, bus: crate::iec::Bus, left: nat)
    requires
        left > 0,
    ensures
        ({
            let (n, b, spent) = crate::c1541::machine::drive_stepped_on_bus(m, bus, 1);
            &&& 0 < spent < left ==> harness::caught_up(m, bus, left)
                == harness::caught_up(n, b, (left - spent) as nat)
            &&& spent >= left ==> harness::caught_up(m, bus, left) == (n, b, (spent - left) as nat)
        }),
{
}

} // verus!
