//! Reading the C64's text screen.
//!
//! The screen is 1000 bytes of **screen codes** at `$0400`, not PETSCII and not
//! ASCII. `A` is 1, not 65; `@` is 0. Bit 7 is the reverse-video flag rather
//! than part of the character, which is the detail that catches people out: a
//! directory header is printed in reverse, so every code in it has bit 7 set and
//! a naive byte comparison finds nothing.

use vstd::prelude::*;
use crate::text as plain;

verus! {

/// Where screen memory lives by default, and how big it is.
pub const SCREEN: usize = 0x0400;
pub const COLS: usize = 40;
pub const ROWS: usize = 25;
pub const CELLS: usize = 1000;

/// A screen code as a printable character; graphics characters become a dot.
pub open spec fn glyph(code: u8) -> char {
    let c = code as int % 128;
    if c == 0 {
        '@'
    } else if c <= 26 {
        (0x40 + c) as char
    } else if 0x20 <= c <= 0x3F {
        c as char
    } else {
        '.'
    }
}

/// One screen code as a printable char, for dumps and failure messages.
///
/// Lossy on purpose: graphics characters become `.` so a dump stays readable in
/// a terminal. Don't parse the result: use [`contains`] to look for text.
pub fn code_to_char(code: u8) -> (c: char)
    ensures
        c == glyph(code),
{
    let c = code % 128;
    if c == 0 {
        '@'
    } else if c <= 26 {
        (0x40 + c) as char
    } else if 0x20 <= c && c <= 0x3F {
        c as char
    } else {
        '.'
    }
}

/// The screen code of an ASCII character: letters and `@` move, space, digits
/// and punctuation coincide.
pub open spec fn screen_code(b: u8) -> u8 {
    if 0x41 <= b <= 0x5A {
        (b - 0x40) as u8
    } else if 0x61 <= b <= 0x7A {
        (b - 0x60) as u8
    } else if b == 0x40 {
        0
    } else {
        b
    }
}

/// Text as screen codes, byte for byte of its UTF-8 form.
pub open spec fn codes(text: Seq<char>) -> Seq<u8> {
    vstd::utf8::encode_utf8(text).map_values(|b: u8| screen_code(b))
}

/// ASCII text as the screen codes the editor would store for it.
pub fn codes_for(text: &str) -> (v: Vec<u8>)
    ensures
        v@ == codes(text@),
{
    let bytes = text.as_bytes();
    let mut v: Vec<u8> = Vec::with_capacity(bytes.len());
    let mut k: usize = 0;
    while k < bytes.len()
        invariant
            k <= bytes.len(),
            bytes@ == vstd::utf8::encode_utf8(text@),
            v@ == codes(text@).take(k as int),
        decreases bytes.len() - k,
    {
        let b = bytes[k];
        v.push(
            if 0x41 <= b && b <= 0x5A {
                b - 0x40
            } else if 0x61 <= b && b <= 0x7A {
                b - 0x60
            } else if b == 0x40 {
                0
            } else {
                b
            },
        );
        assert(v@ =~= codes(text@).take(k + 1));
        k += 1;
    }
    assert(v@ =~= codes(text@));
    v
}

/// A row of the screen as text, trailing blanks trimmed.
pub open spec fn row_text(ram: Seq<u8>, row: int) -> Seq<char> {
    plain::trimmed_end(Seq::new(COLS as nat, |col: int| glyph(ram[SCREEN + row * COLS + col])))
}

/// The first `n` rows, a line each.
pub open spec fn rows_text(ram: Seq<u8>, n: int) -> Seq<char>
    decreases n,
{
    if n <= 0 {
        Seq::empty()
    } else if n == 1 {
        row_text(ram, 0)
    } else {
        rows_text(ram, n - 1).push('\n') + row_text(ram, n - 1)
    }
}

/// A row of the screen.
fn row(ram: &[u8], r: usize) -> (line: Vec<char>)
    requires
        r < ROWS,
        ram.len() >= SCREEN + CELLS,
    ensures
        line@ == row_text(ram@, r as int),
{
    let mut line: Vec<char> = Vec::with_capacity(40);
    let ghost whole = Seq::new(COLS as nat, |col: int| glyph(ram@[SCREEN + r * COLS + col]));
    let mut col: usize = 0;
    while col < COLS
        invariant
            col <= COLS,
            r < ROWS,
            ram.len() >= SCREEN + CELLS,
            whole == Seq::new(COLS as nat, |col: int| glyph(ram@[SCREEN + r * COLS + col])),
            line@ == whole.take(col as int),
        decreases COLS - col,
    {
        line.push(code_to_char(ram[SCREEN + r * COLS + col]));
        assert(line@ =~= whole.take(col + 1));
        col += 1;
    }
    assert(line@ =~= whole);
    while line.len() > 0 && plain::is_space(line[line.len() - 1])
        invariant
            plain::trimmed_end(line@) == plain::trimmed_end(whole),
        decreases line.len(),
    {
        line.pop();
    }
    line
}

/// The whole screen as text, one line per row, trailing blanks trimmed.
pub fn text(ram: &[u8]) -> (s: String)
    requires
        ram.len() >= SCREEN + CELLS,
    ensures
        s@ == rows_text(ram@, ROWS as int),
{
    let mut s = String::new();
    let mut r: usize = 0;
    while r < ROWS
        invariant
            r <= ROWS,
            ram.len() >= SCREEN + CELLS,
            s@ == rows_text(ram@, r as int),
        decreases ROWS - r,
    {
        if r > 0 {
            s.push('\n');
        }
        let line = row(ram, r);
        let end = plain::string_of(line.as_slice());
        plain::push_text(&mut s, end.as_str());
        assert(s@ =~= rows_text(ram@, r + 1));
        r += 1;
    }
    s
}

/// Do the codes stand on the screen from a cell on, reversed or not?
pub open spec fn stands_at(ram: Seq<u8>, needle: Seq<u8>, at: int) -> bool {
    forall|k: int| 0 <= k < needle.len() ==> ram[SCREEN + at + k] as int % 128 == #[trigger] needle[k]
}

/// Does the screen show the text anywhere? Screen memory is contiguous, so a
/// string that wraps at the edge still counts; no text at all does not.
pub open spec fn shows(ram: Seq<u8>, text: Seq<char>) -> bool {
    let needle = codes(text);
    0 < needle.len() && exists|at: int| 0 <= at <= CELLS - needle.len()
        && #[trigger] stands_at(ram, needle, at)
}

/// Does the screen show `text` anywhere?
///
/// Compares with bit 7 masked off, so reverse-video text matches too, and it
/// looks across the whole 1000 cells rather than line by line: screen memory
/// is contiguous, so a string that wraps at column 40 still matches.
pub fn contains(ram: &[u8], text: &str) -> (b: bool)
    requires
        ram.len() >= SCREEN + CELLS,
    ensures
        b == shows(ram@, text@),
{
    let needle = codes_for(text);
    if needle.len() == 0 || needle.len() > CELLS {
        return false;
    }
    let mut at: usize = 0;
    while at <= CELLS - needle.len()
        invariant
            0 < needle.len() <= CELLS,
            needle@ == codes(text@),
            at <= CELLS - needle.len() + 1,
            ram.len() >= SCREEN + CELLS,
            forall|a: int| 0 <= a < at ==> !#[trigger] stands_at(ram@, needle@, a),
        decreases CELLS - at,
    {
        if matches_at(ram, needle.as_slice(), at) {
            return true;
        }
        at += 1;
    }
    false
}

fn matches_at(ram: &[u8], needle: &[u8], at: usize) -> (b: bool)
    requires
        at + needle.len() <= CELLS,
        ram.len() >= SCREEN + CELLS,
    ensures
        b == stands_at(ram@, needle@, at as int),
{
    let mut k: usize = 0;
    while k < needle.len()
        invariant
            k <= needle.len(),
            at + needle.len() <= CELLS,
            ram.len() >= SCREEN + CELLS,
            forall|j: int| 0 <= j < k ==> ram@[SCREEN + at + j] as int % 128 == #[trigger] needle@[j],
        decreases needle.len() - k,
    {
        if ram[SCREEN + at + k] % 128 != needle[k] {
            assert(ram@[SCREEN + at + k] as int % 128 != needle@[k as int]);
            return false;
        }
        k += 1;
    }
    true
}

// ---- what holds of the screen ----

/// Reverse video hides nothing: what the screen shows depends only on the low
/// seven bits of its cells.
pub proof fn law_reverse_video_is_ignored(a: Seq<u8>, b: Seq<u8>, text: Seq<char>)
    requires
        forall|k: int| 0 <= k < CELLS ==>
            (#[trigger] a[SCREEN + k]) as int % 128 == b[SCREEN + k] as int % 128,
    ensures
        shows(a, text) == shows(b, text),
{
    let needle = codes(text);
    assert forall|at: int| 0 <= at <= CELLS - needle.len() implies
        #[trigger] stands_at(a, needle, at) == stands_at(b, needle, at) by {
        assert forall|k: int| 0 <= k < needle.len() implies
            (a[SCREEN + at + k] as int % 128 == #[trigger] needle[k])
                == (b[SCREEN + at + k] as int % 128 == needle[k]) by {
            assert(a[SCREEN + (at + k)] as int % 128 == b[SCREEN + (at + k)] as int % 128);
        }
    }
    if shows(a, text) {
        let at = choose|at: int| 0 <= at <= CELLS - needle.len() && #[trigger] stands_at(a, needle, at);
        assert(stands_at(b, needle, at));
    }
    if shows(b, text) {
        let at = choose|at: int| 0 <= at <= CELLS - needle.len() && #[trigger] stands_at(b, needle, at);
        assert(stands_at(a, needle, at));
    }
}

/// Text whose codes stand in screen memory is shown, wherever it stands.
pub proof fn law_written_text_is_shown(ram: Seq<u8>, text: Seq<char>, at: int)
    requires
        codes(text).len() > 0,
        0 <= at <= CELLS - codes(text).len(),
        forall|k: int| 0 <= k < codes(text).len() ==> #[trigger] codes(text)[k] < 128,
        forall|k: int| 0 <= k < codes(text).len() ==> ram[SCREEN + at + k] == #[trigger] codes(text)[k],
    ensures
        shows(ram, text),
{
    let needle = codes(text);
    assert(stands_at(ram, needle, at));
}

/// The empty text is never shown.
pub proof fn law_no_text_is_not_shown(ram: Seq<u8>)
    ensures
        !shows(ram, Seq::empty()),
{
    assert(vstd::utf8::encode_utf8(Seq::empty()).len() == 0);
}

} // verus!
