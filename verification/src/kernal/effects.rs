//! What the KERNAL's routines leave in memory, address by address.

use vstd::prelude::*;
use crate::bits::{bit_of, lemma_bitwise, lemma_masks, lemma_tests};
use crate::kernal::{basic, irq, ramtas, reset, udtim, vectors, Memory};

verus! {

// ---- the keyboard ----

/// Keys and modifiers: SHIFT with a letter sets bit 7 of its code, CTRL with one gives
/// its place in the alphabet, and any other combination of modifiers is none.
pub proof fn law_key_codes(key: u8, mods: u8)
    requires
        key < 64,
    ensures
        ({
            let plain = irq::petscii(0, key);
            &&& 0x41 <= plain <= 0x5A ==> irq::petscii(1, key) == plain + 0x80
                && irq::petscii(4, key) == plain - 0x40
            &&& mods != 1 && mods != 2 && mods != 4 ==> irq::petscii(mods, key) == plain
        }),
{
    if 0x41 <= irq::UNSHIFTED_KEYS[key as int] <= 0x5A {
        lemma_letters(key);
    }
}

#[verifier::rlimit(50)]
proof fn lemma_letters(key: u8)
    requires
        key < 64,
        0x41 <= irq::UNSHIFTED_KEYS[key as int] <= 0x5A,
    ensures
        irq::SHIFTED_KEYS[key as int] == irq::UNSHIFTED_KEYS[key as int] + 0x80,
        irq::CTRL_KEYS[key as int] == irq::UNSHIFTED_KEYS[key as int] - 0x40,
{
}

/// A key at matrix position `k` is down where bit `k % 8` of the columns is low.
pub open spec fn down(cols: u8, k: int) -> bool {
    !bit_of(cols, (k % 8) as u8)
}

proof fn lemma_held(cols: u8, k: int)
    requires
        0 <= k < 64,
    ensures
        irq::held(cols, k) == down(cols, k),
{
    crate::bits::lemma_digits(cols);
    reveal_with_fuel(irq::shifted, 9);
    let b = k % 8;
    assert(b == 0 || b == 1 || b == 2 || b == 3 || b == 4 || b == 5 || b == 6 || b == 7);
    assert(irq::shifted(cols, 0) == cols);
    assert(irq::shifted(cols, 1) == cols / 2);
    assert(irq::shifted(cols, 2) == cols / 4);
    assert(irq::shifted(cols, 3) == cols / 8);
    assert(irq::shifted(cols, 4) == cols / 16);
    assert(irq::shifted(cols, 5) == cols / 32);
    assert(irq::shifted(cols, 6) == cols / 64);
    assert(irq::shifted(cols, 7) == cols / 128);
}

/// A scan finds the last key that is down and is not a modifier, or none, and notes it
/// at $CB.
pub proof fn law_key_is_found(m: Memory, k: int)
    requires
        m.ram.len() == 0x1_0000,
        0 <= k < 64,
    ensures
        ({
            let cols = m.ram[0xDC01];
            let found = irq::keys_read(m).ram[0xCB];
            &&& found <= 64
            &&& down(cols, k) && !modifier(k) ==> k <= found < 64
            &&& found < 64 ==> down(cols, found as int) && !modifier(found as int)
        }),
{
    lemma_last_key(m.ram[0xDC01], 64, k);
}

/// The places of SHIFT (two), C= and CTRL in the matrix.
pub open spec fn modifier(k: int) -> bool {
    k == 15 || k == 52 || k == 58 || k == 61
}

#[verifier::rlimit(50)]
proof fn lemma_modifier(k: int)
    requires
        0 <= k < 64,
    ensures
        irq::is_modifier(irq::UNSHIFTED_KEYS[k]) == modifier(k),
        k == 15 || k == 52 ==> irq::UNSHIFTED_KEYS[k] == 1,
        k == 61 ==> irq::UNSHIFTED_KEYS[k] == 2,
        k == 58 ==> irq::UNSHIFTED_KEYS[k] == 4,
{
}

proof fn lemma_last_key(cols: u8, n: int, k: int)
    requires
        0 <= n <= 64,
    ensures
        ({
            let found = irq::key_held(cols, n);
            &&& found < n || found == 64
            &&& 0 <= k < n && down(cols, k) && !modifier(k) ==> k <= found < 64
            &&& found < 64 ==> down(cols, found as int) && !modifier(found as int)
        }),
    decreases n,
{
    if n > 0 {
        lemma_last_key(cols, n - 1, k);
        lemma_held(cols, n - 1);
        lemma_modifier(n - 1);
    }
}

/// The modifiers at $028D: bit 0 for either SHIFT, bit 1 for C=, bit 2 for CTRL.
pub proof fn law_modifiers_are_found(m: Memory)
    requires
        m.ram.len() == 0x1_0000,
    ensures
        ({
            let cols = m.ram[0xDC01];
            let mods = irq::keys_read(m).ram[0x028D];
            &&& bit_of(mods, 0) == (down(cols, 15) || down(cols, 52))
            &&& bit_of(mods, 1) == down(cols, 61)
            &&& bit_of(mods, 2) == down(cols, 58)
            &&& mods < 8
        }),
{
    let cols = m.ram[0xDC01];
    lemma_modifiers(cols, 64);
}

proof fn lemma_modifiers(cols: u8, n: int)
    requires
        0 <= n <= 64,
    ensures
        ({
            let mods = irq::modifiers_held(cols, n);
            &&& bit_of(mods, 0) == (n > 15 && down(cols, 15) || n > 52 && down(cols, 52))
            &&& bit_of(mods, 1) == (n > 61 && down(cols, 61))
            &&& bit_of(mods, 2) == (n > 58 && down(cols, 58))
            &&& mods < 8
        }),
    decreases n,
{
    lemma_masks(0);
    lemma_masks(1);
    lemma_masks(2);
    if n > 0 {
        lemma_modifiers(cols, n - 1);
        lemma_held(cols, n - 1);
        lemma_modifier(n - 1);
        let before = irq::modifiers_held(cols, n - 1);
        let code = irq::UNSHIFTED_KEYS[n - 1];
        lemma_bitwise(before, code, 0);
        lemma_bitwise(before, code, 1);
        lemma_bitwise(before, code, 2);
        if modifier(n - 1) {
            lemma_small(before, code);
        }
    }
}

proof fn lemma_small(a: u8, b: u8)
    by (bit_vector)
    requires
        a < 8,
        b < 8,
    ensures
        a | b < 8,
{
}

/// Typing: a key that was not down before goes to the end of the buffer at $0277, whose
/// length is at $C6 and its limit at $0289. SHIFT and C= together flip bit 1 of $D018
/// and type nothing. The key is remembered at $C5.
pub proof fn law_typing(m: Memory, key: u8)
    requires
        m.ram.len() == 0x1_0000,
        m.ram[0xC6] <= 10,
        key < 64,
    ensures
        ({
            let d = irq::decoded(m, key).ram;
            let mods = m.ram[0x028D];
            let code = irq::petscii(mods, key);
            let types = mods != 3 && key != m.ram[0xC5] && code != 0xFF
                && m.ram[0xC6] < m.ram[0x0289];
            &&& d[0xC5] == key
            &&& types ==> d[0xC6] == m.ram[0xC6] + 1 && d[0x0277 + m.ram[0xC6]] == code
            &&& !types ==> d[0xC6] == m.ram[0xC6]
                && forall|a: int| 0x0277 <= a < 0x0281 ==> #[trigger] d[a] == m.ram[a]
            &&& d[0xD018] == (if mods == 3 { m.ram[0xD018] ^ 2 } else { m.ram[0xD018] })
        }),
{
    reveal(irq::decoded);
}

// ---- the interrupt ----

/// Once a tick the clock at $A0 goes on, and the column of the STOP key is kept at $91
/// while its bit 7 is set.
pub proof fn law_tick(m: Memory)
    requires
        m.ram.len() == 0x1_0000,
    ensures
        ({
            let t = udtim::timed(m).ram;
            let before = 0x1_0000 * m.ram[0xA0] + 0x100 * m.ram[0xA1] + m.ram[0xA2];
            let after = 0x1_0000 * t[0xA0] + 0x100 * t[0xA1] + t[0xA2];
            &&& after == (if before + 1 < 0x4F1A01 { before + 1 } else { 0 })
            &&& t[0x91] == (if m.ram[0xDC01] >= 0x80 { m.ram[0xDC01] } else { m.ram[0x91] })
            &&& t[0xDC00] == (if m.ram[0xDC01] >= 0x80 { m.ram[0xDC00] } else { m.ram[0xDC01] })
        }),
{
}

/// The cursor: while $CC is zero $CD counts down, and at zero it starts over at 20.
pub proof fn law_cursor_counts(m: Memory)
    requires
        m.ram.len() == 0x1_0000,
        m.ram[0xCC] != 0 || m.ram[0xCD] != 1,
    ensures
        m.ram[0xCC] != 0 ==> irq::blinked(m) == m,
        m.ram[0xCC] == 0 && m.ram[0xCD] > 1 ==> irq::blinked(m).ram
            == m.ram.update(0xCD, (m.ram[0xCD] - 1) as u8),
        m.ram[0xCC] == 0 && m.ram[0xCD] == 0 ==> irq::blinked(m).ram == m.ram.update(0xCD, 0xFF),
{
}

/// Every twentieth tick the cell at the cursor, row ($D1) and column $D3, is turned
/// over: its bit 7 flips. Showing the block keeps the character at $CE and the colour
/// at $0287 and paints the cell in the colour of $0286; hiding it puts the colour back.
#[verifier::rlimit(80)]
pub proof fn law_cursor_blinks(m: Memory)
    requires
        m.ram.len() == 0x1_0000,
        m.rom is None,
        m.ram[0xCC] == 0,
        m.ram[0xCD] == 1,
        m.ram[0xD3] < 40,
        4 <= m.ram[0xD2] < 8,
        m.ram[0xD1] + 256 * m.ram[0xD2] <= 0x7C0,
        m.ram[0xCF] == 0,
    ensures
        ({
            let b = irq::blinked(m).ram;
            let cell = m.ram[0xD1] + 256 * m.ram[0xD2] + m.ram[0xD3];
            let paint = cell + 0xD400;
            &&& b[0xCD] == 20
            &&& b[0xCF] == 1
            &&& b[cell] == m.ram[cell] ^ 0x80
            &&& b[0xCE] == m.ram[cell]
            &&& b[0x0287] == m.ram[paint]
            &&& b[paint] == m.ram[0x0286]
        }),
{
    reveal(irq::block_shown);
    reveal(irq::cursor_put);
    let hi = m.ram[0xD2];
    lemma_color_page(hi);
}

proof fn lemma_color_page(hi: u8)
    by (bit_vector)
    requires
        4 <= hi < 8,
    ensures
        (hi & 3) | 0xD8 == hi + 0xD4,
{
}

/// The motor: with no key down on the recorder, bit 4 of port $01 high, it stops unless
/// a program wants it; with one down it runs.
pub proof fn law_motor(m: Memory)
    requires
        m.ram.len() == 0x1_0000,
    ensures
        ({
            let port = m.ram[0x0001];
            let s = irq::motor_serviced(m).ram;
            &&& !bit_of(port, 4) ==> s[0xC0] == 0 && s[0x0001] == port | 0x20
            &&& bit_of(port, 4) && m.ram[0xC0] == 0 ==> s == m.ram.update(1, port & 0x1F)
            &&& bit_of(port, 4) && m.ram[0xC0] != 0 ==> s == m.ram
        }),
{
    lemma_tests(m.ram[0x0001]);
}

/// An interrupt does these in turn: the clock, the cursor, the motor and the keyboard.
pub proof fn law_interrupt(m: Memory)
    requires
        m.ram.len() == 0x1_0000,
    ensures
        irq::serviced(m) == irq::keyboard_scanned(irq::motor_serviced(irq::blinked(udtim::timed(m)))),
        irq::keyboard_scanned(m) == irq::decoded(irq::keys_read(m), irq::keys_read(m).ram[0xCB]),
{
}

// ---- starting up ----

/// RAMTAS clears $0002 to $0101 and $0200 to $03FF, but for what it then notes: the
/// tape buffer at $B2, the end of RAM at $0283, its start at $0281 and the page of the
/// screen at $0288.
pub proof fn law_low_memory(m: Memory, at: int)
    requires
        m.ram.len() == 0x1_0000,
    ensures
        ({
            let r = ramtas::ram_ready(m).ram;
            let top = if m.rom is Some { 0xA000int } else { 0 };
            &&& 0x0002 <= at < 0x0102 && at != 0xB2 && at != 0xB3 ==> r[at] == 0
            &&& 0x0200 <= at < 0x0400 && !(0x0282 <= at <= 0x0284) && at != 0x0288 ==> r[at] == 0
            &&& r[0xB2] + 256 * r[0xB3] == 0x033C
            &&& r[0x0283] + 256 * r[0x0284] == top
            &&& r[0x0281] + 256 * r[0x0282] == 0x0800
            &&& r[0x0288] == 4
            &&& ramtas::ram_top(m) == top
            &&& 0 <= at < 2 || 0x0102 <= at < 0x0200 || 0x0400 <= at < 0xA000 ==> r[at] == m.ram[at]
        }),
{
}

/// IOINIT: interrupts of CIA2 off, port A of CIA1 all outputs and of CIA2 the lower
/// six, the ROMs and I/O banked in, and the tick of a sixtieth of a second, by the
/// clock of the machine's television standard.
pub proof fn law_chips_are_set(m: Memory)
    requires
        m.ram.len() == 0x1_0000,
    ensures
        ({
            let r = reset::io_ready(m).ram;
            &&& r[0xDD0D] == 0x7F && r[0xDC0D] == 0x81
            &&& r[0xDC02] == 0xFF && r[0xDC03] == 0 && r[0xDC00] == 0x7F
            &&& r[0xDD02] == 0x3F && r[0xDD03] == 0 && r[0xDD00] == 0x07
            &&& r[0xDC0E] == 0x11 && r[0xDC0F] == 0x08 && r[0xDD0E] == 0x08 && r[0xDD0F] == 0x08
            &&& r[0xD418] == 0
            &&& r[0] == 0x2F && r[1] == 0xE7
            &&& r[0xDC04] + 256 * r[0xDC05] == (if m.ram[0x02A6] != 0 { 16421int } else { 17045int })
        }),
{
}

/// The screen editor's variables after CINT: the buffer holds ten keys, a key repeats
/// after a delay, the cursor is off and at the top left, and text is light blue.
pub proof fn law_editor_is_set(m: Memory)
    requires
        m.ram.len() == 0x1_0000,
        m.ram[0x0288] == 4,
    ensures
        ({
            let r = reset::editor_started(m).ram;
            &&& r[0x0289] == 10 && r[0x028B] == 4 && r[0x028C] == 10
            &&& r[0x028F] + 256 * r[0x0290] == 0xEB48
            &&& r[0xCC] != 0 && r[0xCD] == 12 && r[0xCF] == 0
            &&& r[0xD3] == 0 && r[0xD6] == 0
            &&& r[0x0286] == 14 && r[0x0291] == 0
            &&& r[0x99] == 0 && r[0x9A] == 3
            &&& r[0xF3] == 0xFF
        }),
{
}

/// A cartridge is there where `CBM80`, its letters with bit 7 set, stands at $8004.
pub proof fn law_cartridge_mark(m: Memory)
    ensures
        reset::has_cartridge(m) == (m.ram[0x8004] == 'C' as int + 0x80
            && m.ram[0x8005] == 'B' as int + 0x80 && m.ram[0x8006] == 'M' as int + 0x80
            && m.ram[0x8007] == '8' as int && m.ram[0x8008] == '0' as int),
{
    if reset::has_cartridge(m) {
        assert(m.ram[0x8004int + 0] == reset::CBM80[0] && m.ram[0x8004int + 1] == reset::CBM80[1]
            && m.ram[0x8004int + 2] == reset::CBM80[2] && m.ram[0x8004int + 3] == reset::CBM80[3]
            && m.ram[0x8004int + 4] == reset::CBM80[4]);
    }
}

/// BASIC's pointers after its start: its text begins behind a zero byte at the start of
/// memory, and its strings at the end of it.
pub proof fn law_basic_limits(m: Memory)
    requires
        m.ram.len() == 0x1_0000,
        m.rom is None,
        0x0400 <= m.ram[0x0281] + 256 * m.ram[0x0282] < 0xFFFF,
    ensures
        ({
            let s = basic::ram_set(m).ram;
            let start = m.ram[0x0281] + 256 * m.ram[0x0282];
            &&& s[0x2B] + 256 * s[0x2C] == start + 1
            &&& s[start] == 0
            &&& s[0x37] == m.ram[0x0283] && s[0x38] == m.ram[0x0284]
            &&& s[0x33] == m.ram[0x0283] && s[0x34] == m.ram[0x0284]
            &&& s[0x54] == 0x4C && s[0x0310] == 0x4C
            &&& s[0x0311] + 256 * s[0x0312] == 0xB248
            &&& s[0x05] + 256 * s[0x06] == 0xB391 && s[0x03] + 256 * s[0x04] == 0xB1AA
            &&& forall|k: int| 0 <= k < 29 ==> #[trigger] s[0x73 + k] == basic::CHRGET_ROUTINE[k]
        }),
{
    let w = basic::workspace_set(m);
    let l = basic::limits_set(w);
    assert(w.ram[0x0281] == m.ram[0x0281] && w.ram[0x0282] == m.ram[0x0282]
        && w.ram[0x0283] == m.ram[0x0283] && w.ram[0x0284] == m.ram[0x0284]);
    assert(l.word(0x002B) == m.ram[0x0281] + 256 * m.ram[0x0282]);
}

/// The vectors are the 16 words at $0314; the defaults are copied through the next 32
/// bytes.
pub proof fn law_vectors(m: Memory, at: int)
    requires
        m.ram.len() == 0x1_0000,
        0 <= at < 0x1_0000,
    ensures
        vectors::restored(m, reset::DEFAULT_VECTORS@).ram[at]
            == (if 0x0314 <= at < 0x0334 { reset::DEFAULT_VECTORS[at - 0x0314] }
                else if 0x0334 <= at < 0x0354 { reset::DEFAULT_VECTORS[at - 0x0334] }
                else { m.ram[at] }),
{
}

} // verus!
