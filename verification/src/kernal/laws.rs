//! What holds of the KERNAL's routines together.

use vstd::prelude::*;
use crate::kernal::{basic, irq, loc, ramtas, reset, udtim, vectors, Memory, CINV};

verus! {

/// What the boot chain leaves behind, whatever was in memory before: the ROMs
/// are banked in, the tick runs and may interrupt, the default vectors are in
/// place, the top of memory is recorded, the VIC is set up from its table, each
/// screen line is linked to its page, and the screen is blank.
pub proof fn law_boot_chain(m: Memory)
    requires
        m.ram.len() == 0x1_0000,
    ensures
        ({
            let b = reset::booted(m).ram;
            &&& b.len() == 0x1_0000
            &&& b[0x0001] == 0xE7
            &&& b[0xDC0D] == 0x81 && b[0xDC0E] == 0x11
            &&& b[0x0283] == 0x00 && b[0x0284] == (if m.rom is Some { 0xA0u8 } else { 0 })
            &&& b[0x0281] == 0x00 && b[0x0282] == 0x08
            &&& forall|i: int| 0 <= i < 32 ==> #[trigger] b[CINV + i] == reset::DEFAULT_VECTORS[i]
            &&& forall|i: int| 0 <= i < 0x2F ==> #[trigger] b[0xD000 + i] == reset::VIC_INIT_TABLE[i]
            &&& b[0xD020] == 0x0E && b[0xD021] == 0x06
            &&& b[0x0286] == 0x0E
            &&& forall|i: int| 0 <= i < 25
                ==> #[trigger] b[0x00D9 + i] == 0x80 + (0x0400 + 40 * i) / 256
            &&& forall|i: int| 0 <= i < 1000 ==> #[trigger] b[0x0400 + i] == 0x20
            &&& forall|i: int| 0 <= i < 1000 ==> #[trigger] b[0xD800 + i] == 0x0E
        }),
        reset::booted(m).rom == m.rom,
{
    let a = reset::io_ready(m.poke(0xD016, 0xFF));
    assert(a.ram[0x0001] == 0xE7 && a.ram[0xDC0D] == 0x81 && a.ram[0xDC0E] == 0x11);
    let r = ramtas::ram_ready(a);
    assert(r.ram[0x0288] == 0x04 && r.ram[0x0281] == 0 && r.ram[0x0282] == 8);
    let v = vectors::restored(r, reset::DEFAULT_VECTORS@);
    assert(v.ram[0x0288] == 0x04);
    assert forall|i: int| 0 <= i < 32 implies
        #[trigger] v.ram[CINV + i] == reset::DEFAULT_VECTORS[i] by {}
    let e = reset::editor_ready(reset::vic_ready(v));
    assert(e.ram[0xD020] == reset::VIC_INIT_TABLE[0x20]);
    assert(e.ram[0xD021] == reset::VIC_INIT_TABLE[0x21]);
    assert(e.ram[0x0288] == 0x04 && e.ram[0x0286] == 0x0E);
    let l = reset::lines_linked(e);
    assert(l.ram[0x0288] == 0x04 && l.ram[0x0286] == 0x0E);
    assert(4u8 | 0x80 == 0x84) by (bit_vector);
    assert forall|i: int| 0 <= i < 25 implies
        #[trigger] l.ram[0x00D9 + i] == 0x80 + (0x0400 + 40 * i) / 256 by {}
}

/// On a machine with a ROM and no cartridge BASIC finds 38911 bytes free, and
/// goes on at its error entry, which prints the prompt.
pub proof fn law_basic_bytes_free(m: Memory)
    requires
        m.ram.len() == 0x1_0000,
        m.rom is Some,
    ensures
        ({
            let s = basic::ram_set(basic::vectored(reset::booted(m)));
            basic::bytes_free(s) == 38911 && s.word(0x0300) == 0xE38B
        }),
{
    law_boot_chain(m);
    let v = basic::vectored(reset::booted(m));
    assert(v.ram[0x0300] == basic::BASIC_VECTORS[0] && v.ram[0x0301] == basic::BASIC_VECTORS[1]);
    let w = basic::workspace_set(v);
    assert(w.ram[0x0300] == 0x8B && w.ram[0x0301] == 0xE3);
    assert(w.ram[0x0281] == 0 && w.ram[0x0282] == 8 && w.ram[0x0283] == 0 && w.ram[0x0284] == 0xA0);
    let l = basic::limits_set(w);
    assert(l.word(0x002B) == 0x0800 && l.word(0x0037) == 0xA000);
    let s = basic::text_started(l);
    assert(s.word(0x002B) == 0x0801 && s.word(0x0037) == 0xA000);
}

/// RAMTAS restores every byte from $0400 to the top of RAM.
pub proof fn law_ramtas_is_non_destructive(m: Memory, at: int)
    requires
        m.ram.len() == 0x1_0000,
        0x0400 <= at < 0x1_0000,
        m.rom is Some ==> at != 0xA000,
    ensures
        ramtas::ram_ready(m).ram[at] == m.ram[at],
{
}

/// A key that stays down is typed once.
pub proof fn law_held_key_is_typed_once(m: Memory, key: u8)
    requires
        m.ram.len() == 0x1_0000,
        m.ram[loc::KBD_BUFFER_MAX as int] <= 10,
        m.ram[loc::MODIFIERS as int] != 0x03,
    ensures
        irq::decoded(irq::decoded(m, key), key) == irq::decoded(m, key),
{
    reveal(irq::decoded);
    let d = irq::decoded(m, key);
    assert(d.ram[loc::LAST_KEY as int] == key);
    assert(d.ram[loc::MODIFIERS as int] == m.ram[loc::MODIFIERS as int]);
    assert(d.poke(loc::LAST_KEY as int, key) =~= d);
}

/// Without a key on the matrix nothing is typed, and the last key is forgotten.
pub proof fn law_no_key_types_nothing(m: Memory)
    requires
        m.ram.len() == 0x1_0000,
        m.ram[loc::CIA1_PRB as int] == 0xFF,
    ensures
        irq::keyboard_scanned(m).ram[loc::KBD_COUNT as int] == m.ram[loc::KBD_COUNT as int],
        irq::keyboard_scanned(m).ram[loc::CUR_KEY as int] == 0x40,
        irq::keyboard_scanned(m).ram[loc::LAST_KEY as int] == 0x40,
        irq::keyboard_scanned(m).ram[loc::MODIFIERS as int] == 0,
{
    reveal(irq::decoded);
    lemma_no_key(64);
}

proof fn lemma_no_key(n: int)
    requires
        0 <= n <= 64,
    ensures
        irq::modifiers_held(0xFF, n) == 0,
        irq::key_held(0xFF, n) == 0x40,
    decreases n,
{
    if n > 0 {
        lemma_no_key(n - 1);
        lemma_all_ones((n - 1) % 8);
    }
}

proof fn lemma_all_ones(bits: int)
    requires
        0 <= bits < 8,
    ensures
        irq::shifted(0xFF, bits) % 2 == 1,
{
    assert(irq::shifted(0xFF, 0) == 0xFF);
    assert(irq::shifted(0xFF, 1) == 0x7F);
    assert(irq::shifted(0xFF, 2) == 0x3F);
    assert(irq::shifted(0xFF, 3) == 0x1F);
    assert(irq::shifted(0xFF, 4) == 0x0F);
    assert(irq::shifted(0xFF, 5) == 0x07);
    assert(irq::shifted(0xFF, 6) == 0x03);
    assert(irq::shifted(0xFF, 7) == 0x01);
}

/// The type-ahead buffer never holds more than its maximum.
pub proof fn law_buffer_keeps_its_limit(m: Memory, key: u8)
    requires
        m.ram.len() == 0x1_0000,
        m.ram[loc::KBD_COUNT as int] <= m.ram[loc::KBD_BUFFER_MAX as int] <= 10,
    ensures
        ({
            let d = irq::decoded(m, key);
            d.ram[loc::KBD_COUNT as int] <= d.ram[loc::KBD_BUFFER_MAX as int] <= 10
        }),
{
    reveal(irq::decoded);
}

/// A fresh key goes to the end of the buffer, behind what is in it already.
pub proof fn law_fresh_key_is_appended(m: Memory, key: u8)
    requires
        m.ram.len() == 0x1_0000,
        m.ram[loc::KBD_COUNT as int] < m.ram[loc::KBD_BUFFER_MAX as int] <= 10,
        m.ram[loc::MODIFIERS as int] != 0x03,
        key < 64,
        key != m.ram[loc::LAST_KEY as int],
        irq::petscii(m.ram[loc::MODIFIERS as int], key) != 0xFF,
    ensures
        ({
            let d = irq::decoded(m, key);
            let count = m.ram[loc::KBD_COUNT as int];
            &&& d.ram[loc::KBD_COUNT as int] == count + 1
            &&& d.ram[loc::KBD_BUFFER + count] == irq::petscii(m.ram[loc::MODIFIERS as int], key)
            &&& forall|i: int| 0 <= i < count ==>
                #[trigger] d.ram[loc::KBD_BUFFER + i] == m.ram[loc::KBD_BUFFER + i]
        }),
{
    reveal(irq::decoded);
}

/// The cell under the cursor.
pub open spec fn cursor_cell(m: Memory) -> int {
    irq::cell(m.zp_word(loc::LINE_PTR as u8), m.ram[loc::CURSOR_COL as int])
}

/// The colour cell that belongs to the cell under the cursor: the same place of
/// the colour RAM's row.
pub open spec fn cursor_paint(m: Memory) -> int {
    let row = 256 * ((m.ram[loc::LINE_PTR + 1] & 0x03) | 0xD8) + m.ram[loc::LINE_PTR as int];
    row + m.ram[loc::CURSOR_COL as int]
}

/// The cursor stands on a row of the screen: its cell is ordinary memory outside
/// zero page and the editor's variables, and not under a ROM.
pub open spec fn cursor_on_screen(m: Memory) -> bool {
    &&& 0x0400 <= cursor_cell(m) < 0xA000
    &&& m.ram[loc::CURSOR_COL as int] < 40
}

/// While the block is shown, the colour pointer is on the cursor's row, as the
/// change that showed it has left it.
pub open spec fn paint_pointed(m: Memory) -> bool {
    irq::cell(m.zp_word(loc::COLOR_PTR as u8), m.ram[loc::CURSOR_COL as int]) == cursor_paint(m)
}

proof fn lemma_paint(m: Memory)
    requires
        m.ram.len() == 0x1_0000,
        m.ram[loc::CURSOR_COL as int] < 40,
    ensures
        0xD800 <= cursor_paint(m) < 0xDC40,
{
    let hi = m.ram[loc::LINE_PTR + 1];
    assert(0xD8 <= ((hi & 0x03) | 0xD8) <= 0xDB) by (bit_vector);
}

/// The block goes on: the cell is reversed, and its colour saved.
proof fn lemma_block_on(m: Memory)
    requires
        m.ram.len() == 0x1_0000,
        cursor_on_screen(m),
        m.ram[loc::BLINK_PHASE as int] % 2 == 0,
    ensures
        ({
            let t = irq::blink_toggled(m);
            &&& t.ram.len() == 0x1_0000 && t.rom == m.rom
            &&& t.ram[cursor_cell(m)] == m.ram[cursor_cell(m)] ^ 0x80
            &&& t.ram[cursor_paint(m)] == m.ram[loc::TEXT_COLOR as int]
            &&& t.ram[loc::SAVED_COLOR as int] == m.ram[cursor_paint(m)]
            &&& t.ram[loc::BLINK_PHASE as int] == m.ram[loc::BLINK_PHASE as int] / 2 + 1
            &&& cursor_cell(t) == cursor_cell(m) && cursor_paint(t) == cursor_paint(m)
            &&& t.ram[loc::CURSOR_COL as int] == m.ram[loc::CURSOR_COL as int]
            &&& t.ram[loc::CURSOR_ENABLE as int] == m.ram[loc::CURSOR_ENABLE as int]
            &&& paint_pointed(t)
            &&& forall|k: int| 0 <= k < 0xCD ==> #[trigger] t.ram[k] == m.ram[k]
        }),
{
    reveal(irq::block_shown);
    reveal(irq::cursor_put);
    lemma_paint(m);
    let at = cursor_cell(m);
    let paint = cursor_paint(m);
    let ch = m.ram[at];
    let phase = m.ram[loc::BLINK_PHASE as int];
    let t = m.poke(loc::BLINK_PHASE as int, phase / 2);
    assert(t.zp_word(loc::LINE_PTR as u8) == m.zp_word(loc::LINE_PTR as u8));
    let s = t.poke(loc::BLINK_PHASE as int, (phase / 2 + 1) as u8).poke(loc::CHAR_UNDER_CURSOR as int, ch);
    let u = irq::color_pointed(s);
    assert(u.zp_word(loc::LINE_PTR as u8) == m.zp_word(loc::LINE_PTR as u8));
    assert(irq::cell(u.zp_word(loc::COLOR_PTR as u8), m.ram[loc::CURSOR_COL as int]) == paint);
    let v = u.poke(loc::SAVED_COLOR as int, u.peek(paint));
    assert(v.zp_word(loc::LINE_PTR as u8) == m.zp_word(loc::LINE_PTR as u8));
    let w = v.poke(at, ch ^ 0x80);
    assert(w.zp_word(loc::COLOR_PTR as u8) == u.zp_word(loc::COLOR_PTR as u8));
}

/// The block goes off: the cell is reversed, and its colour is the saved one.
proof fn lemma_block_off(m: Memory)
    requires
        m.ram.len() == 0x1_0000,
        cursor_on_screen(m),
        paint_pointed(m),
        m.ram[loc::BLINK_PHASE as int] % 2 == 1,
    ensures
        ({
            let t = irq::blink_toggled(m);
            &&& t.ram.len() == 0x1_0000 && t.rom == m.rom
            &&& t.ram[cursor_cell(m)] == m.ram[cursor_cell(m)] ^ 0x80
            &&& t.ram[cursor_paint(m)] == m.ram[loc::SAVED_COLOR as int]
            &&& t.ram[loc::BLINK_PHASE as int] == m.ram[loc::BLINK_PHASE as int] / 2
            &&& forall|k: int| 0 <= k < 0xCD ==> #[trigger] t.ram[k] == m.ram[k]
        }),
{
    reveal(irq::cursor_put);
    lemma_paint(m);
    let at = cursor_cell(m);
    let t = m.poke(loc::BLINK_PHASE as int, m.ram[loc::BLINK_PHASE as int] / 2);
    assert(t.zp_word(loc::LINE_PTR as u8) == m.zp_word(loc::LINE_PTR as u8));
    let u = t.poke(at, m.ram[at] ^ 0x80);
    assert(u.zp_word(loc::COLOR_PTR as u8) == m.zp_word(loc::COLOR_PTR as u8));
}

/// Each change of state flips the reverse-video bit of the cursor's cell and the
/// phase. Two changes, the block put on and taken off again, leave both the
/// character and its colour as they were.
pub proof fn law_blink_flips_the_cell(m: Memory)
    requires
        m.ram.len() == 0x1_0000,
        cursor_on_screen(m),
        m.ram[loc::BLINK_PHASE as int] <= 1,
        m.ram[loc::BLINK_PHASE as int] == 1 ==> paint_pointed(m),
    ensures
        irq::blink_toggled(m).ram[cursor_cell(m)] == m.ram[cursor_cell(m)] ^ 0x80,
        irq::blink_toggled(m).ram[loc::BLINK_PHASE as int] == 1 - m.ram[loc::BLINK_PHASE as int],
        m.ram[loc::BLINK_PHASE as int] == 0 ==> {
            let u = irq::blink_toggled(irq::blink_toggled(m));
            &&& u.ram[cursor_cell(m)] == m.ram[cursor_cell(m)]
            &&& u.ram[cursor_paint(m)] == m.ram[cursor_paint(m)]
            &&& u.ram[loc::BLINK_PHASE as int] == 0
        },
{
    let ch = m.ram[cursor_cell(m)];
    assert((ch ^ 0x80) ^ 0x80 == ch) by (bit_vector);
    if m.ram[loc::BLINK_PHASE as int] == 0 {
        lemma_block_on(m);
        lemma_block_off(irq::blink_toggled(m));
    } else {
        lemma_block_off(m);
    }
}

/// The same of the interrupt's own ticks: two that are due bring the character
/// and its colour back.
pub proof fn law_blinking_preserves_the_screen(m: Memory)
    requires
        m.ram.len() == 0x1_0000,
        cursor_on_screen(m),
        m.ram[loc::CURSOR_ENABLE as int] == 0,
        m.ram[loc::BLINK_COUNTDOWN as int] == 1,
        m.ram[loc::BLINK_PHASE as int] == 0,
    ensures
        ({
            let u = irq::blinked(m);
            let v = irq::blinked(u.poke(loc::BLINK_COUNTDOWN as int, 1));
            &&& u.ram[cursor_cell(m)] == m.ram[cursor_cell(m)] ^ 0x80
            &&& v.ram[cursor_cell(m)] == m.ram[cursor_cell(m)]
            &&& v.ram[cursor_paint(m)] == m.ram[cursor_paint(m)]
        }),
{
    lemma_paint(m);
    let ch = m.ram[cursor_cell(m)];
    assert((ch ^ 0x80) ^ 0x80 == ch) by (bit_vector);
    let a = m.poke(loc::BLINK_COUNTDOWN as int, 0).poke(loc::BLINK_COUNTDOWN as int, 0x14);
    assert(cursor_cell(a) == cursor_cell(m) && cursor_paint(a) == cursor_paint(m));
    assert(irq::blinked(m) == irq::blink_toggled(a));
    lemma_block_on(a);
    let u = irq::blinked(m);
    let d = u.poke(loc::BLINK_COUNTDOWN as int, 1);
    let b = d.poke(loc::BLINK_COUNTDOWN as int, 0).poke(loc::BLINK_COUNTDOWN as int, 0x14);
    assert(d.ram[loc::CURSOR_ENABLE as int] == 0);
    assert(irq::blinked(d) == irq::blink_toggled(b));
    assert(cursor_cell(b) == cursor_cell(m) && cursor_paint(b) == cursor_paint(m));
    assert(b.zp_word(loc::COLOR_PTR as u8) == u.zp_word(loc::COLOR_PTR as u8));
    lemma_block_off(b);
}

/// The cursor's cells, if it blinks, are on the screen.
pub open spec fn cursor_in_place(m: Memory) -> bool {
    m.ram[loc::CURSOR_ENABLE as int] == 0 ==> {
        &&& cursor_on_screen(m)
        &&& m.ram[loc::BLINK_PHASE as int] % 2 == 1 ==> paint_pointed(m)
    }
}

/// A tick of the cursor leaves the clock alone.
proof fn lemma_blink_keeps_the_clock(m: Memory)
    requires
        m.ram.len() == 0x1_0000,
        cursor_in_place(m),
    ensures
        irq::blinked(m).ram.len() == 0x1_0000,
        udtim::jiffies(irq::blinked(m)) == udtim::jiffies(m),
{
    let a = m.poke(loc::BLINK_COUNTDOWN as int, 0).poke(loc::BLINK_COUNTDOWN as int, 0x14);
    if m.ram[loc::CURSOR_ENABLE as int] == 0 {
        assert(a.zp_word(loc::LINE_PTR as u8) == m.zp_word(loc::LINE_PTR as u8));
        assert(a.zp_word(loc::COLOR_PTR as u8) == m.zp_word(loc::COLOR_PTR as u8));
        if m.ram[loc::BLINK_PHASE as int] % 2 == 0 {
            lemma_block_on(a);
        } else {
            lemma_block_off(a);
        }
    }
}

/// Every interrupt moves the clock on by one jiffy, whether the cursor blinks on
/// the screen or is off.
pub proof fn law_interrupt_advances_the_clock(m: Memory)
    requires
        m.ram.len() == 0x1_0000,
        cursor_in_place(m),
    ensures
        udtim::jiffies(irq::serviced(m)) == udtim::next_jiffy(udtim::jiffies(m)),
{
    let t = udtim::timed(m);
    lemma_clock_ticks(m);
    lemma_blink_keeps_the_clock(t);
    lemma_keyboard_keeps_the_clock(irq::blinked(t));
}

/// The clock moves on, and the cursor stays in its place.
proof fn lemma_clock_ticks(m: Memory)
    requires
        m.ram.len() == 0x1_0000,
        cursor_in_place(m),
    ensures
        udtim::timed(m).ram.len() == 0x1_0000,
        udtim::jiffies(udtim::timed(m)) == udtim::next_jiffy(udtim::jiffies(m)),
        cursor_in_place(udtim::timed(m)),
{
    let t = udtim::timed(m);
    assert(udtim::jiffies(t) == udtim::next_jiffy(udtim::jiffies(m))) by {
        let j = udtim::next_jiffy(udtim::jiffies(m));
        assert(0 <= j < 0x100_0000);
    }
    assert(t.ram[loc::CURSOR_ENABLE as int] == m.ram[loc::CURSOR_ENABLE as int]);
    assert(t.zp_word(loc::LINE_PTR as u8) == m.zp_word(loc::LINE_PTR as u8));
    assert(t.zp_word(loc::COLOR_PTR as u8) == m.zp_word(loc::COLOR_PTR as u8));
}

/// What an interrupt does behind the cursor leaves the clock alone.
proof fn lemma_keyboard_keeps_the_clock(m: Memory)
    requires
        m.ram.len() == 0x1_0000,
    ensures
        ({
            let u = irq::motor_serviced(m);
            let held = irq::key_held(u.ram[loc::CIA1_PRB as int], 64);
            udtim::jiffies(irq::decoded(irq::keys_read(u), held)) == udtim::jiffies(m)
        }),
{
    let u = irq::motor_serviced(m);
    lemma_decode_keeps_the_clock(
        irq::keys_read(u), irq::key_held(u.ram[loc::CIA1_PRB as int], 64));
}

proof fn lemma_decode_keeps_the_clock(m: Memory, key: u8)
    requires
        m.ram.len() == 0x1_0000,
    ensures
        udtim::jiffies(irq::decoded(m, key)) == udtim::jiffies(m),
{
    reveal(irq::decoded);
}

} // verus!
