//! The default IRQ handler ($EA31) and keyboard scan ($EA87).
//!
//! Once RESET enables interrupts, CIA1 Timer A fires ~60 times a second and,
//! through the RAM vector at $0314 (whose default is $EA31), runs this handler.
//! It is the machine's heartbeat: it advances the clock, blinks the cursor,
//! services the cassette motor, and scans the keyboard.
//!
//! The ROM listing of the handler:
//!
//! ```text
//! EA31:  20 EA FF  JSR  $FFEA        ; UDTIM: jiffy clock + STOP key
//! EA34:  A5 CC     LDA  $CC          ; cursor-enable flag (0 = enabled)
//! EA36:  D0 29     BNE  $EA61        ; disabled -> skip cursor
//! EA38:  C6 CD     DEC  $CD          ; blink countdown
//! EA3A:  D0 25     BNE  $EA61
//! EA3C:  A9 14     LDA  #$14         ; reload countdown = 20 jiffies
//! EA3E:  85 CD     STA  $CD
//! EA40:  A4 D3     LDY  $D3          ; cursor column
//! EA42:  46 CF     LSR  $CF          ; blink phase -> carry
//! EA44:  AE 87 02  LDX  $0287        ; saved colour under cursor
//! EA47:  B1 D1     LDA  ($D1),Y      ; character under cursor
//! EA49:  B0 11     BCS  $EA5C        ; phase already on -> just toggle back
//! EA4B:  E6 CF     INC  $CF          ; phase = on
//! EA4D:  85 CE     STA  $CE          ; save the real character
//! EA4F:  20 24 EA  JSR  $EA24        ; point $F3 at this line's colour RAM
//! EA52:  B1 F3     LDA  ($F3),Y      ; save the colour under the cursor
//! EA54:  8D 87 02  STA  $0287
//! EA57:  AE 86 02  LDX  $0286        ; use current text colour for the block
//! EA5A:  A5 CE     LDA  $CE
//! EA5C:  49 80     EOR  #$80         ; flip reverse-video bit
//! EA5E:  20 1C EA  JSR  $EA1C        ; write char + colour to the cursor cell
//! EA61:  A5 01 ... (cassette motor control from the 6510 port bit 4) ... STA $01
//! EA7B:  20 87 EA  JSR  $EA87        ; SCNKEY: scan the keyboard
//! EA7E:  AD 0D DC  LDA  $DC0D        ; acknowledge the CIA1 interrupt
//! EA81:  68/A8/68/AA/68/40          ; pull Y,X,A and RTI
//! ```

use vstd::prelude::*;
use crate::kernal::{loc, udtim, C64Mem, Memory};

verus! {

// The four keyboard decode tables (65 entries each, ROM $EB81/$EBC2/$EC03/
// $EC78). Index by matrix key (0..63) to get the PETSCII code; the modifier
// bits in `$028D` pick the table. `$FF` marks "no key / unused".

pub const UNSHIFTED_KEYS: [u8; 65] = [
    0x14, 0x0D, 0x1D, 0x88, 0x85, 0x86, 0x87, 0x11, 0x33, 0x57, 0x41, 0x34, 0x5A, 0x53, 0x45, 0x01,
    0x35, 0x52, 0x44, 0x36, 0x43, 0x46, 0x54, 0x58, 0x37, 0x59, 0x47, 0x38, 0x42, 0x48, 0x55, 0x56,
    0x39, 0x49, 0x4A, 0x30, 0x4D, 0x4B, 0x4F, 0x4E, 0x2B, 0x50, 0x4C, 0x2D, 0x2E, 0x3A, 0x40, 0x2C,
    0x5C, 0x2A, 0x3B, 0x13, 0x01, 0x3D, 0x5E, 0x2F, 0x31, 0x5F, 0x04, 0x32, 0x20, 0x02, 0x51, 0x03,
    0xFF,
];

pub const SHIFTED_KEYS: [u8; 65] = [
    0x94, 0x8D, 0x9D, 0x8C, 0x89, 0x8A, 0x8B, 0x91, 0x23, 0xD7, 0xC1, 0x24, 0xDA, 0xD3, 0xC5, 0x01,
    0x25, 0xD2, 0xC4, 0x26, 0xC3, 0xC6, 0xD4, 0xD8, 0x27, 0xD9, 0xC7, 0x28, 0xC2, 0xC8, 0xD5, 0xD6,
    0x29, 0xC9, 0xCA, 0x30, 0xCD, 0xCB, 0xCF, 0xCE, 0xDB, 0xD0, 0xCC, 0xDD, 0x3E, 0x5B, 0xBA, 0x3C,
    0xA9, 0xC0, 0x5D, 0x93, 0x01, 0x3D, 0xDE, 0x3F, 0x21, 0x5F, 0x04, 0x22, 0xA0, 0x02, 0xD1, 0x83,
    0xFF,
];

pub const CBM_KEYS: [u8; 65] = [
    0x94, 0x8D, 0x9D, 0x8C, 0x89, 0x8A, 0x8B, 0x91, 0x96, 0xB3, 0xB0, 0x97, 0xAD, 0xAE, 0xB1, 0x01,
    0x98, 0xB2, 0xAC, 0x99, 0xBC, 0xBB, 0xA3, 0xBD, 0x9A, 0xB7, 0xA5, 0x9B, 0xBF, 0xB4, 0xB8, 0xBE,
    0x29, 0xA2, 0xB5, 0x30, 0xA7, 0xA1, 0xB9, 0xAA, 0xA6, 0xAF, 0xB6, 0xDC, 0x3E, 0x5B, 0xA4, 0x3C,
    0xA8, 0xDF, 0x5D, 0x93, 0x01, 0x3D, 0xDE, 0x3F, 0x81, 0x5F, 0x04, 0x95, 0xA0, 0x02, 0xAB, 0x83,
    0xFF,
];

pub const CTRL_KEYS: [u8; 65] = [
    0xFF, 0xFF, 0xFF, 0xFF, 0xFF, 0xFF, 0xFF, 0xFF, 0x1C, 0x17, 0x01, 0x9F, 0x1A, 0x13, 0x05, 0xFF,
    0x9C, 0x12, 0x04, 0x1E, 0x03, 0x06, 0x14, 0x18, 0x1F, 0x19, 0x07, 0x9E, 0x02, 0x08, 0x15, 0x16,
    0x12, 0x09, 0x0A, 0x92, 0x0D, 0x0B, 0x0F, 0x0E, 0xFF, 0x10, 0x0C, 0xFF, 0xFF, 0x1B, 0x00, 0xFF,
    0x1C, 0xFF, 0x1D, 0xFF, 0xFF, 0x1F, 0x1E, 0xFF, 0x90, 0x06, 0xFF, 0x05, 0xFF, 0xFF, 0x11, 0xFF,
    0xFF,
];

// ---- the cursor ----

/// Memory with the colour pointer on the colour-RAM row of the screen row.
pub open spec fn color_pointed(m: Memory) -> Memory {
    let t = m.poke(loc::COLOR_PTR as int, m.peek(loc::LINE_PTR as int));
    t.poke(loc::COLOR_PTR + 1, (t.peek(loc::LINE_PTR + 1) & 0x03) | 0xD8)
}

/// The cell `col` places behind a pointer.
pub open spec fn cell(base: u16, col: u8) -> int {
    (base + col) % 0x1_0000
}

/// Memory with a character and a colour at the cursor.
#[verifier::opaque]
pub open spec fn cursor_put(m: Memory, ch: u8, color: u8) -> Memory {
    let col = m.peek(loc::CURSOR_COL as int);
    let t = m.poke(cell(m.zp_word(loc::LINE_PTR as u8), col), ch);
    t.poke(cell(t.zp_word(loc::COLOR_PTR as u8), col), color)
}

/// Memory after the cursor block was taken off the screen: the real character
/// is back, in the colour that was saved when the block was put there.
pub open spec fn block_hidden(m: Memory, ch: u8) -> Memory {
    cursor_put(m, ch ^ 0x80, m.peek(loc::SAVED_COLOR as int))
}

/// Memory after the cursor block was put on the screen, with the character and
/// the colour beneath it saved.
#[verifier::opaque]
pub open spec fn block_shown(m: Memory, ch: u8, col: u8) -> Memory {
    let t = m.poke(loc::BLINK_PHASE as int, (m.peek(loc::BLINK_PHASE as int) + 1) as u8)
        .poke(loc::CHAR_UNDER_CURSOR as int, ch);
    let u = color_pointed(t);
    let v = u.poke(
        loc::SAVED_COLOR as int, u.peek(cell(u.zp_word(loc::COLOR_PTR as u8), col)));
    cursor_put(
        v, v.peek(loc::CHAR_UNDER_CURSOR as int) ^ 0x80, v.peek(loc::TEXT_COLOR as int))
}

/// Memory after the cursor block changed state.
pub open spec fn blink_toggled(m: Memory) -> Memory {
    let col = m.peek(loc::CURSOR_COL as int);
    let phase = m.peek(loc::BLINK_PHASE as int);
    let t = m.poke(loc::BLINK_PHASE as int, phase / 2);
    let ch = t.peek(cell(t.zp_word(loc::LINE_PTR as u8), col));
    if phase % 2 == 1 { block_hidden(t, ch) } else { block_shown(t, ch, col) }
}

/// Memory after one tick of the cursor: every 20 ticks the block changes state.
pub open spec fn blinked(m: Memory) -> Memory {
    let n = m.peek(loc::BLINK_COUNTDOWN as int).wrapping_sub(1);
    if m.peek(loc::CURSOR_ENABLE as int) != 0 {
        m
    } else if n != 0 {
        m.poke(loc::BLINK_COUNTDOWN as int, n)
    } else {
        blink_toggled(
            m.poke(loc::BLINK_COUNTDOWN as int, 0).poke(loc::BLINK_COUNTDOWN as int, 0x14))
    }
}

/// Memory after the cassette motor was serviced.
pub open spec fn motor_serviced(m: Memory) -> Memory {
    let on_port = m.peek(0x0001);
    if on_port & 0x10 == 0 {
        m.poke(0x00C0, 0x00).poke(0x0001, on_port | 0x20)
    } else if m.peek(0x00C0) == 0 {
        m.poke(0x0001, on_port & 0x1F)
    } else {
        m
    }
}

// ---- the keyboard ----

/// A column byte shifted down by some bits.
pub open spec fn shifted(cols: u8, bits: int) -> u8
    decreases bits,
{
    if bits <= 0 { cols } else { shifted(cols, bits - 1) / 2 }
}

/// Is the key at matrix position `k` held down? A held key reads as zero.
pub open spec fn held(cols: u8, k: int) -> bool {
    shifted(cols, k % 8) % 2 == 0
}

/// Is this the code of a modifier key (SHIFT, C= or CTRL)?
pub open spec fn is_modifier(code: u8) -> bool {
    code < 5 && code != 3
}

/// The modifiers held among the first `n` matrix positions.
pub open spec fn modifiers_held(cols: u8, n: int) -> u8
    decreases n,
{
    if n <= 0 {
        0
    } else {
        let code = UNSHIFTED_KEYS[n - 1];
        let before = modifiers_held(cols, n - 1);
        if held(cols, n - 1) && is_modifier(code) { before | code } else { before }
    }
}

/// The last ordinary key held among the first `n` matrix positions, 64 for none.
pub open spec fn key_held(cols: u8, n: int) -> u8
    decreases n,
{
    if n <= 0 {
        0x40
    } else if held(cols, n - 1) && !is_modifier(UNSHIFTED_KEYS[n - 1]) {
        (n - 1) as u8
    } else {
        key_held(cols, n - 1)
    }
}

/// The PETSCII code of a key under some modifiers.
pub open spec fn petscii(mods: u8, key: u8) -> u8 {
    if mods == 0x01 {
        SHIFTED_KEYS[key as int]
    } else if mods == 0x02 {
        CBM_KEYS[key as int]
    } else if mods == 0x04 {
        CTRL_KEYS[key as int]
    } else {
        UNSHIFTED_KEYS[key as int]
    }
}

/// Memory with one more byte in the type-ahead buffer, if there is room.
pub open spec fn buffered(m: Memory, code: u8) -> Memory {
    let count = m.peek(loc::KBD_COUNT as int);
    if count < m.peek(loc::KBD_BUFFER_MAX as int) {
        m.poke(loc::KBD_BUFFER + count, code).poke(loc::KBD_COUNT as int, (count + 1) as u8)
    } else {
        m
    }
}

/// Memory after a key was decoded. SHIFT and C= together switch the character
/// set; any other key that was not down before is typed.
#[verifier::opaque]
pub open spec fn decoded(m: Memory, key: u8) -> Memory {
    let mods = m.peek(loc::MODIFIERS as int);
    let t = m.poke(loc::LAST_KEY as int, key);
    if mods == 0x03 {
        m.poke(loc::VIC_MEMPTR as int, m.peek(loc::VIC_MEMPTR as int) ^ 0x02)
            .poke(loc::LAST_KEY as int, key)
    } else if key == m.peek(loc::LAST_KEY as int) || key >= 64 || petscii(mods, key) == 0xFF {
        t
    } else {
        buffered(t, petscii(mods, key))
    }
}

/// Memory after the matrix was read, the walking zero having left the last row
/// selected.
pub open spec fn keys_read(m: Memory) -> Memory {
    let cols = m.ram[loc::CIA1_PRB as int];
    m.poke(loc::MODIFIERS as int, modifiers_held(cols, 64))
        .poke(loc::CIA1_PRA as int, 0x7F)
        .poke(loc::CUR_KEY as int, key_held(cols, 64))
}

/// Memory after SCNKEY.
pub open spec fn keyboard_scanned(m: Memory) -> Memory {
    decoded(keys_read(m), key_held(m.ram[loc::CIA1_PRB as int], 64))
}

/// Memory after one interrupt.
pub open spec fn serviced(m: Memory) -> Memory {
    keyboard_scanned(motor_serviced(blinked(udtim::timed(m))))
}

/// The default IRQ handler ($EA31). One 60 Hz tick of housekeeping.
pub fn irq_handler(m: &mut C64Mem)
    requires
        old(m)@.covered(),
    ensures
        final(m)@ == serviced(old(m)@),
{
    update_time_and_stop_key(m); // JSR $FFEA -> UDTIM
    blink_cursor(m); // $EA34..$EA60
    cassette_motor(m); // $EA61..$EA7A
    scnkey(m); // JSR $EA87
    // $EA7E: read $DC0D to acknowledge the CIA interrupt, then RTI.
    let _ = m.r(0xDC0D);
}

fn update_time_and_stop_key(m: &mut C64Mem)
    ensures
        final(m)@ == udtim::timed(old(m)@),
{
    udtim::udtim(m);
}

/// Blink the cursor: every 20 ticks, toggle the reverse-video block on/off,
/// preserving the real character and colour beneath it ($EA34..$EA60).
pub fn blink_cursor(m: &mut C64Mem)
    requires
        old(m)@.covered(),
    ensures
        final(m)@ == blinked(old(m)@),
{
    if m.r(loc::CURSOR_ENABLE) != 0 {
        return; // cursor disabled
    }
    let n = m.r(loc::BLINK_COUNTDOWN).wrapping_sub(1);
    m.w(loc::BLINK_COUNTDOWN, n);
    if n != 0 {
        return; // not time to toggle yet
    }
    m.w(loc::BLINK_COUNTDOWN, 0x14); // reload = 20
    toggle_block(m);
}

/// Toggle the block ($EA40..$EA60).
fn toggle_block(m: &mut C64Mem)
    requires
        old(m)@.covered(),
    ensures
        final(m)@ == blink_toggled(old(m)@),
{
    let y = m.r(loc::CURSOR_COL);
    // LSR $CF: the old phase bit0 goes into "carry"; the block is shown now iff
    // that bit was set.
    let phase = m.r(loc::BLINK_PHASE);
    let showing = phase % 2 == 1;
    m.w(loc::BLINK_PHASE, phase / 2);

    let line = m.zp_ptr(loc::LINE_PTR as u8);
    let ch = m.r(line.wrapping_add(y as u16)); // char currently on screen

    if showing {
        // Block is already shown: put the real character and colour back.
        let color = m.r(loc::SAVED_COLOR);
        put_at_cursor(m, ch ^ 0x80, color); // EOR #$80 toggles reverse video
    } else {
        show_block(m, ch, y);
    }
}

/// Turn the block on, remembering the real character and colour first.
fn show_block(m: &mut C64Mem, ch: u8, y: u8)
    requires
        old(m)@.covered(),
        old(m)@.peek(loc::BLINK_PHASE as int) < 0xFF,
    ensures
        final(m)@ == block_shown(old(m)@, ch, y),
{
    reveal(block_shown);
    let next = m.r(loc::BLINK_PHASE) + 1;
    m.w(loc::BLINK_PHASE, next); // INC $CF (phase = on)
    m.w(loc::CHAR_UNDER_CURSOR, ch);
    color_ptr(m); // point $F3 at colour RAM for this line
    let cy = m.zp_ptr(loc::COLOR_PTR as u8).wrapping_add(y as u16);
    let under = m.r(cy);
    m.w(loc::SAVED_COLOR, under);
    let beneath = m.r(loc::CHAR_UNDER_CURSOR);
    let color = m.r(loc::TEXT_COLOR);
    put_at_cursor(m, beneath ^ 0x80, color); // EOR #$80 toggles reverse video
}

/// Store char `a` + colour `x` at the cursor cell ($EA1C).
///
/// ```text
/// EA1C: LDY $D3; STA ($D1),Y; TXA; STA ($F3),Y; RTS
/// ```
fn put_at_cursor(m: &mut C64Mem, a: u8, x: u8)
    ensures
        final(m)@ == cursor_put(old(m)@, a, x),
{
    reveal(cursor_put);
    let y = m.r(loc::CURSOR_COL) as u16;
    let line = m.zp_ptr(loc::LINE_PTR as u8);
    m.w(line.wrapping_add(y), a);
    let color = m.zp_ptr(loc::COLOR_PTR as u8);
    m.w(color.wrapping_add(y), x);
}

/// Point the colour pointer ($F3) at the colour-RAM row matching the screen row
/// pointer ($D1): same low byte, high byte forced into colour RAM $D8xx ($EA24).
///
/// ```text
/// EA24: LDA $D1; STA $F3; LDA $D2; AND #$03; ORA #$D8; STA $F4; RTS
/// ```
fn color_ptr(m: &mut C64Mem)
    ensures
        final(m)@ == color_pointed(old(m)@),
{
    let lo = m.r(loc::LINE_PTR);
    m.w(loc::COLOR_PTR, lo);
    let hi = (m.r(loc::LINE_PTR + 1) & 0x03) | 0xD8;
    m.w(loc::COLOR_PTR + 1, hi);
}

/// Cassette motor control from the 6510 port ($EA61..$EA7A). With no Datassette
/// this just keeps the motor line consistent; modeled for faithfulness.
fn cassette_motor(m: &mut C64Mem)
    ensures
        final(m)@ == motor_serviced(old(m)@),
{
    let on_port = m.r(0x0001);
    if on_port & 0x10 == 0 {
        // Play button pressed: clear the interlock and turn the motor on.
        m.w(0x00C0, 0x00);
        m.w(0x0001, on_port | 0x20);
    } else if m.r(0x00C0) == 0 {
        // No button: force the motor off.
        m.w(0x0001, on_port & 0x1F);
    }
}

/// SCNKEY ($EA87): scan the 8x8 keyboard matrix, decode the pressed key to
/// PETSCII, and push it into the type-ahead buffer.
///
/// ```text
/// EA87: clear $028D (modifiers); default key index = $40 (none)
///       for each of 8 rows: drive one CIA1 port-A line low ($FE,$FD,...),
///         read the 8 column bits on port B; for each low bit (pressed):
///           look up its unshifted code; codes < 5 (except 3) are the modifier
///           keys SHIFT/C=/CTRL -> OR into $028D; any other key -> its index.
///       (EB48) pick a decode table from the modifier bits, look up PETSCII,
///       and (with debounce against the last key) store it in the buffer.
/// ```
pub fn scnkey(m: &mut C64Mem)
    ensures
        final(m)@ == keyboard_scanned(old(m)@),
{
    let key_index = read_keys(m);
    decode_and_buffer(m, key_index);
}

/// Walk the rows of the matrix: the modifiers go to `$028D`, the last ordinary
/// key to `$CB`.
#[verifier::spinoff_prover]
fn read_keys(m: &mut C64Mem) -> (key: u8)
    ensures
        final(m)@ == keys_read(old(m)@),
        key == key_held(old(m)@.ram[loc::CIA1_PRB as int], 64),
{
    m.w(loc::MODIFIERS, 0x00);
    let mut key_index: u8 = 0x40; // 64 = "no key"
    let ghost all = m@.ram[loc::CIA1_PRB as int];

    let mut row_select: u8 = 0xFE; // walking zero across the 8 keyboard rows
    let mut row: u8 = 0;
    while row < 8
        invariant
            row <= 8,
            row_select == row_line(row as int),
            all == old(m)@.ram[loc::CIA1_PRB as int],
            key_index == key_held(all, 8 * row),
            m@ == rows_read(old(m)@, row as int),
        decreases 8 - row,
    {
        m.w(loc::CIA1_PRA, row_select);
        key_index = read_row(m, row, key_index);
        assert(m@ =~= rows_read(old(m)@, row + 1));
        row_select = (row_select % 128) * 2 + 1; // SEC; ROL A -> next row
        row += 1;
    }
    m.w(loc::CUR_KEY, key_index);
    proof {
        lemma_last_row();
    }
    key_index
}

proof fn lemma_last_row()
    ensures
        row_line(7) == 0x7F,
{
    assert(row_line(0) == 0xFE);
    assert(row_line(1) == 0xFD);
    assert(row_line(2) == 0xFB);
    assert(row_line(3) == 0xF7);
    assert(row_line(4) == 0xEF);
    assert(row_line(5) == 0xDF);
    assert(row_line(6) == 0xBF);
    assert(row_line(7) == 0x7F);
}

/// Memory after some rows were read.
spec fn rows_read(m: Memory, rows: int) -> Memory {
    let t = m.poke(
        loc::MODIFIERS as int, modifiers_held(m.ram[loc::CIA1_PRB as int], 8 * rows));
    if rows == 0 { t } else { t.poke(loc::CIA1_PRA as int, row_line(rows - 1)) }
}

/// Read the columns of the selected row.
fn read_row(m: &mut C64Mem, row: u8, before: u8) -> (key: u8)
    requires
        row < 8,
        old(m)@.ram[loc::MODIFIERS as int]
            == modifiers_held(old(m)@.ram[loc::CIA1_PRB as int], 8 * row),
        before == key_held(old(m)@.ram[loc::CIA1_PRB as int], 8 * row),
    ensures
        final(m)@ == old(m)@.poke(
            loc::MODIFIERS as int,
            modifiers_held(old(m)@.ram[loc::CIA1_PRB as int], 8 * row + 8),
        ),
        key == key_held(old(m)@.ram[loc::CIA1_PRB as int], 8 * row + 8),
{
    let mut key_index = before;
    let mut cols = m.r(loc::CIA1_PRB);
    let ghost all = cols;
    let mut col: u8 = 0;
    assert(m@ =~= m@.poke(loc::MODIFIERS as int, m@.ram[loc::MODIFIERS as int]));
    while col < 8
        invariant
            col <= 8,
            row < 8,
            all == old(m)@.ram[loc::CIA1_PRB as int],
            cols == shifted(all, col as int),
            key_index == key_held(all, 8 * row + col),
            m@ == old(m)@.poke(loc::MODIFIERS as int, modifiers_held(all, 8 * row + col)),
        decreases 8 - col,
    {
        let idx: u8 = 8 * row + col;
        assert(idx as int % 8 == col);
        if cols % 2 == 0 {
            // key at this matrix position is held down
            let code = UNSHIFTED_KEYS[idx as usize];
            if code < 5 && code != 3 {
                let mods = m.r(loc::MODIFIERS) | code; // SHIFT/C=/CTRL
                m.w(loc::MODIFIERS, mods);
            } else {
                key_index = idx; // last ordinary key wins
            }
        }
        assert(m@ =~= old(m)@.poke(loc::MODIFIERS as int, modifiers_held(all, idx + 1)));
        cols /= 2;
        col += 1;
    }
    key_index
}

/// The port-A value that selects a row: a walking zero.
pub open spec fn row_line(row: int) -> u8
    decreases row,
{
    if row <= 0 { 0xFE } else { ((row_line(row - 1) % 128) * 2 + 1) as u8 }
}

/// The $EB48 decode step: choose a table from the modifier bits, translate the
/// key index to PETSCII, and add it to the keyboard buffer (with simple
/// debounce). SHIFT+C= toggles the character set instead of typing.
pub fn decode_and_buffer(m: &mut C64Mem, key_index: u8)
    ensures
        final(m)@ == decoded(old(m)@, key_index),
{
    reveal(decoded);
    let mods = m.r(loc::MODIFIERS);

    // SHIFT+C= (both bits) toggles upper/lower case via the VIC char pointer.
    if mods == 0x03 {
        let pointer = m.r(loc::VIC_MEMPTR) ^ 0x02;
        m.w(loc::VIC_MEMPTR, pointer);
        m.w(loc::LAST_KEY, key_index);
        return;
    }

    // Debounce: only act when the key differs from last tick's key.
    let last = m.r(loc::LAST_KEY);
    m.w(loc::LAST_KEY, key_index);
    if key_index == last || key_index >= 64 {
        return;
    }

    let code = match mods {
        0x01 => SHIFTED_KEYS[key_index as usize],
        0x02 => CBM_KEYS[key_index as usize],
        0x04 => CTRL_KEYS[key_index as usize],
        _ => UNSHIFTED_KEYS[key_index as usize],
    };
    if code == 0xFF {
        return; // unused matrix slot
    }

    // Push into the type-ahead buffer if there's room.
    let count = m.r(loc::KBD_COUNT);
    if count < m.r(loc::KBD_BUFFER_MAX) {
        m.w(loc::KBD_BUFFER + count as u16, code);
        m.w(loc::KBD_COUNT, count + 1);
    }
}

} // verus!
