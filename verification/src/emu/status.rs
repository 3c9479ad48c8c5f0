//! An opt-in "system monitor" window for the emulator.
//!
//! It reads only **high-level state, once per frame** (the CPU registers, the
//! banking latch, a few VIC registers, the three serial-bus lines, the joystick)
//! and never instruments individual RAM or CPU accesses. A snapshot per frame
//! is essentially free, so the monitor doesn't slow the machine down.
//!
//! Text is drawn with the C64's own character ROM, for the look of the thing.

use vstd::prelude::*;
use crate::c64::machine::C64;
use crate::mos6502::Cpu;
use crate::{c64, cia6526, iec, text, vic2};

verus! {

pub const COLS: usize = 40;
pub const ROWS: usize = 25;
pub const WIDTH: usize = 320;
pub const HEIGHT: usize = 200;

/// Near-black.
pub const BG: u32 = 0x00_0A08;
/// Phosphor green.
pub const FG: u32 = 0x33_FF66;
/// Dim green for labels.
pub const DIM: u32 = 0x1C_7A3C;
/// Amber for anything currently active.
pub const HOT: u32 = 0xFF_C24B;

/// How many frames the bus counts as busy after a line moved.
pub const BUSY_FRAMES: u32 = 25;

/// A snapshot of the mechanism inside a real 1541, for the DRIVE panel.
///
/// Deliberately plain data rather than a borrow of the drive: the monitor should
/// be able to draw a picture of the hardware without knowing what a drive is.
#[derive(Debug, Clone, Copy)]
pub struct DriveState {
    /// Whole track the head is over (1..=35).
    pub track: u8,
    /// Spindle motor running (VIA2 PB2).
    pub motor: bool,
    /// Activity LED lit (VIA2 PB3): the light you watch on a real drive.
    pub led: bool,
    /// Head is over a sync mark (a run of one-bits between sectors).
    pub sync: bool,
    /// Byte index of the head within the track: proof the disk is turning.
    pub head: usize,
    /// The drive CPU's program counter.
    pub pc: u16,
}

impl Default for DriveState {
    fn default() -> (d: Self)
        ensures
            d == (DriveState { track: 0, motor: false, led: false, sync: false, head: 0, pc: 0 }),
    {
        DriveState { track: 0, motor: false, led: false, sync: false, head: 0, pc: 0 }
    }
}

/// The monitor's framebuffer plus a little activity-tracking state.
pub struct Monitor {
    /// Head position last frame, to tell a turning disk from a stalled one.
    pub last_head: usize,
    pub fb: Vec<u32>,
    pub last_bus: (bool, bool, bool),
    pub bus_active_until: u32,
}

/// What a [`Monitor`] holds.
#[verifier::ext_equal]
pub struct Panel {
    pub last_head: usize,
    pub fb: Seq<u32>,
    pub last_bus: (bool, bool, bool),
    pub bus_active_until: u32,
}

impl View for Monitor {
    type V = Panel;

    open spec fn view(&self) -> Panel {
        Panel {
            last_head: self.last_head,
            fb: self.fb@,
            last_bus: self.last_bus,
            bus_active_until: self.bus_active_until,
        }
    }
}

// ---- drawing ----

/// A blank picture.
pub open spec fn blank() -> Seq<u32> {
    Seq::new((WIDTH * HEIGHT) as nat, |p: int| BG)
}

/// The screen code of an ASCII byte (uppercase character set).
pub open spec fn code_of(c: u8) -> u8 {
    if c == 0x40 {
        0
    } else if 0x41 <= c <= 0x5A {
        (c - 0x40) as u8
    } else if 0x61 <= c <= 0x7A {
        (c - 0x60) as u8
    } else if 0x20 <= c <= 0x3F {
        c
    } else {
        0x20
    }
}

/// ASCII byte -> C64 screen code (uppercase character set).
fn screencode(c: u8) -> (code: u8)
    ensures
        code == code_of(c),
        code < 0x40,
{
    if c == 0x40 {
        0
    } else if 0x41 <= c && c <= 0x5A {
        c - 0x40
    } else if 0x61 <= c && c <= 0x7A {
        c - 0x60
    } else if 0x20 <= c && c <= 0x3F {
        c
    } else {
        0x20
    }
}

/// Is a dot of a byte of the character ROM set? Dot 0 is the leftmost.
pub open spec fn dot(bits: u8, gx: int) -> bool
    decreases gx,
{
    if gx <= 0 { bits >= 0x80 } else { dot((2 * (bits % 128)) as u8, gx - 1) }
}

/// Is a pixel lit by a text that starts at a character cell?
pub open spec fn lit(cg: Seq<u8>, col: int, row: int, bytes: Seq<u8>, x: int, y: int) -> bool {
    let i = x / 8 - col;
    y / 8 == row && 0 <= i < bytes.len() && dot(cg[8 * code_of(bytes[i]) + y % 8], x % 8)
}

/// A picture with a text drawn at a character cell. What does not fit the row is
/// cut off.
pub open spec fn drawn(
    fb: Seq<u32>, cg: Seq<u8>, col: int, row: int, bytes: Seq<u8>, color: u32,
) -> Seq<u32> {
    Seq::new(fb.len(), |p: int|
        if lit(cg, col, row, bytes, p % (WIDTH as int), p / (WIDTH as int)) { color } else { fb[p] })
}

/// A picture with a text drawn at a character cell, in its UTF-8 form.
pub open spec fn put(
    fb: Seq<u32>, cg: Seq<u8>, col: int, row: int, s: Seq<char>, color: u32,
) -> Seq<u32> {
    drawn(fb, cg, col, row, vstd::utf8::encode_utf8(s), color)
}

/// A picture with up to `n` dots of a glyph's line drawn.
spec fn line_drawn(fb: Seq<u32>, base: int, bits: u8, n: int, color: u32) -> Seq<u32> {
    Seq::new(fb.len(), |p: int| if base <= p < base + n && dot(bits, p - base) { color } else { fb[p] })
}

/// A picture with up to `n` lines of a glyph drawn.
spec fn glyph_drawn(fb: Seq<u32>, cg: Seq<u8>, cx: int, row: int, code: u8, n: int, color: u32) -> Seq<u32> {
    Seq::new(fb.len(), |p: int| {
        let x = p % (WIDTH as int);
        let y = p / (WIDTH as int);
        if x / 8 == cx && y / 8 == row && y % 8 < n && dot(cg[8 * code + y % 8], x % 8) {
            color
        } else {
            fb[p]
        }
    })
}

/// The bits of a line shifted so that dot `n` comes first.
spec fn shifted(bits: u8, n: int) -> u8
    decreases n,
{
    if n <= 0 { bits } else { shifted((2 * (bits % 128)) as u8, n - 1) }
}

proof fn lemma_shifted(bits: u8, n: int)
    requires
        n >= 0,
    ensures
        shifted(bits, n + 1) == 2 * (shifted(bits, n) % 128),
        dot(bits, n) == (shifted(bits, n) >= 0x80),
    decreases n,
{
    if n > 0 {
        lemma_shifted((2 * (bits % 128)) as u8, n - 1);
    } else {
        reveal_with_fuel(shifted, 2);
    }
}

impl Monitor {
    /// Draw one line of a glyph.
    fn put_line(&mut self, base: usize, bits: u8, color: u32)
        requires
            base + 8 <= old(self).fb.len(),
        ensures
            final(self)@ == (Panel { fb: line_drawn(old(self)@.fb, base as int, bits, 8, color), ..old(self)@ }),
    {
        let mut left = bits;
        let mut gx: usize = 0;
        assert(self@ =~= (Panel { fb: line_drawn(self@.fb, base as int, bits, 0, color), ..self@ }));
        while gx < 8
            invariant
                gx <= 8,
                base + 8 <= old(self).fb.len(),
                left == shifted(bits, gx as int),
                self@ == (Panel {
                    fb: line_drawn(old(self)@.fb, base as int, bits, gx as int, color), ..old(self)@
                }),
            decreases 8 - gx,
        {
            proof {
                lemma_shifted(bits, gx as int);
            }
            if left >= 0x80 {
                self.fb.set(base + gx, color);
            }
            assert(self@ =~= (Panel {
                fb: line_drawn(old(self)@.fb, base as int, bits, gx + 1, color), ..old(self)@
            }));
            left = 2 * (left % 128);
            gx += 1;
        }
    }

    /// Draw a glyph at a character cell.
    fn put_glyph(&mut self, cg: &[u8; 0x1000], cx: usize, row: usize, code: u8, color: u32)
        requires
            cx < COLS,
            row < ROWS,
            code < 0x40,
            old(self).fb@.len() == WIDTH * HEIGHT,
        ensures
            final(self)@ == (Panel {
                fb: glyph_drawn(old(self)@.fb, cg@, cx as int, row as int, code, 8, color),
                ..old(self)@
            }),
    {
        let mut gy: usize = 0;
        assert(self@ =~= (Panel {
            fb: glyph_drawn(self@.fb, cg@, cx as int, row as int, code, 0, color), ..self@
        }));
        while gy < 8
            invariant
                gy <= 8,
                cx < COLS,
                row < ROWS,
                code < 0x40,
                old(self).fb@.len() == WIDTH * HEIGHT,
                self@ == (Panel {
                    fb: glyph_drawn(old(self)@.fb, cg@, cx as int, row as int, code, gy as int, color),
                    ..old(self)@
                }),
            decreases 8 - gy,
        {
            let bits = cg[8 * (code as usize) + gy];
            let base = (8 * row + gy) * WIDTH + 8 * cx;
            let ghost before = self@.fb;
            self.put_line(base, bits, color);
            proof {
                let y0 = 8 * row + gy;
                assert forall|p: int| 0 <= p < WIDTH * HEIGHT implies
                    (base <= p < base + 8) == (#[trigger] (p % 320) / 8 == cx && p / 320 == y0) by {
                    lemma_place(p, cx as int, y0 as int);
                }
                let after = glyph_drawn(
                    old(self)@.fb, cg@, cx as int, row as int, code, gy + 1, color);
                assert forall|p: int| 0 <= p < WIDTH * HEIGHT implies
                    #[trigger] self@.fb[p] == after[p] by {
                    lemma_place(p, cx as int, y0 as int);
                    assert(before[p] == glyph_drawn(
                        old(self)@.fb, cg@, cx as int, row as int, code, gy as int, color)[p]);
                }
                assert(self@.fb =~= after);
            }
            gy += 1;
        }
    }
}

/// Which pixels lie in a line of a character cell.
proof fn lemma_place(p: int, cx: int, y0: int)
    requires
        0 <= p,
        0 <= cx < 40,
        0 <= y0,
    ensures
        (y0 * 320 + 8 * cx <= p < y0 * 320 + 8 * cx + 8) == ((p % 320) / 8 == cx && p / 320 == y0),
        (y0 * 320 + 8 * cx <= p < y0 * 320 + 8 * cx + 8) ==> p - (y0 * 320 + 8 * cx) == (p % 320) % 8,
{
}

impl Monitor {
    /// Draw a string at character cell (`col`, `row`) using the C64 char ROM.
    fn put(&mut self, cg: &[u8; 0x1000], col: usize, row: usize, s: &str, color: u32)
        requires
            col < COLS,
            row < ROWS,
            old(self).fb@.len() == WIDTH * HEIGHT,
        ensures
            final(self)@ == (Panel {
                fb: put(old(self)@.fb, cg@, col as int, row as int, s@, color), ..old(self)@
            }),
    {
        let bytes = s.as_bytes();
        let ghost all = vstd::utf8::encode_utf8(s@);
        let mut i: usize = 0;
        assert(self@ =~= (Panel {
            fb: drawn(self@.fb, cg@, col as int, row as int, all.take(0), color), ..self@
        }));
        while i < bytes.len() && i < COLS - col
            invariant
                i <= bytes.len(),
                i <= COLS - col,
                col < COLS,
                row < ROWS,
                all == vstd::utf8::encode_utf8(s@),
                bytes@ == all,
                old(self).fb@.len() == WIDTH * HEIGHT,
                self@ == (Panel {
                    fb: drawn(old(self)@.fb, cg@, col as int, row as int, all.take(i as int), color),
                    ..old(self)@
                }),
            decreases bytes.len() - i,
        {
            let ghost before = self@.fb;
            let code = screencode(bytes[i]);
            self.put_glyph(cg, col + i, row, code, color);
            proof {
                let after = drawn(
                    old(self)@.fb, cg@, col as int, row as int, all.take(i + 1), color);
                assert forall|p: int| 0 <= p < WIDTH * HEIGHT implies
                    #[trigger] self@.fb[p] == after[p] by {
                    let x = p % (WIDTH as int);
                    let y = p / (WIDTH as int);
                    assert(before[p] == drawn(
                        old(self)@.fb, cg@, col as int, row as int, all.take(i as int), color)[p]);
                    let k = x / 8 - col;
                    if 0 <= k < i {
                        assert(all.take(i + 1)[k] == all.take(i as int)[k]);
                    }
                }
                assert(self@.fb =~= after);
            }
            i += 1;
        }
        proof {
            let after = drawn(old(self)@.fb, cg@, col as int, row as int, all, color);
            assert forall|p: int| 0 <= p < WIDTH * HEIGHT implies #[trigger] self@.fb[p] == after[p] by {
                let k = p % (WIDTH as int) / 8 - col;
                assert(self@.fb[p] == drawn(
                    old(self)@.fb, cg@, col as int, row as int, all.take(i as int), color)[p]);
                if 0 <= k < i {
                    assert(all.take(i as int)[k] == all[k]);
                }
            }
            assert(self@.fb =~= after);
        }
    }
}

// ---- the lines ----

/// A flag's letter: a capital while it is set.
pub open spec fn flag_char(on: bool, upper: char, lower: char) -> char {
    if on { upper } else { lower }
}

/// The flags, `NVDIZC`.
pub open spec fn flags_text(cpu: Cpu) -> Seq<char> {
    seq![
        flag_char(cpu.n, 'N', 'n'), flag_char(cpu.v, 'V', 'v'), flag_char(cpu.d, 'D', 'd'),
        flag_char(cpu.i, 'I', 'i'), flag_char(cpu.z, 'Z', 'z'), flag_char(cpu.c, 'C', 'c'),
    ]
}

/// Append the flags, `NVDIZC`, a capital for each that is set.
pub fn push_flags(out: &mut String, cpu: &Cpu)
    ensures
        final(out)@ == old(out)@ + flags_text(*cpu),
{
    out.push(if cpu.n { 'N' } else { 'n' });
    out.push(if cpu.v { 'V' } else { 'v' });
    out.push(if cpu.d { 'D' } else { 'd' });
    out.push(if cpu.i { 'I' } else { 'i' });
    out.push(if cpu.z { 'Z' } else { 'z' });
    out.push(if cpu.c { 'C' } else { 'c' });
    assert(out@ =~= old(out)@ + flags_text(*cpu));
}

/// The registers of the CPU.
pub open spec fn registers_text(cpu: Cpu) -> Seq<char> {
    "PC:"@ + text::hex(cpu.pc as nat, 4) + "  A:"@ + text::hex(cpu.a as nat, 2)
        + " X:"@ + text::hex(cpu.x as nat, 2) + " Y:"@ + text::hex(cpu.y as nat, 2)
        + " SP:"@ + text::hex(cpu.sp as nat, 2)
}

/// Who is asking for an interrupt.
pub open spec fn irq_source(m: C64) -> Seq<char> {
    if vic2::asserts_irq(m.board.vic) {
        "VIC"@
    } else if cia6526::asserts_irq(m.board.cia1) {
        "CIA1"@
    } else {
        "-"@
    }
}

/// Whether BASIC, I/O, the characters and the KERNAL are banked in at $A000,
/// $D000 and $E000; anything else goes by the name of RAM.
pub open spec fn banking_text(b: c64::Board) -> Seq<char> {
    "A000:"@ + (if c64::basic_visible(b) { "BASIC"@ } else { "RAM"@ })
        + "  D000:"@ + (if c64::io_visible(b) {
            "I/O"@
        } else if c64::chargen_visible(b) {
            "CHAR"@
        } else {
            "RAM"@
        })
        + "  E000:"@ + (if c64::hiram_high(b) { "KERNAL"@ } else { "RAM"@ })
}

/// The display mode of the VIC.
pub open spec fn mode_text(regs: Seq<u8>) -> Seq<char> {
    let ecm = regs[0x11] & 0x40 != 0;
    let bmm = regs[0x11] & 0x20 != 0;
    let mcm = regs[0x16] & 0x10 != 0;
    if bmm && mcm {
        "MC-BITMAP"@
    } else if bmm {
        "BITMAP"@
    } else if mcm {
        "MC-TEXT"@
    } else if ecm {
        "ECM-TEXT"@
    } else {
        "TEXT"@
    }
}

/// The name of the VIC's display mode.
pub fn mode_name(vic: &vic2::Vic) -> (s: &'static str)
    ensures
        s@ == mode_text(vic.regs@),
{
    let ecm = vic.regs[0x11] & 0x40 != 0;
    let bmm = vic.regs[0x11] & 0x20 != 0;
    let mcm = vic.regs[0x16] & 0x10 != 0;
    if bmm && mcm {
        "MC-BITMAP"
    } else if bmm {
        "BITMAP"
    } else if mcm {
        "MC-TEXT"
    } else if ecm {
        "ECM-TEXT"
    } else {
        "TEXT"
    }
}

/// The colours, and which sprites are on.
pub open spec fn colours_text(regs: Seq<u8>) -> Seq<char> {
    "BORDER:"@ + text::hex((regs[0x20] % 16) as nat, 1) + " BG:"@
        + text::hex((regs[0x21] % 16) as nat, 1) + "  SPR-EN:"@ + text::hex(regs[0x15] as nat, 2)
}

/// The level of a line as a digit.
pub open spec fn level_text(high: bool) -> Seq<char> {
    if high { "1"@ } else { "0"@ }
}

/// The levels of the bus.
pub open spec fn bus_text(bus: (bool, bool, bool)) -> Seq<char> {
    "BUS ATN:"@ + level_text(bus.0) + " CLK:"@ + level_text(bus.1) + " DATA:"@ + level_text(bus.2)
}

/// A word while something is on, a dash while it is not.
pub open spec fn word_if(on: bool, word: Seq<char>) -> Seq<char> {
    if on { word } else { "-"@ }
}

/// The state of the drive's mechanism.
pub open spec fn mechanism_text(d: DriveState) -> Seq<char> {
    "TRK:"@ + text::decimal_in(d.track as nat, 2, '0') + " "@ + word_if(d.motor, "MOTOR"@) + " "@
        + word_if(d.led, "LED"@) + " "@ + word_if(d.sync, "SYNC"@) + " PC:"@
        + text::hex(d.pc as nat, 4)
}

/// A four-phase spinner, stepped by the head index; a dot while the disk does
/// not turn.
pub open spec fn spinner_text(head: usize, turning: bool) -> Seq<char> {
    let phase = head as int / 8 % 4;
    if !turning {
        "."@
    } else if phase == 0 {
        "|"@
    } else if phase == 1 {
        "/"@
    } else if phase == 2 {
        "-"@
    } else {
        "\\"@
    }
}

/// The cassette bits of the 6510's port.
pub open spec fn tape_text(p01: u8) -> Seq<char> {
    "motor:"@ + text::decimal((p01 / 32 % 2) as nat) + " sense:"@
        + text::decimal((p01 / 16 % 2) as nat) + " (no datasette)"@
}

/// A joystick switch: its letter while it is closed.
pub open spec fn switch_text(j: u8, bit: u8, letter: Seq<char>) -> Seq<char> {
    if j & bit == 0 { letter } else { "."@ }
}

/// The state of a joystick.
pub open spec fn joystick_text(j: u8) -> Seq<char> {
    switch_text(j, 0x01, "U"@) + " "@ + switch_text(j, 0x02, "D"@) + " "@
        + switch_text(j, 0x04, "L"@) + " "@ + switch_text(j, 0x08, "R"@) + "  FIRE:"@
        + (if j & 0x10 == 0 { "YES"@ } else { "no "@ })
}

// ---- the panels ----

/// The header and the CPU.
#[verifier::opaque]
pub open spec fn cpu_panel(fb: Seq<u32>, m: C64) -> Seq<u32> {
    let cg = m.board.chargen@;
    let a = put(fb, cg, 0, 0, "== C64 SYSTEM MONITOR ================="@, DIM);
    let b = put(a, cg, 0, 2, "CPU"@, HOT);
    let c = put(b, cg, 5, 2, registers_text(m.cpu), FG);
    let d = put(c, cg, 5, 3, "FLAGS "@ + flags_text(m.cpu), FG);
    let quiet = !vic2::asserts_irq(m.board.vic) && !cia6526::asserts_irq(m.board.cia1);
    let e = put(d, cg, 20, 3, "IRQ:"@ + irq_source(m), if quiet { DIM } else { HOT });
    put(e, cg, 5, 4, "CYCLES:"@ + text::decimal(m.cpu.cycles as nat), DIM)
}

/// The memory banking.
#[verifier::opaque]
pub open spec fn memory_panel(fb: Seq<u32>, m: C64) -> Seq<u32> {
    let cg = m.board.chargen@;
    let a = put(fb, cg, 0, 6, "MEM"@, HOT);
    let b = put(a, cg, 5, 6, "$01="@ + text::hex(c64::port01_level(m.board) as nat, 2), FG);
    put(b, cg, 5, 7, banking_text(m.board), FG)
}

/// The VIC.
#[verifier::opaque]
pub open spec fn vic_panel(fb: Seq<u32>, m: C64) -> Seq<u32> {
    let cg = m.board.chargen@;
    let regs = m.board.vic.regs@;
    let on = regs[0x1A] % 2 == 1;
    let a = put(fb, cg, 0, 9, "VIC"@, HOT);
    let b = put(
        a, cg, 5, 9,
        "RASTER:"@ + text::decimal_in(m.board.vic.raster as nat, 3, ' ') + "  MODE:"@ + mode_text(regs),
        FG,
    );
    let c = put(b, cg, 5, 10, colours_text(regs), FG);
    put(c, cg, 5, 11, "RASTER-IRQ:"@ + (if on { "ON"@ } else { "off"@ }), if on { FG } else { DIM })
}

/// The disk and the serial bus.
#[verifier::opaque]
pub open spec fn disk_panel(
    fb: Seq<u32>, m: C64, attached: bool, bus: (bool, bool, bool), busy: bool,
) -> Seq<u32> {
    let cg = m.board.chargen@;
    let a = put(fb, cg, 0, 13, "DISK"@, HOT);
    let b = put(
        a, cg, 5, 13, if attached { "device 8 attached"@ } else { "no drive on bus"@ },
        if attached { FG } else { DIM },
    );
    let c = put(b, cg, 5, 14, bus_text(bus), FG);
    put(
        c, cg, 27, 14, if busy { "<< BUSY >>"@ } else { "idle"@ },
        if busy { HOT } else { DIM },
    )
}

/// The drive's own mechanism.
#[verifier::opaque]
pub open spec fn drive_panel(fb: Seq<u32>, m: C64, d: DriveState, turning: bool) -> Seq<u32> {
    let cg = m.board.chargen@;
    let a = put(fb, cg, 0, 15, "1541"@, HOT);
    let b = put(a, cg, 5, 15, mechanism_text(d), if d.motor { HOT } else { FG });
    put(b, cg, 36, 15, spinner_text(d.head, turning), if turning { HOT } else { DIM })
}

/// The cassette, the joystick and the frame count.
#[verifier::opaque]
pub open spec fn rest_panel(fb: Seq<u32>, m: C64, frames: u32) -> Seq<u32> {
    let cg = m.board.chargen@;
    let j = m.board.joy2;
    let a = put(fb, cg, 0, 16, "TAPE"@, HOT);
    let b = put(a, cg, 5, 16, tape_text(c64::port01_level(m.board)), DIM);
    let c = put(b, cg, 0, 18, "JOY2"@, HOT);
    let d = put(c, cg, 5, 18, joystick_text(j), if j != 0xFF { HOT } else { FG });
    put(d, cg, 0, 24, "FRAME:"@ + text::decimal(frames as nat), DIM)
}

/// The levels of the three lines.
pub open spec fn levels(m: C64) -> (bool, bool, bool) {
    (
        iec::line_high(m.board.iec, iec::Line::Atn),
        iec::line_high(m.board.iec, iec::Line::Clk),
        iec::line_high(m.board.iec, iec::Line::Data),
    )
}

/// Until which frame the bus counts as busy.
pub open spec fn busy_until(p: Panel, m: C64, frames: u32) -> u32 {
    if levels(m) != p.last_bus { (frames + BUSY_FRAMES) as u32 } else { p.bus_active_until }
}

/// The monitor after a frame.
pub open spec fn rendered(
    p: Panel, m: C64, attached: bool, drive: Option<DriveState>, frames: u32,
) -> Panel {
    let until = busy_until(p, m, frames);
    let a = vic_panel(memory_panel(cpu_panel(blank(), m), m), m);
    let b = disk_panel(a, m, attached, levels(m), frames < until);
    let c = match drive {
        Some(d) => drive_panel(b, m, d, d.head != p.last_head),
        None => b,
    };
    Panel {
        fb: rest_panel(c, m, frames),
        last_bus: levels(m),
        bus_active_until: until,
        last_head: match drive {
            Some(d) => d.head,
            None => p.last_head,
        },
    }
}

/// A monitor that has drawn nothing yet.
pub open spec fn fresh_panel() -> Panel {
    Panel {
        fb: blank(), last_bus: (true, true, true), bus_active_until: 0, last_head: usize::MAX,
    }
}

/// The text of two parts.
fn joined(a: &str, b: &str) -> (s: String)
    ensures
        s@ == a@ + b@,
{
    let mut s = String::new();
    text::push_text(&mut s, a);
    text::push_text(&mut s, b);
    assert(s@ =~= a@ + b@);
    s
}

/// A label and a number in decimal.
fn labelled(label: &str, n: u64) -> (s: String)
    ensures
        s@ == label@ + text::decimal(n as nat),
{
    let mut s = String::new();
    text::push_text(&mut s, label);
    text::push_decimal(&mut s, n);
    assert(s@ =~= label@ + text::decimal(n as nat));
    s
}

/// A label and a number in hexadecimal.
fn labelled_hex(label: &str, n: u64, digits: u8) -> (s: String)
    ensures
        s@ == label@ + text::hex(n as nat, digits as nat),
{
    let mut s = String::new();
    text::push_text(&mut s, label);
    text::push_hex(&mut s, n, digits);
    assert(s@ =~= label@ + text::hex(n as nat, digits as nat));
    s
}

impl Default for Monitor {
    fn default() -> (mon: Self)
        ensures
            mon@ == fresh_panel(),
    {
        let mon = Monitor {
            fb: vec![BG; WIDTH * HEIGHT],
            last_bus: (true, true, true),
            bus_active_until: 0,
            last_head: usize::MAX,
        };
        assert(mon@ =~= fresh_panel());
        mon
    }
}

impl Monitor {
    pub fn new() -> (mon: Self)
        ensures
            mon@ == fresh_panel(),
    {
        Self::default()
    }

    pub fn framebuffer(&self) -> (fb: &[u32])
        ensures
            fb@ == self@.fb,
    {
        self.fb.as_slice()
    }

    fn clear(&mut self)
        requires
            old(self).fb@.len() == WIDTH * HEIGHT,
        ensures
            final(self)@ == (Panel { fb: blank(), ..old(self)@ }),
    {
        let mut k: usize = 0;
        while k < WIDTH * HEIGHT
            invariant
                k <= WIDTH * HEIGHT,
                self.fb@.len() == WIDTH * HEIGHT,
                self@ == (Panel { fb: self@.fb, ..old(self)@ }),
                forall|p: int| 0 <= p < k ==> self.fb@[p] == BG,
            decreases WIDTH * HEIGHT - k,
        {
            self.fb.set(k, BG);
            k += 1;
        }
        assert(self@.fb =~= blank());
    }

    fn draw_cpu(&mut self, m: &C64)
        requires
            old(self).fb@.len() == WIDTH * HEIGHT,
        ensures
            final(self)@ == (Panel { fb: cpu_panel(old(self)@.fb, *m), ..old(self)@ }),
            final(self).fb@.len() == WIDTH * HEIGHT,
    {
        reveal(cpu_panel);
        let cg = &m.board.chargen;
        self.put(cg, 0, 0, "== C64 SYSTEM MONITOR =================", DIM);
        self.put(cg, 0, 2, "CPU", HOT);
        let registers = registers_line(&m.cpu);
        self.put(cg, 5, 2, registers.as_str(), FG);
        let mut flags = String::new();
        text::push_text(&mut flags, "FLAGS ");
        push_flags(&mut flags, &m.cpu);
        assert(flags@ =~= "FLAGS "@ + flags_text(m.cpu));
        self.put(cg, 5, 3, flags.as_str(), FG);
        let vic = m.board.vic.irq_asserted();
        let cia = m.board.cia1.irq_asserted();
        let irq = if vic {
            "VIC"
        } else if cia {
            "CIA1"
        } else {
            "-"
        };
        let source = joined("IRQ:", irq);
        self.put(cg, 20, 3, source.as_str(), if !vic && !cia { DIM } else { HOT });
        let cycles = labelled("CYCLES:", m.cpu.cycles);
        self.put(cg, 5, 4, cycles.as_str(), DIM);
    }

    fn draw_memory(&mut self, m: &C64)
        requires
            old(self).fb@.len() == WIDTH * HEIGHT,
        ensures
            final(self)@ == (Panel { fb: memory_panel(old(self)@.fb, *m), ..old(self)@ }),
            final(self).fb@.len() == WIDTH * HEIGHT,
    {
        reveal(memory_panel);
        let cg = &m.board.chargen;
        self.put(cg, 0, 6, "MEM", HOT);
        let latch = labelled_hex("$01=", m.board.port01() as u64, 2);
        self.put(cg, 5, 6, latch.as_str(), FG);
        let (basic, kernal, io, chargen) = m.board.banking();
        let mut s = String::new();
        text::push_text(&mut s, "A000:");
        text::push_text(&mut s, if basic { "BASIC" } else { "RAM" });
        text::push_text(&mut s, "  D000:");
        text::push_text(
            &mut s,
            if io {
                "I/O"
            } else if chargen {
                "CHAR"
            } else {
                "RAM"
            },
        );
        text::push_text(&mut s, "  E000:");
        text::push_text(&mut s, if kernal { "KERNAL" } else { "RAM" });
        assert(s@ =~= banking_text(m.board));
        self.put(cg, 5, 7, s.as_str(), FG);
    }

    fn draw_vic(&mut self, m: &C64)
        requires
            old(self).fb@.len() == WIDTH * HEIGHT,
        ensures
            final(self)@ == (Panel { fb: vic_panel(old(self)@.fb, *m), ..old(self)@ }),
            final(self).fb@.len() == WIDTH * HEIGHT,
    {
        reveal(vic_panel);
        let cg = &m.board.chargen;
        let regs = &m.board.vic.regs;
        self.put(cg, 0, 9, "VIC", HOT);
        let mut s = String::new();
        text::push_text(&mut s, "RASTER:");
        text::push_decimal_in(&mut s, m.board.vic.raster() as u64, 3, ' ');
        text::push_text(&mut s, "  MODE:");
        text::push_text(&mut s, mode_name(&m.board.vic));
        assert(s@ =~= "RASTER:"@ + text::decimal_in(m.board.vic.raster as nat, 3, ' ') + "  MODE:"@
            + mode_text(m.board.vic.regs@));
        self.put(cg, 5, 9, s.as_str(), FG);
        let mut t = String::new();
        text::push_text(&mut t, "BORDER:");
        text::push_hex(&mut t, (regs[0x20] % 16) as u64, 1);
        text::push_text(&mut t, " BG:");
        text::push_hex(&mut t, (regs[0x21] % 16) as u64, 1);
        text::push_text(&mut t, "  SPR-EN:");
        text::push_hex(&mut t, regs[0x15] as u64, 2);
        assert(t@ =~= colours_text(regs@));
        self.put(cg, 5, 10, t.as_str(), FG);
        let on = regs[0x1A] % 2 == 1;
        let raster = joined("RASTER-IRQ:", if on { "ON" } else { "off" });
        self.put(cg, 5, 11, raster.as_str(), if on { FG } else { DIM });
    }

    fn draw_disk(&mut self, m: &C64, attached: bool, bus: (bool, bool, bool), busy: bool)
        requires
            old(self).fb@.len() == WIDTH * HEIGHT,
        ensures
            final(self)@ == (Panel {
                fb: disk_panel(old(self)@.fb, *m, attached, bus, busy), ..old(self)@
            }),
            final(self).fb@.len() == WIDTH * HEIGHT,
    {
        reveal(disk_panel);
        let cg = &m.board.chargen;
        self.put(cg, 0, 13, "DISK", HOT);
        self.put(
            cg, 5, 13, if attached { "device 8 attached" } else { "no drive on bus" },
            if attached { FG } else { DIM },
        );
        let mut s = String::new();
        text::push_text(&mut s, "BUS ATN:");
        text::push_text(&mut s, level(bus.0));
        text::push_text(&mut s, " CLK:");
        text::push_text(&mut s, level(bus.1));
        text::push_text(&mut s, " DATA:");
        text::push_text(&mut s, level(bus.2));
        assert(s@ =~= bus_text(bus));
        self.put(cg, 5, 14, s.as_str(), FG);
        self.put(
            cg, 27, 14, if busy { "<< BUSY >>" } else { "idle" },
            if busy { HOT } else { DIM },
        );
    }

    fn draw_drive(&mut self, m: &C64, d: DriveState, turning: bool)
        requires
            old(self).fb@.len() == WIDTH * HEIGHT,
        ensures
            final(self)@ == (Panel {
                fb: drive_panel(old(self)@.fb, *m, d, turning), ..old(self)@
            }),
            final(self).fb@.len() == WIDTH * HEIGHT,
    {
        reveal(drive_panel);
        let cg = &m.board.chargen;
        self.put(cg, 0, 15, "1541", HOT);
        let mut s = String::new();
        text::push_text(&mut s, "TRK:");
        text::push_decimal_in(&mut s, d.track as u64, 2, '0');
        text::push_text(&mut s, " ");
        text::push_text(&mut s, if d.motor { "MOTOR" } else { "-" });
        text::push_text(&mut s, " ");
        text::push_text(&mut s, if d.led { "LED" } else { "-" });
        text::push_text(&mut s, " ");
        text::push_text(&mut s, if d.sync { "SYNC" } else { "-" });
        text::push_text(&mut s, " PC:");
        text::push_hex(&mut s, d.pc as u64, 4);
        assert(s@ =~= mechanism_text(d));
        self.put(cg, 5, 15, s.as_str(), if d.motor { HOT } else { FG });
        // A four-phase spinner, stepped by the head index: it turns only when
        // the disk does, so a stalled drive is obvious at a glance.
        let phase = d.head / 8 % 4;
        let spin = if !turning {
            "."
        } else if phase == 0 {
            "|"
        } else if phase == 1 {
            "/"
        } else if phase == 2 {
            "-"
        } else {
            "\\"
        };
        self.put(cg, 36, 15, spin, if turning { HOT } else { DIM });
    }

    fn draw_rest(&mut self, m: &C64, frames: u32)
        requires
            old(self).fb@.len() == WIDTH * HEIGHT,
        ensures
            final(self)@ == (Panel { fb: rest_panel(old(self)@.fb, *m, frames), ..old(self)@ }),
            final(self).fb@.len() == WIDTH * HEIGHT,
    {
        reveal(rest_panel);
        let cg = &m.board.chargen;
        // The cassette is not emulated, but the port bits are real.
        let p01 = m.board.port01();
        self.put(cg, 0, 16, "TAPE", HOT);
        let mut s = String::new();
        text::push_text(&mut s, "motor:");
        text::push_decimal(&mut s, (p01 / 32 % 2) as u64);
        text::push_text(&mut s, " sense:");
        text::push_decimal(&mut s, (p01 / 16 % 2) as u64);
        text::push_text(&mut s, " (no datasette)");
        assert(s@ =~= tape_text(p01));
        self.put(cg, 5, 16, s.as_str(), DIM);

        let j = m.board.joy2;
        self.put(cg, 0, 18, "JOY2", HOT);
        let mut t = String::new();
        text::push_text(&mut t, if j & 0x01 == 0 { "U" } else { "." });
        text::push_text(&mut t, " ");
        text::push_text(&mut t, if j & 0x02 == 0 { "D" } else { "." });
        text::push_text(&mut t, " ");
        text::push_text(&mut t, if j & 0x04 == 0 { "L" } else { "." });
        text::push_text(&mut t, " ");
        text::push_text(&mut t, if j & 0x08 == 0 { "R" } else { "." });
        text::push_text(&mut t, "  FIRE:");
        text::push_text(&mut t, if j & 0x10 == 0 { "YES" } else { "no " });
        assert(t@ =~= joystick_text(j));
        self.put(cg, 5, 18, t.as_str(), if j != 0xFF { HOT } else { FG });

        let count = labelled("FRAME:", frames as u64);
        self.put(cg, 0, 24, count.as_str(), DIM);
    }

    /// Redraw the dashboard from the machine's current state.
    pub fn render(
        &mut self,
        c64: &C64,
        drive_attached: bool,
        drive: Option<DriveState>,
        frames: u32,
    )
        requires
            old(self)@.fb.len() == WIDTH * HEIGHT,
            frames + BUSY_FRAMES <= u32::MAX,
        ensures
            final(self)@ == rendered(old(self)@, *c64, drive_attached, drive, frames),
            final(self)@.fb.len() == WIDTH * HEIGHT,
    {
        self.clear();

        // Serial-bus activity: flag it "busy" briefly whenever a line moves.
        let bus = (c64.board.iec.atn(), c64.board.iec.clk(), c64.board.iec.data());
        if bus.0 != self.last_bus.0 || bus.1 != self.last_bus.1 || bus.2 != self.last_bus.2 {
            self.bus_active_until = frames + BUSY_FRAMES;
            self.last_bus = bus;
        }
        let busy = frames < self.bus_active_until;

        self.draw_cpu(c64);
        self.draw_memory(c64);
        self.draw_vic(c64);
        self.draw_disk(c64, drive_attached, bus, busy);

        // ---- the drive's own mechanism, when the real firmware is attached ----
        if let Some(d) = drive {
            // The head index only advances while the disk turns, so comparing it
            // with last frame's is a direct read on "is this thing spinning".
            let turning = d.head != self.last_head;
            self.last_head = d.head;
            self.draw_drive(c64, d, turning);
        }

        self.draw_rest(c64, frames);
        assert(self@ =~= rendered(old(self)@, *c64, drive_attached, drive, frames));
    }
}

pub fn level(high: bool) -> (s: &'static str)
    ensures
        s@ == level_text(high),
{
    if high { "1" } else { "0" }
}

fn registers_line(cpu: &Cpu) -> (s: String)
    ensures
        s@ == registers_text(*cpu),
{
    let mut s = String::new();
    text::push_text(&mut s, "PC:");
    text::push_hex(&mut s, cpu.pc as u64, 4);
    text::push_text(&mut s, "  A:");
    text::push_hex(&mut s, cpu.a as u64, 2);
    text::push_text(&mut s, " X:");
    text::push_hex(&mut s, cpu.x as u64, 2);
    text::push_text(&mut s, " Y:");
    text::push_hex(&mut s, cpu.y as u64, 2);
    text::push_text(&mut s, " SP:");
    text::push_hex(&mut s, cpu.sp as u64, 2);
    assert(s@ =~= registers_text(*cpu));
    s
}

// ---- what holds of the monitor ----

/// The row of the drive's mechanism stays blank while no drive shows itself.
pub proof fn law_drive_row_needs_a_drive(p: Panel, m: C64, attached: bool, frames: u32, at: int)
    requires
        0 <= at < WIDTH * HEIGHT,
        at / (WIDTH as int) / 8 == 15,
    ensures
        rendered(p, m, attached, None, frames).fb[at] == BG,
{
    reveal(cpu_panel);
    reveal(memory_panel);
    reveal(vic_panel);
    reveal(disk_panel);
    reveal(rest_panel);
}

/// The spinner shows whether the head moved since the frame before: a frame with
/// the same head position stands still, and remembers that position.
pub proof fn law_spinner_tracks_a_turning_disk(
    p: Panel, m: C64, attached: bool, d: DriveState, frames: u32,
)
    ensures
        rendered(p, m, attached, Some(d), frames).last_head == d.head,
        spinner_text(d.head, d.head != rendered(p, m, attached, Some(d), frames).last_head) == "."@,
{
}

/// The bus counts as busy from the frame in which a line moved.
pub proof fn law_bus_is_busy_when_a_line_moves(p: Panel, m: C64, frames: u32)
    requires
        frames + BUSY_FRAMES <= u32::MAX,
        levels(m) != p.last_bus,
    ensures
        frames < busy_until(p, m, frames),
        busy_until(p, m, frames) == frames + BUSY_FRAMES,
{
}

} // verus!
