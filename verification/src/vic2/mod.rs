//! MOS 6567/6569 VIC-II video chip.
//!
//! Models what real C64 software uses:
//! - a **raster counter** with a **raster compare interrupt** ($D012/$D011 +
//!   $D019/$D01A) wired to the CPU IRQ: the backbone of split-screen effects,
//!   music timing, and most game main loops;
//! - all four display modes: standard/multicolor **text** and standard/
//!   multicolor **bitmap** (extended-background mode is approximated as text);
//! - the eight **sprites** (hi-res and multicolor, X/Y expansion) and their
//!   collisions.
//!
//! Rendering is **per scanline** ([`Vic::render_line`]), so a raster-interrupt
//! handler that reprograms the VIC mid-frame produces the right split.
//!
//! Not modeled: sprite/background priority (`$D01B`), the exact bad-line
//! timing, and the border area (the 320x200 display window is rendered).

use vstd::prelude::*;

pub mod laws;
pub mod picture;
pub mod render;

verus! {

/// Visible display window: 40x25 characters of 8x8 pixels.
pub const WIDTH: usize = 320;
pub const HEIGHT: usize = 200;

/// PAL-ish timing: 63 CPU cycles per raster line, 312 lines per frame.
pub const CYCLES_PER_LINE: u32 = 63;
pub const LINES_PER_FRAME: u16 = 312;

/// Sprite coordinate origins: sprite Y=50 / X=24 sit at the top-left of the
/// display window.
pub const SPRITE_Y_ORIGIN: i32 = 50;
pub const SPRITE_X_ORIGIN: i32 = 24;

/// The 16 C64 colours as `0x00RRGGBB` (the widely used VICE palette).
pub const PALETTE: [u32; 16] = [
    0x000000, 0xFFFFFF, 0x880000, 0xAAFFEE, 0xCC44CC, 0x00CC55, 0x0000AA, 0xEEEE77, 0xDD8855,
    0x664400, 0xFF7777, 0x333333, 0x777777, 0xAAFF66, 0x0088FF, 0xBBBBBB,
];

/// $D019 bit 0: the raster reached the compare line.
pub const IRQ_RASTER: u8 = 0x01;
/// $D019 bit 1: a sprite touched foreground graphics.
pub const IRQ_SPRITE_BG: u8 = 0x02;
/// $D019 bit 2: two sprites touched each other.
pub const IRQ_SPRITE_SPRITE: u8 = 0x04;

/// The VIC-II.
#[derive(Clone)]
pub struct Vic {
    pub regs: [u8; 0x40],
    pub raster: u16,
    pub line_cycles: u32,
    pub raster_compare: u16,
    /// $D019 (bit0 raster, bit1 sprite-bg, bit2 sprite-sprite).
    pub irq_latch: u8,
    /// $D01A
    pub irq_enable: u8,
    /// $D01E, which sprites took part in a sprite/sprite collision.
    pub collision_sprite: u8,
    /// $D01F, which sprites collided with foreground graphics.
    pub collision_bg: u8,
}

/// What every reachable chip keeps: the beam is inside the frame.
pub open spec fn vic_sound(v: Vic) -> bool {
    &&& v.raster < LINES_PER_FRAME
    &&& v.line_cycles < CYCLES_PER_LINE
    &&& v.raster_compare < 512
}

/// The chip after power-on.
pub open spec fn power_on(v: Vic) -> bool {
    &&& forall|k: int| 0 <= k < 0x40 ==> v.regs[k] == 0
    &&& v.raster == 0 && v.line_cycles == 0 && v.raster_compare == 0
    &&& v.irq_latch == 0 && v.irq_enable == 0
    &&& v.collision_sprite == 0 && v.collision_bg == 0
}

/// The colour a colour number stands for: only its low four bits count.
pub open spec fn rgb_of(color: u8) -> u32 {
    PALETTE@[color as int % 16]
}

/// Is an enabled interrupt pending?
pub open spec fn asserts_irq(v: Vic) -> bool {
    (v.irq_latch & v.irq_enable & 0x0F) != 0
}

/// The raster line `n` lines on.
pub open spec fn line_after(v: Vic, n: int) -> int {
    (v.raster + n) % (LINES_PER_FRAME as int)
}

/// Does the beam reach the compare line within the next `n` lines?
pub open spec fn reaches_compare(v: Vic, n: int) -> bool {
    exists|k: int| 1 <= k <= n && #[trigger] line_after(v, k) == v.raster_compare
}

/// The chip after `cycles` CPU clocks: the beam moves one line per 63 cycles,
/// and the raster interrupt is latched if it reached the compare line on the
/// way.
pub open spec fn ticked(v: Vic, cycles: int) -> Vic {
    let total = v.line_cycles + cycles;
    let lines = total / (CYCLES_PER_LINE as int);
    Vic {
        raster: line_after(v, lines) as u16,
        line_cycles: (total % (CYCLES_PER_LINE as int)) as u32,
        irq_latch: if reaches_compare(v, lines) { v.irq_latch | IRQ_RASTER } else { v.irq_latch },
        ..v
    }
}

/// The byte a register reads as. Only the low six bits of `reg` count.
pub open spec fn register(v: Vic, reg: u8) -> u8 {
    let r = reg % 64;
    if r == 0x11 { (v.regs[0x11] % 128 + 128 * (v.raster / 256 % 2)) as u8 }
    else if r == 0x12 { (v.raster % 256) as u8 }
    else if r == 0x19 { v.irq_latch | 0x70 | (if asserts_irq(v) { 0x80u8 } else { 0 }) }
    else if r == 0x1A { v.irq_enable | 0xF0 }
    else if r == 0x1E { v.collision_sprite }
    else if r == 0x1F { v.collision_bg }
    else { v.regs[r as int] }
}

/// The chip after a register was read: the collision registers are cleared by
/// reading them.
pub open spec fn after_read(v: Vic, reg: u8) -> Vic {
    let r = reg % 64;
    if r == 0x1E { Vic { collision_sprite: 0, ..v } }
    else if r == 0x1F { Vic { collision_bg: 0, ..v } }
    else { v }
}

/// The chip after a register was written.
pub open spec fn after_write(v: Vic, reg: u8, val: u8) -> Vic {
    let r = reg % 64;
    let w = Vic { regs: vstd::array::spec_array_update(v.regs, r as int, val), ..v };
    if r == 0x11 {
        Vic { raster_compare: (v.raster_compare % 256 + 256 * (val / 128)) as u16, ..w }
    } else if r == 0x12 {
        Vic { raster_compare: (v.raster_compare / 256 % 2 * 256 + val) as u16, ..w }
    } else if r == 0x19 {
        // Writing 1 acknowledges (clears) that latch bit.
        Vic { irq_latch: v.irq_latch & !(val & 0x0F), ..w }
    } else if r == 0x1A {
        Vic { irq_enable: val & 0x0F, ..w }
    } else {
        w
    }
}

pub(crate) fn rgb(color: u8) -> (c: u32)
    ensures
        c == rgb_of(color),
{
    PALETTE[(color % 16) as usize]
}

impl Default for Vic {
    fn default() -> (v: Self)
        ensures
            power_on(v),
    {
        Vic {
            regs: [0; 0x40],
            raster: 0,
            line_cycles: 0,
            raster_compare: 0,
            irq_latch: 0,
            irq_enable: 0,
            collision_sprite: 0,
            collision_bg: 0,
        }
    }
}

impl Vic {
    pub fn new() -> (v: Self)
        ensures
            power_on(v),
            vic_sound(v),
    {
        Self::default()
    }

    pub fn raster(&self) -> (r: u16)
        ensures
            r == self.raster,
    {
        self.raster
    }

    /// True while the VIC is pulling the (shared) CPU IRQ line.
    pub fn irq_asserted(&self) -> (b: bool)
        ensures
            b == asserts_irq(*self),
    {
        (self.irq_latch & self.irq_enable & 0x0F) != 0
    }

    /// Advance the raster by `cycles` CPU clocks, latching the raster interrupt
    /// each time the raster reaches the compare line.
    pub fn tick(&mut self, cycles: u32)
        requires
            vic_sound(*old(self)),
            old(self).line_cycles + cycles <= u32::MAX,
        ensures
            *final(self) == ticked(*old(self), cycles as int),
            vic_sound(*final(self)),
    {
        self.line_cycles += cycles;
        let ghost total = self.line_cycles as int;
        let ghost mut lines: int = 0;
        proof {
            lemma_latch_again(self.irq_latch);
        }
        while self.line_cycles >= CYCLES_PER_LINE
            invariant
                lines >= 0,
                total == self.line_cycles + 63 * lines,
                total == old(self).line_cycles + cycles,
                vic_sound(*old(self)),
                old(self).irq_latch | IRQ_RASTER == (old(self).irq_latch | IRQ_RASTER) | IRQ_RASTER,
                *self == (Vic {
                    raster: line_after(*old(self), lines) as u16,
                    line_cycles: self.line_cycles,
                    irq_latch: if reaches_compare(*old(self), lines) {
                        old(self).irq_latch | IRQ_RASTER
                    } else {
                        old(self).irq_latch
                    },
                    ..*old(self)
                }),
            decreases self.line_cycles,
        {
            self.line_cycles -= CYCLES_PER_LINE;
            self.raster += 1;
            if self.raster >= LINES_PER_FRAME {
                self.raster = 0;
            }
            if self.raster == self.raster_compare {
                self.irq_latch |= IRQ_RASTER;
            }
            proof {
                lemma_next_line(*old(self), lines);
                lines = lines + 1;
            }
        }
        assert(lines == total / 63 && total % 63 == self.line_cycles) by (nonlinear_arith)
            requires
                total == self.line_cycles + 63 * lines,
                0 <= self.line_cycles < 63,
        ;
    }

    /// Read a register. The collision registers are **cleared by reading them**:
    /// the VIC only latches a fresh interrupt once the register has gone back to
    /// zero, so a game reads it to acknowledge and re-arm.
    pub fn read(&mut self, reg: u8) -> (b: u8)
        ensures
            b == register(*old(self), reg),
            *final(self) == after_read(*old(self), reg),
    {
        let r = reg % 64;
        match r {
            0x11 => self.regs[0x11] % 128 + 128 * ((self.raster / 256 % 2) as u8),
            0x12 => (self.raster % 256) as u8,
            0x19 => self.irq_latch | 0x70 | (if self.irq_asserted() { 0x80 } else { 0 }),
            0x1A => self.irq_enable | 0xF0,
            0x1E => {
                let hits = self.collision_sprite;
                self.collision_sprite = 0;
                hits
            },
            0x1F => {
                let hits = self.collision_bg;
                self.collision_bg = 0;
                hits
            },
            _ => self.regs[r as usize],
        }
    }

    /// Write a register.
    pub fn write(&mut self, reg: u8, val: u8)
        ensures
            *final(self) == after_write(*old(self), reg, val),
            vic_sound(*old(self)) ==> vic_sound(*final(self)),
    {
        let r = reg % 64;
        self.regs[r as usize] = val;
        match r {
            0x11 => {
                self.raster_compare = self.raster_compare % 256 + 256 * ((val / 128) as u16);
            },
            0x12 => {
                self.raster_compare = self.raster_compare / 256 % 2 * 256 + val as u16;
            },
            0x19 => {
                // Writing 1 acknowledges (clears) that latch bit.
                self.irq_latch &= !(val & 0x0F);
            },
            0x1A => self.irq_enable = val & 0x0F,
            _ => {},
        }
    }

    pub fn border_rgb(&self) -> (c: u32)
        ensures
            c == rgb_of(self.regs[0x20]),
    {
        rgb(self.regs[0x20])
    }
}

/// Latching twice is latching once.
proof fn lemma_latch_again(latch: u8)
    by (bit_vector)
    ensures
        (latch | 0x01u8) == (latch | 0x01u8) | 0x01u8,
{
}

/// The beam's step from one line to the next.
proof fn lemma_next_line(v: Vic, n: int)
    requires
        vic_sound(v),
        n >= 0,
    ensures
        line_after(v, n + 1) == (if line_after(v, n) == 311 { 0 } else { line_after(v, n) + 1 }),
        0 <= line_after(v, n) < 312,
        reaches_compare(v, n + 1)
            == (reaches_compare(v, n) || line_after(v, n + 1) == v.raster_compare),
{
    if reaches_compare(v, n + 1) && line_after(v, n + 1) != v.raster_compare {
        let k = choose|k: int| 1 <= k <= n + 1 && #[trigger] line_after(v, k) == v.raster_compare;
        assert(1 <= k <= n);
    }
    if reaches_compare(v, n) {
        let k = choose|k: int| 1 <= k <= n && #[trigger] line_after(v, k) == v.raster_compare;
        assert(1 <= k <= n + 1);
    }
}

// ---- what holds of the chip ----

/// The beam makes a full frame in 312 lines, and comes back to where it was.
pub proof fn law_frame_is_periodic(v: Vic)
    requires
        vic_sound(v),
    ensures
        ticked(v, 63int * 312).raster == v.raster,
        ticked(v, 63int * 312).line_cycles == v.line_cycles,
{
    assert((v.line_cycles + 63 * 312) / 63 == 312);
    assert((v.raster + 312) % 312 == v.raster);
}

/// The raster interrupt is latched exactly when the beam reaches the compare
/// line, and within a frame it always does, if there is such a line.
pub proof fn law_compare_line_is_reached_every_frame(v: Vic)
    requires
        vic_sound(v),
        v.raster_compare < LINES_PER_FRAME,
    ensures
        ticked(v, 63int * 312).irq_latch == v.irq_latch | IRQ_RASTER,
{
    let k = if v.raster_compare > v.raster {
        v.raster_compare - v.raster
    } else {
        v.raster_compare - v.raster + 312
    };
    assert(line_after(v, k) == v.raster_compare);
    assert((v.line_cycles + 63 * 312) / 63 == 312);
}

/// Reading a collision register gives what was latched and clears it.
pub proof fn law_collision_read_clears(v: Vic)
    ensures
        register(after_read(v, 0x1E), 0x1E) == 0,
        register(after_read(v, 0x1F), 0x1F) == 0,
        register(v, 0x1E) == v.collision_sprite,
        register(v, 0x1F) == v.collision_bg,
{
}

/// Writing ones to $D019 acknowledges: with all four bits written nothing is
/// pending.
pub proof fn law_acknowledge_silences(v: Vic)
    ensures
        !asserts_irq(after_write(v, 0x19, 0x0F)),
{
    let (l, e) = (v.irq_latch, v.irq_enable);
    assert((l & !(0x0Fu8 & 0x0F)) & e & 0x0F == 0) by (bit_vector);
}

/// A compare line that no frame has is never reached, however long the beam runs:
/// the raster interrupt is not latched.
pub proof fn law_no_such_line_no_interrupt(v: Vic, cycles: nat)
    requires
        vic_sound(v),
        v.raster_compare >= LINES_PER_FRAME,
    ensures
        ticked(v, cycles as int).irq_latch == v.irq_latch,
{
}

} // verus!
