//! Drawing a scanline, and noticing collisions while doing so.

use vstd::prelude::*;
use crate::vic2::{picture, rgb, Vic, HEIGHT, WIDTH};
use crate::vic2::picture::Scene;

verus! {

/// The scene a chip draws from.
pub open spec fn scene(v: Vic, ram: Seq<u8>, char_rom: Seq<u8>, cia2_pra: u8) -> Scene {
    Scene { regs: v.regs@, ram, char_rom, cia2_pra }
}

/// The bit facts behind the picture.
proof fn lemma_bits(a: u8, b: u8, i: u8, k: u8)
    by (bit_vector)
    requires
        i < 8,
        k < 8,
    ensures
        (a >> 6u8) & 0x03 < 4,
        0u8 & (1u8 << k) == 0,
        ((a | b) & (1u8 << k) != 0) == (a & (1u8 << k) != 0 || b & (1u8 << k) != 0),
        ((a | (1u8 << i)) & (1u8 << k) != 0) == (a & (1u8 << k) != 0 || i == k),
        // Two different bits set, and what clearing the lowest one leaves.
        i != k && a & (1u8 << i) != 0 && a & (1u8 << k) != 0
            ==> a & ((a - 1) as u8) != 0,
        a & ((a - 1) as u8) != 0 && a & (1u8 << k) != 0
            ==> a & !(1u8 << k) != 0,
        i == k ==> (a & !(1u8 << k)) & (1u8 << i) == 0,
        (a & !(1u8 << k)) & (1u8 << i) != 0 ==> a & (1u8 << i) != 0,
        a != 0 ==> a & (1u8 << 0u8) != 0 || a & (1u8 << 1u8) != 0 || a & (1u8 << 2u8) != 0
            || a & (1u8 << 3u8) != 0 || a & (1u8 << 4u8) != 0 || a & (1u8 << 5u8) != 0
            || a & (1u8 << 6u8) != 0 || a & (1u8 << 7u8) != 0,
        a == (if a & (1u8 << 0u8) != 0 { 1 } else { 0u8 })
            + (if a & (1u8 << 1u8) != 0 { 2 } else { 0u8 })
            + (if a & (1u8 << 2u8) != 0 { 4 } else { 0u8 })
            + (if a & (1u8 << 3u8) != 0 { 8 } else { 0u8 })
            + (if a & (1u8 << 4u8) != 0 { 16 } else { 0u8 })
            + (if a & (1u8 << 5u8) != 0 { 32 } else { 0u8 })
            + (if a & (1u8 << 6u8) != 0 { 64 } else { 0u8 })
            + (if a & (1u8 << 7u8) != 0 { 128 } else { 0u8 }),
        a | 0u8 == a,
{
}

/// A byte is the mask of its bits.
proof fn lemma_mask_where(v: u8, p: spec_fn(int) -> bool)
    requires
        forall|k: int| 0 <= k < 8 ==> #[trigger] picture::bit(v, k) == p(k),
    ensures
        v == picture::mask_where(p),
{
    lemma_bits(v, 0, 0, 0);
    assert(picture::bit(v, 0) == p(0) && picture::bit(v, 1) == p(1));
    assert(picture::bit(v, 2) == p(2) && picture::bit(v, 3) == p(3));
    assert(picture::bit(v, 4) == p(4) && picture::bit(v, 5) == p(5));
    assert(picture::bit(v, 6) == p(6) && picture::bit(v, 7) == p(7));
}

/// Bit `i` of a byte.
fn has_bit(v: u8, i: usize) -> (b: bool)
    requires
        i < 8,
    ensures
        b == picture::bit(v, i as int),
{
    v & (1u8 << (i as u8)) != 0
}

/// The `p`-th pixel of a byte.
fn single(v: u8, p: usize) -> (b: bool)
    requires
        p < 8,
    ensures
        b == picture::single(v, p as int),
{
    v & (0x80u8 >> (p as u8)) != 0
}

/// The `p`-th bit pair of a byte.
fn pair(v: u8, p: usize) -> (b: u8)
    requires
        p < 4,
    ensures
        b == picture::pair(v, p as int),
{
    (v >> ((6 - 2 * p) as u8)) & 0x03
}

/// One of four colours, by bit pair; the upper two are foreground.
fn multicolor(bits: u8, c0: u8, c1: u8, c2: u8, c3: u8) -> (r: (u8, bool))
    ensures
        (picture::Pixel { color: r.0, foreground: r.1 }) == picture::multicolor(bits, c0, c1, c2, c3),
{
    let color = if bits == 0 { c0 } else if bits == 1 { c1 } else if bits == 2 { c2 } else { c3 };
    (color, bits >= 2)
}

impl Vic {
    /// The VIC's 16 KB bank base (selected by CIA2 port A's low two bits).
    fn bank(cia2_pra: u8) -> (b: usize)
        ensures
            b == (3 - cia2_pra as int % 4) * 0x4000,
            b <= 0xC000,
    {
        (3 - (cia2_pra % 4) as usize) * 0x4000
    }

    /// Row `line` of the glyph of a character code.
    fn glyph_row(&self, ram: &[u8], char_rom: &[u8], cia2_pra: u8, code: usize, line: usize) -> (b: u8)
        requires
            ram.len() >= 0x10000,
            char_rom.len() >= 0x1000,
            code < 256,
            line < 8,
        ensures
            b == picture::glyph_row(
                scene(*self, ram@, char_rom@, cia2_pra), code as int, line as int),
    {
        let block = (self.regs[0x18] / 2 % 8) as usize;
        if block == 2 || block == 3 {
            char_rom[(block - 2) * 0x0800 + code * 8 + line]
        } else {
            ram[Self::bank(cia2_pra) + block * 0x0800 + code * 8 + line]
        }
    }

    /// The background at a display position: colour number and foreground flag.
    fn background_pixel(
        &self, ram: &[u8], char_rom: &[u8], cia2_pra: u8, x: usize, y: usize,
    ) -> (r: (u8, bool))
        requires
            ram.len() >= 0x10000,
            char_rom.len() >= 0x1000,
            x < WIDTH,
            y < HEIGHT,
        ensures
            (picture::Pixel { color: r.0, foreground: r.1 }) == picture::background(
                scene(*self, ram@, char_rom@, cia2_pra), x as int, y as int),
    {
        let bank = Self::bank(cia2_pra);
        let video = bank + (self.regs[0x18] / 16) as usize * 0x0400;
        let ecm = self.regs[0x11] & 0x40 != 0;
        let bmm = self.regs[0x11] & 0x20 != 0;
        let mcm = self.regs[0x16] & 0x10 != 0;
        let bg0 = self.regs[0x21];
        let cell = y / 8 * 40 + x / 8;
        let p = x % 8;
        if bmm {
            // Bitmap modes read colours from the video matrix (and colour RAM).
            let bitmap_base = bank + (self.regs[0x18] / 8 % 2) as usize * 0x2000;
            let byte = ram[bitmap_base + y / 8 * 320 + x / 8 * 8 + y % 8];
            let sc = ram[video + cell];
            if mcm {
                multicolor(pair(byte, p / 2), bg0, sc / 16, sc % 16, ram[0xD800 + cell] % 16)
            } else {
                let set = single(byte, p);
                (if set { sc / 16 } else { sc % 16 }, set)
            }
        } else {
            // Text modes.
            let code = ram[video + cell] as usize;
            let color = ram[0xD800 + cell];
            if mcm && color & 0x08 != 0 {
                let glyph = self.glyph_row(ram, char_rom, cia2_pra, code, y % 8);
                multicolor(pair(glyph, p / 2), bg0, self.regs[0x22], self.regs[0x23], color % 8)
            } else if ecm {
                let glyph = self.glyph_row(ram, char_rom, cia2_pra, code % 64, y % 8);
                let set = single(glyph, p);
                (if set { color } else { self.regs[0x21 + code / 64] }, set)
            } else {
                let glyph = self.glyph_row(ram, char_rom, cia2_pra, code, y % 8);
                let set = single(glyph, p);
                (if set { color } else { bg0 }, set)
            }
        }
    }

    /// The colour of dot `px` of a sprite row at `row`, if it is not transparent.
    fn sprite_dot(&self, ram: &[u8], i: usize, row: usize, px: usize) -> (c: Option<u8>)
        requires
            ram.len() >= 0x10000,
            i < 8,
            px < 24,
            row + 2 < 0x10000,
        ensures
            forall|char_rom: Seq<u8>, cia2_pra: u8| c == #[trigger] picture::sprite_dot(
                scene(*self, ram@, char_rom, cia2_pra), i as int, row as int, px as int),
    {
        let byte = ram[row + px / 8];
        if has_bit(self.regs[0x1C], i) {
            let bits = pair(byte, px % 8 / 2);
            if bits == 0 {
                None
            } else if bits == 1 {
                Some(self.regs[0x25])
            } else if bits == 2 {
                Some(self.regs[0x27 + i])
            } else {
                Some(self.regs[0x26])
            }
        } else if single(byte, px % 8) {
            Some(self.regs[0x27 + i])
        } else {
            None
        }
    }

    /// Render one display scanline `y` (0..199) into `fb` (WIDTH*HEIGHT).
    ///
    /// Takes `&mut self` because drawing is also when **collisions** are
    /// detected: the VIC has no separate collision pass, it notices overlaps as
    /// it composes the picture, and latches them into `$D01E`/`$D01F`.
    pub fn render_line(
        &mut self,
        y: usize,
        ram: &[u8],
        char_rom: &[u8],
        cia2_pra: u8,
        fb: &mut [u32],
    )
        requires
            y < HEIGHT ==> ram.len() >= 0x10000 && char_rom.len() >= 0x1000
                && old(fb).len() >= (y + 1) * WIDTH,
        ensures
            final(fb)@ == (if y < HEIGHT {
                picture::line_drawn(
                    old(fb)@, scene(*old(self), ram@, char_rom@, cia2_pra), y as int)
            } else {
                old(fb)@
            }),
            *final(self) == (if y < HEIGHT {
                let s = scene(*old(self), ram@, char_rom@, cia2_pra);
                picture::collisions_noted(
                    *old(self),
                    picture::sprite_hits(s, y as int),
                    picture::background_hits(s, y as int),
                )
            } else {
                *old(self)
            }),
    {
        if y >= HEIGHT {
            return;
        }
        let ghost s = scene(*self, ram@, char_rom@, cia2_pra);
        // Which pixels on this line are *foreground* graphics: what a sprite has
        // to touch to register a background collision. In the multicolour modes
        // only bit pairs `%10` and `%11` count.
        let mut foreground: [bool; WIDTH] = [false; WIDTH];
        let line_base = y * WIDTH;
        let mut x: usize = 0;
        while x < WIDTH
            invariant
                x <= WIDTH,
                y < HEIGHT,
                line_base == y * WIDTH,
                ram.len() >= 0x10000,
                char_rom.len() >= 0x1000,
                old(fb).len() >= (y + 1) * WIDTH,
                fb@.len() == old(fb)@.len(),
                *self == *old(self),
                s == scene(*self, ram@, char_rom@, cia2_pra),
                forall|at: int| 0 <= at < fb@.len() && !(line_base <= at < line_base + WIDTH)
                    ==> #[trigger] fb@[at] == old(fb)@[at],
                forall|u: int| 0 <= u < x ==> #[trigger] fb@[line_base + u]
                    == picture::shown_from(s, 8, u, y as int),
                forall|u: int| 0 <= u < x ==> #[trigger] foreground@[u]
                    == picture::background(s, u, y as int).foreground,
            decreases WIDTH - x,
        {
            let (color, fg) = self.background_pixel(ram, char_rom, cia2_pra, x, y);
            fb[line_base + x] = rgb(color);
            foreground[x] = fg;
            x += 1;
        }
        self.render_sprites_line(y, ram, char_rom, cia2_pra, &foreground, fb);
        assert forall|at: int| 0 <= at < fb@.len() implies
            fb@[at] == picture::line_drawn(old(fb)@, s, y as int)[at] by {
            if line_base <= at < line_base + WIDTH {
                assert(fb@[line_base + (at - line_base)]
                    == picture::shown(s, at - line_base, y as int));
            }
        }
        assert(fb@ =~= picture::line_drawn(old(fb)@, s, y as int));
    }

    /// Overlay any sprites that cover scanline `y`, recording collisions.
    ///
    /// - **Priority does not affect collision.** A sprite hidden behind another
    ///   sprite still collides, so detection considers every sprite pixel, not
    ///   just the ones that end up visible.
    /// - **Every sprite involved gets its bit set.** Three sprites in a heap set
    ///   all three bits.
    fn render_sprites_line(
        &mut self,
        y: usize,
        ram: &[u8],
        char_rom: &[u8],
        cia2_pra: u8,
        foreground: &[bool; WIDTH],
        fb: &mut [u32],
    )
        requires
            y < HEIGHT,
            ram.len() >= 0x10000,
            char_rom.len() >= 0x1000,
            old(fb).len() >= (y + 1) * WIDTH,
            forall|x: int| 0 <= x < WIDTH ==> #[trigger] old(fb)@[y * WIDTH + x]
                == picture::shown_from(
                    scene(*old(self), ram@, char_rom@, cia2_pra), 8, x, y as int),
            forall|x: int| 0 <= x < WIDTH ==> #[trigger] foreground@[x]
                == picture::background(
                    scene(*old(self), ram@, char_rom@, cia2_pra), x, y as int).foreground,
        ensures
            final(fb)@.len() == old(fb)@.len(),
            forall|at: int| 0 <= at < old(fb)@.len()
                && !(y * WIDTH <= at < (y + 1) * WIDTH)
                ==> #[trigger] final(fb)@[at] == old(fb)@[at],
            forall|x: int| 0 <= x < WIDTH ==> #[trigger] final(fb)@[y * WIDTH + x]
                == picture::shown(scene(*old(self), ram@, char_rom@, cia2_pra), x, y as int),
            *final(self) == picture::collisions_noted(
                *old(self),
                picture::sprite_hits(scene(*old(self), ram@, char_rom@, cia2_pra), y as int),
                picture::background_hits(scene(*old(self), ram@, char_rom@, cia2_pra), y as int),
            ),
    {
        let ghost s = scene(*self, ram@, char_rom@, cia2_pra);
        let line_base = y * WIDTH;
        // Which sprites cover each pixel of this line, one bit per sprite.
        let mut masks: [u8; WIDTH] = [0; WIDTH];
        proof {
            assert forall|u: int, k: int| 0 <= u < WIDTH && 0 <= k < 8
                implies !#[trigger] picture::bit(masks@[u], k) by {
                lemma_bits(0, 0, 0, k as u8);
            }
        }

        // Lower-numbered sprites have display priority, so draw high -> low.
        let mut i: usize = 8;
        while i > 0
            invariant
                i <= 8,
                y < HEIGHT,
                line_base == y * WIDTH,
                ram.len() >= 0x10000,
                char_rom.len() >= 0x1000,
                old(fb).len() >= (y + 1) * WIDTH,
                fb@.len() == old(fb)@.len(),
                *self == *old(self),
                s == scene(*self, ram@, char_rom@, cia2_pra),
                forall|at: int| 0 <= at < fb@.len() && !(line_base <= at < line_base + WIDTH)
                    ==> #[trigger] fb@[at] == old(fb)@[at],
                forall|u: int| 0 <= u < WIDTH ==> #[trigger] fb@[line_base + u]
                    == picture::shown_from(s, i as int, u, y as int),
                covering(s, masks@, i as int, y as int),
            decreases i,
        {
            i -= 1;
            self.render_sprite(i, y, ram, char_rom, cia2_pra, &mut masks, fb);
        }

        let (hit_sprite, hit_bg) = Self::collisions(
            &masks, foreground, Ghost(s), Ghost(y as int));

        // Latch what we found. The interrupt fires only on the *first* collision
        // after the register was cleared: a game acknowledges by reading it,
        // which re-arms detection.
        proof {
            lemma_bits(self.collision_sprite, 0, 0, 0);
            lemma_bits(self.collision_bg, 0, 0, 0);
        }
        if hit_sprite != 0 {
            if self.collision_sprite == 0 {
                self.irq_latch |= crate::vic2::IRQ_SPRITE_SPRITE;
            }
            self.collision_sprite |= hit_sprite;
        }
        if hit_bg != 0 {
            if self.collision_bg == 0 {
                self.irq_latch |= crate::vic2::IRQ_SPRITE_BG;
            }
            self.collision_bg |= hit_bg;
        }
    }
}

impl Vic {
    /// Draw sprite `i` over line `y`, over the higher-numbered ones.
    fn render_sprite(
        &self,
        i: usize,
        y: usize,
        ram: &[u8],
        char_rom: &[u8],
        cia2_pra: u8,
        masks: &mut [u8; WIDTH],
        fb: &mut [u32],
    )
        requires
            i < 8,
            y < HEIGHT,
            ram.len() >= 0x10000,
            char_rom.len() >= 0x1000,
            old(fb).len() >= (y + 1) * WIDTH,
            forall|u: int| 0 <= u < WIDTH ==> #[trigger] old(fb)@[y * WIDTH + u]
                == picture::shown_from(
                    scene(*self, ram@, char_rom@, cia2_pra), i + 1, u, y as int),
            covering(scene(*self, ram@, char_rom@, cia2_pra), old(masks)@, i + 1, y as int),
        ensures
            final(fb)@.len() == old(fb)@.len(),
            forall|at: int| 0 <= at < old(fb)@.len() && !(y * WIDTH <= at < (y + 1) * WIDTH)
                ==> #[trigger] final(fb)@[at] == old(fb)@[at],
            forall|u: int| 0 <= u < WIDTH ==> #[trigger] final(fb)@[y * WIDTH + u]
                == picture::shown_from(
                    scene(*self, ram@, char_rom@, cia2_pra), i as int, u, y as int),
            covering(scene(*self, ram@, char_rom@, cia2_pra), final(masks)@, i as int, y as int),
    {
        let ghost s = scene(*self, ram@, char_rom@, cia2_pra);
        let y_expand = has_bit(self.regs[0x17], i);
        let height: i32 = if y_expand { 42 } else { 21 };
        let dy: i32 = y as i32 - (self.regs[1 + 2 * i] as i32 - 50);
        if !has_bit(self.regs[0x15], i) || dy < 0 || dy >= height {
            assert(!picture::on_line(s, i as int, y as int));
            return;
        }
        let data_row: usize = (if y_expand { dy / 2 } else { dy }) as usize;
        let bank = Self::bank(cia2_pra);
        let video = bank + (self.regs[0x18] / 16) as usize * 0x0400;
        let row = bank + ram[video + 0x03F8 + i] as usize * 64 + data_row * 3;
        assert(row == picture::sprite_row(s, i as int, y as int));

        let high: i32 = if has_bit(self.regs[0x10], i) { 256 } else { 0 };
        let left: i32 = self.regs[2 * i] as i32 + high - 24;
        let x_expand = has_bit(self.regs[0x1D], i);
        let width: i32 = if x_expand { 48 } else { 24 };
        let line_base = y * WIDTH;

        let lo: usize = if left < 0 { 0 } else { left as usize };
        let hi: usize = if left + width > 320 { 320 } else if left + width < 0 { 0 } else { (left + width) as usize };
        let mut x: usize = lo;
        while x < hi
            invariant
                lo <= x,
                x <= hi || hi <= lo,
                hi <= WIDTH,
                lo >= left,
                hi <= left + width || hi == 0,
                i < 8,
                y < HEIGHT,
                line_base == y * WIDTH,
                ram.len() >= 0x10000,
                row + 2 < 0x10000,
                row == picture::sprite_row(s, i as int, y as int),
                left == picture::sprite_left(s, i as int),
                x_expand == picture::bit(s.regs[0x1D], i as int),
                width == (if x_expand { 48int } else { 24 }),
                picture::on_line(s, i as int, y as int),
                s == scene(*self, ram@, char_rom@, cia2_pra),
                old(fb).len() >= (y + 1) * WIDTH,
                fb@.len() == old(fb)@.len(),
                forall|at: int| 0 <= at < fb@.len() && !(line_base <= at < line_base + WIDTH)
                    ==> #[trigger] fb@[at] == old(fb)@[at],
                forall|u: int| 0 <= u < WIDTH ==> #[trigger] fb@[line_base + u]
                    == picture::shown_from(
                        s, if lo <= u < x { i as int } else { i + 1 }, u, y as int),
                forall|u: int, k: int| 0 <= u < WIDTH && 0 <= k < 8 ==>
                    #[trigger] picture::bit(masks@[u], k)
                    == (k >= (if lo <= u < x { i as int } else { i + 1 })
                        && picture::covers(s, k, u, y as int)),
            decreases hi - x,
        {
            let dx: usize = (x as i32 - left) as usize;
            let px: usize = if x_expand { dx / 2 } else { dx };
            let dot = self.sprite_dot(ram, i, row, px);
            assert(dot == picture::sprite_pixel(s, i as int, x as int, y as int));
            let ghost before = masks@;
            if let Some(color) = dot {
                fb[line_base + x] = rgb(color);
                masks[x] = masks[x] | (1u8 << (i as u8));
            }
            proof {
                assert forall|u: int, k: int| 0 <= u < WIDTH && 0 <= k < 8 implies
                    #[trigger] picture::bit(masks@[u], k)
                    == (k >= (if lo <= u < x + 1 { i as int } else { i + 1 })
                        && picture::covers(s, k, u, y as int)) by {
                    assert(picture::bit(before[u], k)
                        == (k >= (if lo <= u < x { i as int } else { i + 1 })
                        && picture::covers(s, k, u, y as int)));
                    lemma_bits(before[u], 0, i as u8, k as u8);
                }
            }
            x += 1;
        }
        assert forall|u: int| 0 <= u < WIDTH && !(lo <= u < hi) implies
            !#[trigger] picture::covers(s, i as int, u, y as int) by {}
    }

    /// The collisions on a line: the sprites that touch another sprite, and
    /// those that touch foreground graphics.
    fn collisions(
        masks: &[u8; WIDTH],
        foreground: &[bool; WIDTH],
        Ghost(s): Ghost<Scene>,
        Ghost(y): Ghost<int>,
    ) -> (hits: (u8, u8))
        requires
            covering(s, masks@, 0, y),
            forall|x: int| 0 <= x < WIDTH ==> #[trigger] foreground@[x]
                == picture::background(s, x, y).foreground,
        ensures
            hits.0 == picture::sprite_hits(s, y),
            hits.1 == picture::background_hits(s, y),
    {
        let mut hit_sprite: u8 = 0;
        let mut hit_bg: u8 = 0;
        let mut x: usize = 0;
        proof {
            assert forall|k: int| 0 <= k < 8 implies !#[trigger] picture::bit(0, k) by {
                lemma_bits(0, 0, 0, k as u8);
            }
        }
        while x < WIDTH
            invariant
                x <= WIDTH,
                covering(s, masks@, 0, y),
                forall|x: int| 0 <= x < WIDTH ==> #[trigger] foreground@[x]
                    == picture::background(s, x, y).foreground,
                forall|k: int| 0 <= k < 8 ==> #[trigger] picture::bit(hit_sprite, k)
                    == picture::touches_sprite(s, k, x as int, y),
                forall|k: int| 0 <= k < 8 ==> #[trigger] picture::bit(hit_bg, k)
                    == picture::touches_foreground(s, k, x as int, y),
            decreases WIDTH - x,
        {
            let m = masks[x];
            let ghost (hs, hb) = (hit_sprite, hit_bg);
            if foreground[x] {
                hit_bg = hit_bg | m;
            }
            if m & m.wrapping_sub(1) != 0 {
                hit_sprite = hit_sprite | m;
            }
            proof {
                assert forall|k: int| 0 <= k < 8 implies #[trigger] picture::bit(hit_sprite, k)
                    == picture::touches_sprite(s, k, x + 1, y) by {
                    lemma_bits(hs, m, 0, k as u8);
                    lemma_sprite_column(s, masks@, k, x as int, y);
                    assert(picture::bit(hs, k) == picture::touches_sprite(s, k, x as int, y));
                }
                assert forall|k: int| 0 <= k < 8 implies #[trigger] picture::bit(hit_bg, k)
                    == picture::touches_foreground(s, k, x + 1, y) by {
                    lemma_bits(hb, m, 0, k as u8);
                    lemma_foreground_column(s, k, x as int, y);
                    assert(picture::bit(hb, k) == picture::touches_foreground(s, k, x as int, y));
                    assert(picture::bit(m, k) == picture::covers(s, k, x as int, y));
                }
            }
            x += 1;
        }
        proof {
            lemma_mask_where(hit_sprite, |i: int| picture::touches_sprite(s, i, WIDTH as int, y));
            lemma_mask_where(hit_bg, |i: int| picture::touches_foreground(s, i, WIDTH as int, y));
        }
        (hit_sprite, hit_bg)
    }
}

/// One more column of background collisions.
proof fn lemma_foreground_column(s: Scene, k: int, x: int, y: int)
    requires
        x >= 0,
    ensures
        picture::touches_foreground(s, k, x + 1, y) == (picture::touches_foreground(s, k, x, y)
            || (picture::covers(s, k, x, y) && picture::background(s, x, y).foreground)),
{
    if picture::touches_foreground(s, k, x, y) {
        let u = choose|u: int| 0 <= u < x && #[trigger] picture::covers(s, k, u, y)
            && picture::background(s, u, y).foreground;
        assert(0 <= u < x + 1 && picture::covers(s, k, u, y));
    }
}

/// One more column of sprite collisions: all the sprites of a pixel collide if
/// there are at least two of them.
proof fn lemma_sprite_column(s: Scene, masks: Seq<u8>, k: int, x: int, y: int)
    requires
        0 <= x < WIDTH,
        0 <= k < 8,
        covering(s, masks, 0, y),
    ensures
        picture::touches_sprite(s, k, x + 1, y) == (picture::touches_sprite(s, k, x, y)
            || (picture::bit(masks[x], k) && masks[x] & masks[x].wrapping_sub(1) != 0)),
{
    let m = masks[x];
    assert(picture::bit(m, k) == picture::covers(s, k, x, y));
    assert forall|j: int| 0 <= j < 8 implies
        picture::bit(m, j) == #[trigger] picture::covers(s, j, x, y) by {}
    lemma_lowest_bit(m);
    if picture::touches_sprite(s, k, x, y) {
        let (u, j) = choose|u: int, j: int| 0 <= u < x && 0 <= j < 8 && j != k
            && #[trigger] picture::covers(s, k, u, y) && #[trigger] picture::covers(s, j, u, y);
        assert(0 <= u < x + 1 && picture::covers(s, k, u, y) && picture::covers(s, j, u, y));
    }
    if picture::touches_sprite(s, k, x + 1, y) && !picture::touches_sprite(s, k, x, y) {
        let (u, j) = choose|u: int, j: int| 0 <= u < x + 1 && 0 <= j < 8 && j != k
            && #[trigger] picture::covers(s, k, u, y) && #[trigger] picture::covers(s, j, u, y);
        assert(u == x);
        lemma_bits(m, 0, j as u8, k as u8);
    }
    if picture::bit(m, k) && m & m.wrapping_sub(1) != 0 {
        lemma_bits(m, 0, 0, k as u8);
        let w = m & !(1u8 << (k as u8));
        lemma_bits(w, 0, 0, 0);
        assert(exists|j: int| 0 <= j < 8 && #[trigger] picture::bit(w, j)) by {
            assert(picture::bit(w, 0) || picture::bit(w, 1) || picture::bit(w, 2)
                || picture::bit(w, 3) || picture::bit(w, 4) || picture::bit(w, 5)
                || picture::bit(w, 6) || picture::bit(w, 7));
        }
        let j = choose|j: int| 0 <= j < 8 && #[trigger] picture::bit(w, j);
        lemma_bits(m, 0, j as u8, k as u8);
        assert(picture::bit(m, j) && j != k);
        assert(picture::covers(s, k, x, y) && picture::covers(s, j, x, y));
    }
}

/// Wrapping below zero does not matter where the mask is empty.
proof fn lemma_lowest_bit(m: u8)
    ensures
        m & m.wrapping_sub(1) == m & ((m - 1) as u8),
{
    assert(m == 0 ==> (m & ((m - 1) as u8)) == 0 && m & 255u8 == 0) by (bit_vector);
}

/// Bit `k` of the mask at `u` says whether sprite `k`, if at least `from`,
/// covers that pixel.
pub open spec fn covering(s: Scene, masks: Seq<u8>, from: int, y: int) -> bool {
    forall|u: int, k: int| 0 <= u < WIDTH && 0 <= k < 8 ==>
        #[trigger] picture::bit(masks[u], k) == (k >= from && picture::covers(s, k, u, y))
}

} // verus!
