//! What the VIC-II shows, pixel by pixel.
//!
//! A pixel of the display window is the pixel of the lowest-numbered sprite that
//! covers it, or else the background. The background is text or a bitmap, each
//! in hi-res or multicolour. A sprite collides with the background where it
//! covers a *foreground* pixel, and with another sprite where both cover a
//! pixel, whichever of them ends up visible.

use vstd::prelude::*;
use crate::vic2::Vic;

verus! {

/// What the VIC draws from: its registers, the 64 KB of RAM, the character
/// generator, and the bank that CIA2's port A selects.
pub struct Scene {
    pub regs: Seq<u8>,
    pub ram: Seq<u8>,
    pub char_rom: Seq<u8>,
    pub cia2_pra: u8,
}

/// A background pixel: its colour number, and whether it is foreground.
pub struct Pixel {
    pub color: u8,
    pub foreground: bool,
}

/// Bit `i` of a byte.
pub open spec fn bit(v: u8, i: int) -> bool {
    v & (1u8 << (i as u8)) != 0
}

/// The `p`-th of the eight pixels in a byte, leftmost first.
pub open spec fn single(v: u8, p: int) -> bool {
    v & (0x80u8 >> (p as u8)) != 0
}

/// The `p`-th of the four bit pairs in a byte, leftmost first.
pub open spec fn pair(v: u8, p: int) -> u8 {
    (v >> ((6 - 2 * p) as u8)) & 0x03
}

// ---- where things are in memory ----

/// The VIC's 16 KB bank (CIA2 port A's low two bits, inverted).
pub open spec fn bank(s: Scene) -> int {
    (3 - s.cia2_pra as int % 4) * 0x4000
}

pub open spec fn video_matrix(s: Scene) -> int {
    bank(s) + s.regs[0x18] as int / 16 * 0x0400
}

pub open spec fn char_base(s: Scene) -> int {
    bank(s) + s.regs[0x18] as int / 2 % 8 * 0x0800
}

pub open spec fn bitmap_base(s: Scene) -> int {
    bank(s) + s.regs[0x18] as int / 8 % 2 * 0x2000
}

/// At $1000 and $1800 of its bank the VIC sees the character generator.
pub open spec fn uses_char_rom(s: Scene) -> bool {
    s.regs[0x18] as int / 2 % 8 == 2 || s.regs[0x18] as int / 2 % 8 == 3
}

/// Extended background colour mode.
pub open spec fn ecm(s: Scene) -> bool {
    s.regs[0x11] & 0x40 != 0
}

/// Bitmap mode.
pub open spec fn bmm(s: Scene) -> bool {
    s.regs[0x11] & 0x20 != 0
}

/// Multicolour mode.
pub open spec fn mcm(s: Scene) -> bool {
    s.regs[0x16] & 0x10 != 0
}

// ---- the background ----

/// Row `line` of the glyph of a character code.
pub open spec fn glyph_row(s: Scene, code: int, line: int) -> u8 {
    if uses_char_rom(s) {
        s.char_rom[char_base(s) % 0x1000 + code * 8 + line]
    } else {
        s.ram[char_base(s) + code * 8 + line]
    }
}

/// One of four colours, by bit pair. Only the upper two pairs are foreground.
pub open spec fn multicolor(bits: u8, c0: u8, c1: u8, c2: u8, c3: u8) -> Pixel {
    Pixel {
        color: if bits == 0 { c0 } else if bits == 1 { c1 } else if bits == 2 { c2 } else { c3 },
        foreground: bits >= 2,
    }
}

/// One of two colours, by bit.
pub open spec fn hires(set: bool, fg: u8, bg: u8) -> Pixel {
    Pixel { color: if set { fg } else { bg }, foreground: set }
}

/// A pixel of bitmap cell `cell`, whose row byte is `byte`.
pub open spec fn bitmap_pixel(s: Scene, cell: int, byte: u8, p: int) -> Pixel {
    let sc = s.ram[video_matrix(s) + cell];
    if mcm(s) {
        multicolor(
            pair(byte, p / 2), s.regs[0x21], sc / 16, sc % 16, s.ram[0xD800 + cell] % 16)
    } else {
        hires(single(byte, p), sc / 16, sc % 16)
    }
}

/// A pixel of text cell `cell`, in row `line` of its character.
pub open spec fn text_pixel(s: Scene, cell: int, line: int, p: int) -> Pixel {
    let code = s.ram[video_matrix(s) + cell];
    let color = s.ram[0xD800 + cell];
    if mcm(s) && color & 0x08 != 0 {
        multicolor(
            pair(glyph_row(s, code as int, line), p / 2),
            s.regs[0x21], s.regs[0x22], s.regs[0x23], color % 8)
    } else if ecm(s) {
        // Six bits of character code; the other two pick the background.
        hires(
            single(glyph_row(s, code as int % 64, line), p),
            color,
            s.regs[0x21 + code as int / 64])
    } else {
        hires(single(glyph_row(s, code as int, line), p), color, s.regs[0x21])
    }
}

/// The background at a display position.
pub open spec fn background(s: Scene, x: int, y: int) -> Pixel {
    let cell = y / 8 * 40 + x / 8;
    if bmm(s) {
        let byte = s.ram[bitmap_base(s) + y / 8 * 320 + x / 8 * 8 + y % 8];
        bitmap_pixel(s, cell, byte, x % 8)
    } else {
        text_pixel(s, cell, y % 8, x % 8)
    }
}

// ---- sprites ----

/// How wide one sprite pixel is on the display.
pub open spec fn pixel_width(s: Scene, i: int) -> int {
    if bit(s.regs[0x1D], i) { 2 } else { 1 }
}

/// The display line below a sprite's top edge.
pub open spec fn sprite_dy(s: Scene, i: int, y: int) -> int {
    y - (s.regs[1 + 2 * i] - 50)
}

/// Is the sprite enabled and does it cover display line `y`?
pub open spec fn on_line(s: Scene, i: int, y: int) -> bool {
    &&& bit(s.regs[0x15], i)
    &&& 0 <= sprite_dy(s, i, y) < (if bit(s.regs[0x17], i) { 42int } else { 21 })
}

/// Where a sprite's three bytes for display line `y` are.
pub open spec fn sprite_row(s: Scene, i: int, y: int) -> int {
    let dy = sprite_dy(s, i, y);
    let row = if bit(s.regs[0x17], i) { dy / 2 } else { dy };
    bank(s) + s.ram[video_matrix(s) + 0x03F8 + i] * 64 + row * 3
}

/// The display column of a sprite's left edge.
pub open spec fn sprite_left(s: Scene, i: int) -> int {
    s.regs[2 * i] + (if bit(s.regs[0x10], i) { 256int } else { 0 }) - 24
}

/// The colour of pixel `px` (0 to 23) of a sprite row, or nothing where the
/// sprite is transparent.
pub open spec fn sprite_dot(s: Scene, i: int, row: int, px: int) -> Option<u8> {
    if bit(s.regs[0x1C], i) {
        // Bit pairs, each two dots wide.
        let bits = pair(s.ram[row + px / 8], px % 8 / 2);
        if bits == 0 { None }
        else if bits == 1 { Some(s.regs[0x25]) }
        else if bits == 2 { Some(s.regs[0x27 + i]) }
        else { Some(s.regs[0x26]) }
    } else if single(s.ram[row + px / 8], px % 8) {
        Some(s.regs[0x27 + i])
    } else {
        None
    }
}

/// What sprite `i` shows at a display position, if it covers it.
pub open spec fn sprite_pixel(s: Scene, i: int, x: int, y: int) -> Option<u8> {
    let w = pixel_width(s, i);
    let dx = x - sprite_left(s, i);
    if on_line(s, i, y) && 0 <= dx < 24 * w {
        sprite_dot(s, i, sprite_row(s, i, y), if w == 2 { dx / 2 } else { dx })
    } else {
        None
    }
}

/// Does sprite `i` cover a display position?
pub open spec fn covers(s: Scene, i: int, x: int, y: int) -> bool {
    sprite_pixel(s, i, x, y) is Some
}

/// The lowest-numbered sprite from `i` on that covers a position.
pub open spec fn front_sprite(s: Scene, i: int, x: int, y: int) -> Option<u8>
    decreases 8 - i,
{
    if i >= 8 {
        None
    } else if covers(s, i, x, y) {
        sprite_pixel(s, i, x, y)
    } else {
        front_sprite(s, i + 1, x, y)
    }
}

/// What is shown at a position with only the sprites from `i` on.
pub open spec fn shown_from(s: Scene, i: int, x: int, y: int) -> u32 {
    match front_sprite(s, i, x, y) {
        Some(color) => crate::vic2::rgb_of(color),
        None => crate::vic2::rgb_of(background(s, x, y).color),
    }
}

/// What is shown at a display position.
pub open spec fn shown(s: Scene, x: int, y: int) -> u32 {
    shown_from(s, 0, x, y)
}

/// A frame buffer after display line `y` was drawn into it.
pub open spec fn line_drawn(fb: Seq<u32>, s: Scene, y: int) -> Seq<u32> {
    Seq::new(fb.len(), |at: int|
        if y * crate::vic2::WIDTH <= at < (y + 1) * crate::vic2::WIDTH {
            shown(s, at - y * crate::vic2::WIDTH, y)
        } else {
            fb[at]
        })
}

// ---- collisions ----

/// Sprite `i` touches foreground graphics left of column `upto` on line `y`.
pub open spec fn touches_foreground(s: Scene, i: int, upto: int, y: int) -> bool {
    exists|x: int| 0 <= x < upto && #[trigger] covers(s, i, x, y)
        && background(s, x, y).foreground
}

/// Sprite `i` touches another sprite left of column `upto` on line `y`.
pub open spec fn touches_sprite(s: Scene, i: int, upto: int, y: int) -> bool {
    exists|x: int, j: int| 0 <= x < upto && 0 <= j < 8 && j != i
        && #[trigger] covers(s, i, x, y) && #[trigger] covers(s, j, x, y)
}

/// The byte with bit `i` set where `p(i)` holds.
pub open spec fn mask_where(p: spec_fn(int) -> bool) -> u8 {
    ((if p(0) { 1int } else { 0 }) + (if p(1) { 2int } else { 0 }) + (if p(2) { 4int } else { 0 })
        + (if p(3) { 8int } else { 0 }) + (if p(4) { 16int } else { 0 })
        + (if p(5) { 32int } else { 0 }) + (if p(6) { 64int } else { 0 })
        + (if p(7) { 128int } else { 0 })) as u8
}

/// The sprites that touch foreground graphics on line `y`.
pub open spec fn background_hits(s: Scene, y: int) -> u8 {
    mask_where(|i: int| touches_foreground(s, i, crate::vic2::WIDTH as int, y))
}

/// The sprites that touch another sprite on line `y`.
pub open spec fn sprite_hits(s: Scene, y: int) -> u8 {
    mask_where(|i: int| touches_sprite(s, i, crate::vic2::WIDTH as int, y))
}

/// The chip after collisions were noted. An interrupt is latched only where
/// the register was clear before: a program re-arms it by reading.
pub open spec fn collisions_noted(v: Vic, sprites: u8, backgrounds: u8) -> Vic {
    let l1 = if sprites != 0 && v.collision_sprite == 0 {
        v.irq_latch | crate::vic2::IRQ_SPRITE_SPRITE
    } else {
        v.irq_latch
    };
    let l2 = if backgrounds != 0 && v.collision_bg == 0 {
        l1 | crate::vic2::IRQ_SPRITE_BG
    } else {
        l1
    };
    Vic {
        irq_latch: l2,
        collision_sprite: v.collision_sprite | sprites,
        collision_bg: v.collision_bg | backgrounds,
        ..v
    }
}

// ---- what holds of the picture ----

/// Collisions are mutual: whatever a sprite touches is touched by it.
pub proof fn law_sprite_collisions_are_mutual(s: Scene, i: int, upto: int, y: int)
    requires
        0 <= i < 8,
        touches_sprite(s, i, upto, y),
    ensures
        exists|j: int| 0 <= j < 8 && j != i && #[trigger] touches_sprite(s, j, upto, y),
{
    let (x, j) = choose|x: int, j: int| 0 <= x < upto && 0 <= j < 8 && j != i
        && #[trigger] covers(s, i, x, y) && #[trigger] covers(s, j, x, y);
    assert(covers(s, j, x, y) && covers(s, i, x, y));
    assert(touches_sprite(s, j, upto, y));
}

/// Priority is a drawing rule, not a collision rule: a sprite that is covered
/// by another one collides all the same.
pub proof fn law_hidden_sprite_collides(s: Scene, front: int, behind: int, x: int, upto: int, y: int)
    requires
        0 <= front < behind < 8,
        0 <= x < upto,
        covers(s, front, x, y),
        covers(s, behind, x, y),
    ensures
        touches_sprite(s, front, upto, y),
        touches_sprite(s, behind, upto, y),
{
}

/// With no sprite enabled the background is all there is, and nothing collides.
pub proof fn law_no_sprites(s: Scene, x: int, y: int)
    requires
        s.regs[0x15] == 0,
    ensures
        shown(s, x, y) == crate::vic2::rgb_of(background(s, x, y).color),
        sprite_hits(s, y) == 0,
        background_hits(s, y) == 0,
{
    assert forall|i: int| 0 <= i < 8 implies !#[trigger] bit(0u8, i) by {
        let k = i as u8;
        assert(0u8 & (1u8 << k) == 0) by (bit_vector);
    }
    assert forall|i: int, u: int| 0 <= i < 8 implies !#[trigger] covers(s, i, u, y) by {
        assert(!bit(s.regs[0x15], i));
    }
    reveal_with_fuel(front_sprite, 9);
    assert(!covers(s, 0, x, y) && !covers(s, 1, x, y) && !covers(s, 2, x, y) && !covers(s, 3, x, y));
    assert(!covers(s, 4, x, y) && !covers(s, 5, x, y) && !covers(s, 6, x, y) && !covers(s, 7, x, y));
    assert forall|i: int| 0 <= i < 8 implies
        !touches_sprite(s, i, crate::vic2::WIDTH as int, y)
        && !touches_foreground(s, i, crate::vic2::WIDTH as int, y) by {}
}

/// In the multicolour modes the bit pair `%01` draws a colour of its own but is
/// not foreground; `%10` and `%11` are.
pub proof fn law_pair_01_is_not_foreground(c0: u8, c1: u8, c2: u8, c3: u8)
    ensures
        multicolor(1, c0, c1, c2, c3).color == c1,
        !multicolor(1, c0, c1, c2, c3).foreground,
        multicolor(2, c0, c1, c2, c3).foreground,
        multicolor(3, c0, c1, c2, c3).foreground,
        !multicolor(0, c0, c1, c2, c3).foreground,
{
}

/// A collision interrupt is raised once: while the registers have not been read
/// back to zero, further collisions add their bits and latch nothing.
pub proof fn law_collision_interrupt_latches_once(v: Vic, sprites: u8, backgrounds: u8)
    ensures
        v.collision_sprite != 0 && v.collision_bg != 0
            ==> collisions_noted(v, sprites, backgrounds).irq_latch == v.irq_latch,
        v.collision_sprite == 0 && sprites != 0 && v.irq_enable & crate::vic2::IRQ_SPRITE_SPRITE != 0
            ==> crate::vic2::asserts_irq(collisions_noted(v, sprites, backgrounds)),
        v.collision_bg == 0 && backgrounds != 0 && v.irq_enable & crate::vic2::IRQ_SPRITE_BG != 0
            ==> crate::vic2::asserts_irq(collisions_noted(v, sprites, backgrounds)),
{
    let (l, e) = (v.irq_latch, v.irq_enable);
    assert((e & 0x04 != 0 ==> (l | 0x04) & e & 0x0F != 0 && ((l | 0x04) | 0x02) & e & 0x0F != 0)
        && (e & 0x02 != 0 ==> (l | 0x02) & e & 0x0F != 0 && ((l | 0x04) | 0x02) & e & 0x0F != 0))
        by (bit_vector);
}

} // verus!
