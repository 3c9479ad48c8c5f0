//! What the VIC-II shows where, in the words of the screen: text rows and
//! columns, sprite dots, and the bytes of memory they come from.

use vstd::prelude::*;
use crate::bits::{bit_of, lemma_bitwise, lemma_digits, lemma_masks};
use crate::vic2::picture::{self, Scene};
use crate::vic2::Vic;

verus! {

/// Bit `k` of a byte.
pub open spec fn lit(v: u8, k: int) -> bool {
    (v >> (k as u8)) & 1 == 1
}

proof fn lemma_bits(v: u8, k: u8)
    by (bit_vector)
    requires
        k < 8,
    ensures
        (v & (1u8 << k) != 0) == ((v >> k) & 1 == 1),
        (v & (0x80u8 >> k) != 0) == ((v >> ((7 - k) as u8)) & 1 == 1),
        k < 4 ==> (v >> ((6 - 2 * k) as u8)) & 0x03
            == 2 * ((v >> ((7 - 2 * k) as u8)) & 1) + ((v >> ((6 - 2 * k) as u8)) & 1),
        (v & 0x40 != 0) == (v / 64 % 2 == 1),
        (v & 0x20 != 0) == (v / 32 % 2 == 1),
        (v & 0x10 != 0) == (v / 16 % 2 == 1),
        (v & 0x08 != 0) == (v / 8 % 2 == 1),
        0u8 & (1u8 << k) == 0,
{
}

proof fn lemma_pixels(v: u8, k: int)
    requires
        0 <= k < 8,
    ensures
        picture::bit(v, k) == lit(v, k),
        picture::single(v, k) == lit(v, 7 - k),
        k < 4 ==> picture::pair(v, k)
            == (if lit(v, 7 - 2 * k) { 2int } else { 0 }) + (if lit(v, 6 - 2 * k) { 1int } else { 0 }),
{
    lemma_bits(v, k as u8);
    if k < 4 {
        let (h, l) = ((v >> ((7 - 2 * k) as u8)) & 1, (v >> ((6 - 2 * k) as u8)) & 1);
        lemma_bitwise(v, 0, (7 - 2 * k) as u8);
        lemma_bitwise(v, 0, (6 - 2 * k) as u8);
    }
}

// ---- where the bytes are ----

/// The 16 KB that the VIC sees: the last quarter of memory for 0 on CIA2's port,
/// the first for 3.
pub open spec fn bank_at(s: Scene) -> int {
    if s.cia2_pra % 4 == 3 { 0 } else if s.cia2_pra % 4 == 2 { 0x4000 }
    else if s.cia2_pra % 4 == 1 { 0x8000 } else { 0xC000 }
}

/// The screen code of text row `r`, column `c`: forty to a row.
pub open spec fn code_at(s: Scene, r: int, c: int) -> u8 {
    s.ram[bank_at(s) + 1024 * (s.regs[0x18] as int / 16) + 40 * r + c]
}

/// The colour of text row `r`, column `c`.
pub open spec fn color_at(s: Scene, r: int, c: int) -> u8 {
    s.ram[0xD800 + 40 * r + c]
}

/// Line `j` of a character's shape: from the character generator where the shapes
/// are set to $1000 or $1800 of the bank, else from memory.
pub open spec fn shape_at(s: Scene, code: int, j: int) -> u8 {
    let set = s.regs[0x18] as int / 2 % 8;
    if set == 2 { s.char_rom[8 * code + j] }
    else if set == 3 { s.char_rom[2048 + 8 * code + j] }
    else { s.ram[bank_at(s) + 2048 * set + 8 * code + j] }
}

/// Line `j` of bitmap cell `r`, `c`: cells are eight bytes each, 320 to a row.
pub open spec fn bitmap_at(s: Scene, r: int, c: int, j: int) -> u8 {
    s.ram[bank_at(s) + (if s.regs[0x18] / 8 % 2 == 1 { 8192int } else { 0 }) + 320 * r + 8 * c + j]
}

/// The three mode bits.
pub open spec fn extended(s: Scene) -> bool {
    s.regs[0x11] / 64 % 2 == 1
}

pub open spec fn bitmapped(s: Scene) -> bool {
    s.regs[0x11] / 32 % 2 == 1
}

pub open spec fn multicolored(s: Scene) -> bool {
    s.regs[0x16] / 16 % 2 == 1
}

/// A place on the screen: pixel `i`, `j` of cell `r`, `c`.
pub open spec fn in_cell(r: int, c: int, i: int, j: int) -> bool {
    0 <= r < 25 && 0 <= c < 40 && 0 <= i < 8 && 0 <= j < 8
}

/// The number of the bit pair that pixel `i` of a byte belongs to.
pub open spec fn pair_at(v: u8, i: int) -> int {
    let k = i / 2;
    (if lit(v, 7 - 2 * k) { 2int } else { 0 }) + (if lit(v, 6 - 2 * k) { 1int } else { 0 })
}

proof fn lemma_cell(s: Scene, r: int, c: int, i: int, j: int)
    requires
        in_cell(r, c, i, j),
    ensures
        (8 * r + j) / 8 == r && (8 * r + j) % 8 == j,
        (8 * c + i) / 8 == c && (8 * c + i) % 8 == i,
        picture::bmm(s) == bitmapped(s),
        picture::mcm(s) == multicolored(s),
        picture::ecm(s) == extended(s),
        picture::bank(s) == bank_at(s),
        forall|code: int, line: int| #[trigger] picture::glyph_row(s, code, line)
            == shape_at(s, code, line),
        s.ram[picture::video_matrix(s) + r * 40 + c] == code_at(s, r, c),
{
    lemma_bits(s.regs[0x11], 0);
    lemma_bits(s.regs[0x16], 0);
    let set = s.regs[0x18] as int / 2 % 8;
    assert(picture::char_base(s) == bank_at(s) + 2048 * set);
    assert(set == 2 ==> picture::char_base(s) % 0x1000 == 0);
    assert(set == 3 ==> picture::char_base(s) % 0x1000 == 0x800);
}

// ---- text ----

/// Standard text: each cell of the screen shows the shape of its own screen code,
/// in its own colour where a bit of the shape is set and in the background colour
/// elsewhere. Set bits are foreground.
pub proof fn law_standard_text(s: Scene, r: int, c: int, i: int, j: int)
    requires
        in_cell(r, c, i, j),
        !extended(s) && !bitmapped(s),
        !multicolored(s) || color_at(s, r, c) / 8 % 2 == 0,
    ensures
        ({
            let p = picture::background(s, 8 * c + i, 8 * r + j);
            let set = lit(shape_at(s, code_at(s, r, c) as int, j), 7 - i);
            &&& p.color == (if set { color_at(s, r, c) } else { s.regs[0x21] })
            &&& p.foreground == set
        }),
{
    lemma_cell(s, r, c, i, j);
    lemma_bits(color_at(s, r, c), 0);
    lemma_pixels(shape_at(s, code_at(s, r, c) as int, j), i);
}

/// Multicolour text, for cells whose colour has bit 3 set: the shape's bit pairs
/// pick the background, $D022, $D023 or the cell's colour, two pixels each; the
/// upper two are foreground.
pub proof fn law_multicolor_text(s: Scene, r: int, c: int, i: int, j: int)
    requires
        in_cell(r, c, i, j),
        !bitmapped(s) && multicolored(s),
        color_at(s, r, c) / 8 % 2 == 1,
    ensures
        ({
            let p = picture::background(s, 8 * c + i, 8 * r + j);
            let b = pair_at(shape_at(s, code_at(s, r, c) as int, j), i);
            &&& p.color == (if b == 0 { s.regs[0x21] } else if b == 1 { s.regs[0x22] }
                else if b == 2 { s.regs[0x23] } else { color_at(s, r, c) % 8 })
            &&& p.foreground == (b >= 2)
        }),
{
    lemma_cell(s, r, c, i, j);
    lemma_bits(color_at(s, r, c), 0);
    lemma_pixels(shape_at(s, code_at(s, r, c) as int, j), i / 2);
}

/// Extended background colours: the upper two bits of a screen code pick one of
/// four backgrounds, the lower six the shape.
pub proof fn law_extended_text(s: Scene, r: int, c: int, i: int, j: int)
    requires
        in_cell(r, c, i, j),
        extended(s) && !bitmapped(s) && !multicolored(s),
    ensures
        ({
            let p = picture::background(s, 8 * c + i, 8 * r + j);
            let code = code_at(s, r, c);
            let set = lit(shape_at(s, code as int % 64, j), 7 - i);
            &&& p.color == (if set { color_at(s, r, c) }
                else if code < 64 { s.regs[0x21] } else if code < 128 { s.regs[0x22] }
                else if code < 192 { s.regs[0x23] } else { s.regs[0x24] })
            &&& p.foreground == set
        }),
{
    lemma_cell(s, r, c, i, j);
    lemma_pixels(shape_at(s, code_at(s, r, c) as int % 64, j), i);
}

// ---- bitmaps ----

/// Bitmaps: each cell has eight bytes of its own. In hi-res a set bit shows the
/// upper half of the cell's screen code, a clear one the lower half; in
/// multicolour the bit pairs pick the background, the upper half, the lower half
/// or the cell's colour.
pub proof fn law_bitmap(s: Scene, r: int, c: int, i: int, j: int)
    requires
        in_cell(r, c, i, j),
        bitmapped(s),
    ensures
        ({
            let p = picture::background(s, 8 * c + i, 8 * r + j);
            let v = bitmap_at(s, r, c, j);
            let (upper, lower) = ((code_at(s, r, c) / 16) as u8, (code_at(s, r, c) % 16) as u8);
            let b = pair_at(v, i);
            &&& !multicolored(s) ==> p.color == (if lit(v, 7 - i) { upper } else { lower })
                && p.foreground == lit(v, 7 - i)
            &&& multicolored(s) ==> p.color == (if b == 0 { s.regs[0x21] } else if b == 1 { upper }
                else if b == 2 { lower } else { (color_at(s, r, c) % 16) as u8 })
                && p.foreground == (b >= 2)
        }),
{
    lemma_cell(s, r, c, i, j);
    let v = bitmap_at(s, r, c, j);
    assert(picture::bitmap_base(s) + r * 320 + c * 8 + j
        == bank_at(s) + (if s.regs[0x18] / 8 % 2 == 1 { 8192int } else { 0 }) + 320 * r + 8 * c + j);
    lemma_pixels(v, i);
    lemma_pixels(v, i / 2);
}

/// The thousand cells of the screen are a thousand different places in memory, in
/// reading order, and a cell's picture depends on no other cell: two machines that
/// differ elsewhere show the same there.
pub proof fn law_cells_are_their_own(s: Scene, t: Scene, r: int, c: int, q: int, d: int, i: int, j: int)
    requires
        in_cell(r, c, i, j),
        in_cell(q, d, i, j),
        !extended(s) && !bitmapped(s) && !multicolored(s),
        s.regs == t.regs && s.char_rom == t.char_rom && s.cia2_pra == t.cia2_pra,
        code_at(t, r, c) == code_at(s, r, c),
        color_at(t, r, c) == color_at(s, r, c),
        shape_at(t, code_at(s, r, c) as int, j) == shape_at(s, code_at(s, r, c) as int, j),
    ensures
        picture::background(t, 8 * c + i, 8 * r + j) == picture::background(s, 8 * c + i, 8 * r + j),
        (40 * r + c == 40 * q + d) == (r == q && c == d),
        (40 * r + c < 40 * q + d) == (r < q || r == q && c < d),
        0 <= 40 * r + c < 1000,
{
    law_standard_text(s, r, c, i, j);
    law_standard_text(t, r, c, i, j);
}

// ---- sprites ----

/// The dot that a sprite shows `dx` dots from its left edge and `dy` lines from
/// its top: from three bytes a line, 64 to a sprite, at the pointer behind the
/// screen.
pub open spec fn dot_of(s: Scene, n: int, dx: int, dy: int) -> Option<u8> {
    let pointer = s.ram[bank_at(s) + 1024 * (s.regs[0x18] as int / 16) + 1016 + n] as int;
    let v = s.ram[bank_at(s) + 64 * pointer + 3 * dy + dx / 8];
    let b = pair_at(v, dx % 8);
    if lit(s.regs[0x1C], n) {
        if b == 0 { None } else if b == 1 { Some(s.regs[0x25]) }
        else if b == 2 { Some(s.regs[0x27 + n]) } else { Some(s.regs[0x26]) }
    } else if lit(v, 7 - dx % 8) {
        Some(s.regs[0x27 + n])
    } else {
        None
    }
}

/// A sprite's left edge on the screen: its X register with the ninth bit from
/// $D010, where 24 is the left edge of the window.
pub open spec fn left_of(s: Scene, n: int) -> int {
    s.regs[2 * n] + (if lit(s.regs[0x10], n) { 256int } else { 0 }) - 24
}

/// A sprite's top edge: its Y register, where 50 is the top of the window.
pub open spec fn top_of(s: Scene, n: int) -> int {
    s.regs[2 * n + 1] - 50
}

/// A sprite shows 24 dots by 21, each one or two pixels wide ($D01D) and one or
/// two lines high ($D017), from its left and top edge on, and nothing beyond them
/// or while it is switched off.
pub proof fn law_sprite_pixels(s: Scene, n: int, x: int, y: int)
    requires
        0 <= n < 8,
    ensures
        ({
            let wide = if lit(s.regs[0x1D], n) { 2int } else { 1 };
            let high = if lit(s.regs[0x17], n) { 2int } else { 1 };
            let (dx, dy) = (x - left_of(s, n), y - top_of(s, n));
            picture::sprite_pixel(s, n, x, y)
                == (if lit(s.regs[0x15], n) && 0 <= dx < 24 * wide && 0 <= dy < 21 * high {
                    dot_of(s, n, dx / wide, dy / high)
                } else {
                    None
                })
        }),
{
    lemma_pixels(s.regs[0x1D], n);
    lemma_pixels(s.regs[0x17], n);
    lemma_pixels(s.regs[0x15], n);
    lemma_pixels(s.regs[0x10], n);
    lemma_pixels(s.regs[0x1C], n);
    let wide = if lit(s.regs[0x1D], n) { 2int } else { 1 };
    let high = if lit(s.regs[0x17], n) { 2int } else { 1 };
    let (dx, dy) = (x - left_of(s, n), y - top_of(s, n));
    if lit(s.regs[0x15], n) && 0 <= dx < 24 * wide && 0 <= dy < 21 * high {
        let (px, row) = (dx / wide, dy / high);
        assert(0 <= px < 24 && 0 <= row < 21);
        let pointer = s.ram[bank_at(s) + 1024 * (s.regs[0x18] as int / 16) + 1016 + n] as int;
        assert(picture::bank(s) == bank_at(s));
        assert(picture::sprite_row(s, n, y) == bank_at(s) + 64 * pointer + 3 * row);
        let v = s.ram[bank_at(s) + 64 * pointer + 3 * row + px / 8];
        lemma_pixels(v, px % 8);
        lemma_pixels(v, px % 8 / 2);
    }
}

/// A sprite at the origin has its first dot in the picture's top left corner.
pub proof fn law_sprite_origin(s: Scene, n: int)
    requires
        0 <= n < 8,
        s.regs[2 * n] == crate::vic2::SPRITE_X_ORIGIN,
        s.regs[2 * n + 1] == crate::vic2::SPRITE_Y_ORIGIN,
        !lit(s.regs[0x10], n),
        lit(s.regs[0x15], n),
    ensures
        picture::sprite_pixel(s, n, 0, 0) == dot_of(s, n, 0, 0),
        picture::sprite_pixel(s, n, -1, 0) is None,
        picture::sprite_pixel(s, n, 0, -1) is None,
{
    law_sprite_pixels(s, n, 0, 0);
    law_sprite_pixels(s, n, -1, 0);
    law_sprite_pixels(s, n, 0, -1);
}

/// A pixel of the screen is that of the lowest-numbered sprite that shows
/// something there, or else the background.
pub proof fn law_what_is_in_front(s: Scene, n: int, x: int, y: int)
    requires
        0 <= n <= 8,
        forall|k: int| 0 <= k < n ==> #[trigger] picture::sprite_pixel(s, k, x, y) is None,
        n < 8 ==> picture::sprite_pixel(s, n, x, y) is Some,
    ensures
        picture::shown(s, x, y) == (if n < 8 {
            crate::vic2::rgb_of(picture::sprite_pixel(s, n, x, y)->0)
        } else {
            crate::vic2::rgb_of(picture::background(s, x, y).color)
        }),
{
    lemma_front(s, 0, n, x, y);
}

proof fn lemma_front(s: Scene, from: int, n: int, x: int, y: int)
    requires
        0 <= from <= n <= 8,
        forall|k: int| 0 <= k < n ==> #[trigger] picture::sprite_pixel(s, k, x, y) is None,
        n < 8 ==> picture::sprite_pixel(s, n, x, y) is Some,
    ensures
        picture::front_sprite(s, from, x, y)
            == (if n < 8 { picture::sprite_pixel(s, n, x, y) } else { None }),
    decreases n - from,
{
    if from < n {
        assert(picture::sprite_pixel(s, from, x, y) is None);
        lemma_front(s, from + 1, n, x, y);
    }
}

/// A drawn line is 320 pixels of the frame buffer, and the rest is left alone.
pub proof fn law_line_is_drawn(fb: Seq<u32>, s: Scene, y: int, at: int)
    requires
        0 <= y < 200,
        fb.len() >= 64000,
        0 <= at < fb.len(),
    ensures
        picture::line_drawn(fb, s, y).len() == fb.len(),
        320 * y <= at < 320 * y + 320
            ==> picture::line_drawn(fb, s, y)[at] == picture::shown(s, at - 320 * y, y),
        !(320 * y <= at < 320 * y + 320) ==> picture::line_drawn(fb, s, y)[at] == fb[at],
{
}

// ---- collisions ----

/// The bit of a sprite in the collision registers is set exactly where it shows a
/// dot that another sprite shows too, or a dot in front of foreground, somewhere
/// on the 320 pixels of the line.
pub proof fn law_collisions(s: Scene, y: int, n: int)
    requires
        0 <= n < 8,
    ensures
        lit(picture::sprite_hits(s, y), n) == (exists|x: int, m: int| {
            &&& 0 <= x < 320 && 0 <= m < 8 && m != n
            &&& #[trigger] picture::sprite_pixel(s, n, x, y) is Some
            &&& #[trigger] picture::sprite_pixel(s, m, x, y) is Some
        }),
        lit(picture::background_hits(s, y), n) == (exists|x: int| {
            &&& 0 <= x < 320
            &&& #[trigger] picture::sprite_pixel(s, n, x, y) is Some
            &&& picture::background(s, x, y).foreground
        }),
{
    let p = |i: int| picture::touches_sprite(s, i, 320, y);
    let q = |i: int| picture::touches_foreground(s, i, 320, y);
    lemma_mask(p, n);
    lemma_mask(q, n);
    assert(picture::sprite_hits(s, y) == picture::mask_where(p));
    assert(picture::background_hits(s, y) == picture::mask_where(q));
    if p(n) {
        let (x, m) = choose|x: int, m: int| 0 <= x < 320 && 0 <= m < 8 && m != n
            && #[trigger] picture::covers(s, n, x, y) && #[trigger] picture::covers(s, m, x, y);
        assert(picture::sprite_pixel(s, n, x, y) is Some);
        assert(picture::sprite_pixel(s, m, x, y) is Some);
    }
    if exists|x: int, m: int| {
        &&& 0 <= x < 320 && 0 <= m < 8 && m != n
        &&& #[trigger] picture::sprite_pixel(s, n, x, y) is Some
        &&& #[trigger] picture::sprite_pixel(s, m, x, y) is Some
    } {
        let (x, m) = choose|x: int, m: int| {
            &&& 0 <= x < 320 && 0 <= m < 8 && m != n
            &&& #[trigger] picture::sprite_pixel(s, n, x, y) is Some
            &&& #[trigger] picture::sprite_pixel(s, m, x, y) is Some
        };
        assert(picture::covers(s, n, x, y) && picture::covers(s, m, x, y));
    }
    if q(n) {
        let x = choose|x: int| 0 <= x < 320 && #[trigger] picture::covers(s, n, x, y)
            && picture::background(s, x, y).foreground;
        assert(picture::sprite_pixel(s, n, x, y) is Some);
    }
    if exists|x: int| {
        &&& 0 <= x < 320
        &&& #[trigger] picture::sprite_pixel(s, n, x, y) is Some
        &&& picture::background(s, x, y).foreground
    } {
        let x = choose|x: int| {
            &&& 0 <= x < 320
            &&& #[trigger] picture::sprite_pixel(s, n, x, y) is Some
            &&& picture::background(s, x, y).foreground
        };
        assert(picture::covers(s, n, x, y));
    }
}

proof fn lemma_mask(p: spec_fn(int) -> bool, n: int)
    requires
        0 <= n < 8,
    ensures
        lit(picture::mask_where(p), n) == p(n),
{
    let v = picture::mask_where(p);
    lemma_byte(v, p(0), p(1), p(2), p(3), p(4), p(5), p(6), p(7));
    assert(n == 0 || n == 1 || n == 2 || n == 3 || n == 4 || n == 5 || n == 6 || n == 7);
}

proof fn lemma_byte(
    v: u8, b0: bool, b1: bool, b2: bool, b3: bool, b4: bool, b5: bool, b6: bool, b7: bool,
)
    by (bit_vector)
    requires
        v == (if b0 { 1u8 } else { 0 }) + (if b1 { 2u8 } else { 0 }) + (if b2 { 4u8 } else { 0 })
            + (if b3 { 8u8 } else { 0 }) + (if b4 { 16u8 } else { 0 }) + (if b5 { 32u8 } else { 0 })
            + (if b6 { 64u8 } else { 0 }) + (if b7 { 128u8 } else { 0 }),
    ensures
        ((v >> 0u8) & 1 == 1) == b0,
        ((v >> 1u8) & 1 == 1) == b1,
        ((v >> 2u8) & 1 == 1) == b2,
        ((v >> 3u8) & 1 == 1) == b3,
        ((v >> 4u8) & 1 == 1) == b4,
        ((v >> 5u8) & 1 == 1) == b5,
        ((v >> 6u8) & 1 == 1) == b6,
        ((v >> 7u8) & 1 == 1) == b7,
{
}

/// Noting collisions sets their bits on top of those already there. It latches the
/// sprite interrupt (bit 2) or the background interrupt (bit 1) where the register
/// was clear before and something was hit, and leaves everything else alone.
pub proof fn law_collisions_are_noted(v: Vic, sprites: u8, backgrounds: u8, k: int)
    requires
        0 <= k < 8,
    ensures
        ({
            let w = picture::collisions_noted(v, sprites, backgrounds);
            &&& lit(w.collision_sprite, k) == (lit(v.collision_sprite, k) || lit(sprites, k))
            &&& lit(w.collision_bg, k) == (lit(v.collision_bg, k) || lit(backgrounds, k))
            &&& lit(w.irq_latch, k) == (lit(v.irq_latch, k)
                || k == 2 && v.collision_sprite == 0 && sprites != 0
                || k == 1 && v.collision_bg == 0 && backgrounds != 0)
            &&& w == (Vic {
                collision_sprite: w.collision_sprite, collision_bg: w.collision_bg,
                irq_latch: w.irq_latch, ..v
            })
        }),
{
    lemma_or(v.collision_sprite, sprites, k as u8);
    lemma_or(v.collision_bg, backgrounds, k as u8);
    lemma_or(v.irq_latch, 4, k as u8);
    lemma_or(v.irq_latch, 2, k as u8);
    lemma_or(v.irq_latch | 4, 2, k as u8);
}

proof fn lemma_or(a: u8, b: u8, k: u8)
    requires
        k < 8,
    ensures
        lit(a | b, k as int) == (lit(a, k as int) || lit(b, k as int)),
        lit(a & b, k as int) == (lit(a, k as int) && lit(b, k as int)),
        lit(!a, k as int) == !lit(a, k as int),
        lit(0x04, k as int) == (k == 2),
        lit(0x02, k as int) == (k == 1),
        lit(0x01, k as int) == (k == 0),
        lit(0x0F, k as int) == (k < 4),
        lit(0xF0, k as int) == (k >= 4),
        lit(0x70, k as int) == (k == 4 || k == 5 || k == 6),
        lit(0x80, k as int) == (k == 7),
        !lit(0x00, k as int),
{
    lemma_bitwise(a, b, k);
    lemma_masks(k);
}

// ---- registers, the beam and the colours ----

/// A register keeps what is written to it, and a write touches no other register.
/// $D012 and bit 7 of $D011 set the compare line. A one written to a bit of $D019
/// clears it, and the low four bits of $D01A say what may interrupt.
pub proof fn law_registers(v: Vic, reg: u8, val: u8, other: int, k: int)
    requires
        0 <= other < 64,
        0 <= k < 8,
        v.raster_compare < 512,
    ensures
        ({
            let w = crate::vic2::after_write(v, reg, val);
            let r = reg as int % 64;
            &&& w.regs[other] == (if other == r { val } else { v.regs[other] })
            &&& w.raster_compare == (if r == 0x12 {
                if v.raster_compare >= 256 { 256 + val } else { val as int }
            } else if r == 0x11 {
                v.raster_compare % 256 + (if val >= 128 { 256int } else { 0 })
            } else {
                v.raster_compare as int
            })
            &&& lit(w.irq_latch, k)
                == (lit(v.irq_latch, k) && !(r == 0x19 && k < 4 && lit(val, k)))
            &&& r == 0x1A ==> lit(w.irq_enable, k) == (k < 4 && lit(val, k))
            &&& r != 0x1A ==> w.irq_enable == v.irq_enable
            &&& w == (Vic {
                regs: w.regs, raster_compare: w.raster_compare, irq_latch: w.irq_latch,
                irq_enable: w.irq_enable, ..v
            })
        }),
{
    lemma_or(val, 0x0F, k as u8);
    lemma_or(val & 0x0F, 0, k as u8);
    lemma_or(v.irq_latch, !(val & 0x0F), k as u8);
    lemma_bitwise(val & 0x0F, 0, k as u8);
    assert(v.raster_compare / 256 % 2 == (if v.raster_compare >= 256 { 1int } else { 0 }));
}

/// What registers read as: the beam's line in $D012 and bit 7 of $D011; the latch
/// in $D019, with bit 7 up while the chip interrupts; otherwise what was written.
pub proof fn law_reads(v: Vic, reg: u8, k: int)
    requires
        0 <= k < 8,
        crate::vic2::vic_sound(v),
    ensures
        ({
            let b = crate::vic2::register(v, reg);
            let r = reg as int % 64;
            let interrupts = lit(v.irq_latch, 0) && lit(v.irq_enable, 0)
                || lit(v.irq_latch, 1) && lit(v.irq_enable, 1)
                || lit(v.irq_latch, 2) && lit(v.irq_enable, 2)
                || lit(v.irq_latch, 3) && lit(v.irq_enable, 3);
            &&& r == 0x12 ==> b == (if v.raster >= 256 { v.raster - 256 } else { v.raster as int })
            &&& r == 0x11 ==> b == v.regs[0x11] % 128 + (if v.raster >= 256 { 128int } else { 0 })
            &&& crate::vic2::asserts_irq(v) == interrupts
            &&& r == 0x19 ==> lit(b, k) == (lit(v.irq_latch, k) || 4 <= k <= 6 || k == 7 && interrupts)
            &&& r == 0x1A ==> lit(b, k) == (lit(v.irq_enable, k) || k >= 4)
            &&& r == 0x1E ==> b == v.collision_sprite
            &&& r == 0x1F ==> b == v.collision_bg
            &&& !(r == 0x11 || r == 0x12 || r == 0x19 || r == 0x1A || r == 0x1E || r == 0x1F)
                ==> b == v.regs[r]
            &&& crate::vic2::after_read(v, reg) == (Vic {
                collision_sprite: if r == 0x1E { 0 } else { v.collision_sprite },
                collision_bg: if r == 0x1F { 0 } else { v.collision_bg },
                ..v
            })
        }),
{
    lemma_or(v.irq_latch, 0x70, k as u8);
    lemma_or(v.irq_latch | 0x70, 0x80, k as u8);
    lemma_or(v.irq_latch | 0x70, 0, k as u8);
    lemma_or(v.irq_enable, 0xF0, k as u8);
    lemma_low_bits(v.irq_latch, v.irq_enable);
}

proof fn lemma_low_bits(a: u8, b: u8)
    ensures
        (a & b & 0x0F != 0) == (lit(a, 0) && lit(b, 0) || lit(a, 1) && lit(b, 1)
            || lit(a, 2) && lit(b, 2) || lit(a, 3) && lit(b, 3)),
{
    lemma_digits(a & b & 0x0F);
    lemma_both(a, b, 0);
    lemma_both(a, b, 1);
    lemma_both(a, b, 2);
    lemma_both(a, b, 3);
    lemma_both(a, b, 4);
    lemma_both(a, b, 5);
    lemma_both(a, b, 6);
    lemma_both(a, b, 7);
}

proof fn lemma_both(a: u8, b: u8, k: u8)
    requires
        k < 8,
    ensures
        bit_of(a & b & 0x0F, k) == (lit(a, k as int) && lit(b, k as int) && k < 4),
{
    lemma_bitwise(a, b, k);
    lemma_bitwise(a & b, 0x0F, k);
    lemma_masks(k);
}

/// The compare line of frame `f`, counted in lines from the start of this frame.
pub open spec fn compare_line(v: Vic, f: int) -> int {
    312 * f + v.raster_compare
}

/// The beam: one line every 63 cycles, 312 lines to a frame, counted from where it
/// is. The raster interrupt (bit 0) is latched exactly when it comes to the
/// compare line on the way.
pub proof fn law_beam(v: Vic, cycles: int, k: int)
    requires
        crate::vic2::vic_sound(v),
        cycles >= 0,
        0 <= k < 8,
    ensures
        ({
            let w = crate::vic2::ticked(v, cycles);
            let before = 63 * v.raster + v.line_cycles;
            let now = before + cycles;
            &&& 63 * w.raster + w.line_cycles == now % 19656
            &&& 0 <= w.line_cycles < 63
            &&& lit(w.irq_latch, k) == (lit(v.irq_latch, k) || k == 0 && v.raster_compare < 312
                && exists|f: int| v.raster < #[trigger] compare_line(v, f)
                    && 63 * compare_line(v, f) <= now)
            &&& w == (Vic {
                raster: w.raster, line_cycles: w.line_cycles, irq_latch: w.irq_latch, ..v
            })
        }),
{
    let total = v.line_cycles + cycles;
    let lines = total / 63;
    let w = crate::vic2::ticked(v, cycles);
    let now = 63 * v.raster + total;
    let l = v.raster + lines;
    assert(now == 63 * l + total % 63);
    assert(l == 312 * (l / 312) + l % 312);
    assert(now % 19656 == 63 * (l % 312) + total % 63) by {
        assert(now == 19656 * (l / 312) + (63 * (l % 312) + total % 63));
        assert(0 <= 63 * (l % 312) + total % 63 < 19656);
    }
    lemma_or(v.irq_latch, 1, k as u8);
    if crate::vic2::reaches_compare(v, lines) {
        let m = choose|m: int| 1 <= m <= lines
            && #[trigger] crate::vic2::line_after(v, m) == v.raster_compare;
        let n = v.raster + m;
        assert(compare_line(v, n / 312) == n);
        assert(63 * n <= now);
    }
    if v.raster_compare < 312 && exists|f: int| v.raster < #[trigger] compare_line(v, f)
        && 63 * compare_line(v, f) <= now {
        let f = choose|f: int| v.raster < #[trigger] compare_line(v, f)
            && 63 * compare_line(v, f) <= now;
        let n = compare_line(v, f);
        assert(n % 312 == v.raster_compare);
        let m = n - v.raster;
        assert(63 * m <= total);
        assert(m <= lines);
        assert(crate::vic2::line_after(v, m) == v.raster_compare);
    }
}

/// The sixteen colours, by number: black, white, red, cyan, purple, green, blue,
/// yellow, orange, brown, light red, three greys with light green and light blue
/// between them. Only the low four bits of a colour count.
pub proof fn law_colors(color: u8)
    ensures
        crate::vic2::rgb_of(color) == (match color % 16 {
            0 => 0x000000u32, 1 => 0xFFFFFF, 2 => 0x880000, 3 => 0xAAFFEE,
            4 => 0xCC44CC, 5 => 0x00CC55, 6 => 0x0000AA, 7 => 0xEEEE77,
            8 => 0xDD8855, 9 => 0x664400, 10 => 0xFF7777, 11 => 0x333333,
            12 => 0x777777, 13 => 0xAAFF66, 14 => 0x0088FF, _ => 0xBBBBBB,
        }),
{
}

} // verus!
