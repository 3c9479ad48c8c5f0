//! The VIC-II: raster, pictures and collisions.

use c64research::vic2::{
    Vic, CYCLES_PER_LINE, HEIGHT, PALETTE, SPRITE_X_ORIGIN, SPRITE_Y_ORIGIN, WIDTH,
};

#[test]
fn raster_advances_and_wraps() {
    let mut vic = Vic::new();
    vic.tick(CYCLES_PER_LINE);
    assert_eq!(vic.raster(), 1);
    assert_eq!(vic.read(0x12), 1);
}

#[test]
fn raster_interrupt_fires_at_the_compare_line() {
    let mut vic = Vic::new();
    vic.write(0x1A, 0x01); // enable raster IRQ
    vic.write(0x12, 100); // compare line = 100
    assert!(!vic.irq_asserted());
    vic.tick(CYCLES_PER_LINE * 100); // reach line 100
    assert!(vic.irq_asserted());
    // Reading $D019 shows the raster flag + the summary bit.
    assert_eq!(vic.read(0x19) & 0x81, 0x81);
    // Acknowledge by writing bit 0.
    vic.write(0x19, 0x01);
    assert!(!vic.irq_asserted());
}

#[test]
fn compare_uses_the_9th_bit() {
    let mut vic = Vic::new();
    vic.write(0x1A, 0x01);
    vic.write(0x12, 0x2C); // low byte
    vic.write(0x11, 0x80); // high bit set -> compare line = 300
    vic.tick(CYCLES_PER_LINE * 300);
    assert!(vic.irq_asserted());
}

#[test]
fn renders_a_hires_character() {
    let mut vic = Vic::new();
    vic.write(0x18, 0x14); // screen $0400, chars $1000 (char ROM)
    vic.write(0x21, 0x06); // blue background
    let mut ram = [0u8; 0x10000];
    ram[0x0400] = 0x01;
    ram[0xD800] = 0x01; // white
    let mut char_rom = [0u8; 0x1000];
    char_rom[8] = 0xFF; // glyph 1, row 0 solid
    let mut fb = [0u32; WIDTH * HEIGHT];
    vic.render_line(0, &ram, &char_rom, 0x07, &mut fb);
    assert_eq!(fb[0], PALETTE[1]); // white
    vic.render_line(1, &ram, &char_rom, 0x07, &mut fb);
    assert_eq!(fb[WIDTH], PALETTE[6]); // background on the next row
}

#[test]
fn renders_standard_bitmap() {
    let mut vic = Vic::new();
    vic.write(0x11, 0x20); // BMM on (bitmap mode)
    vic.write(0x18, 0x18); // video matrix $0400, bitmap $2000
    let mut ram = [0u8; 0x10000];
    // First bitmap byte: alternating pixels; colours from the video matrix.
    ram[0x2000] = 0b1010_1010;
    ram[0x0400] = 0x1E; // upper nibble = fg (1), lower = bg (14)
    let char_rom = [0u8; 0x1000];
    let mut fb = [0u32; WIDTH * HEIGHT];
    vic.render_line(0, &ram, &char_rom, 0x07, &mut fb);
    assert_eq!(fb[0], PALETTE[1]); // bit set -> fg (white)
    assert_eq!(fb[1], PALETTE[14]); // bit clear -> bg (light blue)
}

#[test]
fn renders_multicolor_bitmap() {
    let mut vic = Vic::new();
    vic.write(0x11, 0x20); // BMM
    vic.write(0x16, 0x10); // MCM -> multicolor bitmap
    vic.write(0x18, 0x18); // video $0400, bitmap $2000
    vic.write(0x21, 0x00); // background (bit-pair 00) = black
    let mut ram = [0u8; 0x10000];
    ram[0x2000] = 0b00_01_10_11; // four 2-bit pixels
    ram[0x0400] = 0x23; // upper nibble=2 (pair 01), lower=3 (pair 10)
    ram[0xD800] = 0x04; // colour RAM (pair 11)
    let char_rom = [0u8; 0x1000];
    let mut fb = [0u32; WIDTH * HEIGHT];
    vic.render_line(0, &ram, &char_rom, 0x07, &mut fb);
    assert_eq!(fb[0], PALETTE[0]); // 00 -> background
    assert_eq!(fb[2], PALETTE[2]); // 01 -> video matrix hi nibble
    assert_eq!(fb[4], PALETTE[3]); // 10 -> video matrix lo nibble
    assert_eq!(fb[6], PALETTE[4]); // 11 -> colour RAM
}

// ---- sprite collisions -------------------------------------------------

/// A machine set up for collision tests: video matrix at $0400, a blank
/// screen of spaces, and two sprites whose data is one solid pixel row.
struct Scene {
    vic: Vic,
    ram: [u8; 0x10000],
    char_rom: [u8; 0x1000],
    fb: [u32; WIDTH * HEIGHT],
}

impl Scene {
    fn new() -> Self {
        let mut vic = Vic::new();
        vic.write(0x18, 0x14); // video matrix $0400, char data $1000 (char ROM)
        let mut ram = [0u8; 0x10000];
        // A screen of spaces, so the background has no foreground pixels.
        for cell in 0..1000 {
            ram[0x0400 + cell] = 0x20;
        }
        // Sprite pointers: both sprites use data at $0800.
        ram[0x07F8] = 0x20;
        ram[0x07F9] = 0x20;
        // A solid 24x21 block: 3 bytes per row, all 21 rows, so any
        // scanline the sprite covers has pixels on it.
        for b in 0..63usize {
            ram[0x0800 + b] = 0xFF;
        }
        Scene { vic, ram, char_rom: [0u8; 0x1000], fb: [0u32; WIDTH * HEIGHT] }
    }

    /// Place sprite `i` at display position (x, y).
    fn place(&mut self, i: u8, x: i32, y: i32) {
        self.vic.write(0x15, self.vic.regs[0x15] | (1 << i)); // enable
        self.vic.write(i * 2, (x + SPRITE_X_ORIGIN) as u8);
        self.vic.write(0x01 + i * 2, (y + SPRITE_Y_ORIGIN) as u8);
    }

    fn render(&mut self, y: usize) {
        self.vic.render_line(y, &self.ram, &self.char_rom, 0x07, &mut self.fb);
    }
}

#[test]
fn two_overlapping_sprites_collide() {
    let mut s = Scene::new();
    s.place(0, 0, 0);
    s.place(1, 8, 0); // overlaps sprite 0's right-hand pixels
    s.render(0);

    // Both sprites are named, not just one.
    assert_eq!(s.vic.read(0x1E), 0b0000_0011, "sprites 0 and 1 both collided");
    // ...and reading cleared it.
    assert_eq!(s.vic.read(0x1E), 0, "reading $D01E clears it");
}

#[test]
fn sprites_that_miss_each_other_do_not_collide() {
    let mut s = Scene::new();
    s.place(0, 0, 0);
    s.place(1, 100, 0); // well clear of sprite 0's 24 pixels
    s.render(0);
    assert_eq!(s.vic.read(0x1E), 0);
}

/// Priority is a *drawing* rule, not a collision rule: a sprite completely
/// hidden behind another still registers the hit.
#[test]
fn a_hidden_sprite_still_collides() {
    let mut s = Scene::new();
    s.place(0, 0, 0);
    s.place(1, 0, 0); // exactly underneath sprite 0
    s.render(0);
    assert_eq!(s.vic.read(0x1E), 0b0000_0011, "the covered sprite collided too");
}

#[test]
fn a_sprite_over_foreground_graphics_collides_with_the_background() {
    let mut s = Scene::new();
    // Put a solid character in the top-left cell: every pixel foreground.
    s.ram[0x0400] = 0x01;
    s.char_rom[0x08] = 0xFF; // char 1, row 0
    s.place(0, 0, 0);
    s.render(0);

    assert_eq!(s.vic.read(0x1F), 0b0000_0001, "sprite 0 touched foreground");
    assert_eq!(s.vic.read(0x1F), 0, "reading $D01F clears it");
}

#[test]
fn a_sprite_over_blank_background_does_not_collide() {
    let mut s = Scene::new();
    s.place(0, 0, 0); // screen is spaces, so no foreground pixels
    s.render(0);
    assert_eq!(s.vic.read(0x1F), 0, "empty background is not foreground");
}

/// In multicolour text, bit pair `%01` is drawn but is *not* foreground -
/// so a sprite passes through it without a collision.
#[test]
fn multicolour_bit_pair_01_is_not_foreground() {
    let mut s = Scene::new();
    s.vic.write(0x16, 0x10); // MCM on
    s.ram[0x0400] = 0x01;
    s.ram[0xD800] = 0x08; // colour RAM bit 3 -> this cell is multicolour
    s.char_rom[0x08] = 0b0101_0101; // every pair = %01
    s.place(0, 0, 0);
    s.render(0);
    assert_eq!(s.vic.read(0x1F), 0, "%01 draws a colour but collides with nothing");

    // ...whereas %10 does collide.
    let mut s = Scene::new();
    s.vic.write(0x16, 0x10);
    s.ram[0x0400] = 0x01;
    s.ram[0xD800] = 0x08;
    s.char_rom[0x08] = 0b1010_1010; // every pair = %10
    s.place(0, 0, 0);
    s.render(0);
    assert_eq!(s.vic.read(0x1F), 0b0000_0001, "%10 is foreground");
}

/// The interrupt fires once, on the first collision after the register was
/// cleared. Otherwise a crowded screen would interrupt every scanline.
#[test]
fn collision_interrupt_latches_once_until_acknowledged() {
    let mut s = Scene::new();
    s.vic.write(0x1A, 0x04); // enable sprite-sprite collision IRQ
    s.place(0, 0, 0);
    s.place(1, 8, 0);

    s.render(0);
    assert!(s.vic.irq_asserted(), "the first collision raises an interrupt");

    // Acknowledge the interrupt but leave $D01E unread: no new interrupt,
    // because the register has not gone back to zero.
    s.vic.write(0x19, 0x04);
    assert!(!s.vic.irq_asserted());
    s.render(1);
    assert!(!s.vic.irq_asserted(), "still latched: $D01E was never read");

    // Read it to re-arm, then collide again.
    assert_ne!(s.vic.read(0x1E), 0);
    s.render(2);
    assert!(s.vic.irq_asserted(), "re-armed once the register was read");
}

#[test]
fn renders_a_sprite_pixel() {
    let mut vic = Vic::new();
    vic.write(0x18, 0x14); // video matrix at $0400 (so pointers are at $07F8)
    vic.write(0x15, 0x01); // enable sprite 0
    vic.write(0x27, 0x02); // sprite 0 red
    vic.write(0x00, SPRITE_X_ORIGIN as u8); // x -> display x 0
    vic.write(0x01, SPRITE_Y_ORIGIN as u8); // y -> display line 0
    let mut ram = [0u8; 0x10000];
    // Video matrix at $0400; sprite 0 pointer at $07F8.
    ram[0x07F8] = 0x20; // sprite data at $20*64 = $0800
    ram[0x0800] = 0x80; // top-left pixel set
    let char_rom = [0u8; 0x1000];
    let mut fb = [0u32; WIDTH * HEIGHT];
    vic.render_line(0, &ram, &char_rom, 0x07, &mut fb);
    assert_eq!(fb[0], PALETTE[2]); // red sprite pixel
}

#[test]
fn a_line_that_no_frame_has_is_never_reached() {
    let mut vic = Vic::new();
    vic.write(0x1A, 0x01);
    vic.write(0x12, 312u16.to_le_bytes()[0]);
    vic.write(0x11, 0x80); // compare line = 312, one behind the last
    vic.tick(CYCLES_PER_LINE * 312 * 3);
    assert!(!vic.irq_asserted());
}
