//! Zero-page and register locations used by the IRQ handler and the keyboard
//! scan.

use vstd::prelude::*;

verus! {

/// Cursor enable: 0 = cursor on.
pub const CURSOR_ENABLE: u16 = 0x00CC;
pub const BLINK_COUNTDOWN: u16 = 0x00CD;
/// Bit 0: is the block currently shown?
pub const BLINK_PHASE: u16 = 0x00CF;
pub const CHAR_UNDER_CURSOR: u16 = 0x00CE;
pub const CURSOR_COL: u16 = 0x00D3;
/// ($D1) -> current screen line.
pub const LINE_PTR: u16 = 0x00D1;
/// ($F3) -> current colour-RAM line.
pub const COLOR_PTR: u16 = 0x00F3;
pub const SAVED_COLOR: u16 = 0x0287;
pub const TEXT_COLOR: u16 = 0x0286;

/// Keyboard rows (output).
pub const CIA1_PRA: u16 = 0xDC00;
/// Keyboard columns (input).
pub const CIA1_PRB: u16 = 0xDC01;
/// Bit 0 SHIFT, bit 1 C=, bit 2 CTRL.
pub const MODIFIERS: u16 = 0x028D;
/// Matrix index 0..64 of the pressed key.
pub const CUR_KEY: u16 = 0x00CB;
/// For debounce.
pub const LAST_KEY: u16 = 0x00C5;
/// 10-byte type-ahead buffer.
pub const KBD_BUFFER: u16 = 0x0277;
/// Bytes currently in the buffer.
pub const KBD_COUNT: u16 = 0x00C6;
/// Configured maximum (10).
pub const KBD_BUFFER_MAX: u16 = 0x0289;
/// Char-set select (SHIFT+C= toggles case).
pub const VIC_MEMPTR: u16 = 0xD018;

} // verus!
