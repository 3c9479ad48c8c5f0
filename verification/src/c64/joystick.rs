//! Joystick direction/fire bits for [`crate::c64::C64::set_joystick`]. The C64
//! reads a joystick **active-low**, so a mask is built by *clearing* the bits
//! that are pressed, starting from [`CENTER`]: up-and-left with fire held is
//! `CENTER & !(UP | LEFT | FIRE)`.

use vstd::prelude::*;

verus! {

pub const UP: u8 = 0x01;
pub const DOWN: u8 = 0x02;
pub const LEFT: u8 = 0x04;
pub const RIGHT: u8 = 0x08;
pub const FIRE: u8 = 0x10;
/// Nothing pressed.
pub const CENTER: u8 = 0xFF;

} // verus!
