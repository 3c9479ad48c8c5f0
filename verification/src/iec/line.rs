//! Bit masks used to talk about a set of lines at once.

use vstd::prelude::*;

verus! {

/// ATN, "attention". Only the controller (the C64) drives this.
pub const ATN: u8 = 0x01;
/// CLK, the clock/handshake line.
pub const CLK: u8 = 0x02;
/// DATA, the data/acknowledge line.
pub const DATA: u8 = 0x04;
/// All three lines.
pub const ALL: u8 = 0x07;

} // verus!
