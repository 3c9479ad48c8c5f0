//! A Commodore 64, one chip at a time: the 6510, its support chips, the 1541
//! drive, and the routines of the KERNAL, each with a machine-checked contract.

pub mod mos6502;
pub mod cia6526;
pub mod via6522;
pub mod iec;
pub mod vic2;
pub mod sid;
pub mod c64;
pub mod gcr;
pub mod text;
pub mod d64;
pub mod bits;
pub mod c1541;
pub mod kernal;
pub mod disasm;
pub mod harness;
pub mod emu;
