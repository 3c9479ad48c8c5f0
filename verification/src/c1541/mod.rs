//! The 1541 disk drive: its CPU board, its mechanism, and its power-on RAM test.

pub mod disk;
pub mod machine;
pub mod ram_test;
pub mod wiring;

pub use machine::Machine;
