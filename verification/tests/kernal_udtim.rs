//! The jiffy clock and the STOP key.

use c64research::kernal::udtim::{udtim, JIFFIES_PER_DAY};
use c64research::kernal::{C64Mem, CIA1_PRB, STKEY, TIME_HI, TIME_LO, TIME_MID};

fn set_time(m: &mut C64Mem, v: u32) {
    m.w(TIME_HI, (v >> 16) as u8);
    m.w(TIME_MID, (v >> 8) as u8);
    m.w(TIME_LO, v as u8);
}
fn get_time(m: &C64Mem) -> u32 {
    ((m.r(TIME_HI) as u32) << 16) | ((m.r(TIME_MID) as u32) << 8) | m.r(TIME_LO) as u32
}

#[test]
fn clock_increments_with_carry() {
    let mut m = C64Mem::new();
    m.w(CIA1_PRB, 0xFF); // no keys pressed
    set_time(&mut m, 0x00_00FF);
    udtim(&mut m);
    assert_eq!(get_time(&m), 0x00_0100); // carried from low into middle byte
}

#[test]
fn clock_wraps_after_a_day() {
    let mut m = C64Mem::new();
    m.w(CIA1_PRB, 0xFF);
    set_time(&mut m, JIFFIES_PER_DAY - 1); // one tick short of a day
    udtim(&mut m);
    assert_eq!(get_time(&m), 0); // hit the limit -> reset to 0
}

#[test]
fn stop_key_column_is_latched() {
    let mut m = C64Mem::new();
    set_time(&mut m, 0);
    // A pressed key pulls a column bit low; bit 7 set routes straight to the
    // latch. $BF = STOP-key column pattern with bit 7 high.
    m.w(CIA1_PRB, 0xBF);
    udtim(&mut m);
    assert_eq!(m.r(STKEY), 0xBF);
}
