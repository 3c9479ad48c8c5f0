//! UDTIM ($F69B): update the jiffy clock and scan the STOP key.
//!
//! Called 60 times a second from the KERNAL's IRQ handler. It bumps the 24-bit
//! TIME counter (wrapping after 24 hours) and takes one debounced sample of the
//! STOP key, latching it into STKEY ($91) where the rest of the OS checks it.
//!
//! The ROM listing:
//!
//! ```text
//! F69B:  A2 00     LDX  #$00
//! ; ++TIME (three bytes: $A0 high, $A1 mid, $A2 low)
//! F69D:  E6 A2     INC  $A2
//! F69F:  D0 06     BNE  $F6A7
//! F6A1:  E6 A1     INC  $A1
//! F6A3:  D0 02     BNE  $F6A7
//! F6A5:  E6 A0     INC  $A0
//! ; if TIME >= $4F1A01 (jiffies per day) reset it to 0
//! F6A7:  38        SEC
//! F6A8:  A5 A2     LDA  $A2
//! F6AA:  E9 01     SBC  #$01
//! F6AC:  A5 A1     LDA  $A1
//! F6AE:  E9 1A     SBC  #$1A
//! F6B0:  A5 A0     LDA  $A0
//! F6B2:  E9 4F     SBC  #$4F
//! F6B4:  90 06     BCC  $F6BC       ; TIME < limit -> keep
//! F6B6:  86 A0     STX  $A0         ; else zero all three (X = 0)
//! F6B8:  86 A1     STX  $A1
//! F6BA:  86 A2     STX  $A2
//! ; STOP-key scan (debounced reads of CIA1 port B)
//! F6BC:  AD 01 DC  LDA  $DC01
//! F6BF:  CD 01 DC  CMP  $DC01
//! F6C2:  D0 F8     BNE  $F6BC       ; wait for two equal reads
//! F6C4:  AA        TAX
//! F6C5:  30 13     BMI  $F6DA       ; bit 7 set -> just latch it
//! F6C7:  A2 BD     LDX  #$BD
//! F6C9:  8E 00 DC  STX  $DC00       ; select the STOP-key row on port A
//! F6CC:  AE 01 DC  LDX  $DC01
//! F6CF:  EC 01 DC  CPX  $DC01
//! F6D2:  D0 F8     BNE  $F6CC       ; debounce again
//! F6D4:  8D 00 DC  STA  $DC00       ; restore port A
//! F6D7:  E8        INX
//! F6D8:  D0 02     BNE  $F6DC       ; second read != $FF -> don't latch
//! F6DA:  85 91     STA  $91         ; STKEY = first sample
//! F6DC:  60        RTS
//! ```

use vstd::prelude::*;
use crate::kernal::{C64Mem, Memory, CIA1_PRA, CIA1_PRB, STKEY, TIME_HI, TIME_LO, TIME_MID};

verus! {

/// Jiffies in a day on the C64 (`$4F1A01` = 5,183,489). The clock resets to
/// zero once it reaches this.
pub const JIFFIES_PER_DAY: u32 = 0x004F_1A01;

/// The jiffy clock.
pub open spec fn jiffies(m: Memory) -> int {
    0x1_0000 * m.ram[TIME_HI as int] + 0x100 * m.ram[TIME_MID as int] + m.ram[TIME_LO as int]
}

/// Memory with the jiffy clock set.
pub open spec fn clock_set(m: Memory, t: int) -> Memory {
    m.poke(TIME_HI as int, (t / 0x1_0000) as u8)
        .poke(TIME_MID as int, (t / 0x100 % 0x100) as u8)
        .poke(TIME_LO as int, (t % 0x100) as u8)
}

/// What the clock shows next: one more, or zero where that makes a day.
pub open spec fn next_jiffy(t: int) -> int {
    if (t + 1) % 0x100_0000 >= JIFFIES_PER_DAY { 0 } else { (t + 1) % 0x100_0000 }
}

/// Memory after the STOP key was sampled. A column byte with bit 7 set is
/// latched; any other is only left on the row register.
pub open spec fn stop_sampled(m: Memory) -> Memory {
    let col = m.ram[CIA1_PRB as int];
    if col >= 0x80 { m.poke(STKEY as int, col) } else { m.poke(CIA1_PRA as int, col) }
}

/// Memory after UDTIM.
pub open spec fn timed(m: Memory) -> Memory {
    stop_sampled(clock_set(m, next_jiffy(jiffies(m))))
}

pub fn udtim(m: &mut C64Mem)
    ensures
        final(m)@ == timed(old(m)@),
{
    advance_clock(m);

    // --- STOP-key scan: one debounced sample, latched into STKEY ---
    let col = debounced_read(m, CIA1_PRB);
    if col >= 0x80 {
        // bit 7 set (BMI taken): latch the sample directly.
        m.w(STKEY, col);
    } else {
        // Drive the STOP-key row low and re-read; only latch if the second,
        // row-selected read comes back all-ones ($FF).
        let ghost before = m@;
        m.w(CIA1_PRA, 0xBD);
        let second = debounced_read(m, CIA1_PRB);
        m.w(CIA1_PRA, col); // restore port A (ROM: STA $DC00, A = first sample)
        if second == 0xFF {
            m.w(STKEY, col);
        }
        assert(m@ =~= before.poke(CIA1_PRA as int, col));
    }
}

fn advance_clock(m: &mut C64Mem)
    ensures
        final(m)@ == clock_set(old(m)@, next_jiffy(jiffies(old(m)@))),
{
    // --- advance TIME (INC $A2, carry into $A1, carry into $A0) ---
    let lo = m.r(TIME_LO).wrapping_add(1);
    m.w(TIME_LO, lo);
    if lo == 0 {
        let mid = m.r(TIME_MID).wrapping_add(1);
        m.w(TIME_MID, mid);
        if mid == 0 {
            let hi = m.r(TIME_HI).wrapping_add(1);
            m.w(TIME_HI, hi);
        }
    }

    // --- wrap after a full day (the ROM's 3-byte SEC/SBC compare) ---
    let time = 0x1_0000 * (m.r(TIME_HI) as u32) + 0x100 * (m.r(TIME_MID) as u32)
        + m.r(TIME_LO) as u32;
    assert(time == (jiffies(old(m)@) + 1) % 0x100_0000);
    if time >= JIFFIES_PER_DAY {
        m.w(TIME_HI, 0);
        m.w(TIME_MID, 0);
        m.w(TIME_LO, 0);
    }
    assert(m@ =~= clock_set(old(m)@, next_jiffy(jiffies(old(m)@))));
}

/// Read `addr` until two consecutive reads agree: the ROM's `LDA;CMP;BNE`
/// debounce of a noisy keyboard-matrix line.
fn debounced_read(m: &C64Mem, addr: u16) -> (b: u8)
    requires
        !crate::kernal::rom_region(addr as int),
    ensures
        b == m@.ram[addr as int],
{
    loop
        invariant
            !crate::kernal::rom_region(addr as int),
        decreases 0nat,
    {
        let a = m.r(addr);
        if a == m.r(addr) {
            return a;
        }
    }
}

/// From a time of day the clock counts on, and after a day it starts again.
pub proof fn law_clock_runs_through_the_day(m: Memory)
    requires
        m.ram.len() == 0x1_0000,
        jiffies(m) < JIFFIES_PER_DAY,
    ensures
        jiffies(timed(m)) == (jiffies(m) + 1) % (JIFFIES_PER_DAY as int),
{
    let t = next_jiffy(jiffies(m));
    assert(0 <= t < 0x100_0000);
}

} // verus!
