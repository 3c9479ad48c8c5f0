//! MOS 6526 CIA (Complex Interface Adapter).
//!
//! The C64 has two: CIA1 ($DC00) drives the keyboard matrix, joysticks, and the
//! ~60 Hz Timer-A interrupt (wired to the CPU's IRQ); CIA2 ($DD00) drives the
//! serial bus, user port, VIC bank select, and the RESTORE-key NMI.
//!
//! This models what the KERNAL needs to boot and run: two I/O ports with data
//! direction, two interval timers (A and B) with the interrupt logic
//! (ICR/mask), and the read-clears-flags behavior programs rely on. The
//! time-of-day clock and the serial shift register only hold what was written.

use vstd::prelude::*;
use crate::bits::{bit_of, lemma_bitwise, lemma_digits, lemma_masks, lemma_tests};

verus! {

// Register offsets 0x0..0xF.
pub const PRA: u8 = 0x0;
pub const PRB: u8 = 0x1;
pub const DDRA: u8 = 0x2;
pub const DDRB: u8 = 0x3;
pub const TA_LO: u8 = 0x4;
pub const TA_HI: u8 = 0x5;
pub const TB_LO: u8 = 0x6;
pub const TB_HI: u8 = 0x7;
pub const TOD_10TH: u8 = 0x8;
pub const TOD_SEC: u8 = 0x9;
pub const TOD_MIN: u8 = 0xA;
pub const TOD_HR: u8 = 0xB;
pub const SDR: u8 = 0xC;
pub const ICR: u8 = 0xD;
pub const CRA: u8 = 0xE;
pub const CRB: u8 = 0xF;

// ICR bits.
pub const INT_TA: u8 = 0x01;
pub const INT_TB: u8 = 0x02;
/// "An enabled interrupt occurred."
pub const INT_FLAG: u8 = 0x80;

/// One 6526 CIA.
#[derive(Debug, Clone)]
pub struct Cia {
    pub pra: u8,
    pub prb: u8,
    pub ddra: u8,
    pub ddrb: u8,
    /// Levels on the port input pins (open lines read high). Set these to feed
    /// the keyboard/joystick state in.
    pub pa_in: u8,
    pub pb_in: u8,

    pub ta: u16,
    pub tb: u16,
    pub ta_latch: u16,
    pub tb_latch: u16,
    pub cra: u8,
    pub crb: u8,

    /// Pending interrupt flags (bits 0..4).
    pub icr_data: u8,
    /// Which flags actually assert the IRQ line.
    pub icr_mask: u8,

    pub tod: [u8; 4],
    pub sdr: u8,
}

/// The chip after power-on: ports as inputs, timers stopped at their maximum.
pub open spec fn power_on(c: Cia) -> bool {
    &&& c.pra == 0 && c.prb == 0 && c.ddra == 0 && c.ddrb == 0
    &&& c.pa_in == 0xFF && c.pb_in == 0xFF
    &&& c.ta == 0xFFFF && c.tb == 0xFFFF && c.ta_latch == 0xFFFF && c.tb_latch == 0xFFFF
    &&& c.cra == 0 && c.crb == 0
    &&& c.icr_data == 0 && c.icr_mask == 0
    &&& c.tod@ == seq![0u8, 0, 0, 0] && c.sdr == 0
}

/// The level of a port's pins: latched bits where the direction says output,
/// the pins' own level where it says input.
pub open spec fn port_level(latch: u8, ddr: u8, pins: u8) -> u8 {
    (latch & ddr) | (pins & !ddr)
}

/// Is an enabled interrupt pending?
pub open spec fn asserts_irq(c: Cia) -> bool {
    (c.icr_data & c.icr_mask & 0x1F) != 0
}

/// Timer A counts the clock: started, and not set to count pulses.
pub open spec fn timer_a_runs(c: Cia) -> bool {
    c.cra & 0x01 != 0 && c.cra & 0x20 == 0
}

/// Timer B counts the clock.
pub open spec fn timer_b_runs(c: Cia) -> bool {
    c.crb & 0x01 != 0 && c.crb & 0x60 == 0
}

/// One clock of timer A: count down; past zero raise the flag, reload from the
/// latch, and stop in one-shot mode.
pub open spec fn timer_a_ticked(c: Cia) -> Cia {
    if !timer_a_runs(c) {
        c
    } else if c.ta > 0 {
        Cia { ta: (c.ta - 1) as u16, ..c }
    } else {
        Cia {
            ta: c.ta_latch,
            icr_data: c.icr_data | INT_TA,
            cra: if c.cra & 0x08 != 0 { c.cra & !0x01u8 } else { c.cra },
            ..c
        }
    }
}

/// One clock of timer B.
pub open spec fn timer_b_ticked(c: Cia) -> Cia {
    if !timer_b_runs(c) {
        c
    } else if c.tb > 0 {
        Cia { tb: (c.tb - 1) as u16, ..c }
    } else {
        Cia {
            tb: c.tb_latch,
            icr_data: c.icr_data | INT_TB,
            crb: if c.crb & 0x08 != 0 { c.crb & !0x01u8 } else { c.crb },
            ..c
        }
    }
}

/// The chip after one clock.
pub open spec fn ticked_once(c: Cia) -> Cia {
    timer_b_ticked(timer_a_ticked(c))
}

/// The chip after `n` clocks.
pub open spec fn ticked(c: Cia, n: nat) -> Cia
    decreases n,
{
    if n == 0 { c } else { ticked_once(ticked(c, (n - 1) as nat)) }
}

/// The byte a register reads as. Only the low four bits of `reg` count.
pub open spec fn register(c: Cia, reg: u8) -> u8 {
    let r = reg & 0x0F;
    if r == PRA { port_level(c.pra, c.ddra, c.pa_in) }
    else if r == PRB { port_level(c.prb, c.ddrb, c.pb_in) }
    else if r == DDRA { c.ddra }
    else if r == DDRB { c.ddrb }
    else if r == TA_LO { (c.ta % 256) as u8 }
    else if r == TA_HI { (c.ta / 256) as u8 }
    else if r == TB_LO { (c.tb % 256) as u8 }
    else if r == TB_HI { (c.tb / 256) as u8 }
    else if r == TOD_10TH { c.tod[0] }
    else if r == TOD_SEC { c.tod[1] }
    else if r == TOD_MIN { c.tod[2] }
    else if r == TOD_HR { c.tod[3] }
    else if r == SDR { c.sdr }
    else if r == ICR { (c.icr_data & 0x1F) | (if asserts_irq(c) { INT_FLAG } else { 0 }) }
    else if r == CRA { c.cra }
    else { c.crb }
}

/// The chip after a register was read: reading ICR clears its flags.
pub open spec fn after_read(c: Cia, reg: u8) -> Cia {
    if reg & 0x0F == ICR { Cia { icr_data: 0, ..c } } else { c }
}

/// A latch with its low byte replaced.
pub open spec fn with_low(latch: u16, val: u8) -> u16 {
    (latch / 256 * 256 + val) as u16
}

/// A latch with its high byte replaced.
pub open spec fn with_high(latch: u16, val: u8) -> u16 {
    (latch % 256 + 256 * val) as u16
}

/// The interrupt mask after a write to ICR: bit 7 says whether the bits below
/// it are set or cleared.
pub open spec fn mask_written(mask: u8, val: u8) -> u8 {
    if val & 0x80 != 0 { mask | (val & 0x1F) } else { mask & !(val & 0x1F) }
}

/// The chip after a register was written. Bit 4 of a control register is a
/// strobe that loads the timer from its latch and is not kept.
pub open spec fn after_write(c: Cia, reg: u8, val: u8) -> Cia {
    let r = reg & 0x0F;
    if r == PRA { Cia { pra: val, ..c } }
    else if r == PRB { Cia { prb: val, ..c } }
    else if r == DDRA { Cia { ddra: val, ..c } }
    else if r == DDRB { Cia { ddrb: val, ..c } }
    else if r == TA_LO { Cia { ta_latch: with_low(c.ta_latch, val), ..c } }
    else if r == TA_HI { Cia { ta_latch: with_high(c.ta_latch, val), ..c } }
    else if r == TB_LO { Cia { tb_latch: with_low(c.tb_latch, val), ..c } }
    else if r == TB_HI { Cia { tb_latch: with_high(c.tb_latch, val), ..c } }
    else if TOD_10TH <= r <= TOD_HR {
        Cia { tod: vstd::array::spec_array_update(c.tod, r - TOD_10TH, val), ..c }
    }
    else if r == SDR { Cia { sdr: val, ..c } }
    else if r == ICR { Cia { icr_mask: mask_written(c.icr_mask, val), ..c } }
    else if r == CRA {
        Cia { ta: if val & 0x10 != 0 { c.ta_latch } else { c.ta }, cra: val & !0x10u8, ..c }
    }
    else {
        Cia { tb: if val & 0x10 != 0 { c.tb_latch } else { c.tb }, crb: val & !0x10u8, ..c }
    }
}

/// A four-bit register number.
proof fn lemma_register_range(reg: u8)
    by (bit_vector)
    ensures
        reg & 0x0F <= 0x0F,
{
}

impl Default for Cia {
    fn default() -> (c: Self)
        ensures
            power_on(c),
    {
        let c = Cia {
            pra: 0, prb: 0, ddra: 0, ddrb: 0,
            pa_in: 0xFF, pb_in: 0xFF,
            ta: 0xFFFF, tb: 0xFFFF, ta_latch: 0xFFFF, tb_latch: 0xFFFF,
            cra: 0, crb: 0,
            icr_data: 0, icr_mask: 0,
            tod: [0; 4], sdr: 0,
        };
        assert(c.tod@ =~= seq![0u8, 0, 0, 0]);
        c
    }
}

impl Cia {
    pub fn new() -> (c: Self)
        ensures
            power_on(c),
    {
        Self::default()
    }

    /// Level on the port A pins (output bits from PRA, input bits from pins).
    pub fn port_a(&self) -> (v: u8)
        ensures
            v == port_level(self.pra, self.ddra, self.pa_in),
    {
        (self.pra & self.ddra) | (self.pa_in & !self.ddra)
    }

    /// Level on the port B pins.
    pub fn port_b(&self) -> (v: u8)
        ensures
            v == port_level(self.prb, self.ddrb, self.pb_in),
    {
        (self.prb & self.ddrb) | (self.pb_in & !self.ddrb)
    }

    /// True while this CIA is pulling its interrupt line active.
    pub fn irq_asserted(&self) -> (b: bool)
        ensures
            b == asserts_irq(*self),
    {
        (self.icr_data & self.icr_mask & 0x1F) != 0
    }

    /// Advance both timers by `cycles` phi2 clocks.
    pub fn tick(&mut self, cycles: u32)
        ensures
            *final(self) == ticked(*old(self), cycles as nat),
    {
        let mut k: u32 = 0;
        while k < cycles
            invariant
                k <= cycles,
                *self == ticked(*old(self), k as nat),
            decreases cycles - k,
        {
            self.tick_one();
            k += 1;
        }
    }

    fn tick_one(&mut self)
        ensures
            *final(self) == ticked_once(*old(self)),
    {
        // Timer A counts phi2 when started and in timed mode (CRA bit5 = 0).
        if self.cra & 0x01 != 0 && self.cra & 0x20 == 0 {
            if self.ta > 0 {
                self.ta -= 1;
            } else {
                self.icr_data |= INT_TA;
                self.ta = self.ta_latch; // reload
                if self.cra & 0x08 != 0 {
                    self.cra &= !0x01u8; // one-shot: stop
                }
            }
        }
        // Timer B counts phi2 when started and in timed mode (CRB bits 5-6 = 0).
        if self.crb & 0x01 != 0 && self.crb & 0x60 == 0 {
            if self.tb > 0 {
                self.tb -= 1;
            } else {
                self.icr_data |= INT_TB;
                self.tb = self.tb_latch;
                if self.crb & 0x08 != 0 {
                    self.crb &= !0x01u8;
                }
            }
        }
    }

    /// Read a register (offset 0x0..0xF). Reading ICR clears its flags.
    pub fn read(&mut self, reg: u8) -> (v: u8)
        ensures
            v == register(*old(self), reg),
            *final(self) == after_read(*old(self), reg),
    {
        proof {
            lemma_register_range(reg);
        }
        match reg & 0x0F {
            PRA => self.port_a(),
            PRB => self.port_b(),
            DDRA => self.ddra,
            DDRB => self.ddrb,
            TA_LO => (self.ta % 256) as u8,
            TA_HI => (self.ta / 256) as u8,
            TB_LO => (self.tb % 256) as u8,
            TB_HI => (self.tb / 256) as u8,
            TOD_10TH => self.tod[0],
            TOD_SEC => self.tod[1],
            TOD_MIN => self.tod[2],
            TOD_HR => self.tod[3],
            SDR => self.sdr,
            ICR => {
                // Return pending flags + the "occurred" summary bit, then clear.
                let summary = if self.irq_asserted() { INT_FLAG } else { 0 };
                let v = (self.icr_data & 0x1F) | summary;
                self.icr_data = 0;
                v
            },
            CRA => self.cra,
            _ => self.crb,
        }
    }

    /// Write a register (offset 0x0..0xF).
    pub fn write(&mut self, reg: u8, val: u8)
        ensures
            *final(self) == after_write(*old(self), reg, val),
    {
        proof {
            lemma_register_range(reg);
        }
        match reg & 0x0F {
            PRA => self.pra = val,
            PRB => self.prb = val,
            DDRA => self.ddra = val,
            DDRB => self.ddrb = val,
            TA_LO => self.ta_latch = self.ta_latch / 256 * 256 + val as u16,
            TA_HI => self.ta_latch = self.ta_latch % 256 + 256 * (val as u16),
            TB_LO => self.tb_latch = self.tb_latch / 256 * 256 + val as u16,
            TB_HI => self.tb_latch = self.tb_latch % 256 + 256 * (val as u16),
            TOD_10TH => self.tod[0] = val,
            TOD_SEC => self.tod[1] = val,
            TOD_MIN => self.tod[2] = val,
            TOD_HR => self.tod[3] = val,
            SDR => self.sdr = val,
            ICR => {
                // Bit 7 = set/clear select for the mask bits below it.
                if val & 0x80 != 0 {
                    self.icr_mask |= val & 0x1F;
                } else {
                    self.icr_mask &= !(val & 0x1F);
                }
            },
            CRA => {
                if val & 0x10 != 0 {
                    self.ta = self.ta_latch; // force load (strobe)
                }
                self.cra = val & !0x10u8;
            },
            _ => {
                if val & 0x10 != 0 {
                    self.tb = self.tb_latch;
                }
                self.crb = val & !0x10u8;
            },
        }
    }
}

// ---- what holds of the chip ----

/// The bit facts behind the laws.
proof fn lemma_flag_bits(d: u8, mask: u8, cr: u8)
    by (bit_vector)
    ensures
        (d | 0x02u8) & 0x01 == d & 0x01,
        (d | 0x01u8) & 0x01 != 0,
        0u8 & mask & 0x1F == 0,
        d & 0u8 & 0x1F == 0,
        mask & 0x01 != 0 ==> (d | 0x01u8) & mask & 0x1F != 0,
        cr & !0x01u8 & 0x01 == 0,
        (d | 0x01u8) | 0x02u8 == (d | 0x02u8) | 0x01u8,
        0x0Du8 & 0x0F == 0x0D,
{
}

/// Clocks add up.
pub proof fn law_ticks_add(c: Cia, m: nat, n: nat)
    ensures
        ticked(ticked(c, m), n) == ticked(c, m + n),
    decreases n,
{
    if n > 0 {
        law_ticks_add(c, m, (n - 1) as nat);
        assert((m + n - 1) as nat == m + (n - 1) as nat);
    }
}

/// While timer A has not run out it only counts down: after `n` clocks it is
/// `n` lower, and its flag is as it was.
pub proof fn law_timer_a_counts_down(c: Cia, n: nat)
    requires
        timer_a_runs(c),
        n <= c.ta,
    ensures
        ticked(c, n).ta == c.ta - n,
        ticked(c, n).cra == c.cra,
        ticked(c, n).ta_latch == c.ta_latch,
        ticked(c, n).icr_mask == c.icr_mask,
        ticked(c, n).icr_data & INT_TA == c.icr_data & INT_TA,
    decreases n,
{
    if n > 0 {
        law_timer_a_counts_down(c, (n - 1) as nat);
        let p = timer_a_ticked(ticked(c, (n - 1) as nat));
        lemma_flag_bits(p.icr_data, 0, 0);
    }
}

/// Timer A fires one clock after it has reached zero: the flag comes up (and
/// with it the interrupt line, if enabled), the count starts over from the
/// latch, and a one-shot timer stops.
pub proof fn law_timer_a_fires(c: Cia)
    requires
        timer_a_runs(c),
    ensures
        ticked(c, (c.ta + 1) as nat).icr_data & INT_TA != 0,
        c.icr_mask & INT_TA != 0 ==> asserts_irq(ticked(c, (c.ta + 1) as nat)),
        ticked(c, (c.ta + 1) as nat).ta == c.ta_latch,
        c.cra & 0x08 == 0 ==> timer_a_runs(ticked(c, (c.ta + 1) as nat)),
        c.cra & 0x08 != 0 ==> !timer_a_runs(ticked(c, (c.ta + 1) as nat)),
{
    law_timer_a_counts_down(c, c.ta as nat);
    let z = ticked(c, c.ta as nat);
    let p = timer_a_ticked(z);
    lemma_flag_bits(z.icr_data, z.icr_mask, z.cra);
    lemma_flag_bits(p.icr_data, p.icr_mask, 0);
    lemma_flag_bits(z.icr_data | 0x02, z.icr_mask, z.cra);
    assert(ticked(c, (c.ta + 1) as nat) == ticked_once(z));
}

/// A chip whose mask is clear never asserts its line, whatever is pending.
pub proof fn law_masked_interrupt_stays_silent(c: Cia)
    requires
        c.icr_mask == 0,
    ensures
        !asserts_irq(c),
{
    lemma_flag_bits(c.icr_data, 0, 0);
}

/// Reading ICR acknowledges: no interrupt is pending afterwards.
pub proof fn law_icr_read_acknowledges(c: Cia)
    ensures
        after_read(c, ICR).icr_data == 0,
        !asserts_irq(after_read(c, ICR)),
{
    lemma_flag_bits(0, c.icr_mask, 0);
}

/// A port pin follows the latch where it is an output and the outside world
/// where it is an input.
pub proof fn law_ddr_masks_port(latch: u8, ddr: u8, pins: u8)
    ensures
        port_level(latch, ddr, pins) & ddr == latch & ddr,
        port_level(latch, ddr, pins) & !ddr == pins & !ddr,
{
    assert(((latch & ddr) | (pins & !ddr)) & ddr == latch & ddr
        && ((latch & ddr) | (pins & !ddr)) & !ddr == pins & !ddr) by (bit_vector);
}

// ---- what the registers and the timers do ----

/// A pin of a port is what was written where it is an output, and what comes in
/// where it is an input.
pub proof fn law_port_pins(c: Cia, k: u8)
    requires
        k < 8,
    ensures
        bit_of(register(c, 0), k)
            == (if bit_of(c.ddra, k) { bit_of(c.pra, k) } else { bit_of(c.pa_in, k) }),
        bit_of(register(c, 1), k)
            == (if bit_of(c.ddrb, k) { bit_of(c.prb, k) } else { bit_of(c.pb_in, k) }),
{
    lemma_digits(0);
    lemma_digits(1);
    lemma_pin(c.pra, c.ddra, c.pa_in, k);
    lemma_pin(c.prb, c.ddrb, c.pb_in, k);
}

proof fn lemma_pin(latch: u8, ddr: u8, pins: u8, k: u8)
    requires
        k < 8,
    ensures
        bit_of(port_level(latch, ddr, pins), k)
            == (if bit_of(ddr, k) { bit_of(latch, k) } else { bit_of(pins, k) }),
{
    lemma_bitwise(latch, ddr, k);
    lemma_bitwise(ddr, ddr, k);
    lemma_bitwise(pins, !ddr, k);
    lemma_bitwise(latch & ddr, pins & !ddr, k);
}

/// What the other registers read as: the timers low byte first, and in $D the
/// flags, with bit 7 up while one of them is enabled.
pub proof fn law_register_reads(c: Cia, reg: u8, k: u8)
    requires
        k < 8,
    ensures
        ({
            let b = register(c, reg);
            let r = reg as int % 16;
            let some = bit_of(c.icr_data, 0) && bit_of(c.icr_mask, 0)
                || bit_of(c.icr_data, 1) && bit_of(c.icr_mask, 1)
                || bit_of(c.icr_data, 2) && bit_of(c.icr_mask, 2)
                || bit_of(c.icr_data, 3) && bit_of(c.icr_mask, 3)
                || bit_of(c.icr_data, 4) && bit_of(c.icr_mask, 4);
            &&& r == 2 ==> b == c.ddra
            &&& r == 3 ==> b == c.ddrb
            &&& 256 * register(c, 5) + register(c, 4) == c.ta
            &&& 256 * register(c, 7) + register(c, 6) == c.tb
            &&& 8 <= r <= 11 ==> b == c.tod[r - 8]
            &&& r == 12 ==> b == c.sdr
            &&& r == 13 ==> bit_of(b, k) == (k < 5 && bit_of(c.icr_data, k) || k == 7 && some)
            &&& r == 14 ==> b == c.cra
            &&& r == 15 ==> b == c.crb
            &&& asserts_irq(c) == some
            &&& after_read(c, reg) == (if r == 13 { Cia { icr_data: 0, ..c } } else { c })
        }),
{
    lemma_digits(reg);
    lemma_digits(4);
    lemma_digits(5);
    lemma_digits(6);
    lemma_digits(7);
    let f = c.icr_data & c.icr_mask & 0x1F;
    lemma_digits(f);
    lemma_flag(c, 0);
    lemma_flag(c, 1);
    lemma_flag(c, 2);
    lemma_flag(c, 3);
    lemma_flag(c, 4);
    lemma_flag(c, 5);
    lemma_flag(c, 6);
    lemma_flag(c, 7);
    lemma_bitwise(c.icr_data, 0x1F, k);
    lemma_bitwise(c.icr_data & 0x1F, 0x80, k);
    lemma_bitwise(c.icr_data & 0x1F, 0x00, k);
    lemma_masks(k);
}

proof fn lemma_flag(c: Cia, k: u8)
    requires
        k < 8,
    ensures
        bit_of(c.icr_data & c.icr_mask & 0x1F, k)
            == (k < 5 && bit_of(c.icr_data, k) && bit_of(c.icr_mask, k)),
{
    lemma_bitwise(c.icr_data, c.icr_mask, k);
    lemma_bitwise(c.icr_data & c.icr_mask, 0x1F, k);
    lemma_masks(k);
}

/// What a write does, register by register. A timer's latch is written low byte
/// and high byte; bit 4 of a control register loads the timer from it and is not
/// kept. In $D the bits below bit 7 are switched on where bit 7 is set, and off
/// where it is clear.
pub proof fn law_register_writes(c: Cia, reg: u8, val: u8, k: u8)
    requires
        k < 8,
    ensures
        ({
            let d = after_write(c, reg, val);
            let r = reg as int % 16;
            &&& d.pra == (if r == 0 { val } else { c.pra })
            &&& d.prb == (if r == 1 { val } else { c.prb })
            &&& d.ddra == (if r == 2 { val } else { c.ddra })
            &&& d.ddrb == (if r == 3 { val } else { c.ddrb })
            &&& d.ta_latch == (if r == 4 { c.ta_latch - c.ta_latch % 256 + val }
                else if r == 5 { c.ta_latch % 256 + 256 * val } else { c.ta_latch as int })
            &&& d.tb_latch == (if r == 6 { c.tb_latch - c.tb_latch % 256 + val }
                else if r == 7 { c.tb_latch % 256 + 256 * val } else { c.tb_latch as int })
            &&& forall|i: int| 0 <= i < 4
                ==> #[trigger] d.tod[i] == (if r == 8 + i { val } else { c.tod[i] })
            &&& d.sdr == (if r == 12 { val } else { c.sdr })
            &&& bit_of(d.icr_mask, k) == (if r == 13 && k < 5 && bit_of(val, k) { bit_of(val, 7) }
                else { bit_of(c.icr_mask, k) })
            &&& d.ta == (if r == 14 && bit_of(val, 4) { c.ta_latch } else { c.ta })
            &&& d.tb == (if r == 15 && bit_of(val, 4) { c.tb_latch } else { c.tb })
            &&& r == 14 ==> bit_of(d.cra, k) == (bit_of(val, k) && k != 4)
            &&& r != 14 ==> d.cra == c.cra
            &&& r == 15 ==> bit_of(d.crb, k) == (bit_of(val, k) && k != 4)
            &&& r != 15 ==> d.crb == c.crb
            &&& d.icr_data == c.icr_data && d.pa_in == c.pa_in && d.pb_in == c.pb_in
        }),
{
    lemma_digits(reg);
    lemma_tests(val);
    lemma_masks(k);
    lemma_bitwise(val, 0x1F, k);
    lemma_bitwise(val & 0x1F, 0, k);
    lemma_bitwise(c.icr_mask, val & 0x1F, k);
    lemma_bitwise(c.icr_mask, !(val & 0x1F), k);
    lemma_bitwise(0x10, 0, k);
    lemma_bitwise(val, !0x10u8, k);
}

/// One clock: a timer that is started (bit 0 of its control register) and counts
/// the clock (timer A: bit 5 clear, timer B: bits 5 and 6 clear) goes down by one,
/// and from zero back to its latch, raising its flag (bit 0 or 1) and, in one-shot
/// mode (bit 3), stopping. Nothing else changes, and the timers do not disturb
/// each other.
pub proof fn law_one_clock(c: Cia, k: u8)
    requires
        k < 8,
    ensures
        ({
            let d = ticked(c, 1);
            let a = bit_of(c.cra, 0) && !bit_of(c.cra, 5);
            let b = bit_of(c.crb, 0) && !bit_of(c.crb, 5) && !bit_of(c.crb, 6);
            let (a_out, b_out) = (a && c.ta == 0, b && c.tb == 0);
            &&& d.ta == (if !a { c.ta as int } else if c.ta == 0 { c.ta_latch as int } else { c.ta - 1 })
            &&& d.tb == (if !b { c.tb as int } else if c.tb == 0 { c.tb_latch as int } else { c.tb - 1 })
            &&& bit_of(d.icr_data, k)
                == (bit_of(c.icr_data, k) || a_out && k == 0 || b_out && k == 1)
            &&& bit_of(d.cra, k) == (bit_of(c.cra, k) && !(a_out && bit_of(c.cra, 3) && k == 0))
            &&& bit_of(d.crb, k) == (bit_of(c.crb, k) && !(b_out && bit_of(c.crb, 3) && k == 0))
            &&& d == (Cia {
                ta: d.ta, tb: d.tb, icr_data: d.icr_data, cra: d.cra, crb: d.crb, ..c
            })
        }),
{
    reveal_with_fuel(ticked, 2);
    lemma_tests(c.cra);
    lemma_tests(c.crb);
    lemma_masks(k);
    lemma_bitwise(0x01, 0, k);
    lemma_bitwise(c.cra, !0x01u8, k);
    lemma_bitwise(c.crb, !0x01u8, k);
    lemma_bitwise(c.icr_data, 0x01, k);
    lemma_bitwise(c.icr_data, 0x02, k);
    lemma_bitwise(c.icr_data | 0x01, 0x02, k);
}

} // verus!
