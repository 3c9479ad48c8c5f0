//! MOS 6522 VIA (Versatile Interface Adapter).
//!
//! The 1541 drive uses two of these: VIA1 ($1800) drives the serial IEC bus,
//! VIA2 ($1C00) drives the disk controller (motor, stepper, read/write head).
//!
//! This models the parts the drive firmware depends on to boot and run: the two
//! I/O ports with data-direction registers, both interval timers (T1 and T2)
//! with their interrupt flags, the CA1 input edge that VIA1 uses to notice ATN,
//! and the IFR/IER interrupt logic. The shift register only holds what was
//! written, and the other handshake lines are not modelled.

use vstd::prelude::*;
use crate::bits::{bit_of, lemma_bitwise, lemma_digits, lemma_masks, lemma_tests};

verus! {

// Register offsets (0x0..0xF), as seen at the chip's 16-byte window.
pub const ORB: u8 = 0x0; // port B data
pub const ORA: u8 = 0x1; // port A data
pub const DDRB: u8 = 0x2;
pub const DDRA: u8 = 0x3;
pub const T1CL: u8 = 0x4; // timer 1 counter low
pub const T1CH: u8 = 0x5; // timer 1 counter high
pub const T1LL: u8 = 0x6; // timer 1 latch low
pub const T1LH: u8 = 0x7; // timer 1 latch high
pub const T2CL: u8 = 0x8; // timer 2 counter low
pub const T2CH: u8 = 0x9; // timer 2 counter high
pub const SR: u8 = 0xA; // shift register
pub const ACR: u8 = 0xB; // auxiliary control register
pub const PCR: u8 = 0xC; // peripheral control register
pub const IFR: u8 = 0xD; // interrupt flag register
pub const IER: u8 = 0xE; // interrupt enable register
pub const ORA_NH: u8 = 0xF; // port A, no handshake

// IFR / IER bit positions.
pub const FLAG_CA1: u8 = 0x02;
pub const FLAG_T2: u8 = 0x20;
pub const FLAG_T1: u8 = 0x40;
pub const FLAG_IRQ: u8 = 0x80;

/// A single 6522 VIA.
#[derive(Debug, Clone)]
pub struct Via {
    // Ports
    pub orb: u8,
    pub ora: u8,
    pub ddrb: u8,
    pub ddra: u8,
    /// Levels present on the port A / port B input pins (open-bus defaults high).
    pub pa_in: u8,
    pub pb_in: u8,
    /// Level of the CA1 input.
    pub ca1: bool,

    // Timer 1
    pub t1_counter: u16,
    pub t1_latch: u16,
    /// PB7 output level in T1 PB7 mode.
    pub t1_pb7: bool,

    // Timer 2
    pub t2_counter: u16,
    pub t2_latch_lo: u8,
    /// One-shot: fires once until reloaded.
    pub t2_armed: bool,

    // Control / interrupts
    pub acr: u8,
    pub pcr: u8,
    /// Interrupt flags, without the summary bit 7.
    pub ifr: u8,
    /// Interrupt enables, without bit 7.
    pub ier: u8,
    pub sr: u8,
}

/// The chip after power-on.
pub open spec fn power_on() -> Via {
    Via {
        orb: 0, ora: 0, ddrb: 0, ddra: 0,
        pa_in: 0xFF, pb_in: 0xFF, ca1: false,
        t1_counter: 0, t1_latch: 0, t1_pb7: false,
        t2_counter: 0, t2_latch_lo: 0, t2_armed: false,
        acr: 0, pcr: 0, ifr: 0, ier: 0, sr: 0,
    }
}

/// The level of a port's pins: latched bits where the direction says output,
/// the pins' own level where it says input.
pub open spec fn port_level(latch: u8, ddr: u8, pins: u8) -> u8 {
    (latch & ddr) | (pins & !ddr)
}

/// Is an enabled interrupt pending?
pub open spec fn asserts_irq(v: Via) -> bool {
    (v.ifr & v.ier & 0x7F) != 0
}

/// One clock of timer 1. It always counts; past zero it raises its flag, and in
/// free-run mode (ACR bit 6) starts over from the latch and, if asked to (bit
/// 7), toggles PB7.
pub open spec fn timer1_ticked(v: Via) -> Via {
    if v.t1_counter > 0 {
        Via { t1_counter: (v.t1_counter - 1) as u16, ..v }
    } else if v.acr & 0x40 != 0 {
        Via {
            t1_counter: v.t1_latch,
            t1_pb7: if v.acr & 0x80 != 0 { !v.t1_pb7 } else { v.t1_pb7 },
            ifr: v.ifr | FLAG_T1,
            ..v
        }
    } else {
        Via { t1_counter: 0xFFFF, ifr: v.ifr | FLAG_T1, ..v }
    }
}

/// One clock of timer 2. In timed mode (ACR bit 5 clear) it counts and, when
/// armed, fires once past zero. Pulse counting is not modelled.
pub open spec fn timer2_ticked(v: Via) -> Via {
    if v.acr & 0x20 != 0 {
        v
    } else if v.t2_counter > 0 {
        Via { t2_counter: (v.t2_counter - 1) as u16, ..v }
    } else if v.t2_armed {
        Via { t2_counter: 0xFFFF, ifr: v.ifr | FLAG_T2, t2_armed: false, ..v }
    } else {
        Via { t2_counter: 0xFFFF, ..v }
    }
}

/// The chip after one clock.
pub open spec fn ticked_once(v: Via) -> Via {
    timer2_ticked(timer1_ticked(v))
}

/// The chip after `n` clocks.
pub open spec fn ticked(v: Via, n: nat) -> Via
    decreases n,
{
    if n == 0 { v } else { ticked_once(ticked(v, (n - 1) as nat)) }
}

/// Is a change of CA1 to `level` the edge that PCR bit 0 selects (set: rising,
/// clear: falling)?
pub open spec fn active_edge(v: Via, level: bool) -> bool {
    v.ca1 != level && level == (v.pcr & 0x01 != 0)
}

/// The chip after CA1 has been driven to `level`: the selected edge raises the
/// CA1 flag.
pub open spec fn ca1_set(v: Via, level: bool) -> Via {
    Via { ca1: level, ifr: if active_edge(v, level) { v.ifr | FLAG_CA1 } else { v.ifr }, ..v }
}

/// The byte a register reads as. Only the low four bits of `reg` count.
pub open spec fn register(v: Via, reg: u8) -> u8 {
    let r = reg & 0x0F;
    if r == ORB { port_level(v.orb, v.ddrb, v.pb_in) }
    else if r == ORA || r == ORA_NH { port_level(v.ora, v.ddra, v.pa_in) }
    else if r == DDRB { v.ddrb }
    else if r == DDRA { v.ddra }
    else if r == T1CL { (v.t1_counter % 256) as u8 }
    else if r == T1CH { (v.t1_counter / 256) as u8 }
    else if r == T1LL { (v.t1_latch % 256) as u8 }
    else if r == T1LH { (v.t1_latch / 256) as u8 }
    else if r == T2CL { (v.t2_counter % 256) as u8 }
    else if r == T2CH { (v.t2_counter / 256) as u8 }
    else if r == SR { v.sr }
    else if r == ACR { v.acr }
    else if r == PCR { v.pcr }
    else if r == IFR { (v.ifr & 0x7F) | (if asserts_irq(v) { FLAG_IRQ } else { 0 }) }
    else { v.ier | 0x80 }
}

/// The chip after a register was read: reading a timer's low byte clears that
/// timer's flag, reading port A (with handshake) the CA1 flag.
pub open spec fn after_read(v: Via, reg: u8) -> Via {
    let r = reg & 0x0F;
    if r == T1CL { Via { ifr: v.ifr & !FLAG_T1, ..v } }
    else if r == T2CL { Via { ifr: v.ifr & !FLAG_T2, ..v } }
    else if r == ORA { Via { ifr: v.ifr & !FLAG_CA1, ..v } }
    else { v }
}

/// A latch with its low byte replaced.
pub open spec fn with_low(latch: u16, val: u8) -> u16 {
    (latch / 256 * 256 + val) as u16
}

/// A latch with its high byte replaced.
pub open spec fn with_high(latch: u16, val: u8) -> u16 {
    (latch % 256 + 256 * val) as u16
}

/// The chip after a register was written.
pub open spec fn after_write(v: Via, reg: u8, val: u8) -> Via {
    let r = reg & 0x0F;
    if r == ORB { Via { orb: val, ..v } }
    else if r == ORA { Via { ora: val, ifr: v.ifr & !FLAG_CA1, ..v } }
    else if r == ORA_NH { Via { ora: val, ..v } }
    else if r == DDRB { Via { ddrb: val, ..v } }
    else if r == DDRA { Via { ddra: val, ..v } }
    else if r == T1CL || r == T1LL { Via { t1_latch: with_low(v.t1_latch, val), ..v } }
    else if r == T1CH {
        let latch = with_high(v.t1_latch, val);
        Via { t1_latch: latch, t1_counter: latch, ifr: v.ifr & !FLAG_T1, ..v }
    }
    else if r == T1LH {
        Via { t1_latch: with_high(v.t1_latch, val), ifr: v.ifr & !FLAG_T1, ..v }
    }
    else if r == T2CL { Via { t2_latch_lo: val, ..v } }
    else if r == T2CH {
        Via {
            t2_counter: (256 * val + v.t2_latch_lo) as u16,
            ifr: v.ifr & !FLAG_T2,
            t2_armed: true,
            ..v
        }
    }
    else if r == SR { Via { sr: val, ..v } }
    else if r == ACR { Via { acr: val, ..v } }
    else if r == PCR { Via { pcr: val, ..v } }
    else if r == IFR { Via { ifr: v.ifr & !(val & 0x7F), ..v } }
    else {
        Via { ier: if val & 0x80 != 0 { v.ier | (val & 0x7F) } else { v.ier & !(val & 0x7F) }, ..v }
    }
}

/// A four-bit register number.
proof fn lemma_register_range(reg: u8)
    by (bit_vector)
    ensures
        reg & 0x0F <= 0x0F,
{
}

impl Default for Via {
    fn default() -> (v: Self)
        ensures
            v == power_on(),
    {
        Via {
            orb: 0, ora: 0, ddrb: 0, ddra: 0,
            pa_in: 0xFF, pb_in: 0xFF, ca1: false,
            t1_counter: 0, t1_latch: 0, t1_pb7: false,
            t2_counter: 0, t2_latch_lo: 0, t2_armed: false,
            acr: 0, pcr: 0, ifr: 0, ier: 0, sr: 0,
        }
    }
}

impl Via {
    pub fn new() -> (v: Self)
        ensures
            v == power_on(),
    {
        Self::default()
    }

    /// Level on the port B pins: output bits come from ORB (where DDRB=1),
    /// input bits from the input pins (where DDRB=0).
    pub fn port_b(&self) -> (b: u8)
        ensures
            b == port_level(self.orb, self.ddrb, self.pb_in),
    {
        (self.orb & self.ddrb) | (self.pb_in & !self.ddrb)
    }

    /// Level on the port A pins.
    pub fn port_a(&self) -> (b: u8)
        ensures
            b == port_level(self.ora, self.ddra, self.pa_in),
    {
        (self.ora & self.ddra) | (self.pa_in & !self.ddra)
    }

    /// True while this VIA is pulling the shared IRQ line low.
    pub fn irq_asserted(&self) -> (b: bool)
        ensures
            b == asserts_irq(*self),
    {
        (self.ifr & self.ier & 0x7F) != 0
    }

    /// Drive the CA1 input. The edge that PCR selects raises the CA1 flag.
    pub fn set_ca1(&mut self, level: bool)
        ensures
            *final(self) == ca1_set(*old(self), level),
    {
        if self.ca1 != level && level == (self.pcr & 0x01 != 0) {
            self.ifr |= FLAG_CA1;
        }
        self.ca1 = level;
    }

    /// Advance both timers by `cycles` system clocks.
    pub fn tick(&mut self, cycles: u32)
        ensures
            *final(self) == ticked(*old(self), cycles as nat),
    {
        let mut k: u32 = 0;
        while k < cycles
            invariant
                k <= cycles,
                *self == ticked(*old(self), k as nat),
            decreases cycles - k,
        {
            self.tick_one();
            k += 1;
        }
    }

    fn tick_one(&mut self)
        ensures
            *final(self) == ticked_once(*old(self)),
    {
        if self.t1_counter > 0 {
            self.t1_counter -= 1;
        } else {
            self.t1_counter = 0xFFFF;
            self.ifr |= FLAG_T1;
            if self.acr & 0x40 != 0 {
                self.t1_counter = self.t1_latch;
                if self.acr & 0x80 != 0 {
                    self.t1_pb7 = !self.t1_pb7;
                }
            }
        }
        if self.acr & 0x20 == 0 {
            if self.t2_counter > 0 {
                self.t2_counter -= 1;
            } else {
                self.t2_counter = 0xFFFF;
                if self.t2_armed {
                    self.ifr |= FLAG_T2;
                    self.t2_armed = false;
                }
            }
        }
    }

    /// Read a register (offset 0x0..0xF). Some reads clear interrupt flags.
    pub fn read(&mut self, reg: u8) -> (b: u8)
        ensures
            b == register(*old(self), reg),
            *final(self) == after_read(*old(self), reg),
    {
        proof {
            lemma_register_range(reg);
        }
        match reg & 0x0F {
            ORB => self.port_b(),
            ORA => {
                self.ifr &= !FLAG_CA1;
                self.port_a()
            },
            ORA_NH => self.port_a(),
            DDRB => self.ddrb,
            DDRA => self.ddra,
            T1CL => {
                self.ifr &= !FLAG_T1;
                (self.t1_counter % 256) as u8
            },
            T1CH => (self.t1_counter / 256) as u8,
            T1LL => (self.t1_latch % 256) as u8,
            T1LH => (self.t1_latch / 256) as u8,
            T2CL => {
                self.ifr &= !FLAG_T2;
                (self.t2_counter % 256) as u8
            },
            T2CH => (self.t2_counter / 256) as u8,
            SR => self.sr,
            ACR => self.acr,
            PCR => self.pcr,
            IFR => {
                // Bit 7 summarizes "any enabled interrupt pending".
                let summary = if self.irq_asserted() { FLAG_IRQ } else { 0 };
                (self.ifr & 0x7F) | summary
            },
            _ => self.ier | 0x80, // bit 7 always reads 1
        }
    }

    /// Write a register (offset 0x0..0xF).
    pub fn write(&mut self, reg: u8, val: u8)
        ensures
            *final(self) == after_write(*old(self), reg, val),
    {
        proof {
            lemma_register_range(reg);
        }
        match reg & 0x0F {
            ORB => self.orb = val,
            ORA => {
                self.ora = val;
                self.ifr &= !FLAG_CA1;
            },
            ORA_NH => self.ora = val,
            DDRB => self.ddrb = val,
            DDRA => self.ddra = val,
            T1CL | T1LL => self.t1_latch = self.t1_latch / 256 * 256 + val as u16,
            T1CH => {
                self.t1_latch = self.t1_latch % 256 + 256 * (val as u16);
                self.t1_counter = self.t1_latch; // load and start
                self.ifr &= !FLAG_T1;
            },
            T1LH => {
                self.t1_latch = self.t1_latch % 256 + 256 * (val as u16);
                self.ifr &= !FLAG_T1;
            },
            T2CL => self.t2_latch_lo = val,
            T2CH => {
                self.t2_counter = 256 * (val as u16) + self.t2_latch_lo as u16;
                self.ifr &= !FLAG_T2;
                self.t2_armed = true; // one-shot re-armed
            },
            SR => self.sr = val,
            ACR => self.acr = val,
            PCR => self.pcr = val,
            IFR => self.ifr &= !(val & 0x7F), // writing 1 clears that flag
            _ => {
                if val & 0x80 != 0 {
                    self.ier |= val & 0x7F; // set selected enables
                } else {
                    self.ier &= !(val & 0x7F); // clear selected enables
                }
            },
        }
    }
}

// ---- what holds of the chip ----

/// The bit facts behind the laws.
proof fn lemma_flag_bits(d: u8, e: u8)
    by (bit_vector)
    ensures
        (d | 0x20u8) & 0x40 == d & 0x40,
        (d | 0x40u8) & 0x40 != 0,
        (d | 0x40u8) | 0x20u8 == (d | 0x20u8) | 0x40u8,
        e & 0x40 != 0 ==> (d | 0x40u8) & e & 0x7F != 0,
        d & 0u8 & 0x7F == 0,
        (d & !0x40u8) & 0x40 == 0,
        (d & !0x20u8) & 0x20 == 0,
        (d & !0x02u8) & 0x02 == 0,
        (d | 0x02u8) & 0x02 != 0,
        e & 0x02 != 0 ==> (d | 0x02u8) & e & 0x7F != 0,
        0x04u8 & 0x0F == 0x04,
        0x08u8 & 0x0F == 0x08,
        0x01u8 & 0x0F == 0x01,
        0x0Eu8 & 0x0F == 0x0E,
        (e | 0x80) & 0x80 != 0,
{
}

/// Clocks add up.
pub proof fn law_ticks_add(v: Via, m: nat, n: nat)
    ensures
        ticked(ticked(v, m), n) == ticked(v, m + n),
    decreases n,
{
    if n > 0 {
        law_ticks_add(v, m, (n - 1) as nat);
        assert((m + n - 1) as nat == m + (n - 1) as nat);
    }
}

/// Timer 1 only counts down until it runs out.
pub proof fn law_timer1_counts_down(v: Via, n: nat)
    requires
        n <= v.t1_counter,
    ensures
        ticked(v, n).t1_counter == v.t1_counter - n,
        ticked(v, n).t1_latch == v.t1_latch,
        ticked(v, n).acr == v.acr,
        ticked(v, n).ier == v.ier,
        ticked(v, n).ifr & FLAG_T1 == v.ifr & FLAG_T1,
    decreases n,
{
    if n > 0 {
        law_timer1_counts_down(v, (n - 1) as nat);
        let p = timer1_ticked(ticked(v, (n - 1) as nat));
        lemma_flag_bits(p.ifr, 0);
    }
}

/// Timer 1 fires one clock after it has reached zero; in free-run mode it
/// starts over from its latch, otherwise it wraps round.
pub proof fn law_timer1_fires(v: Via)
    ensures
        ticked(v, (v.t1_counter + 1) as nat).ifr & FLAG_T1 != 0,
        v.ier & FLAG_T1 != 0 ==> asserts_irq(ticked(v, (v.t1_counter + 1) as nat)),
        ticked(v, (v.t1_counter + 1) as nat).t1_counter
            == (if v.acr & 0x40 != 0 { v.t1_latch } else { 0xFFFF }),
{
    law_timer1_counts_down(v, v.t1_counter as nat);
    let z = ticked(v, v.t1_counter as nat);
    let p = timer1_ticked(z);
    lemma_flag_bits(z.ifr, z.ier);
    lemma_flag_bits(z.ifr | 0x20, z.ier);
    assert(ticked(v, (v.t1_counter + 1) as nat) == ticked_once(z));
}

/// Reading a timer's low byte clears its flag, and reading port A the CA1 flag.
pub proof fn law_reads_acknowledge(v: Via)
    ensures
        after_read(v, T1CL).ifr & FLAG_T1 == 0,
        after_read(v, T2CL).ifr & FLAG_T2 == 0,
        after_read(v, ORA).ifr & FLAG_CA1 == 0,
{
    lemma_flag_bits(v.ifr, 0);
}

/// A chip with no enables never asserts its line.
pub proof fn law_disabled_interrupt_stays_silent(v: Via)
    requires
        v.ier == 0,
    ensures
        !asserts_irq(v),
{
    lemma_flag_bits(v.ifr, 0);
}

/// The selected edge of CA1 interrupts, if enabled; a level that does not
/// change, or the other edge, leaves the flags alone.
pub proof fn law_ca1_edge(v: Via, level: bool)
    ensures
        active_edge(v, level) && v.ier & FLAG_CA1 != 0 ==> asserts_irq(ca1_set(v, level)),
        !active_edge(v, level) ==> ca1_set(v, level).ifr == v.ifr,
{
    lemma_flag_bits(v.ifr, v.ier);
}

/// A port pin follows the latch where it is an output and the outside world
/// where it is an input.
pub proof fn law_ddr_masks_port(latch: u8, ddr: u8, pins: u8)
    ensures
        port_level(latch, ddr, pins) & ddr == latch & ddr,
        port_level(latch, ddr, pins) & !ddr == pins & !ddr,
{
    crate::cia6526::law_ddr_masks_port(latch, ddr, pins);
}

// ---- what the registers and the timers do ----

/// A pin of a port is what was written where it is an output, and what comes in
/// where it is an input. Port A is at 1 and at 15, port B at 0.
pub proof fn law_port_pins(v: Via, k: u8)
    requires
        k < 8,
    ensures
        bit_of(register(v, 0), k)
            == (if bit_of(v.ddrb, k) { bit_of(v.orb, k) } else { bit_of(v.pb_in, k) }),
        bit_of(register(v, 1), k)
            == (if bit_of(v.ddra, k) { bit_of(v.ora, k) } else { bit_of(v.pa_in, k) }),
        register(v, 15) == register(v, 1),
{
    lemma_digits(0);
    lemma_digits(1);
    lemma_digits(15);
    lemma_pin(v.ora, v.ddra, v.pa_in, k);
    lemma_pin(v.orb, v.ddrb, v.pb_in, k);
}

proof fn lemma_pin(latch: u8, ddr: u8, pins: u8, k: u8)
    requires
        k < 8,
    ensures
        bit_of(port_level(latch, ddr, pins), k)
            == (if bit_of(ddr, k) { bit_of(latch, k) } else { bit_of(pins, k) }),
{
    lemma_bitwise(latch, ddr, k);
    lemma_bitwise(ddr, ddr, k);
    lemma_bitwise(pins, !ddr, k);
    lemma_bitwise(latch & ddr, pins & !ddr, k);
}

/// What the other registers read as, and which flag a read clears: 4 that of timer
/// 1, 8 that of timer 2, 1 that of CA1. In 13 bit 7 is up while an enabled flag is.
pub proof fn law_register_reads(v: Via, reg: u8, k: u8)
    requires
        k < 8,
    ensures
        ({
            let b = register(v, reg);
            let w = after_read(v, reg);
            let r = reg as int % 16;
            &&& r == 2 ==> b == v.ddrb
            &&& r == 3 ==> b == v.ddra
            &&& 256 * register(v, 5) + register(v, 4) == v.t1_counter
            &&& 256 * register(v, 7) + register(v, 6) == v.t1_latch
            &&& 256 * register(v, 9) + register(v, 8) == v.t2_counter
            &&& r == 10 ==> b == v.sr
            &&& r == 11 ==> b == v.acr
            &&& r == 12 ==> b == v.pcr
            &&& r == 13 ==> bit_of(b, k)
                == (k < 7 && bit_of(v.ifr, k) || k == 7 && asserts_irq(v))
            &&& r == 14 ==> bit_of(b, k) == (bit_of(v.ier, k) || k == 7)
            &&& asserts_irq(v) ==> exists|j: u8| j < 7 && #[trigger] bit_of(v.ifr, j)
                && bit_of(v.ier, j)
            &&& k < 7 && bit_of(v.ifr, k) && bit_of(v.ier, k) ==> asserts_irq(v)
            &&& bit_of(w.ifr, k) == (bit_of(v.ifr, k) && !(r == 4 && k == 6) && !(r == 8 && k == 5)
                && !(r == 1 && k == 1))
            &&& w == (Via { ifr: w.ifr, ..v })
        }),
{
    lemma_digits(reg);
    lemma_digits(4);
    lemma_digits(5);
    lemma_digits(6);
    lemma_digits(7);
    lemma_digits(8);
    lemma_digits(9);
    lemma_masks(k);
    lemma_bitwise(v.ifr, 0x7F, k);
    lemma_bitwise(v.ifr & 0x7F, 0x80, k);
    lemma_bitwise(v.ifr & 0x7F, 0x00, k);
    lemma_bitwise(v.ier, 0x80, k);
    lemma_bitwise(0x40, 0, k);
    lemma_bitwise(0x20, 0, k);
    lemma_bitwise(0x02, 0, k);
    lemma_bitwise(v.ifr, !0x40u8, k);
    lemma_bitwise(v.ifr, !0x20u8, k);
    lemma_bitwise(v.ifr, !0x02u8, k);
    let f = v.ifr & v.ier & 0x7F;
    lemma_digits(f);
    lemma_flag(v, 0);
    lemma_flag(v, 1);
    lemma_flag(v, 2);
    lemma_flag(v, 3);
    lemma_flag(v, 4);
    lemma_flag(v, 5);
    lemma_flag(v, 6);
    lemma_flag(v, 7);
    lemma_flag(v, k);
    if asserts_irq(v) {
        let j: u8 = if bit_of(f, 0) { 0 } else if bit_of(f, 1) { 1 } else if bit_of(f, 2) { 2 }
            else if bit_of(f, 3) { 3 } else if bit_of(f, 4) { 4 } else if bit_of(f, 5) { 5 }
            else { 6 };
        assert(bit_of(v.ifr, j) && bit_of(v.ier, j));
    }
    if k < 7 && bit_of(v.ifr, k) && bit_of(v.ier, k) {
        assert(bit_of(f, k));
        assert(k == 0 || k == 1 || k == 2 || k == 3 || k == 4 || k == 5 || k == 6);
    }
}

proof fn lemma_flag(v: Via, k: u8)
    requires
        k < 8,
    ensures
        bit_of(v.ifr & v.ier & 0x7F, k) == (k < 7 && bit_of(v.ifr, k) && bit_of(v.ier, k)),
{
    lemma_bitwise(v.ifr, v.ier, k);
    lemma_bitwise(v.ifr & v.ier, 0x7F, k);
    lemma_masks(k);
}

/// What a write does, register by register. The high byte of timer 1's count loads
/// it from its latch and clears its flag; that of timer 2 loads it, arms it and
/// clears its flag. A one written to 13 clears that flag; in 14 the bits below bit
/// 7 are switched on where bit 7 is set, and off where it is clear.
pub proof fn law_register_writes(v: Via, reg: u8, val: u8, k: u8)
    requires
        k < 8,
    ensures
        ({
            let w = after_write(v, reg, val);
            let r = reg as int % 16;
            &&& w.orb == (if r == 0 { val } else { v.orb })
            &&& w.ora == (if r == 1 || r == 15 { val } else { v.ora })
            &&& w.ddrb == (if r == 2 { val } else { v.ddrb })
            &&& w.ddra == (if r == 3 { val } else { v.ddra })
            &&& w.t1_latch == (if r == 4 || r == 6 { v.t1_latch - v.t1_latch % 256 + val }
                else if r == 5 || r == 7 { v.t1_latch % 256 + 256 * val }
                else { v.t1_latch as int })
            &&& w.t1_counter == (if r == 5 { w.t1_latch } else { v.t1_counter })
            &&& w.t2_latch_lo == (if r == 8 { val } else { v.t2_latch_lo })
            &&& w.t2_counter == (if r == 9 { v.t2_latch_lo + 256 * val } else { v.t2_counter as int })
            &&& w.t2_armed == (r == 9 || v.t2_armed)
            &&& w.sr == (if r == 10 { val } else { v.sr })
            &&& w.acr == (if r == 11 { val } else { v.acr })
            &&& w.pcr == (if r == 12 { val } else { v.pcr })
            &&& bit_of(w.ifr, k) == (bit_of(v.ifr, k) && !(r == 1 && k == 1)
                && !((r == 5 || r == 7) && k == 6) && !(r == 9 && k == 5)
                && !(r == 13 && k < 7 && bit_of(val, k)))
            &&& bit_of(w.ier, k) == (if r == 14 && k < 7 && bit_of(val, k) { bit_of(val, 7) }
                else { bit_of(v.ier, k) })
            &&& w.pa_in == v.pa_in && w.pb_in == v.pb_in && w.ca1 == v.ca1 && w.t1_pb7 == v.t1_pb7
        }),
{
    lemma_digits(reg);
    lemma_tests(val);
    lemma_masks(k);
    lemma_bitwise(val, 0x7F, k);
    lemma_bitwise(val & 0x7F, 0, k);
    lemma_bitwise(v.ier, val & 0x7F, k);
    lemma_bitwise(v.ier, !(val & 0x7F), k);
    lemma_bitwise(v.ifr, !(val & 0x7F), k);
    lemma_bitwise(0x40, 0, k);
    lemma_bitwise(0x20, 0, k);
    lemma_bitwise(0x02, 0, k);
    lemma_bitwise(v.ifr, !0x40u8, k);
    lemma_bitwise(v.ifr, !0x20u8, k);
    lemma_bitwise(v.ifr, !0x02u8, k);
}

/// One clock: timer 1 always goes down by one; from zero it raises its flag (bit 6)
/// and goes on from its latch in free-run mode (ACR bit 6), turning PB7 round where
/// that is asked for (bit 7), or else from $FFFF. Timer 2 does too unless it counts
/// pulses (ACR bit 5), from zero always to $FFFF, raising its flag (bit 5) once
/// each time it is armed.
pub proof fn law_one_clock(v: Via, k: u8)
    requires
        k < 8,
    ensures
        ({
            let w = ticked(v, 1);
            let free = bit_of(v.acr, 6);
            let counts = !bit_of(v.acr, 5);
            let (out1, out2) = (v.t1_counter == 0, counts && v.t2_counter == 0);
            &&& w.t1_counter == (if !out1 { v.t1_counter - 1 } else if free { v.t1_latch as int }
                else { 0xFFFF })
            &&& w.t1_pb7 == (v.t1_pb7 != (out1 && free && bit_of(v.acr, 7)))
            &&& w.t2_counter == (if !counts { v.t2_counter as int } else if out2 { 0xFFFF }
                else { v.t2_counter - 1 })
            &&& w.t2_armed == (v.t2_armed && !out2)
            &&& bit_of(w.ifr, k)
                == (bit_of(v.ifr, k) || out1 && k == 6 || out2 && v.t2_armed && k == 5)
            &&& w == (Via {
                t1_counter: w.t1_counter, t1_pb7: w.t1_pb7, t2_counter: w.t2_counter,
                t2_armed: w.t2_armed, ifr: w.ifr, ..v
            })
        }),
{
    reveal_with_fuel(ticked, 2);
    lemma_tests(v.acr);
    lemma_masks(k);
    lemma_bitwise(v.ifr, 0x40, k);
    lemma_bitwise(v.ifr, 0x20, k);
    lemma_bitwise(v.ifr | 0x40, 0x20, k);
}

/// CA1 raises its flag (bit 1) on a change to the level that PCR bit 0 gives.
pub proof fn law_ca1(v: Via, level: bool, k: u8)
    requires
        k < 8,
    ensures
        ({
            let w = ca1_set(v, level);
            &&& w.ca1 == level
            &&& bit_of(w.ifr, k) == (bit_of(v.ifr, k)
                || k == 1 && level != v.ca1 && level == bit_of(v.pcr, 0))
            &&& w == (Via { ca1: level, ifr: w.ifr, ..v })
        }),
{
    lemma_tests(v.pcr);
    lemma_masks(k);
    lemma_bitwise(v.ifr, 0x02, k);
}

/// Reading has effects at three registers: port A (1) takes back the flag of CA1 (bit 1),
/// the low byte of timer 1 (4) its flag (bit 6), and that of timer 2 (8) its flag (bit 5).
pub proof fn law_reads_acknowledge_their_own(v: Via, reg: u8, k: u8)
    requires
        k < 8,
    ensures
        ({
            let w = after_read(v, reg);
            let r = reg as int % 16;
            &&& bit_of(w.ifr, k) == (bit_of(v.ifr, k) && !(r == 1 && k == 1)
                && !(r == 4 && k == 6) && !(r == 8 && k == 5))
            &&& w == (Via { ifr: w.ifr, ..v })
        }),
{
    lemma_digits(reg);
    lemma_masks(k);
    lemma_bitwise(0x02, 0, k);
    lemma_bitwise(0x20, 0, k);
    lemma_bitwise(0x40, 0, k);
    lemma_bitwise(v.ifr, !0x02u8, k);
    lemma_bitwise(v.ifr, !0x20u8, k);
    lemma_bitwise(v.ifr, !0x40u8, k);
}

} // verus!
