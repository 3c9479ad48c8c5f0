//! The CIA's ports, timers and interrupts.

use c64research::cia6526::{Cia, CRA, DDRA, ICR, INT_FLAG, INT_TA, PRA, TA_HI, TA_LO};

#[test]
fn ddr_masks_port_reads() {
    let mut cia = Cia::new();
    cia.pa_in = 0b1111_0000;
    cia.write(DDRA, 0x0F); // low nibble output
    cia.write(PRA, 0x0A);
    assert_eq!(cia.read(PRA), 0b1111_1010);
}

#[test]
fn timer_a_fires_and_reloads_like_the_jiffy_irq() {
    let mut cia = Cia::new();
    cia.write(ICR, 0x80 | INT_TA); // enable Timer A interrupt
    cia.write(TA_LO, 0x03);
    cia.write(TA_HI, 0x00);
    cia.write(CRA, 0x11); // force-load + start, continuous
    assert!(!cia.irq_asserted());
    cia.tick(3); // 3 -> 2 -> 1 -> 0
    assert!(!cia.irq_asserted());
    cia.tick(1); // underflow
    assert!(cia.irq_asserted());
    // Reading ICR reports and clears the flag.
    let icr = cia.read(ICR);
    assert_eq!(icr & INT_TA, INT_TA);
    assert_eq!(icr & INT_FLAG, INT_FLAG);
    assert!(!cia.irq_asserted());
    // Continuous mode reloaded from the latch and keeps running.
    cia.tick(4);
    assert!(cia.irq_asserted());
}

#[test]
fn masked_interrupt_does_not_assert() {
    let mut cia = Cia::new();
    // Do NOT enable the interrupt in the mask.
    cia.write(TA_LO, 0x01);
    cia.write(TA_HI, 0x00);
    cia.write(CRA, 0x11);
    cia.tick(2);
    assert!(!cia.irq_asserted()); // flag set internally, but masked off
    assert_eq!(cia.read(ICR) & INT_TA, INT_TA); // flag is still visible
}
