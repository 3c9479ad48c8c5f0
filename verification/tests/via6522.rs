//! The VIA's ports, timers and interrupts.

use c64research::via6522::{Via, ACR, DDRB, FLAG_T1, FLAG_T2, IER, IFR, ORB, T1CH, T1CL};

#[test]
fn lib_ddr_masks_port_reads() {
    let mut via = Via::new();
    via.pb_in = 0b1010_1010;
    via.write(DDRB, 0b0000_1111); // low nibble output, high nibble input
    via.write(ORB, 0b0000_0101); // drive low nibble
    // Low nibble from ORB (0101), high nibble from input pins (1010).
    assert_eq!(via.read(ORB), 0b1010_0101);
}

#[test]
fn timer1_one_shot_sets_flag_on_underflow() {
    let mut via = Via::new();
    via.write(IER, 0x80 | FLAG_T1); // enable T1 interrupt
    via.write(T1CL, 0x03);
    via.write(T1CH, 0x00); // load counter = 3, start
    assert!(!via.irq_asserted());
    via.tick(3); // 3 -> 2 -> 1 -> 0
    assert!(!via.irq_asserted());
    via.tick(1); // 0 -> underflow
    assert!(via.irq_asserted());
    assert_eq!(via.read(IFR) & FLAG_T1, FLAG_T1);
    // Reading T1 low clears the flag.
    via.read(T1CL);
    assert!(!via.irq_asserted());
}

#[test]
fn timer1_free_run_reloads() {
    let mut via = Via::new();
    via.write(ACR, 0x40); // free-run
    via.write(IER, 0x80 | FLAG_T1);
    via.write(T1CL, 0x01);
    via.write(T1CH, 0x00); // counter = 1
    via.tick(2); // underflow, reloads to latch (1)
    assert!(via.irq_asserted());
    via.write(IFR, FLAG_T1); // clear
    assert!(!via.irq_asserted());
    via.tick(2); // fires again after reload
    assert!(via.irq_asserted());
}

#[test]
fn ier_set_and_clear() {
    let mut via = Via::new();
    via.write(IER, 0x80 | FLAG_T1 | FLAG_T2); // enable both
    assert_eq!(via.read(IER), 0x80 | FLAG_T1 | FLAG_T2);
    via.write(IER, FLAG_T1); // bit7=0 -> clear T1 enable
    assert_eq!(via.read(IER), 0x80 | FLAG_T2);
}
