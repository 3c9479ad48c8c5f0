//! The boot chain.

use c64research::kernal::reset::{cartridge_present, cint, reset, CBM80};
use c64research::kernal::test_machine_with_rom as fresh;
use c64research::kernal::{CINV, SCREEN_PAGE};

// Reset presents the machine as the hardware does: reads see BASIC ROM at
// $A000 (RAM ends there) and its cold-start vector is $E394. See
// `test_machine_with_rom`.

#[test]
fn boot_chain_runs_to_basic_cold_start() {
    let mut m = fresh();

    let entry = reset(&mut m);
    assert_eq!(entry, 0xE394, "should hand off to BASIC cold start");

    // IOINIT ran: 6510 port banked, CIA1 Timer A started + IRQ enabled.
    assert_eq!(m.r(0x0001), 0xE7);
    assert_eq!(m.r(0xDC0D), 0x81);
    assert_eq!(m.r(0xDC0E) & 0x11, 0x11);

    // RAMTAS ran: found top of RAM at the ROM boundary.
    assert_eq!(m.r(0x0284), 0xA0); // MEMSIZ high

    // RESTOR ran: default vectors installed ($0314 = IRQ handler $EA31).
    assert_eq!(m.r(CINV), 0x31);
    assert_eq!(m.r(CINV + 1), 0xEA);

    // CINT ran: VIC border/background set, screen cleared to spaces.
    assert_eq!(m.r(0xD020), 0x0E); // border light blue
    assert_eq!(m.r(0xD021), 0x06); // background blue
    assert_eq!(m.r(0x0400), 0x20); // top-left screen cell = space
    assert_eq!(m.r(0xD800), 0x0E); // color RAM = light blue
    assert_eq!(m.r(0x0286), 0x0E); // current text color
}

#[test]
fn line_link_table_matches_screen_rows() {
    let mut m = fresh();
    m.w(SCREEN_PAGE, 0x04); // normally set by RAMTAS before CINT runs
    cint(&mut m);
    // Line 0 starts at $0400 (page $04, high byte $84 with bit 7 set).
    assert_eq!(m.r(0x00D9), 0x84);
    // Line 7 crosses into page $05 ($0400 + 7*40 = $0518).
    assert_eq!(m.r(0x00D9 + 7), 0x85);
}

#[test]
fn cartridge_autostart_is_detected() {
    let mut m = fresh();
    // Plant the CBM80 signature and a cold-start vector at $8000.
    for (i, &b) in CBM80.iter().enumerate() {
        m.ram[0x8004 + i] = b;
    }
    m.ram[0x8000] = 0x00;
    m.ram[0x8001] = 0x80; // cart cold start = $8000
    assert!(cartridge_present(&m));
    assert_eq!(reset(&mut m), 0x8000);
}
