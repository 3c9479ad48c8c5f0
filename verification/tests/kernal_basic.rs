//! The BASIC cold start.

use c64research::kernal::basic::{cold_start, init_basic_ram, init_basic_vectors, CHRGET_ROUTINE};
use c64research::kernal::reset::reset;
use c64research::kernal::test_machine_with_rom;

#[test]
fn cold_start_prints_the_banner_and_38911_free() {
    let mut m = test_machine_with_rom();
    // Full power-on first (RESET sets MEMBOT/MEMSIZ that the seam reads).
    assert_eq!(reset(&mut m), 0xE394); // hands off to BASIC cold start

    let cs = cold_start(&mut m);
    assert!(cs.banner.contains("**** COMMODORE 64 BASIC V2 ****"));
    assert!(cs.banner.contains("64K RAM SYSTEM"));
    // The famous number: $A000 (MEMSIZ) - $0801 (TXTTAB) = 38911.
    assert!(
        cs.banner.contains("38911 BASIC BYTES FREE"),
        "banner was:\n{}",
        cs.banner
    );
    // Next stop is IERROR ($E38B), which prints READY. and enters BASIC.
    assert_eq!(cs.handoff, 0xE38B);
}

#[test]
fn basic_vectors_and_ram_are_initialized() {
    let mut m = test_machine_with_rom();
    reset(&mut m);
    init_basic_vectors(&mut m);
    init_basic_ram(&mut m);

    // IMAIN ($0302) points at BASIC's main loop $A483.
    assert_eq!(m.zp_ptr_at(0x0302), 0xA483);
    // USR jump opcode staged.
    assert_eq!(m.r(0x0054), 0x4C);
    // CHRGET copied into zero page.
    assert_eq!(m.r(0x0073), CHRGET_ROUTINE[0]);
    // TXTTAB = $0801, MEMSIZ = $A000, and $0800 is the leading zero byte.
    assert_eq!(m.zp_ptr_at(0x002B), 0x0801);
    assert_eq!(m.zp_ptr_at(0x0037), 0xA000);
    assert_eq!(m.r(0x0800), 0x00);
}
