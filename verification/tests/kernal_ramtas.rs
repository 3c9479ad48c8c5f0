//! The RAM test.

use c64research::kernal::ramtas::ramtas;
use c64research::kernal::{test_machine_with_rom, MEMSIZ_HI, MEMSIZ_LO, MEMSTR_HI, SCREEN_PAGE};

#[test]
fn finds_top_of_ram_at_the_rom_boundary() {
    // A machine whose reads see BASIC ROM at $A000 (so RAM ends there).
    let mut m = test_machine_with_rom();
    // Dirty some low memory to prove it gets cleared.
    m.ram[0x0002] = 0xFF;
    m.ram[0x02FE] = 0xFF;
    m.ram[0x0333] = 0xFF;

    let top = ramtas(&mut m);

    assert_eq!(top, 0xA000);
    assert_eq!(m.r(MEMSIZ_LO), 0x00);
    assert_eq!(m.r(MEMSIZ_HI), 0xA0);
    assert_eq!(m.r(MEMSTR_HI), 0x08); // $0800
    assert_eq!(m.r(SCREEN_PAGE), 0x04); // $0400
    // Low pages cleared.
    assert_eq!(m.r(0x0002), 0x00);
    assert_eq!(m.r(0x02FE), 0x00);
    assert_eq!(m.r(0x0333), 0x00);
}

#[test]
fn non_destructive_below_the_top() {
    let mut m = test_machine_with_rom();
    // A byte inside the scanned region must survive (saved and restored).
    m.ram[0x1234] = 0x42;
    ramtas(&mut m);
    assert_eq!(m.r(0x1234), 0x42);
}
