//! The RAM vectors.

use c64research::kernal::vectors::{restor, vector};
use c64research::kernal::{C64Mem, CINV};

#[test]
fn restor_installs_defaults_then_vector_reads_them_back() {
    let mut m = C64Mem::new();
    // A recognizable default table (16 pointers).
    let mut defaults = [0u8; 32];
    for (i, b) in defaults.iter_mut().enumerate() {
        *b = 0x40 + i as u8;
    }
    restor(&mut m, &defaults);

    // The system table at $0314 now holds the defaults.
    for i in 0..32u16 {
        assert_eq!(m.r(CINV + i), 0x40 + i as u8);
    }

    // A program overwrites the live IRQ vector ($0314/$0315)...
    m.w(CINV, 0x00);
    m.w(CINV + 1, 0xC0); // point IRQ at $C000
                         // ...and reads the whole table back out into its own buffer.
    let buf = 0x2000u16;
    vector(&mut m, buf, true);
    assert_eq!(m.r(buf), 0x00);
    assert_eq!(m.r(buf + 1), 0xC0);
    assert_eq!(m.r(buf + 2), 0x42); // unchanged entry
}
