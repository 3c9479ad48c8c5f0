//! The CPU runs small programs.

use c64research::mos6502::{Bus, Cpu};

/// Flat 64 KB RAM: the simplest possible bus.
struct Ram([u8; 0x10000]);
impl Ram {
    fn new() -> Self {
        Ram([0; 0x10000])
    }
    fn load(&mut self, at: u16, bytes: &[u8]) {
        self.0[at as usize..at as usize + bytes.len()].copy_from_slice(bytes);
    }
}
impl Bus for Ram {
    fn read(&mut self, addr: u16) -> u8 {
        self.0[addr as usize]
    }
    fn write(&mut self, addr: u16, val: u8) {
        self.0[addr as usize] = val;
    }
}

#[test]
fn illegal_lax_loads_a_and_x() {
    let mut cpu = Cpu::new();
    let mut ram = Ram::new();
    ram.0[0x0040] = 0x77;
    ram.load(0x0200, &[0xA7, 0x40]); // LAX $40
    cpu.pc = 0x0200;
    cpu.step(&mut ram);
    assert_eq!(cpu.a, 0x77);
    assert_eq!(cpu.x, 0x77);
}

#[test]
fn illegal_sax_stores_a_and_x() {
    let mut cpu = Cpu::new();
    let mut ram = Ram::new();
    // LDA #$CF ; LDX #$3C ; SAX $50   -> $50 = $CF & $3C = $0C
    ram.load(0x0200, &[0xA9, 0xCF, 0xA2, 0x3C, 0x87, 0x50]);
    cpu.pc = 0x0200;
    cpu.step(&mut ram);
    cpu.step(&mut ram);
    cpu.step(&mut ram);
    assert_eq!(ram.0[0x0050], 0x0C);
}

#[test]
fn illegal_dcp_decrements_then_compares() {
    let mut cpu = Cpu::new();
    let mut ram = Ram::new();
    ram.0[0x0060] = 0x11;
    // LDA #$10 ; DCP $60  -> $60 becomes $10, and A($10) == mem -> Z set, C set
    ram.load(0x0200, &[0xA9, 0x10, 0xC7, 0x60]);
    cpu.pc = 0x0200;
    cpu.step(&mut ram);
    cpu.step(&mut ram);
    assert_eq!(ram.0[0x0060], 0x10);
    assert!(cpu.z);
    assert!(cpu.c);
}

#[test]
fn multibyte_nop_keeps_the_stream_aligned() {
    let mut cpu = Cpu::new();
    let mut ram = Ram::new();
    // $0C is a 3-byte undocumented NOP. If decoded as 1 byte, the LDX below
    // would be misread. It must skip all three bytes.
    ram.load(0x0200, &[0x0C, 0xAD, 0xDE, 0xA2, 0x99]); // NOP $DEAD ; LDX #$99
    cpu.pc = 0x0200;
    cpu.step(&mut ram); // NOP abs
    assert_eq!(cpu.pc, 0x0203);
    cpu.step(&mut ram); // LDX #$99
    assert_eq!(cpu.x, 0x99);
}

#[test]
fn adc_sets_carry_and_overflow() {
    let mut cpu = Cpu::new();
    let mut ram = Ram::new();
    // LDA #$50 ; ADC #$50  -> $A0, V=1 (positive+positive=negative), C=0
    ram.load(0x0200, &[0xA9, 0x50, 0x69, 0x50]);
    cpu.pc = 0x0200;
    cpu.step(&mut ram);
    cpu.step(&mut ram);
    assert_eq!(cpu.a, 0xA0);
    assert!(cpu.v);
    assert!(!cpu.c);
    assert!(cpu.n);
}

#[test]
fn jsr_rts_round_trip() {
    let mut cpu = Cpu::new();
    let mut ram = Ram::new();
    // 0300: JSR $0400 ; (returns here) LDX #$AA
    ram.load(0x0300, &[0x20, 0x00, 0x04, 0xA2, 0xAA]);
    // 0400: LDA #$11 ; RTS
    ram.load(0x0400, &[0xA9, 0x11, 0x60]);
    cpu.pc = 0x0300;
    cpu.step(&mut ram); // JSR
    assert_eq!(cpu.pc, 0x0400);
    cpu.step(&mut ram); // LDA #$11
    cpu.step(&mut ram); // RTS
    assert_eq!(cpu.pc, 0x0303);
    assert_eq!(cpu.a, 0x11);
    cpu.step(&mut ram); // LDX #$AA
    assert_eq!(cpu.x, 0xAA);
}

#[test]
fn sum_1_to_10_loop() {
    let mut cpu = Cpu::new();
    let mut ram = Ram::new();
    // Sum 1..=10 into A, leaving 55 ($37). X counts down from 10.
    //   LDA #$00
    //   LDX #$0A
    // loop:
    //   STX $10        ; scratch
    //   CLC
    //   ADC $10
    //   DEX
    //   BNE loop
    //   STA $20
    ram.load(
        0x0200,
        &[
            0xA9, 0x00, // LDA #0
            0xA2, 0x0A, // LDX #10
            0x86, 0x10, // STX $10
            0x18, // CLC
            0x65, 0x10, // ADC $10
            0xCA, // DEX
            0xD0, 0xF8, // BNE loop (-8 -> back to STX)
            0x85, 0x20, // STA $20
        ],
    );
    cpu.pc = 0x0200;
    for _ in 0..200 {
        cpu.step(&mut ram);
        if cpu.pc == 0x020F {
            break; // reached STA $20's successor after running it
        }
    }
    assert_eq!(ram.0[0x20], 55);
}

/// End-to-end: run the *actual* 1541 zero-page RAM test bytes from
/// `C1541.rom` ($EAA7-$EAC8) and confirm the CPU clears zero page and
/// falls through to $EAC9: cross-checking the executor against the ROM
/// and against `c1541::ram_test`.
#[test]
fn runs_real_1541_ram_test() {
    let mut cpu = Cpu::new();
    let mut ram = Ram::new();
    ram.load(
        0xEAA7,
        &[
            0xE8, // INX
            0xA0, 0x00, // LDY #$00
            0xA2, 0x00, // LDX #$00
            // EAAC fill loop
            0x8A, // TXA
            0x95, 0x00, // STA $00,X
            0xE8, // INX
            0xD0, 0xFA, // BNE $EAAC
            // EAB2 test loop
            0x8A, // TXA
            0xD5, 0x00, // CMP $00,X
            0xD0, 0xB7, // BNE $EA6E (fault)
            0xF6, 0x00, // INC $00,X
            0xC8, // INY
            0xD0, 0xFB, // BNE $EAB7
            0xD5, 0x00, // CMP $00,X
            0xD0, 0xAE, // BNE $EA6E
            0x94, 0x00, // STY $00,X
            0xB5, 0x00, // LDA $00,X
            0xD0, 0xA8, // BNE $EA6E
            0xE8, // INX
            0xD0, 0xE9, // BNE $EAB2
        ],
    );
    // Put a trap at the fault handler and the fall-through so we can tell
    // success (reach $EAC9) from failure (reach $EA6E).
    cpu.pc = 0xEAA7;
    cpu.x = 0xFF; // as left by reset, so the first INX makes X=0
    // The routine runs ~256 outer * ~256 inner increments about 200k instructions.
    let mut reached_end = false;
    for _ in 0..2_000_000 {
        if cpu.pc == 0xEAC9 {
            reached_end = true;
            break;
        }
        if cpu.pc == 0xEA6E {
            panic!("RAM test branched to the fault handler on healthy RAM");
        }
        cpu.step(&mut ram);
    }
    assert!(reached_end, "RAM test never reached the fall-through at $EAC9");
    // Exactly like `zero_page_ram_test`: zero page is cleared.
    assert!(ram.0[0x00..0x100].iter().all(|&b| b == 0));
}
