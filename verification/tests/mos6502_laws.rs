//! What holds of the CPU, on concrete programs.

use c64research::mos6502::{build_table, instr_len, AddrMode, Bus, Cpu};

struct Flat([u8; 0x1_0000]);

impl Bus for Flat {
    fn read(&mut self, addr: u16) -> u8 {
        self.0[addr as usize]
    }
    fn write(&mut self, addr: u16, val: u8) {
        self.0[addr as usize] = val;
    }
}

/// A machine about to run `code` at `$0200`.
fn at_0200(code: &[u8]) -> (Cpu, Box<Flat>) {
    let mut bus = Box::new(Flat([0; 0x1_0000]));
    bus.0[0x0200..0x0200 + code.len()].copy_from_slice(code);
    let mut cpu = Cpu::new();
    cpu.pc = 0x0200;
    cpu.sp = 0xFF;
    (cpu, bus)
}

fn bcd(n: u8) -> u8 {
    n / 10 * 16 + n % 10
}

/// Every pair of decimal numbers adds up, with a carry out of a hundred.
#[test]
fn decimal_addition_carries_at_a_hundred() {
    for a in 0..100u8 {
        for b in 0..100u8 {
            for carry in [false, true] {
                let (mut cpu, mut bus) = at_0200(&[0x69, bcd(b)]); // ADC #b
                cpu.d = true;
                cpu.a = bcd(a);
                cpu.c = carry;
                cpu.step(&mut *bus);
                let sum = a as u16 + b as u16 + carry as u16;
                assert_eq!(cpu.a, bcd((sum % 100) as u8), "{a} + {b} + {carry}");
                assert_eq!(cpu.c, sum >= 100, "{a} + {b} + {carry}");
            }
        }
    }
}

/// Every pair of decimal numbers subtracts, with a borrow below zero.
#[test]
fn decimal_subtraction_borrows_below_zero() {
    for a in 0..100u8 {
        for b in 0..100u8 {
            let (mut cpu, mut bus) = at_0200(&[0xE9, bcd(b)]); // SBC #b
            cpu.d = true;
            cpu.a = bcd(a);
            cpu.c = true;
            cpu.step(&mut *bus);
            let diff = (a as i16 - b as i16).rem_euclid(100) as u8;
            assert_eq!(cpu.a, bcd(diff), "{a} - {b}");
            assert_eq!(cpu.c, a >= b, "{a} - {b}");
        }
    }
}

/// In binary, subtracting what was added gives the old value back.
#[test]
fn subtraction_undoes_addition() {
    for a in 0..=255u8 {
        let (mut cpu, mut bus) = at_0200(&[0x18, 0x69, 0x5A, 0x38, 0xE9, 0x5A]);
        cpu.a = a;
        for _ in 0..4 {
            cpu.step(&mut *bus);
        }
        assert_eq!(cpu.a, a);
    }
}

/// PHP and PLP bring every flag back; B and the unused bit go out as ones.
#[test]
fn flags_survive_the_stack() {
    for bits in 0..64u8 {
        let (mut cpu, mut bus) = at_0200(&[0x08, 0x28]); // PHP; PLP
        cpu.c = bits & 1 != 0;
        cpu.z = bits & 2 != 0;
        cpu.i = bits & 4 != 0;
        cpu.d = bits & 8 != 0;
        cpu.v = bits & 16 != 0;
        cpu.n = bits & 32 != 0;
        let before = (cpu.c, cpu.z, cpu.i, cpu.d, cpu.v, cpu.n);
        cpu.step(&mut *bus);
        assert_eq!(bus.0[0x01FF] & 0x30, 0x30);
        (cpu.c, cpu.z, cpu.i) = (!cpu.c, !cpu.z, !cpu.i);
        (cpu.d, cpu.v, cpu.n) = (!cpu.d, !cpu.v, !cpu.n);
        cpu.step(&mut *bus);
        assert_eq!((cpu.c, cpu.z, cpu.i, cpu.d, cpu.v, cpu.n), before);
        assert_eq!(cpu.sp, 0xFF);
    }
}

/// The stack wraps within its page.
#[test]
fn the_stack_stays_on_its_page() {
    let (mut cpu, mut bus) = at_0200(&[0x48, 0x68]); // PHA; PLA
    cpu.sp = 0x00;
    cpu.a = 0x77;
    cpu.step(&mut *bus);
    assert_eq!(cpu.sp, 0xFF);
    assert_eq!(bus.0[0x0100], 0x77);
    cpu.a = 0;
    cpu.step(&mut *bus);
    assert_eq!((cpu.a, cpu.sp), (0x77, 0x00));
}

/// An interrupt and RTI: back where it was, with the flags as they were.
#[test]
fn rti_undoes_an_interrupt() {
    let (mut cpu, mut bus) = at_0200(&[0xEA]);
    bus.0[0xFFFE] = 0x00;
    bus.0[0xFFFF] = 0x03;
    bus.0[0x0300] = 0x40; // RTI
    cpu.i = false;
    cpu.c = true;
    cpu.n = true;
    cpu.irq(&mut *bus);
    assert_eq!(cpu.pc, 0x0300);
    assert!(cpu.i, "interrupts are masked inside the handler");
    assert_eq!(bus.0[0x01FD] & 0x10, 0, "B is clear for a hardware interrupt");
    cpu.step(&mut *bus);
    assert_eq!((cpu.pc, cpu.sp), (0x0200, 0xFF));
    assert!(!cpu.i && cpu.c && cpu.n);
}

#[test]
fn a_masked_interrupt_does_nothing() {
    let (mut cpu, mut bus) = at_0200(&[0xEA]);
    cpu.i = true;
    cpu.irq(&mut *bus);
    assert_eq!((cpu.pc, cpu.sp), (0x0200, 0xFF));
}

#[test]
fn nmi_ignores_the_mask() {
    let (mut cpu, mut bus) = at_0200(&[0xEA]);
    bus.0[0xFFFB] = 0x04;
    cpu.i = true;
    cpu.nmi(&mut *bus);
    assert_eq!(cpu.pc, 0x0400);
}

/// An indirect jump takes its high byte from the pointer's own page.
#[test]
fn indirect_jump_wraps_within_the_page() {
    let (mut cpu, mut bus) = at_0200(&[0x6C, 0xFF, 0x03]);
    bus.0[0x03FF] = 0x34;
    bus.0[0x0300] = 0x12;
    bus.0[0x0400] = 0x99;
    cpu.step(&mut *bus);
    assert_eq!(cpu.pc, 0x1234);
}

/// A branch takes a cycle more when taken and another across a page.
#[test]
fn branches_cost_what_they_cost() {
    let (mut cpu, mut bus) = at_0200(&[0xD0, 0x10]); // BNE
    cpu.z = true;
    assert_eq!(cpu.step(&mut *bus), 2);
    assert_eq!(cpu.pc, 0x0202);
    let (mut cpu, mut bus) = at_0200(&[0xD0, 0x10]);
    cpu.z = false;
    assert_eq!(cpu.step(&mut *bus), 3);
    assert_eq!(cpu.pc, 0x0212);
    let (mut cpu, mut bus) = at_0200(&[0xD0, 0x80]);
    cpu.z = false;
    assert_eq!(cpu.step(&mut *bus), 4);
    assert_eq!(cpu.pc, 0x0182);
}

/// Every opcode that neither jumps nor stops leaves the program counter behind
/// its operand, and no instruction takes fewer than two or more than eight
/// cycles.
#[test]
fn every_instruction_keeps_the_stream_aligned() {
    for (code, op) in build_table().iter().enumerate() {
        let (mut cpu, mut bus) = at_0200(&[code as u8, 0x00, 0x03]);
        let cycles = cpu.step(&mut *bus);
        assert!((2..=8).contains(&cycles), "{} takes {cycles}", op.mnemonic);
        let jumps = ["JMP", "JSR", "RTS", "RTI", "BRK"].contains(&op.mnemonic);
        if !jumps && op.mode != AddrMode::Rel && op.mode != AddrMode::Ill {
            let len = instr_len(op.mode) as u16;
            assert_eq!(cpu.pc, 0x0200 + len, "{} (${code:02X})", op.mnemonic);
        }
    }
}

#[test]
fn reset_reads_its_vector() {
    let (mut cpu, mut bus) = at_0200(&[]);
    bus.0[0xFFFC] = 0xCD;
    bus.0[0xFFFD] = 0xAB;
    cpu.reset(&mut *bus);
    assert_eq!(cpu.pc, 0xABCD);
    assert!(cpu.i);
}
