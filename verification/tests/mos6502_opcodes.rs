//! The opcode map.

use c64research::mos6502::AddrMode::{
    Abs, Abx, Aby, Acc, Ill, Imm, Imp, Ind, Izx, Izy, Rel, Zp, Zpx, Zpy,
};
use c64research::mos6502::{build_table, decode, AddrMode};

#[test]
fn known_opcodes_decode() {
    assert_eq!(decode(0xA9).mnemonic, "LDA");
    assert_eq!(decode(0xA9).mode, AddrMode::Imm);
    assert_eq!(decode(0x20).mnemonic, "JSR");
    assert_eq!(decode(0x6C).mode, AddrMode::Ind);
    assert_eq!(decode(0x00).mnemonic, "BRK");
}

#[test]
fn lengths_are_correct() {
    assert_eq!(decode(0xEA).len(), 1); // NOP, implied
    assert_eq!(decode(0xA9).len(), 2); // LDA #imm
    assert_eq!(decode(0x4C).len(), 3); // JMP abs
}

#[test]
fn official_opcode_count_is_151() {
    let n = build_table().iter().filter(|o| !o.is_illegal()).count();
    assert_eq!(n, 151);
}

/// The whole map, four opcodes to a line: name, mode, and whether the opcode is
/// documented (`O`) or not (`X`).
const MAP: [(&str, AddrMode, bool); 256] = [
    ("BRK", Imp, O), ("ORA", Izx, O), ("???", Ill, X), ("SLO", Izx, X),
    ("NOP", Zp, X), ("ORA", Zp, O), ("ASL", Zp, O), ("SLO", Zp, X),
    ("PHP", Imp, O), ("ORA", Imm, O), ("ASL", Acc, O), ("ANC", Imm, X),
    ("NOP", Abs, X), ("ORA", Abs, O), ("ASL", Abs, O), ("SLO", Abs, X),
    ("BPL", Rel, O), ("ORA", Izy, O), ("???", Ill, X), ("SLO", Izy, X),
    ("NOP", Zpx, X), ("ORA", Zpx, O), ("ASL", Zpx, O), ("SLO", Zpx, X),
    ("CLC", Imp, O), ("ORA", Aby, O), ("NOP", Imp, X), ("SLO", Aby, X),
    ("NOP", Abx, X), ("ORA", Abx, O), ("ASL", Abx, O), ("SLO", Abx, X),
    ("JSR", Abs, O), ("AND", Izx, O), ("???", Ill, X), ("RLA", Izx, X),
    ("BIT", Zp, O), ("AND", Zp, O), ("ROL", Zp, O), ("RLA", Zp, X),
    ("PLP", Imp, O), ("AND", Imm, O), ("ROL", Acc, O), ("ANC", Imm, X),
    ("BIT", Abs, O), ("AND", Abs, O), ("ROL", Abs, O), ("RLA", Abs, X),
    ("BMI", Rel, O), ("AND", Izy, O), ("???", Ill, X), ("RLA", Izy, X),
    ("NOP", Zpx, X), ("AND", Zpx, O), ("ROL", Zpx, O), ("RLA", Zpx, X),
    ("SEC", Imp, O), ("AND", Aby, O), ("NOP", Imp, X), ("RLA", Aby, X),
    ("NOP", Abx, X), ("AND", Abx, O), ("ROL", Abx, O), ("RLA", Abx, X),
    ("RTI", Imp, O), ("EOR", Izx, O), ("???", Ill, X), ("SRE", Izx, X),
    ("NOP", Zp, X), ("EOR", Zp, O), ("LSR", Zp, O), ("SRE", Zp, X),
    ("PHA", Imp, O), ("EOR", Imm, O), ("LSR", Acc, O), ("ALR", Imm, X),
    ("JMP", Abs, O), ("EOR", Abs, O), ("LSR", Abs, O), ("SRE", Abs, X),
    ("BVC", Rel, O), ("EOR", Izy, O), ("???", Ill, X), ("SRE", Izy, X),
    ("NOP", Zpx, X), ("EOR", Zpx, O), ("LSR", Zpx, O), ("SRE", Zpx, X),
    ("CLI", Imp, O), ("EOR", Aby, O), ("NOP", Imp, X), ("SRE", Aby, X),
    ("NOP", Abx, X), ("EOR", Abx, O), ("LSR", Abx, O), ("SRE", Abx, X),
    ("RTS", Imp, O), ("ADC", Izx, O), ("???", Ill, X), ("RRA", Izx, X),
    ("NOP", Zp, X), ("ADC", Zp, O), ("ROR", Zp, O), ("RRA", Zp, X),
    ("PLA", Imp, O), ("ADC", Imm, O), ("ROR", Acc, O), ("ARR", Imm, X),
    ("JMP", Ind, O), ("ADC", Abs, O), ("ROR", Abs, O), ("RRA", Abs, X),
    ("BVS", Rel, O), ("ADC", Izy, O), ("???", Ill, X), ("RRA", Izy, X),
    ("NOP", Zpx, X), ("ADC", Zpx, O), ("ROR", Zpx, O), ("RRA", Zpx, X),
    ("SEI", Imp, O), ("ADC", Aby, O), ("NOP", Imp, X), ("RRA", Aby, X),
    ("NOP", Abx, X), ("ADC", Abx, O), ("ROR", Abx, O), ("RRA", Abx, X),
    ("NOP", Imm, X), ("STA", Izx, O), ("NOP", Imm, X), ("SAX", Izx, X),
    ("STY", Zp, O), ("STA", Zp, O), ("STX", Zp, O), ("SAX", Zp, X),
    ("DEY", Imp, O), ("NOP", Imm, X), ("TXA", Imp, O), ("ANE", Imm, X),
    ("STY", Abs, O), ("STA", Abs, O), ("STX", Abs, O), ("SAX", Abs, X),
    ("BCC", Rel, O), ("STA", Izy, O), ("???", Ill, X), ("SHA", Izy, X),
    ("STY", Zpx, O), ("STA", Zpx, O), ("STX", Zpy, O), ("SAX", Zpy, X),
    ("TYA", Imp, O), ("STA", Aby, O), ("TXS", Imp, O), ("TAS", Aby, X),
    ("SHY", Abx, X), ("STA", Abx, O), ("SHX", Aby, X), ("SHA", Aby, X),
    ("LDY", Imm, O), ("LDA", Izx, O), ("LDX", Imm, O), ("LAX", Izx, X),
    ("LDY", Zp, O), ("LDA", Zp, O), ("LDX", Zp, O), ("LAX", Zp, X),
    ("TAY", Imp, O), ("LDA", Imm, O), ("TAX", Imp, O), ("LAX", Imm, X),
    ("LDY", Abs, O), ("LDA", Abs, O), ("LDX", Abs, O), ("LAX", Abs, X),
    ("BCS", Rel, O), ("LDA", Izy, O), ("???", Ill, X), ("LAX", Izy, X),
    ("LDY", Zpx, O), ("LDA", Zpx, O), ("LDX", Zpy, O), ("LAX", Zpy, X),
    ("CLV", Imp, O), ("LDA", Aby, O), ("TSX", Imp, O), ("LAS", Aby, X),
    ("LDY", Abx, O), ("LDA", Abx, O), ("LDX", Aby, O), ("LAX", Aby, X),
    ("CPY", Imm, O), ("CMP", Izx, O), ("NOP", Imm, X), ("DCP", Izx, X),
    ("CPY", Zp, O), ("CMP", Zp, O), ("DEC", Zp, O), ("DCP", Zp, X),
    ("INY", Imp, O), ("CMP", Imm, O), ("DEX", Imp, O), ("SBX", Imm, X),
    ("CPY", Abs, O), ("CMP", Abs, O), ("DEC", Abs, O), ("DCP", Abs, X),
    ("BNE", Rel, O), ("CMP", Izy, O), ("???", Ill, X), ("DCP", Izy, X),
    ("NOP", Zpx, X), ("CMP", Zpx, O), ("DEC", Zpx, O), ("DCP", Zpx, X),
    ("CLD", Imp, O), ("CMP", Aby, O), ("NOP", Imp, X), ("DCP", Aby, X),
    ("NOP", Abx, X), ("CMP", Abx, O), ("DEC", Abx, O), ("DCP", Abx, X),
    ("CPX", Imm, O), ("SBC", Izx, O), ("NOP", Imm, X), ("ISC", Izx, X),
    ("CPX", Zp, O), ("SBC", Zp, O), ("INC", Zp, O), ("ISC", Zp, X),
    ("INX", Imp, O), ("SBC", Imm, O), ("NOP", Imp, O), ("SBC", Imm, X),
    ("CPX", Abs, O), ("SBC", Abs, O), ("INC", Abs, O), ("ISC", Abs, X),
    ("BEQ", Rel, O), ("SBC", Izy, O), ("???", Ill, X), ("ISC", Izy, X),
    ("NOP", Zpx, X), ("SBC", Zpx, O), ("INC", Zpx, O), ("ISC", Zpx, X),
    ("SED", Imp, O), ("SBC", Aby, O), ("NOP", Imp, X), ("ISC", Aby, X),
    ("NOP", Abx, X), ("SBC", Abx, O), ("INC", Abx, O), ("ISC", Abx, X),
];

const O: bool = false;
const X: bool = true;

#[test]
fn every_opcode_decodes() {
    for (code, &(name, mode, illegal)) in MAP.iter().enumerate() {
        let op = decode(code as u8);
        assert_eq!((op.mnemonic, op.mode), (name, mode), "${code:02X}");
        assert_eq!(op.is_illegal(), illegal, "${code:02X}");
    }
}

#[test]
fn twelve_opcodes_jam() {
    let jams: Vec<u8> = (0..=255u8).filter(|&c| decode(c).mnemonic == "???").collect();
    let twelve = [0x02, 0x12, 0x22, 0x32, 0x42, 0x52, 0x62, 0x72, 0x92, 0xB2, 0xD2, 0xF2];
    assert_eq!(jams, twelve);
}
