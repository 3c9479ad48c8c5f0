//! MOS 6502 / 6510 opcode map and helpers.
//!
//! The same decode table serves the disassembler and the CPU executor. The
//! executable table lists opcodes instruction by instruction; the contracts
//! read the opcode map by its grid, eight rows of thirty-two columns, which is
//! how the silicon is organised.

use vstd::prelude::*;

pub mod cpu;
pub mod laws;
pub mod opcodes;

pub use cpu::{Bus, Cpu};

verus! {

/// Addressing mode of a 6502 instruction. Determines how the operand bytes are
/// interpreted and how long the instruction is.
#[derive(Debug, Clone, Copy, PartialEq, Eq, Structural)]
pub enum AddrMode {
    /// No operand, e.g. `NOP`, `RTS`.
    Imp,
    /// Operates on the accumulator, e.g. `ASL A`.
    Acc,
    /// Immediate, `#$nn`.
    Imm,
    /// Zero page, `$nn`.
    Zp,
    /// Zero page, X-indexed: `$nn,X`.
    Zpx,
    /// Zero page, Y-indexed: `$nn,Y`.
    Zpy,
    /// Absolute, `$nnnn`.
    Abs,
    /// Absolute, X-indexed: `$nnnn,X`.
    Abx,
    /// Absolute, Y-indexed: `$nnnn,Y`.
    Aby,
    /// Indirect, `($nnnn)`, only used by `JMP`.
    Ind,
    /// Indexed indirect, `($nn,X)`.
    Izx,
    /// Indirect indexed, `($nn),Y`.
    Izy,
    /// Relative branch, signed 8-bit offset from the following instruction.
    Rel,
    /// An opcode that is not modelled: rendered as raw data.
    Ill,
}

/// Every instruction the CPU knows, the undocumented ones included. `Jam`
/// stands for the opcodes that lock up the real chip.
#[derive(Debug, Clone, Copy, PartialEq, Eq, Structural)]
pub enum Mnemonic {
    Adc, And, Asl, Bcc, Bcs, Beq, Bit, Bmi, Bne, Bpl, Brk, Bvc, Bvs, Clc, Cld, Cli, Clv, Cmp,
    Cpx, Cpy, Dec, Dex, Dey, Eor, Inc, Inx, Iny, Jmp, Jsr, Lda, Ldx, Ldy, Lsr, Nop, Ora, Pha,
    Php, Pla, Plp, Rol, Ror, Rti, Rts, Sbc, Sec, Sed, Sei, Sta, Stx, Sty, Tax, Tay, Tsx, Txa,
    Txs, Tya,
    // Undocumented.
    Alr, Anc, Ane, Arr, Dcp, Isc, Las, Lax, Rla, Rra, Sax, Sbx, Sha, Shx, Shy, Slo, Sre, Tas,
    Jam,
}

/// A decoded opcode: its mnemonic, addressing mode, and whether it is an
/// undocumented ("illegal") instruction.
#[derive(Debug, Clone, Copy)]
pub struct Op {
    pub mnemonic: &'static str,
    pub mode: AddrMode,
    pub illegal: bool,
}

// ---- the opcode map, read by its grid ----

/// The row of an opcode in the map: its top three bits.
pub open spec fn grid_row(opcode: u8) -> int {
    opcode as int / 32
}

/// The column of an opcode in the map: its low five bits.
pub open spec fn grid_col(opcode: u8) -> int {
    opcode as int % 32
}

/// The addressing mode of an opcode: almost entirely a matter of its column.
pub open spec fn opcode_mode(opcode: u8) -> AddrMode {
    let row = grid_row(opcode);
    let col = grid_col(opcode);
    let uses_y = row == 4 || row == 5;
    if col == 0x00 {
        if row == 1 { AddrMode::Abs } else if row < 4 { AddrMode::Imp } else { AddrMode::Imm }
    } else if col == 0x02 {
        if row < 4 { AddrMode::Ill } else { AddrMode::Imm }
    } else if col == 0x01 || col == 0x03 {
        AddrMode::Izx
    } else if 0x04 <= col <= 0x07 {
        AddrMode::Zp
    } else if col == 0x09 || col == 0x0B {
        AddrMode::Imm
    } else if col == 0x0A {
        if row < 4 { AddrMode::Acc } else { AddrMode::Imp }
    } else if 0x0C <= col <= 0x0F {
        if opcode == 0x6C { AddrMode::Ind } else { AddrMode::Abs }
    } else if col == 0x10 {
        AddrMode::Rel
    } else if col == 0x11 || col == 0x13 {
        AddrMode::Izy
    } else if col == 0x12 {
        AddrMode::Ill
    } else if col == 0x14 || col == 0x15 {
        AddrMode::Zpx
    } else if col == 0x16 || col == 0x17 {
        if uses_y { AddrMode::Zpy } else { AddrMode::Zpx }
    } else if col == 0x19 || col == 0x1B {
        AddrMode::Aby
    } else if col == 0x1C || col == 0x1D {
        AddrMode::Abx
    } else if col == 0x1E || col == 0x1F {
        if uses_y { AddrMode::Aby } else { AddrMode::Abx }
    } else {
        AddrMode::Imp
    }
}

/// One of eight instructions, picked by the row.
pub open spec fn pick(
    row: int, m0: Mnemonic, m1: Mnemonic, m2: Mnemonic, m3: Mnemonic,
    m4: Mnemonic, m5: Mnemonic, m6: Mnemonic, m7: Mnemonic,
) -> Mnemonic {
    if row == 0 { m0 } else if row == 1 { m1 } else if row == 2 { m2 } else if row == 3 { m3 }
    else if row == 4 { m4 } else if row == 5 { m5 } else if row == 6 { m6 } else { m7 }
}

/// The eight accumulator instructions of columns `01`, `05`, `09`, ...
pub open spec fn accumulator_row(row: int) -> Mnemonic {
    pick(row, Mnemonic::Ora, Mnemonic::And, Mnemonic::Eor, Mnemonic::Adc,
         Mnemonic::Sta, Mnemonic::Lda, Mnemonic::Cmp, Mnemonic::Sbc)
}

/// The eight read-modify-write instructions of columns `06`, `0E`, `16`, `1E`.
pub open spec fn shift_row(row: int) -> Mnemonic {
    pick(row, Mnemonic::Asl, Mnemonic::Rol, Mnemonic::Lsr, Mnemonic::Ror,
         Mnemonic::Stx, Mnemonic::Ldx, Mnemonic::Dec, Mnemonic::Inc)
}

/// The undocumented instructions of columns `03`, `07`, `0F`, ...: each does
/// what its two documented neighbours do, at once.
pub open spec fn combined_row(row: int) -> Mnemonic {
    pick(row, Mnemonic::Slo, Mnemonic::Rla, Mnemonic::Sre, Mnemonic::Rra,
         Mnemonic::Sax, Mnemonic::Lax, Mnemonic::Dcp, Mnemonic::Isc)
}

/// The instruction of an opcode in one of the columns `00`, `04`, `08`, ...
pub open spec fn control_column(row: int, col: int) -> Mnemonic {
    if col == 0x00 {
        pick(row, Mnemonic::Brk, Mnemonic::Jsr, Mnemonic::Rti, Mnemonic::Rts,
                 Mnemonic::Nop, Mnemonic::Ldy, Mnemonic::Cpy, Mnemonic::Cpx)
    } else if col == 0x04 {
        pick(row, Mnemonic::Nop, Mnemonic::Bit, Mnemonic::Nop, Mnemonic::Nop,
                 Mnemonic::Sty, Mnemonic::Ldy, Mnemonic::Cpy, Mnemonic::Cpx)
    } else if col == 0x08 {
        pick(row, Mnemonic::Php, Mnemonic::Plp, Mnemonic::Pha, Mnemonic::Pla,
                 Mnemonic::Dey, Mnemonic::Tay, Mnemonic::Iny, Mnemonic::Inx)
    } else if col == 0x0C {
        pick(row, Mnemonic::Nop, Mnemonic::Bit, Mnemonic::Jmp, Mnemonic::Jmp,
                 Mnemonic::Sty, Mnemonic::Ldy, Mnemonic::Cpy, Mnemonic::Cpx)
    } else if col == 0x10 {
        pick(row, Mnemonic::Bpl, Mnemonic::Bmi, Mnemonic::Bvc, Mnemonic::Bvs,
                 Mnemonic::Bcc, Mnemonic::Bcs, Mnemonic::Bne, Mnemonic::Beq)
    } else if col == 0x18 {
        pick(row, Mnemonic::Clc, Mnemonic::Sec, Mnemonic::Cli, Mnemonic::Sei,
                 Mnemonic::Tya, Mnemonic::Clv, Mnemonic::Cld, Mnemonic::Sed)
    } else if row == 5 {
        Mnemonic::Ldy
    } else if row == 4 {
        if col == 0x14 { Mnemonic::Sty } else { Mnemonic::Shy }
    } else {
        Mnemonic::Nop
    }
}

/// The instruction of an opcode in one of the columns `02`, `06`, `0A`, ...
pub open spec fn shift_column(row: int, col: int) -> Mnemonic {
    if col == 0x02 {
        if row < 4 { Mnemonic::Jam } else if row == 5 { Mnemonic::Ldx } else { Mnemonic::Nop }
    } else if col == 0x12 {
        Mnemonic::Jam
    } else if col == 0x0A {
        pick(row, Mnemonic::Asl, Mnemonic::Rol, Mnemonic::Lsr, Mnemonic::Ror,
                 Mnemonic::Txa, Mnemonic::Tax, Mnemonic::Dex, Mnemonic::Nop)
    } else if col == 0x1A {
        if row == 4 { Mnemonic::Txs } else if row == 5 { Mnemonic::Tsx } else { Mnemonic::Nop }
    } else if col == 0x1E && row == 4 {
        Mnemonic::Shx
    } else {
        shift_row(row)
    }
}

/// The instruction of an opcode in one of the columns `03`, `07`, `0B`, ...
pub open spec fn combined_column(row: int, col: int) -> Mnemonic {
    if col == 0x0B {
        pick(row, Mnemonic::Anc, Mnemonic::Anc, Mnemonic::Alr, Mnemonic::Arr,
                 Mnemonic::Ane, Mnemonic::Lax, Mnemonic::Sbx, Mnemonic::Sbc)
    } else if row == 4 && (col == 0x13 || col == 0x1F) {
        Mnemonic::Sha
    } else if row == 4 && col == 0x1B {
        Mnemonic::Tas
    } else if row == 5 && col == 0x1B {
        Mnemonic::Las
    } else {
        combined_row(row)
    }
}

/// The instruction of an opcode: its row within its column of the map.
pub open spec fn opcode_mnemonic(opcode: u8) -> Mnemonic {
    let row = grid_row(opcode);
    let col = grid_col(opcode);
    if col % 4 == 0 {
        control_column(row, col)
    } else if col % 4 == 1 {
        if opcode == 0x89 { Mnemonic::Nop } else { accumulator_row(row) }
    } else if col % 4 == 2 {
        shift_column(row, col)
    } else {
        combined_column(row, col)
    }
}

/// Is the opcode undocumented? A whole quarter of the map is, and so are the
/// jams, every `NOP` but `EA`, and the two oddities `SHX` and `SHY`.
pub open spec fn opcode_illegal(opcode: u8) -> bool {
    let m = opcode_mnemonic(opcode);
    ||| opcode as int % 4 == 3
    ||| m == Mnemonic::Jam
    ||| m == Mnemonic::Shx
    ||| m == Mnemonic::Shy
    ||| (m == Mnemonic::Nop && opcode != 0xEA)
}

/// Instruction length in bytes for an addressing mode: the opcode plus the
/// operand bytes.
pub open spec fn mode_len(mode: AddrMode) -> u8 {
    match mode {
        AddrMode::Imp | AddrMode::Acc | AddrMode::Ill => 1,
        AddrMode::Abs | AddrMode::Abx | AddrMode::Aby | AddrMode::Ind => 3,
        _ => 2,
    }
}

/// The assembler spelling of an instruction.
pub open spec fn mnemonic_name(m: Mnemonic) -> Seq<char> {
    match m {
        Mnemonic::Adc => "ADC"@,
        Mnemonic::And => "AND"@,
        Mnemonic::Asl => "ASL"@,
        Mnemonic::Bcc => "BCC"@,
        Mnemonic::Bcs => "BCS"@,
        Mnemonic::Beq => "BEQ"@,
        Mnemonic::Bit => "BIT"@,
        Mnemonic::Bmi => "BMI"@,
        Mnemonic::Bne => "BNE"@,
        Mnemonic::Bpl => "BPL"@,
        Mnemonic::Brk => "BRK"@,
        Mnemonic::Bvc => "BVC"@,
        Mnemonic::Bvs => "BVS"@,
        Mnemonic::Clc => "CLC"@,
        Mnemonic::Cld => "CLD"@,
        Mnemonic::Cli => "CLI"@,
        Mnemonic::Clv => "CLV"@,
        Mnemonic::Cmp => "CMP"@,
        Mnemonic::Cpx => "CPX"@,
        Mnemonic::Cpy => "CPY"@,
        Mnemonic::Dec => "DEC"@,
        Mnemonic::Dex => "DEX"@,
        Mnemonic::Dey => "DEY"@,
        Mnemonic::Eor => "EOR"@,
        Mnemonic::Inc => "INC"@,
        Mnemonic::Inx => "INX"@,
        Mnemonic::Iny => "INY"@,
        Mnemonic::Jmp => "JMP"@,
        Mnemonic::Jsr => "JSR"@,
        Mnemonic::Lda => "LDA"@,
        Mnemonic::Ldx => "LDX"@,
        Mnemonic::Ldy => "LDY"@,
        Mnemonic::Lsr => "LSR"@,
        Mnemonic::Nop => "NOP"@,
        Mnemonic::Ora => "ORA"@,
        Mnemonic::Pha => "PHA"@,
        Mnemonic::Php => "PHP"@,
        Mnemonic::Pla => "PLA"@,
        Mnemonic::Plp => "PLP"@,
        Mnemonic::Rol => "ROL"@,
        Mnemonic::Ror => "ROR"@,
        Mnemonic::Rti => "RTI"@,
        Mnemonic::Rts => "RTS"@,
        Mnemonic::Sbc => "SBC"@,
        Mnemonic::Sec => "SEC"@,
        Mnemonic::Sed => "SED"@,
        Mnemonic::Sei => "SEI"@,
        Mnemonic::Sta => "STA"@,
        Mnemonic::Stx => "STX"@,
        Mnemonic::Sty => "STY"@,
        Mnemonic::Tax => "TAX"@,
        Mnemonic::Tay => "TAY"@,
        Mnemonic::Tsx => "TSX"@,
        Mnemonic::Txa => "TXA"@,
        Mnemonic::Txs => "TXS"@,
        Mnemonic::Tya => "TYA"@,
        Mnemonic::Alr => "ALR"@,
        Mnemonic::Anc => "ANC"@,
        Mnemonic::Ane => "ANE"@,
        Mnemonic::Arr => "ARR"@,
        Mnemonic::Dcp => "DCP"@,
        Mnemonic::Isc => "ISC"@,
        Mnemonic::Las => "LAS"@,
        Mnemonic::Lax => "LAX"@,
        Mnemonic::Rla => "RLA"@,
        Mnemonic::Rra => "RRA"@,
        Mnemonic::Sax => "SAX"@,
        Mnemonic::Sbx => "SBX"@,
        Mnemonic::Sha => "SHA"@,
        Mnemonic::Shx => "SHX"@,
        Mnemonic::Shy => "SHY"@,
        Mnemonic::Slo => "SLO"@,
        Mnemonic::Sre => "SRE"@,
        Mnemonic::Tas => "TAS"@,
        Mnemonic::Jam => "???"@,
    }
}

/// `op` is the decoding of `opcode`.
pub open spec fn decodes(op: Op, opcode: u8) -> bool {
    &&& op.mnemonic@ == mnemonic_name(opcode_mnemonic(opcode))
    &&& op.mode == opcode_mode(opcode)
    &&& op.illegal == opcode_illegal(opcode)
}

impl Mnemonic {
    /// The assembler spelling, `???` for the jams.
    pub fn name(self) -> (s: &'static str)
        ensures
            s@ == mnemonic_name(self),
    {
        match self {
            Mnemonic::Adc => "ADC",
            Mnemonic::And => "AND",
            Mnemonic::Asl => "ASL",
            Mnemonic::Bcc => "BCC",
            Mnemonic::Bcs => "BCS",
            Mnemonic::Beq => "BEQ",
            Mnemonic::Bit => "BIT",
            Mnemonic::Bmi => "BMI",
            Mnemonic::Bne => "BNE",
            Mnemonic::Bpl => "BPL",
            Mnemonic::Brk => "BRK",
            Mnemonic::Bvc => "BVC",
            Mnemonic::Bvs => "BVS",
            Mnemonic::Clc => "CLC",
            Mnemonic::Cld => "CLD",
            Mnemonic::Cli => "CLI",
            Mnemonic::Clv => "CLV",
            Mnemonic::Cmp => "CMP",
            Mnemonic::Cpx => "CPX",
            Mnemonic::Cpy => "CPY",
            Mnemonic::Dec => "DEC",
            Mnemonic::Dex => "DEX",
            Mnemonic::Dey => "DEY",
            Mnemonic::Eor => "EOR",
            Mnemonic::Inc => "INC",
            Mnemonic::Inx => "INX",
            Mnemonic::Iny => "INY",
            Mnemonic::Jmp => "JMP",
            Mnemonic::Jsr => "JSR",
            Mnemonic::Lda => "LDA",
            Mnemonic::Ldx => "LDX",
            Mnemonic::Ldy => "LDY",
            Mnemonic::Lsr => "LSR",
            Mnemonic::Nop => "NOP",
            Mnemonic::Ora => "ORA",
            Mnemonic::Pha => "PHA",
            Mnemonic::Php => "PHP",
            Mnemonic::Pla => "PLA",
            Mnemonic::Plp => "PLP",
            Mnemonic::Rol => "ROL",
            Mnemonic::Ror => "ROR",
            Mnemonic::Rti => "RTI",
            Mnemonic::Rts => "RTS",
            Mnemonic::Sbc => "SBC",
            Mnemonic::Sec => "SEC",
            Mnemonic::Sed => "SED",
            Mnemonic::Sei => "SEI",
            Mnemonic::Sta => "STA",
            Mnemonic::Stx => "STX",
            Mnemonic::Sty => "STY",
            Mnemonic::Tax => "TAX",
            Mnemonic::Tay => "TAY",
            Mnemonic::Tsx => "TSX",
            Mnemonic::Txa => "TXA",
            Mnemonic::Txs => "TXS",
            Mnemonic::Tya => "TYA",
            Mnemonic::Alr => "ALR",
            Mnemonic::Anc => "ANC",
            Mnemonic::Ane => "ANE",
            Mnemonic::Arr => "ARR",
            Mnemonic::Dcp => "DCP",
            Mnemonic::Isc => "ISC",
            Mnemonic::Las => "LAS",
            Mnemonic::Lax => "LAX",
            Mnemonic::Rla => "RLA",
            Mnemonic::Rra => "RRA",
            Mnemonic::Sax => "SAX",
            Mnemonic::Sbx => "SBX",
            Mnemonic::Sha => "SHA",
            Mnemonic::Shx => "SHX",
            Mnemonic::Shy => "SHY",
            Mnemonic::Slo => "SLO",
            Mnemonic::Sre => "SRE",
            Mnemonic::Tas => "TAS",
            Mnemonic::Jam => "???",
        }
    }
}

impl Op {
    /// Total instruction length in bytes (opcode + operand).
    pub fn len(&self) -> (n: u8)
        ensures
            n == mode_len(self.mode),
    {
        instr_len(self.mode)
    }

    /// True if this opcode is not a documented 6502 instruction.
    pub fn is_illegal(&self) -> (b: bool)
        ensures
            b == self.illegal,
    {
        self.illegal
    }
}

/// Instruction length in bytes for a given addressing mode.
pub fn instr_len(mode: AddrMode) -> (n: u8)
    ensures
        n == mode_len(mode),
        1 <= n <= 3,
{
    match mode {
        AddrMode::Imp | AddrMode::Acc | AddrMode::Ill => 1,
        AddrMode::Imm | AddrMode::Zp | AddrMode::Zpx | AddrMode::Zpy
        | AddrMode::Izx | AddrMode::Izy | AddrMode::Rel => 2,
        AddrMode::Abs | AddrMode::Abx | AddrMode::Aby | AddrMode::Ind => 3,
    }
}

/// The instruction an opcode stands for.
pub fn instruction(opcode: u8) -> (m: Mnemonic)
    ensures
        m == opcode_mnemonic(opcode),
{
    match opcode {
        0x61 | 0x65 | 0x69 | 0x6D | 0x71 | 0x75 | 0x79 | 0x7D => Mnemonic::Adc,
        0x21 | 0x25 | 0x29 | 0x2D | 0x31 | 0x35 | 0x39 | 0x3D => Mnemonic::And,
        0x06 | 0x0A | 0x0E | 0x16 | 0x1E => Mnemonic::Asl,
        0x90 => Mnemonic::Bcc,
        0xB0 => Mnemonic::Bcs,
        0xF0 => Mnemonic::Beq,
        0x24 | 0x2C => Mnemonic::Bit,
        0x30 => Mnemonic::Bmi,
        0xD0 => Mnemonic::Bne,
        0x10 => Mnemonic::Bpl,
        0x00 => Mnemonic::Brk,
        0x50 => Mnemonic::Bvc,
        0x70 => Mnemonic::Bvs,
        0x18 => Mnemonic::Clc,
        0xD8 => Mnemonic::Cld,
        0x58 => Mnemonic::Cli,
        0xB8 => Mnemonic::Clv,
        0xC1 | 0xC5 | 0xC9 | 0xCD | 0xD1 | 0xD5 | 0xD9 | 0xDD => Mnemonic::Cmp,
        0xE0 | 0xE4 | 0xEC => Mnemonic::Cpx,
        0xC0 | 0xC4 | 0xCC => Mnemonic::Cpy,
        0xC6 | 0xCE | 0xD6 | 0xDE => Mnemonic::Dec,
        0xCA => Mnemonic::Dex,
        0x88 => Mnemonic::Dey,
        0x41 | 0x45 | 0x49 | 0x4D | 0x51 | 0x55 | 0x59 | 0x5D => Mnemonic::Eor,
        0xE6 | 0xEE | 0xF6 | 0xFE => Mnemonic::Inc,
        0xE8 => Mnemonic::Inx,
        0xC8 => Mnemonic::Iny,
        0x4C | 0x6C => Mnemonic::Jmp,
        0x20 => Mnemonic::Jsr,
        0xA1 | 0xA5 | 0xA9 | 0xAD | 0xB1 | 0xB5 | 0xB9 | 0xBD => Mnemonic::Lda,
        0xA2 | 0xA6 | 0xAE | 0xB6 | 0xBE => Mnemonic::Ldx,
        0xA0 | 0xA4 | 0xAC | 0xB4 | 0xBC => Mnemonic::Ldy,
        0x46 | 0x4A | 0x4E | 0x56 | 0x5E => Mnemonic::Lsr,
        0x04 | 0x0C | 0x14 | 0x1A | 0x1C | 0x34 | 0x3A | 0x3C | 0x44 | 0x54 | 0x5A | 0x5C
        | 0x64 | 0x74 | 0x7A | 0x7C | 0x80 | 0x82 | 0x89 | 0xC2 | 0xD4 | 0xDA | 0xDC | 0xE2
        | 0xEA | 0xF4 | 0xFA | 0xFC => Mnemonic::Nop,
        0x01 | 0x05 | 0x09 | 0x0D | 0x11 | 0x15 | 0x19 | 0x1D => Mnemonic::Ora,
        0x48 => Mnemonic::Pha,
        0x08 => Mnemonic::Php,
        0x68 => Mnemonic::Pla,
        0x28 => Mnemonic::Plp,
        0x26 | 0x2A | 0x2E | 0x36 | 0x3E => Mnemonic::Rol,
        0x66 | 0x6A | 0x6E | 0x76 | 0x7E => Mnemonic::Ror,
        0x40 => Mnemonic::Rti,
        0x60 => Mnemonic::Rts,
        0xE1 | 0xE5 | 0xE9 | 0xEB | 0xED | 0xF1 | 0xF5 | 0xF9 | 0xFD => Mnemonic::Sbc,
        0x38 => Mnemonic::Sec,
        0xF8 => Mnemonic::Sed,
        0x78 => Mnemonic::Sei,
        0x81 | 0x85 | 0x8D | 0x91 | 0x95 | 0x99 | 0x9D => Mnemonic::Sta,
        0x86 | 0x8E | 0x96 => Mnemonic::Stx,
        0x84 | 0x8C | 0x94 => Mnemonic::Sty,
        0xAA => Mnemonic::Tax,
        0xA8 => Mnemonic::Tay,
        0xBA => Mnemonic::Tsx,
        0x8A => Mnemonic::Txa,
        0x9A => Mnemonic::Txs,
        0x98 => Mnemonic::Tya,
        0x4B => Mnemonic::Alr,
        0x0B | 0x2B => Mnemonic::Anc,
        0x8B => Mnemonic::Ane,
        0x6B => Mnemonic::Arr,
        0xC3 | 0xC7 | 0xCF | 0xD3 | 0xD7 | 0xDB | 0xDF => Mnemonic::Dcp,
        0xE3 | 0xE7 | 0xEF | 0xF3 | 0xF7 | 0xFB | 0xFF => Mnemonic::Isc,
        0xBB => Mnemonic::Las,
        0xA3 | 0xA7 | 0xAB | 0xAF | 0xB3 | 0xB7 | 0xBF => Mnemonic::Lax,
        0x23 | 0x27 | 0x2F | 0x33 | 0x37 | 0x3B | 0x3F => Mnemonic::Rla,
        0x63 | 0x67 | 0x6F | 0x73 | 0x77 | 0x7B | 0x7F => Mnemonic::Rra,
        0x83 | 0x87 | 0x8F | 0x97 => Mnemonic::Sax,
        0xCB => Mnemonic::Sbx,
        0x93 | 0x9F => Mnemonic::Sha,
        0x9E => Mnemonic::Shx,
        0x9C => Mnemonic::Shy,
        0x03 | 0x07 | 0x0F | 0x13 | 0x17 | 0x1B | 0x1F => Mnemonic::Slo,
        0x43 | 0x47 | 0x4F | 0x53 | 0x57 | 0x5B | 0x5F => Mnemonic::Sre,
        0x9B => Mnemonic::Tas,
        _ => Mnemonic::Jam,
    }
}

/// The addressing mode of an opcode.
pub fn addr_mode(opcode: u8) -> (mode: AddrMode)
    ensures
        mode == opcode_mode(opcode),
{
    match opcode {
        0x0A | 0x2A | 0x4A | 0x6A => AddrMode::Acc,
        0x09 | 0x0B | 0x29 | 0x2B | 0x49 | 0x4B | 0x69 | 0x6B | 0x80 | 0x82 | 0x89 | 0x8B
        | 0xA0 | 0xA2 | 0xA9 | 0xAB | 0xC0 | 0xC2 | 0xC9 | 0xCB | 0xE0 | 0xE2 | 0xE9 | 0xEB => AddrMode::Imm,
        0x04 | 0x05 | 0x06 | 0x07 | 0x24 | 0x25 | 0x26 | 0x27 | 0x44 | 0x45 | 0x46 | 0x47
        | 0x64 | 0x65 | 0x66 | 0x67 | 0x84 | 0x85 | 0x86 | 0x87 | 0xA4 | 0xA5 | 0xA6 | 0xA7
        | 0xC4 | 0xC5 | 0xC6 | 0xC7 | 0xE4 | 0xE5 | 0xE6 | 0xE7 => AddrMode::Zp,
        0x14 | 0x15 | 0x16 | 0x17 | 0x34 | 0x35 | 0x36 | 0x37 | 0x54 | 0x55 | 0x56 | 0x57
        | 0x74 | 0x75 | 0x76 | 0x77 | 0x94 | 0x95 | 0xB4 | 0xB5 | 0xD4 | 0xD5 | 0xD6 | 0xD7
        | 0xF4 | 0xF5 | 0xF6 | 0xF7 => AddrMode::Zpx,
        0x96 | 0x97 | 0xB6 | 0xB7 => AddrMode::Zpy,
        0x0C | 0x0D | 0x0E | 0x0F | 0x20 | 0x2C | 0x2D | 0x2E | 0x2F | 0x4C | 0x4D | 0x4E
        | 0x4F | 0x6D | 0x6E | 0x6F | 0x8C | 0x8D | 0x8E | 0x8F | 0xAC | 0xAD | 0xAE | 0xAF
        | 0xCC | 0xCD | 0xCE | 0xCF | 0xEC | 0xED | 0xEE | 0xEF => AddrMode::Abs,
        0x1C | 0x1D | 0x1E | 0x1F | 0x3C | 0x3D | 0x3E | 0x3F | 0x5C | 0x5D | 0x5E | 0x5F
        | 0x7C | 0x7D | 0x7E | 0x7F | 0x9C | 0x9D | 0xBC | 0xBD | 0xDC | 0xDD | 0xDE | 0xDF
        | 0xFC | 0xFD | 0xFE | 0xFF => AddrMode::Abx,
        0x19 | 0x1B | 0x39 | 0x3B | 0x59 | 0x5B | 0x79 | 0x7B | 0x99 | 0x9B | 0x9E | 0x9F
        | 0xB9 | 0xBB | 0xBE | 0xBF | 0xD9 | 0xDB | 0xF9 | 0xFB => AddrMode::Aby,
        0x6C => AddrMode::Ind,
        0x01 | 0x03 | 0x21 | 0x23 | 0x41 | 0x43 | 0x61 | 0x63 | 0x81 | 0x83 | 0xA1 | 0xA3
        | 0xC1 | 0xC3 | 0xE1 | 0xE3 => AddrMode::Izx,
        0x11 | 0x13 | 0x31 | 0x33 | 0x51 | 0x53 | 0x71 | 0x73 | 0x91 | 0x93 | 0xB1 | 0xB3
        | 0xD1 | 0xD3 | 0xF1 | 0xF3 => AddrMode::Izy,
        0x10 | 0x30 | 0x50 | 0x70 | 0x90 | 0xB0 | 0xD0 | 0xF0 => AddrMode::Rel,
        0x00 | 0x08 | 0x18 | 0x1A | 0x28 | 0x38 | 0x3A | 0x40 | 0x48 | 0x58 | 0x5A | 0x60
        | 0x68 | 0x78 | 0x7A | 0x88 | 0x8A | 0x98 | 0x9A | 0xA8 | 0xAA | 0xB8 | 0xBA | 0xC8
        | 0xCA | 0xD8 | 0xDA | 0xE8 | 0xEA | 0xF8 | 0xFA => AddrMode::Imp,
        _ => AddrMode::Ill,
    }
}

/// Decode a single opcode byte into its [`Op`].
pub fn decode(opcode: u8) -> (op: Op)
    ensures
        decodes(op, opcode),
{
    let m = instruction(opcode);
    let illegal = opcode % 4 == 3 || m == Mnemonic::Jam || m == Mnemonic::Shx
        || m == Mnemonic::Shy || (m == Mnemonic::Nop && opcode != 0xEA);
    Op { mnemonic: m.name(), mode: addr_mode(opcode), illegal }
}

/// The full 256-entry opcode table. Undocumented opcodes without a known effect
/// are spelled `???` and should be rendered as data by a disassembler.
pub fn build_table() -> (t: [Op; 256])
    ensures
        forall|k: int| 0 <= k < 256 ==> decodes(#[trigger] t@[k], k as u8),
{
    let mut t: [Op; 256] = [decode(0); 256];
    let mut k: usize = 0;
    while k < 256
        invariant
            k <= 256,
            forall|j: int| 0 <= j < k ==> decodes(#[trigger] t@[j], j as u8),
        decreases 256 - k,
    {
        t[k] = decode(k as u8);
        k += 1;
    }
    t
}

// ---- what holds of the map ----

/// How many of the opcodes below `n` are documented instructions.
pub open spec fn documented_below(n: int) -> int
    decreases n,
{
    if n <= 0 {
        0
    } else {
        documented_below(n - 1) + (if opcode_illegal((n - 1) as u8) { 0int } else { 1 })
    }
}

/// Of the 256 opcodes, 151 are documented instructions.
pub proof fn law_documented_opcodes()
    ensures
        documented_below(256) == 151,
{
    assert(documented_below(16) == 9) by {
        reveal_with_fuel(documented_below, 17);
    }
    assert(documented_below(32) == 17) by {
        reveal_with_fuel(documented_below, 17);
    }
    assert(documented_below(48) == 28) by {
        reveal_with_fuel(documented_below, 17);
    }
    assert(documented_below(64) == 36) by {
        reveal_with_fuel(documented_below, 17);
    }
    assert(documented_below(80) == 46) by {
        reveal_with_fuel(documented_below, 17);
    }
    assert(documented_below(96) == 54) by {
        reveal_with_fuel(documented_below, 17);
    }
    assert(documented_below(112) == 64) by {
        reveal_with_fuel(documented_below, 17);
    }
    assert(documented_below(128) == 72) by {
        reveal_with_fuel(documented_below, 17);
    }
    assert(documented_below(144) == 81) by {
        reveal_with_fuel(documented_below, 17);
    }
    assert(documented_below(160) == 90) by {
        reveal_with_fuel(documented_below, 17);
    }
    assert(documented_below(176) == 102) by {
        reveal_with_fuel(documented_below, 17);
    }
    assert(documented_below(192) == 113) by {
        reveal_with_fuel(documented_below, 17);
    }
    assert(documented_below(208) == 124) by {
        reveal_with_fuel(documented_below, 17);
    }
    assert(documented_below(224) == 132) by {
        reveal_with_fuel(documented_below, 17);
    }
    assert(documented_below(240) == 143) by {
        reveal_with_fuel(documented_below, 17);
    }
    assert(documented_below(256) == 151) by {
        reveal_with_fuel(documented_below, 17);
    }
}

/// Twelve opcodes jam the CPU: column 2 of every row of sixteen but rows 8, A, C
/// and E. No documented instruction does.
pub proof fn law_jams(opcode: u8)
    ensures
        opcode_mnemonic(opcode) == Mnemonic::Jam <==> (opcode == 0x02 || opcode == 0x12
            || opcode == 0x22 || opcode == 0x32 || opcode == 0x42 || opcode == 0x52
            || opcode == 0x62 || opcode == 0x72 || opcode == 0x92 || opcode == 0xB2
            || opcode == 0xD2 || opcode == 0xF2),
        opcode_mnemonic(opcode) == Mnemonic::Jam ==> opcode_illegal(opcode),
{
    assert(0 <= grid_row(opcode) < 8 && 0 <= grid_col(opcode) < 32
        && opcode == 32 * grid_row(opcode) + grid_col(opcode));
}

} // verus!
