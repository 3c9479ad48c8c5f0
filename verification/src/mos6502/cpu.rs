//! The MOS 6502 / 6510 CPU core.
//!
//! Executes all 151 official opcodes, including BCD (decimal) mode `ADC` and
//! `SBC` as NMOS silicon computes them, and the undocumented opcodes that real
//! software relies on. The core talks to the outside world only through the
//! [`Bus`] trait, so the same executor drives the full C64 machine, the 1541
//! drive, or a flat RAM. Cycle counts have the common page-cross and
//! branch-taken penalties.
//!
//! What an instruction does is written down as a function on a [`Core`], the
//! register file together with the bus. The instructions fall into a few
//! families (read an operand, store, read-modify-write, implied, stack,
//! transfer of control), and each family has one rule.

use vstd::prelude::*;
use crate::mos6502::{addr_mode, instruction, AddrMode, Mnemonic};

verus! {

/// The system bus the CPU reads and writes. `read` takes `&mut self` because
/// hardware reads (I/O registers) can have side effects.
///
/// A bus is described by three functions: the byte a read returns, and the bus
/// that a read and a write leave behind. An implementation that leaves them out
/// is a bus of which nothing is known.
pub trait Bus: Sized {
    /// The bus after a read of `addr`.
    open spec fn after_read(self, addr: u16) -> Self {
        arbitrary()
    }

    /// The byte that a read of `addr` returns.
    open spec fn read_value(self, addr: u16) -> u8 {
        arbitrary()
    }

    /// The bus after `val` has been written to `addr`.
    open spec fn after_write(self, addr: u16, val: u8) -> Self {
        arbitrary()
    }

    fn read(&mut self, addr: u16) -> (v: u8)
        ensures
            *final(self) == old(self).after_read(addr),
            v == old(self).read_value(addr),
    ;

    fn write(&mut self, addr: u16, val: u8)
        ensures
            *final(self) == old(self).after_write(addr, val),
    ;
}

/// 6502 register file and status flags.
#[derive(Debug, Clone, Copy)]
pub struct Cpu {
    pub a: u8,
    pub x: u8,
    pub y: u8,
    pub sp: u8,
    pub pc: u16,
    // Status flags, unpacked for clarity.
    pub c: bool,
    pub z: bool,
    pub i: bool,
    pub d: bool,
    pub v: bool,
    pub n: bool,
    /// Total cycles executed since construction.
    pub cycles: u64,
}

pub const STACK_BASE: u16 = 0x0100;
pub const VEC_NMI: u16 = 0xFFFA;
pub const VEC_RESET: u16 = 0xFFFC;
pub const VEC_IRQ: u16 = 0xFFFE;

/// The register file and the bus it sees.
pub struct Core<B> {
    pub cpu: Cpu,
    pub bus: B,
}

// ---- words, bits and signs ----

/// The 16-bit word with low byte `lo` and high byte `hi`.
pub open spec fn word_of(lo: u8, hi: u8) -> u16 {
    (lo + 256 * hi) as u16
}

/// The high byte of a word.
pub open spec fn hi_of(w: u16) -> u8 {
    (w / 256) as u8
}

/// The low byte of a word.
pub open spec fn lo_of(w: u16) -> u8 {
    (w % 256) as u8
}

/// A byte read as a two's complement number.
pub open spec fn signed(b: u8) -> int {
    if b < 128 { b as int } else { b - 256 }
}

/// A flag as the number it adds to a sum.
pub open spec fn flag_value(b: bool) -> int {
    if b { 1 } else { 0 }
}

/// Do two addresses lie in different 256-byte pages?
pub open spec fn pages_differ(a: u16, b: u16) -> bool {
    a / 256 != b / 256
}

// ---- elementary bus operations ----

pub open spec fn read_byte<B: Bus>(s: Core<B>, addr: u16) -> (Core<B>, u8) {
    (Core { bus: s.bus.after_read(addr), ..s }, s.bus.read_value(addr))
}

pub open spec fn write_byte<B: Bus>(s: Core<B>, addr: u16, val: u8) -> Core<B> {
    Core { bus: s.bus.after_write(addr, val), ..s }
}

/// Read the byte at the program counter and move past it.
pub open spec fn fetch_byte<B: Bus>(s: Core<B>) -> (Core<B>, u8) {
    let (t, b) = read_byte(s, s.cpu.pc);
    (Core { cpu: Cpu { pc: s.cpu.pc.wrapping_add(1), ..s.cpu }, ..t }, b)
}

/// Fetch a word, low byte first.
pub open spec fn fetch_word<B: Bus>(s: Core<B>) -> (Core<B>, u16) {
    let (t, lo) = fetch_byte(s);
    let (u, hi) = fetch_byte(t);
    (u, word_of(lo, hi))
}

/// Read a word whose two bytes lie at `lo_addr` and `hi_addr`.
pub open spec fn read_word_at<B: Bus>(s: Core<B>, lo_addr: u16, hi_addr: u16) -> (Core<B>, u16) {
    let (t, lo) = read_byte(s, lo_addr);
    let (u, hi) = read_byte(t, hi_addr);
    (u, word_of(lo, hi))
}

/// Read a word at `addr`.
pub open spec fn read_word<B: Bus>(s: Core<B>, addr: u16) -> (Core<B>, u16) {
    read_word_at(s, addr, addr.wrapping_add(1))
}

/// The address that follows `addr` within its page: where `JMP (ind)` looks for
/// the high byte of its target.
pub open spec fn next_in_page(addr: u16) -> u16 {
    if addr % 256 == 255 { (addr - 255) as u16 } else { (addr + 1) as u16 }
}

/// The address the stack pointer stands for.
pub open spec fn stack_addr(sp: u8) -> u16 {
    (STACK_BASE + sp) as u16
}

pub open spec fn push_byte<B: Bus>(s: Core<B>, val: u8) -> Core<B> {
    let t = write_byte(s, stack_addr(s.cpu.sp), val);
    Core { cpu: Cpu { sp: s.cpu.sp.wrapping_sub(1), ..s.cpu }, ..t }
}

pub open spec fn pull_byte<B: Bus>(s: Core<B>) -> (Core<B>, u8) {
    let sp = s.cpu.sp.wrapping_add(1);
    read_byte(Core { cpu: Cpu { sp, ..s.cpu }, ..s }, stack_addr(sp))
}

/// Push a word so that it reads back low byte first.
pub open spec fn push_word<B: Bus>(s: Core<B>, w: u16) -> Core<B> {
    push_byte(push_byte(s, hi_of(w)), lo_of(w))
}

pub open spec fn pull_word<B: Bus>(s: Core<B>) -> (Core<B>, u16) {
    let (t, lo) = pull_byte(s);
    let (u, hi) = pull_byte(t);
    (u, word_of(lo, hi))
}

// ---- the status register ----

/// The status register as it is pushed: bit 5 is always set, bit 4 tells a
/// software interrupt (`brk`) from a hardware one.
pub open spec fn status_byte(cpu: Cpu, brk: bool) -> u8 {
    (flag_value(cpu.c) + 2 * flag_value(cpu.z) + 4 * flag_value(cpu.i) + 8 * flag_value(cpu.d)
        + 16 * flag_value(brk) + 32 + 64 * flag_value(cpu.v) + 128 * flag_value(cpu.n)) as u8
}

/// The registers with the flags of a pulled status byte. Bits 4 and 5 do not
/// exist in the CPU and are ignored.
pub open spec fn with_status(cpu: Cpu, p: u8) -> Cpu {
    Cpu {
        c: p % 2 == 1,
        z: p / 2 % 2 == 1,
        i: p / 4 % 2 == 1,
        d: p / 8 % 2 == 1,
        v: p / 64 % 2 == 1,
        n: p / 128 % 2 == 1,
        ..cpu
    }
}

/// Z and N as a result `val` leaves them.
pub open spec fn with_zn(cpu: Cpu, val: u8) -> Cpu {
    Cpu { z: val == 0, n: val >= 128, ..cpu }
}

// ---- addressing ----

/// An effective address: the core after its operand bytes were fetched, the
/// address, and whether indexing crossed a page.
pub struct Operand<B> {
    pub sys: Core<B>,
    pub addr: u16,
    pub crossed: bool,
}

/// An address `base` indexed by a register.
pub open spec fn indexed<B: Bus>(sys: Core<B>, base: u16, index: u8) -> Operand<B> {
    let addr = base.wrapping_add(index as u16);
    Operand { sys, addr, crossed: pages_differ(base, addr) }
}

/// The effective address for a mode. The modes without a memory operand give
/// address zero and fetch nothing.
pub open spec fn effective<B: Bus>(s: Core<B>, mode: AddrMode) -> Operand<B> {
    match mode {
        AddrMode::Imm => Operand {
            sys: Core { cpu: Cpu { pc: s.cpu.pc.wrapping_add(1), ..s.cpu }, ..s },
            addr: s.cpu.pc,
            crossed: false,
        },
        AddrMode::Zp => {
            let (t, b) = fetch_byte(s);
            Operand { sys: t, addr: b as u16, crossed: false }
        },
        AddrMode::Zpx => {
            let (t, b) = fetch_byte(s);
            Operand { sys: t, addr: b.wrapping_add(s.cpu.x) as u16, crossed: false }
        },
        AddrMode::Zpy => {
            let (t, b) = fetch_byte(s);
            Operand { sys: t, addr: b.wrapping_add(s.cpu.y) as u16, crossed: false }
        },
        AddrMode::Abs => {
            let (t, w) = fetch_word(s);
            Operand { sys: t, addr: w, crossed: false }
        },
        AddrMode::Abx => {
            let (t, w) = fetch_word(s);
            indexed(t, w, s.cpu.x)
        },
        AddrMode::Aby => {
            let (t, w) = fetch_word(s);
            indexed(t, w, s.cpu.y)
        },
        AddrMode::Ind => {
            let (t, ptr) = fetch_word(s);
            let (u, w) = read_word_at(t, ptr, next_in_page(ptr));
            Operand { sys: u, addr: w, crossed: false }
        },
        AddrMode::Izx => {
            let (t, b) = fetch_byte(s);
            let zp = b.wrapping_add(s.cpu.x);
            let (u, w) = read_word_at(t, zp as u16, zp.wrapping_add(1) as u16);
            Operand { sys: u, addr: w, crossed: false }
        },
        AddrMode::Izy => {
            let (t, zp) = fetch_byte(s);
            let (u, w) = read_word_at(t, zp as u16, zp.wrapping_add(1) as u16);
            indexed(u, w, s.cpu.y)
        },
        AddrMode::Imp | AddrMode::Acc | AddrMode::Rel | AddrMode::Ill => Operand {
            sys: s,
            addr: 0,
            crossed: false,
        },
    }
}

// ---- arithmetic ----

/// `A + val + C` in binary: the low byte is the result, the carry is the ninth
/// bit, V says that the signed sum does not fit in a byte.
pub open spec fn add_binary(cpu: Cpu, val: u8) -> Cpu {
    let sum = cpu.a + val + flag_value(cpu.c);
    let signed_sum = signed(cpu.a) + signed(val) + flag_value(cpu.c);
    let r = (sum % 256) as u8;
    with_zn(Cpu { a: r, c: sum > 255, v: !(-128 <= signed_sum <= 127), ..cpu }, r)
}

/// The sum of two low digits and the carry, corrected to decimal: a digit, plus
/// sixteen where it carries into the high digit.
pub open spec fn low_digit_sum(a: u8, val: u8, c: bool) -> int {
    let al = a % 16 + val % 16 + flag_value(c);
    if al >= 10 { (al + 6) % 16 + 16 } else { al }
}

/// `A + val + C` in decimal mode, NMOS rules: N and V come from the sum before
/// the high digit is corrected, Z from the binary sum.
pub open spec fn add_decimal(cpu: Cpu, val: u8) -> Cpu {
    let mid = cpu.a / 16 * 16 + val / 16 * 16 + low_digit_sum(cpu.a, val, cpu.c);
    let sum = if mid >= 0xA0 { mid + 0x60 } else { mid };
    let mid_negative = mid / 128 % 2 == 1;
    Cpu {
        a: (sum % 256) as u8,
        c: sum >= 256,
        z: (cpu.a + val + flag_value(cpu.c)) % 256 == 0,
        n: mid_negative,
        v: (cpu.a >= 128) == (val >= 128) && (cpu.a >= 128) != mid_negative,
        ..cpu
    }
}

/// Add with carry.
pub open spec fn add_with_carry(cpu: Cpu, val: u8) -> Cpu {
    if cpu.d { add_decimal(cpu, val) } else { add_binary(cpu, val) }
}

/// `A - val - (1 - C)` in binary.
pub open spec fn sub_binary(cpu: Cpu, val: u8) -> Cpu {
    let diff = cpu.a - val - (1 - flag_value(cpu.c));
    let signed_diff = signed(cpu.a) - signed(val) - (1 - flag_value(cpu.c));
    let r = (diff % 256) as u8;
    with_zn(Cpu { a: r, c: diff >= 0, v: !(-128 <= signed_diff <= 127), ..cpu }, r)
}

/// The accumulator of a decimal subtraction.
pub open spec fn sub_decimal_digits(a: u8, val: u8, c: bool) -> u8 {
    let al = a % 16 - val % 16 - (1 - flag_value(c));
    let low = if al < 0 { (al - 6) % 16 - 16 } else { al };
    let diff = a / 16 * 16 - val / 16 * 16 + low;
    ((if diff < 0 { diff - 0x60 } else { diff }) % 256) as u8
}

/// Subtract with carry. In decimal mode only the accumulator differs from a
/// binary subtraction.
pub open spec fn sub_with_carry(cpu: Cpu, val: u8) -> Cpu {
    let r = sub_binary(cpu, val);
    if cpu.d { Cpu { a: sub_decimal_digits(cpu.a, val, cpu.c), ..r } } else { r }
}

/// Compare a register with a value: C says "not less", Z and N are those of the
/// difference.
pub open spec fn compared(cpu: Cpu, reg: u8, val: u8) -> Cpu {
    with_zn(Cpu { c: reg >= val, ..cpu }, reg.wrapping_sub(val))
}

// ---- the instruction families ----

/// The instructions that read an operand and change registers only.
pub open spec fn reads_operand(m: Mnemonic) -> bool {
    match m {
        Mnemonic::Lda | Mnemonic::Ldx | Mnemonic::Ldy | Mnemonic::And | Mnemonic::Ora
        | Mnemonic::Eor | Mnemonic::Bit | Mnemonic::Adc | Mnemonic::Sbc | Mnemonic::Cmp
        | Mnemonic::Cpx | Mnemonic::Cpy | Mnemonic::Lax | Mnemonic::Anc | Mnemonic::Alr
        | Mnemonic::Arr | Mnemonic::Sbx | Mnemonic::Las | Mnemonic::Ane => true,
        _ => false,
    }
}

/// The registers after a reading instruction has seen `val`.
pub open spec fn after_operand(cpu: Cpu, m: Mnemonic, val: u8) -> Cpu {
    match m {
        Mnemonic::Lda => with_zn(Cpu { a: val, ..cpu }, val),
        Mnemonic::Ldx => with_zn(Cpu { x: val, ..cpu }, val),
        Mnemonic::Ldy => with_zn(Cpu { y: val, ..cpu }, val),
        Mnemonic::And => with_zn(Cpu { a: cpu.a & val, ..cpu }, cpu.a & val),
        Mnemonic::Ora => with_zn(Cpu { a: cpu.a | val, ..cpu }, cpu.a | val),
        Mnemonic::Eor => with_zn(Cpu { a: cpu.a ^ val, ..cpu }, cpu.a ^ val),
        Mnemonic::Bit => Cpu {
            z: cpu.a & val == 0,
            v: val / 64 % 2 == 1,
            n: val >= 128,
            ..cpu
        },
        Mnemonic::Adc => add_with_carry(cpu, val),
        Mnemonic::Sbc => sub_with_carry(cpu, val),
        Mnemonic::Cmp => compared(cpu, cpu.a, val),
        Mnemonic::Cpx => compared(cpu, cpu.x, val),
        Mnemonic::Cpy => compared(cpu, cpu.y, val),
        Mnemonic::Lax => with_zn(Cpu { a: val, x: val, ..cpu }, val),
        Mnemonic::Anc => {
            let r = cpu.a & val;
            with_zn(Cpu { a: r, c: r >= 128, ..cpu }, r)
        },
        Mnemonic::Alr => {
            let t = cpu.a & val;
            with_zn(Cpu { a: t / 2, c: t % 2 == 1, ..cpu }, t / 2)
        },
        Mnemonic::Arr => {
            let t = cpu.a & val;
            let r = (t / 2 + 128 * flag_value(cpu.c)) as u8;
            with_zn(Cpu { a: r, c: r / 64 % 2 == 1, v: r / 64 % 2 != r / 32 % 2, ..cpu }, r)
        },
        Mnemonic::Sbx => {
            let t = cpu.a & cpu.x;
            let r = t.wrapping_sub(val);
            with_zn(Cpu { x: r, c: t >= val, ..cpu }, r)
        },
        Mnemonic::Las => {
            let r = val & cpu.sp;
            with_zn(Cpu { a: r, x: r, sp: r, ..cpu }, r)
        },
        Mnemonic::Ane => {
            let r = (cpu.a | 0xEE) & cpu.x & val;
            with_zn(Cpu { a: r, ..cpu }, r)
        },
        _ => cpu,
    }
}

/// The instructions that store a byte.
pub open spec fn stores(m: Mnemonic) -> bool {
    match m {
        Mnemonic::Sta | Mnemonic::Stx | Mnemonic::Sty | Mnemonic::Sax | Mnemonic::Sha
        | Mnemonic::Shx | Mnemonic::Shy | Mnemonic::Tas => true,
        _ => false,
    }
}

/// The byte a storing instruction writes to `addr`. The unstable ones mix in
/// the high byte of the address plus one.
pub open spec fn stored_byte(cpu: Cpu, m: Mnemonic, addr: u16) -> u8 {
    let hi = hi_of(addr).wrapping_add(1);
    match m {
        Mnemonic::Sta => cpu.a,
        Mnemonic::Stx => cpu.x,
        Mnemonic::Sty => cpu.y,
        Mnemonic::Sax => cpu.a & cpu.x,
        Mnemonic::Sha => cpu.a & cpu.x & hi,
        Mnemonic::Shx => cpu.x & hi,
        Mnemonic::Shy => cpu.y & hi,
        _ => (cpu.a & cpu.x) & hi,
    }
}

/// The registers after a storing instruction: only `TAS` changes one.
pub open spec fn after_store(cpu: Cpu, m: Mnemonic) -> Cpu {
    if m == Mnemonic::Tas { Cpu { sp: cpu.a & cpu.x, ..cpu } } else { cpu }
}

/// The read-modify-write instructions.
pub open spec fn modifies(m: Mnemonic) -> bool {
    match m {
        Mnemonic::Inc | Mnemonic::Dec | Mnemonic::Asl | Mnemonic::Lsr | Mnemonic::Rol
        | Mnemonic::Ror | Mnemonic::Slo | Mnemonic::Rla | Mnemonic::Sre | Mnemonic::Rra
        | Mnemonic::Dcp | Mnemonic::Isc => true,
        _ => false,
    }
}

/// The read-modify-write half of an instruction: an undocumented one first does
/// what this documented one does.
pub open spec fn modifying_half(m: Mnemonic) -> Mnemonic {
    match m {
        Mnemonic::Slo => Mnemonic::Asl,
        Mnemonic::Rla => Mnemonic::Rol,
        Mnemonic::Sre => Mnemonic::Lsr,
        Mnemonic::Rra => Mnemonic::Ror,
        Mnemonic::Dcp => Mnemonic::Dec,
        Mnemonic::Isc => Mnemonic::Inc,
        _ => m,
    }
}

/// The accumulator half: what an undocumented read-modify-write instruction
/// then does with the byte it has written.
pub open spec fn accumulating_half(m: Mnemonic) -> Mnemonic {
    match m {
        Mnemonic::Slo => Mnemonic::Ora,
        Mnemonic::Rla => Mnemonic::And,
        Mnemonic::Sre => Mnemonic::Eor,
        Mnemonic::Rra => Mnemonic::Adc,
        Mnemonic::Dcp => Mnemonic::Cmp,
        Mnemonic::Isc => Mnemonic::Sbc,
        _ => Mnemonic::Nop,
    }
}

/// The byte that a documented read-modify-write instruction makes of `val`.
pub open spec fn modified_byte(c: bool, m: Mnemonic, val: u8) -> u8 {
    match m {
        Mnemonic::Inc => val.wrapping_add(1),
        Mnemonic::Dec => val.wrapping_sub(1),
        Mnemonic::Asl => (val % 128 * 2) as u8,
        Mnemonic::Rol => (val % 128 * 2 + flag_value(c)) as u8,
        Mnemonic::Lsr => val / 2,
        _ => (val / 2 + 128 * flag_value(c)) as u8,
    }
}

/// The carry that a documented read-modify-write instruction leaves: the bit a
/// shift pushes out.
pub open spec fn modified_carry(c: bool, m: Mnemonic, val: u8) -> bool {
    match m {
        Mnemonic::Asl | Mnemonic::Rol => val >= 128,
        Mnemonic::Lsr | Mnemonic::Ror => val % 2 == 1,
        _ => c,
    }
}

/// The registers after a documented read-modify-write instruction on `val`.
pub open spec fn after_modify_half(cpu: Cpu, m: Mnemonic, val: u8) -> Cpu {
    with_zn(
        Cpu { c: modified_carry(cpu.c, m, val), ..cpu },
        modified_byte(cpu.c, m, val),
    )
}

/// The registers after a read-modify-write instruction on `val`, and the byte
/// that it writes back.
pub open spec fn after_modify(cpu: Cpu, m: Mnemonic, val: u8) -> (Cpu, u8) {
    let half = modifying_half(m);
    let w = modified_byte(cpu.c, half, val);
    (after_operand(after_modify_half(cpu, half, val), accumulating_half(m), w), w)
}

/// The two-cycle instructions on registers and flags alone.
pub open spec fn implied(m: Mnemonic) -> bool {
    match m {
        Mnemonic::Tax | Mnemonic::Tay | Mnemonic::Txa | Mnemonic::Tya | Mnemonic::Tsx
        | Mnemonic::Txs | Mnemonic::Inx | Mnemonic::Iny | Mnemonic::Dex | Mnemonic::Dey
        | Mnemonic::Clc | Mnemonic::Sec | Mnemonic::Cli | Mnemonic::Sei | Mnemonic::Cld
        | Mnemonic::Sed | Mnemonic::Clv | Mnemonic::Jam => true,
        _ => false,
    }
}

/// The registers after an implied instruction. A jam does nothing.
pub open spec fn after_implied(cpu: Cpu, m: Mnemonic) -> Cpu {
    match m {
        Mnemonic::Tax => with_zn(Cpu { x: cpu.a, ..cpu }, cpu.a),
        Mnemonic::Tay => with_zn(Cpu { y: cpu.a, ..cpu }, cpu.a),
        Mnemonic::Txa => with_zn(Cpu { a: cpu.x, ..cpu }, cpu.x),
        Mnemonic::Tya => with_zn(Cpu { a: cpu.y, ..cpu }, cpu.y),
        Mnemonic::Tsx => with_zn(Cpu { x: cpu.sp, ..cpu }, cpu.sp),
        Mnemonic::Txs => Cpu { sp: cpu.x, ..cpu },
        Mnemonic::Inx => with_zn(Cpu { x: cpu.x.wrapping_add(1), ..cpu }, cpu.x.wrapping_add(1)),
        Mnemonic::Iny => with_zn(Cpu { y: cpu.y.wrapping_add(1), ..cpu }, cpu.y.wrapping_add(1)),
        Mnemonic::Dex => with_zn(Cpu { x: cpu.x.wrapping_sub(1), ..cpu }, cpu.x.wrapping_sub(1)),
        Mnemonic::Dey => with_zn(Cpu { y: cpu.y.wrapping_sub(1), ..cpu }, cpu.y.wrapping_sub(1)),
        Mnemonic::Clc => Cpu { c: false, ..cpu },
        Mnemonic::Sec => Cpu { c: true, ..cpu },
        Mnemonic::Cli => Cpu { i: false, ..cpu },
        Mnemonic::Sei => Cpu { i: true, ..cpu },
        Mnemonic::Cld => Cpu { d: false, ..cpu },
        Mnemonic::Sed => Cpu { d: true, ..cpu },
        Mnemonic::Clv => Cpu { v: false, ..cpu },
        _ => cpu,
    }
}

/// The conditional branches.
pub open spec fn branches(m: Mnemonic) -> bool {
    match m {
        Mnemonic::Bpl | Mnemonic::Bmi | Mnemonic::Bvc | Mnemonic::Bvs | Mnemonic::Bcc
        | Mnemonic::Bcs | Mnemonic::Bne | Mnemonic::Beq => true,
        _ => false,
    }
}

/// Is a branch taken?
pub open spec fn branch_taken(cpu: Cpu, m: Mnemonic) -> bool {
    match m {
        Mnemonic::Bpl => !cpu.n,
        Mnemonic::Bmi => cpu.n,
        Mnemonic::Bvc => !cpu.v,
        Mnemonic::Bvs => cpu.v,
        Mnemonic::Bcc => !cpu.c,
        Mnemonic::Bcs => cpu.c,
        Mnemonic::Bne => !cpu.z,
        _ => cpu.z,
    }
}

/// Where a branch at an offset from `from` goes.
pub open spec fn branch_target(from: u16, offset: u8) -> u16 {
    ((from + signed(offset)) % 65536) as u16
}

// ---- cycles ----

/// Cycles of a reading instruction, with the page-cross penalty.
pub open spec fn read_cycles(mode: AddrMode, crossed: bool) -> u8 {
    match mode {
        AddrMode::Zp => 3,
        AddrMode::Zpx | AddrMode::Zpy | AddrMode::Abs => 4,
        AddrMode::Abx | AddrMode::Aby => if crossed { 5 } else { 4 },
        AddrMode::Izx => 6,
        AddrMode::Izy => if crossed { 6 } else { 5 },
        _ => 2,
    }
}

/// Cycles of a storing instruction: indexing always pays for the page.
pub open spec fn store_cycles(mode: AddrMode) -> u8 {
    match mode {
        AddrMode::Zp => 3,
        AddrMode::Zpx | AddrMode::Zpy | AddrMode::Abs => 4,
        AddrMode::Abx | AddrMode::Aby => 5,
        AddrMode::Izx | AddrMode::Izy => 6,
        _ => 2,
    }
}

/// Cycles of a read-modify-write instruction: always the worst case.
pub open spec fn modify_cycles(mode: AddrMode) -> u8 {
    match mode {
        AddrMode::Zp => 5,
        AddrMode::Zpx | AddrMode::Abs => 6,
        AddrMode::Abx | AddrMode::Aby => 7,
        AddrMode::Izx | AddrMode::Izy => 8,
        _ => 2,
    }
}

// ---- one instruction ----

/// Enter an interrupt handler: stack the program counter and the status, mask
/// further interrupts, jump through `vector`.
pub open spec fn enter_interrupt<B: Bus>(s: Core<B>, vector: u16, brk: bool) -> Core<B> {
    let t = push_byte(push_word(s, s.cpu.pc), status_byte(s.cpu, brk));
    let (u, pc) = read_word(t, vector);
    Core { cpu: Cpu { pc, i: true, ..u.cpu }, ..u }
}

/// A hardware interrupt: seven cycles, B clear in the stacked status.
pub open spec fn hardware_interrupt<B: Bus>(s: Core<B>, vector: u16) -> Core<B> {
    let t = enter_interrupt(s, vector, false);
    Core { cpu: Cpu { cycles: t.cpu.cycles.wrapping_add(7), ..t.cpu }, ..t }
}

/// The core after an instruction whose opcode has been fetched, and the cycles
/// it takes.
pub open spec fn after_instruction<B: Bus>(s: Core<B>, m: Mnemonic, mode: AddrMode) -> (Core<B>, u8) {
    if reads_operand(m) {
        let o = effective(s, mode);
        let (t, val) = read_byte(o.sys, o.addr);
        (Core { cpu: after_operand(t.cpu, m, val), ..t }, read_cycles(mode, o.crossed))
    } else if stores(m) {
        let o = effective(s, mode);
        let t = write_byte(o.sys, o.addr, stored_byte(o.sys.cpu, m, o.addr));
        (Core { cpu: after_store(t.cpu, m), ..t }, store_cycles(mode))
    } else if modifies(m) {
        if mode == AddrMode::Acc {
            let (cpu, w) = after_modify(s.cpu, m, s.cpu.a);
            (Core { cpu: Cpu { a: w, ..cpu }, ..s }, 2)
        } else {
            let o = effective(s, mode);
            let (t, val) = read_byte(o.sys, o.addr);
            let (cpu, w) = after_modify(t.cpu, m, val);
            (Core { cpu, ..write_byte(t, o.addr, w) }, modify_cycles(mode))
        }
    } else if implied(m) {
        (Core { cpu: after_implied(s.cpu, m), ..s }, 2)
    } else if branches(m) {
        after_branch(s, branch_taken(s.cpu, m))
    } else {
        after_control(s, m, mode)
    }
}

/// A branch: three cycles when taken, one more where it leaves the page.
pub open spec fn after_branch<B: Bus>(s: Core<B>, taken: bool) -> (Core<B>, u8) {
    let (t, offset) = fetch_byte(s);
    if taken {
        let pc = branch_target(t.cpu.pc, offset);
        (Core { cpu: Cpu { pc, ..t.cpu }, ..t }, if pages_differ(t.cpu.pc, pc) { 4 } else { 3 })
    } else {
        (t, 2)
    }
}

/// The remaining instructions: stack, jumps, calls, interrupts and `NOP`.
pub open spec fn after_control<B: Bus>(s: Core<B>, m: Mnemonic, mode: AddrMode) -> (Core<B>, u8) {
    match m {
        Mnemonic::Pha => (push_byte(s, s.cpu.a), 3),
        Mnemonic::Php => (push_byte(s, status_byte(s.cpu, true)), 3),
        Mnemonic::Pla => {
            let (t, val) = pull_byte(s);
            (Core { cpu: with_zn(Cpu { a: val, ..t.cpu }, val), ..t }, 4)
        },
        Mnemonic::Plp => {
            let (t, p) = pull_byte(s);
            (Core { cpu: with_status(t.cpu, p), ..t }, 4)
        },
        Mnemonic::Jmp => {
            let o = effective(s, mode);
            (
                Core { cpu: Cpu { pc: o.addr, ..o.sys.cpu }, ..o.sys },
                if mode == AddrMode::Ind { 5 } else { 3 },
            )
        },
        Mnemonic::Jsr => {
            // The stacked address is that of the last byte of the instruction.
            let (t, target) = fetch_word(s);
            let u = push_word(t, t.cpu.pc.wrapping_sub(1));
            (Core { cpu: Cpu { pc: target, ..u.cpu }, ..u }, 6)
        },
        Mnemonic::Rts => {
            let (t, w) = pull_word(s);
            (Core { cpu: Cpu { pc: w.wrapping_add(1), ..t.cpu }, ..t }, 6)
        },
        Mnemonic::Rti => {
            let (t, p) = pull_byte(s);
            let (u, w) = pull_word(Core { cpu: with_status(t.cpu, p), ..t });
            (Core { cpu: Cpu { pc: w, ..u.cpu }, ..u }, 6)
        },
        Mnemonic::Brk => {
            // A two-byte instruction: the stacked address skips the padding byte.
            let t = Core { cpu: Cpu { pc: s.cpu.pc.wrapping_add(1), ..s.cpu }, ..s };
            (enter_interrupt(t, VEC_IRQ, true), 7)
        },
        _ => {
            // NOP: the undocumented ones skip an operand that they do not read.
            if mode == AddrMode::Imp {
                (s, 2)
            } else {
                let o = effective(s, mode);
                (o.sys, read_cycles(mode, o.crossed))
            }
        },
    }
}

/// Fetch and execute one instruction.
pub open spec fn after_step<B: Bus>(s: Core<B>) -> (Core<B>, u8) {
    let (t, opcode) = fetch_byte(s);
    let (u, cycles) = after_instruction(
        t,
        crate::mos6502::opcode_mnemonic(opcode),
        crate::mos6502::opcode_mode(opcode),
    );
    (Core { cpu: Cpu { cycles: u.cpu.cycles.wrapping_add(cycles as u64), ..u.cpu }, ..u }, cycles)
}

// ---- the executor ----

fn word(lo: u8, hi: u8) -> (w: u16)
    ensures
        w == word_of(lo, hi),
{
    lo as u16 + 256 * (hi as u16)
}

fn page_crossed(a: u16, b: u16) -> (r: bool)
    ensures
        r == pages_differ(a, b),
{
    a / 256 != b / 256
}

/// Where a branch with offset byte `off` goes.
fn offset_from(from: u16, off: u8) -> (to: u16)
    ensures
        to == branch_target(from, off),
{
    if off < 0x80 {
        from.wrapping_add(off as u16)
    } else {
        from.wrapping_sub(0x100 - off as u16)
    }
}

/// The borrow of a decimal subtraction in positive numbers: `al` is the
/// difference of the low digits, `h` that of the high digits.
proof fn lemma_decimal_borrow(al: int, h: int)
    requires
        -16 <= al <= 15,
        -15 <= h <= 15,
    ensures
        al < 0 ==> (al - 6) % 16 == (al + 16 + 10) % 16,
        ({
            let diff = h * 16 + (if al < 0 { (al - 6) % 16 - 16 } else { al });
            &&& diff < 0 ==> (diff - 0x60) % 256 == (diff + 256 + 160) % 256
            &&& diff >= 0 ==> diff % 256 == (diff + 256) % 256
        }),
{
}

/// The digits of a decimal subtraction.
fn decimal_difference(a: u8, val: u8, c: bool) -> (r: u8)
    ensures
        r == sub_decimal_digits(a, val, c),
{
    // Sixteen more than the difference of the low digits, so that it stays positive.
    let al: u16 = 16 + (a % 16) as u16 - (val % 16) as u16 - (if c { 0 } else { 1 });
    let low: u16 = if al < 16 { (al + 10) % 16 } else { al };
    // 256 more than the difference.
    let diff: u16 = 240 + (a / 16 * 16) as u16 - (val / 16 * 16) as u16 + low;
    proof {
        lemma_decimal_borrow(a % 16 - val % 16 - (1 - flag_value(c)), a / 16 - val / 16);
    }
    if diff < 256 {
        ((diff + 160) % 256) as u8
    } else {
        (diff % 256) as u8
    }
}

fn read_cost(mode: AddrMode, crossed: bool) -> (n: u8)
    ensures
        n == read_cycles(mode, crossed),
{
    match mode {
        AddrMode::Zp => 3,
        AddrMode::Zpx | AddrMode::Zpy | AddrMode::Abs => 4,
        AddrMode::Abx | AddrMode::Aby => if crossed { 5 } else { 4 },
        AddrMode::Izx => 6,
        AddrMode::Izy => if crossed { 6 } else { 5 },
        _ => 2,
    }
}

fn store_cost(mode: AddrMode) -> (n: u8)
    ensures
        n == store_cycles(mode),
{
    match mode {
        AddrMode::Zp => 3,
        AddrMode::Zpx | AddrMode::Zpy | AddrMode::Abs => 4,
        AddrMode::Abx | AddrMode::Aby => 5,
        AddrMode::Izx | AddrMode::Izy => 6,
        _ => 2,
    }
}

fn rmw_cost(mode: AddrMode) -> (n: u8)
    ensures
        n == modify_cycles(mode),
{
    match mode {
        AddrMode::Zp => 5,
        AddrMode::Zpx | AddrMode::Abs => 6,
        AddrMode::Abx | AddrMode::Aby => 7,
        AddrMode::Izx | AddrMode::Izy => 8,
        _ => 2,
    }
}

/// The register file at power-on.
pub open spec fn power_on() -> Cpu {
    Cpu {
        a: 0, x: 0, y: 0, sp: 0xFD, pc: 0,
        c: false, z: false, i: true, d: false, v: false, n: false,
        cycles: 0,
    }
}

impl Default for Cpu {
    fn default() -> (cpu: Self)
        ensures
            cpu == power_on(),
    {
        Cpu {
            a: 0, x: 0, y: 0, sp: 0xFD, pc: 0,
            c: false, z: false, i: true, d: false, v: false, n: false,
            cycles: 0,
        }
    }
}

/// The register file and the bus as one value.
pub open spec fn sys<B>(cpu: Cpu, bus: B) -> Core<B> {
    Core { cpu, bus }
}

impl Cpu {
    pub fn new() -> (cpu: Self)
        ensures
            cpu == power_on(),
    {
        Cpu::default()
    }

    /// Power-on / reset: load PC from the reset vector, set SP=$FD and I=1.
    pub fn reset<B: Bus>(&mut self, bus: &mut B)
        ensures
            *final(bus) == read_word(sys(*old(self), *old(bus)), VEC_RESET).0.bus,
            final(self).pc == old(bus).read_value(0xFFFC)
                + 256 * old(bus).after_read(0xFFFC).read_value(0xFFFD),
            *final(self) == (Cpu {
                pc: read_word(sys(*old(self), *old(bus)), VEC_RESET).1,
                sp: 0xFD,
                i: true,
                cycles: old(self).cycles.wrapping_add(7),
                ..*old(self)
            }),
    {
        self.pc = self.read16(bus, VEC_RESET);
        self.sp = 0xFD;
        self.i = true;
        self.cycles = self.cycles.wrapping_add(7);
    }

    /// Maskable interrupt. Serviced only when the I flag is clear.
    pub fn irq<B: Bus>(&mut self, bus: &mut B)
        ensures
            sys(*final(self), *final(bus)) == (if old(self).i {
                sys(*old(self), *old(bus))
            } else {
                hardware_interrupt(sys(*old(self), *old(bus)), VEC_IRQ)
            }),
            old(self).i ==> *final(self) == *old(self) && *final(bus) == *old(bus),
            !old(self).i ==> sys(*final(self), *final(bus))
                == hardware_interrupt(sys(*old(self), *old(bus)), 0xFFFE),
    {
        if self.i {
            return;
        }
        self.interrupt(bus, VEC_IRQ);
    }

    /// Non-maskable interrupt.
    pub fn nmi<B: Bus>(&mut self, bus: &mut B)
        ensures
            sys(*final(self), *final(bus)) == hardware_interrupt(
                sys(*old(self), *old(bus)), VEC_NMI),
            sys(*final(self), *final(bus)) == hardware_interrupt(
                sys(*old(self), *old(bus)), 0xFFFA),
    {
        self.interrupt(bus, VEC_NMI);
    }

    fn interrupt<B: Bus>(&mut self, bus: &mut B, vector: u16)
        ensures
            sys(*final(self), *final(bus)) == hardware_interrupt(
                sys(*old(self), *old(bus)), vector),
    {
        self.enter_handler(bus, vector, false);
        self.cycles = self.cycles.wrapping_add(7);
    }

    /// Stack PC and status, mask interrupts and jump through `vector`. The
    /// caller owns the cycle count.
    fn enter_handler<B: Bus>(&mut self, bus: &mut B, vector: u16, brk: bool)
        ensures
            sys(*final(self), *final(bus)) == enter_interrupt(
                sys(*old(self), *old(bus)), vector, brk),
    {
        let status = self.status(brk);
        self.push16(bus, self.pc);
        self.push(bus, status);
        self.i = true;
        self.pc = self.read16(bus, vector);
    }

    /// Execute one instruction; return the cycles it took.
    pub fn step<B: Bus>(&mut self, bus: &mut B) -> (cycles: u8)
        ensures
            (sys(*final(self), *final(bus)), cycles) == after_step(sys(*old(self), *old(bus))),
    {
        let opcode = self.fetch8(bus);
        let cyc = self.execute(bus, opcode);
        self.cycles = self.cycles.wrapping_add(cyc as u64);
        cyc
    }

    // ---- status packing ----

    fn status(&self, brk: bool) -> (p: u8)
        ensures
            p == status_byte(*self, brk),
    {
        (if self.c { 0x01u8 } else { 0 }) + (if self.z { 0x02u8 } else { 0 })
            + (if self.i { 0x04u8 } else { 0 }) + (if self.d { 0x08u8 } else { 0 })
            + (if brk { 0x10u8 } else { 0 }) + 0x20
            + (if self.v { 0x40u8 } else { 0 }) + (if self.n { 0x80u8 } else { 0 })
    }

    fn set_status(&mut self, p: u8)
        ensures
            *final(self) == with_status(*old(self), p),
    {
        self.c = p % 2 == 1;
        self.z = p / 2 % 2 == 1;
        self.i = p / 4 % 2 == 1;
        self.d = p / 8 % 2 == 1;
        self.v = p / 64 % 2 == 1;
        self.n = p / 128 % 2 == 1;
    }

    fn set_zn(&mut self, val: u8)
        ensures
            *final(self) == with_zn(*old(self), val),
    {
        self.z = val == 0;
        self.n = val >= 0x80;
    }

    // ---- primitive bus/pc/stack helpers ----

    fn fetch8<B: Bus>(&mut self, bus: &mut B) -> (b: u8)
        ensures
            (sys(*final(self), *final(bus)), b) == fetch_byte(sys(*old(self), *old(bus))),
    {
        let b = bus.read(self.pc);
        self.pc = self.pc.wrapping_add(1);
        b
    }

    fn fetch16<B: Bus>(&mut self, bus: &mut B) -> (w: u16)
        ensures
            (sys(*final(self), *final(bus)), w) == fetch_word(sys(*old(self), *old(bus))),
    {
        let lo = self.fetch8(bus);
        let hi = self.fetch8(bus);
        word(lo, hi)
    }

    fn read16<B: Bus>(&self, bus: &mut B, addr: u16) -> (w: u16)
        ensures
            (sys(*self, *final(bus)), w) == read_word(sys(*self, *old(bus)), addr),
    {
        let lo = bus.read(addr);
        let hi = bus.read(addr.wrapping_add(1));
        word(lo, hi)
    }

    /// Read two bytes with the 6502 page-wrap bug (used only by `JMP (ind)`):
    /// the high byte comes from the same page as the pointer.
    fn read16_bug<B: Bus>(&self, bus: &mut B, addr: u16) -> (w: u16)
        ensures
            (sys(*self, *final(bus)), w) == read_word_at(
                sys(*self, *old(bus)), addr, next_in_page(addr)),
    {
        let lo = bus.read(addr);
        let hi = bus.read(if addr % 256 == 255 { addr - 255 } else { addr + 1 });
        word(lo, hi)
    }

    fn push<B: Bus>(&mut self, bus: &mut B, val: u8)
        ensures
            sys(*final(self), *final(bus)) == push_byte(sys(*old(self), *old(bus)), val),
    {
        bus.write(STACK_BASE + self.sp as u16, val);
        self.sp = self.sp.wrapping_sub(1);
    }

    fn push16<B: Bus>(&mut self, bus: &mut B, w: u16)
        ensures
            sys(*final(self), *final(bus)) == push_word(sys(*old(self), *old(bus)), w),
    {
        self.push(bus, (w / 256) as u8);
        self.push(bus, (w % 256) as u8);
    }

    fn pull<B: Bus>(&mut self, bus: &mut B) -> (b: u8)
        ensures
            (sys(*final(self), *final(bus)), b) == pull_byte(sys(*old(self), *old(bus))),
    {
        self.sp = self.sp.wrapping_add(1);
        bus.read(STACK_BASE + self.sp as u16)
    }

    fn pull16<B: Bus>(&mut self, bus: &mut B) -> (w: u16)
        ensures
            (sys(*final(self), *final(bus)), w) == pull_word(sys(*old(self), *old(bus))),
    {
        let lo = self.pull(bus);
        let hi = self.pull(bus);
        word(lo, hi)
    }

    // ---- addressing ----

    /// Resolve the effective address for `mode`, advancing PC past the operand.
    /// Returns `(addr, page_crossed)`.
    fn operand<B: Bus>(&mut self, bus: &mut B, mode: AddrMode) -> (r: (u16, bool))
        ensures
            effective(sys(*old(self), *old(bus)), mode) == (Operand {
                sys: sys(*final(self), *final(bus)),
                addr: r.0,
                crossed: r.1,
            }),
    {
        match mode {
            AddrMode::Imm => {
                let a = self.pc;
                self.pc = self.pc.wrapping_add(1);
                (a, false)
            },
            AddrMode::Zp => (self.fetch8(bus) as u16, false),
            AddrMode::Zpx => (self.fetch8(bus).wrapping_add(self.x) as u16, false),
            AddrMode::Zpy => (self.fetch8(bus).wrapping_add(self.y) as u16, false),
            AddrMode::Abs => (self.fetch16(bus), false),
            AddrMode::Abx => {
                let base = self.fetch16(bus);
                let a = base.wrapping_add(self.x as u16);
                (a, page_crossed(base, a))
            },
            AddrMode::Aby => {
                let base = self.fetch16(bus);
                let a = base.wrapping_add(self.y as u16);
                (a, page_crossed(base, a))
            },
            AddrMode::Ind => {
                let ptr = self.fetch16(bus);
                (self.read16_bug(bus, ptr), false)
            },
            AddrMode::Izx => {
                let zp = self.fetch8(bus).wrapping_add(self.x);
                let lo = bus.read(zp as u16);
                let hi = bus.read(zp.wrapping_add(1) as u16);
                (word(lo, hi), false)
            },
            AddrMode::Izy => {
                let zp = self.fetch8(bus);
                let lo = bus.read(zp as u16);
                let hi = bus.read(zp.wrapping_add(1) as u16);
                let base = word(lo, hi);
                let a = base.wrapping_add(self.y as u16);
                (a, page_crossed(base, a))
            },
            AddrMode::Imp | AddrMode::Acc | AddrMode::Rel | AddrMode::Ill => (0, false),
        }
    }

    // ---- the instruction dispatcher ----

    /// Execute the instruction of `opcode`, which has just been fetched.
    fn execute<B: Bus>(&mut self, bus: &mut B, opcode: u8) -> (cycles: u8)
        ensures
            (sys(*final(self), *final(bus)), cycles) == after_instruction(
                sys(*old(self), *old(bus)),
                crate::mos6502::opcode_mnemonic(opcode),
                crate::mos6502::opcode_mode(opcode),
            ),
    {
        let m = instruction(opcode);
        let mode = addr_mode(opcode);
        match m {
            Mnemonic::Lda | Mnemonic::Ldx | Mnemonic::Ldy | Mnemonic::And | Mnemonic::Ora
            | Mnemonic::Eor | Mnemonic::Bit | Mnemonic::Adc | Mnemonic::Sbc | Mnemonic::Cmp
            | Mnemonic::Cpx | Mnemonic::Cpy | Mnemonic::Lax | Mnemonic::Anc | Mnemonic::Alr
            | Mnemonic::Arr | Mnemonic::Sbx | Mnemonic::Las | Mnemonic::Ane => {
                let (addr, crossed) = self.operand(bus, mode);
                let val = bus.read(addr);
                self.read_op(m, val);
                read_cost(mode, crossed)
            },
            Mnemonic::Sta | Mnemonic::Stx | Mnemonic::Sty | Mnemonic::Sax | Mnemonic::Sha
            | Mnemonic::Shx | Mnemonic::Shy | Mnemonic::Tas => {
                let (addr, _) = self.operand(bus, mode);
                let val = self.store_op(m, addr);
                bus.write(addr, val);
                store_cost(mode)
            },
            Mnemonic::Inc | Mnemonic::Dec | Mnemonic::Asl | Mnemonic::Lsr | Mnemonic::Rol
            | Mnemonic::Ror | Mnemonic::Slo | Mnemonic::Rla | Mnemonic::Sre | Mnemonic::Rra
            | Mnemonic::Dcp | Mnemonic::Isc => {
                if mode == AddrMode::Acc {
                    self.a = self.modify_op(m, self.a);
                    2
                } else {
                    let (addr, _) = self.operand(bus, mode);
                    let val = bus.read(addr);
                    let w = self.modify_op(m, val);
                    bus.write(addr, w);
                    rmw_cost(mode)
                }
            },
            Mnemonic::Tax | Mnemonic::Tay | Mnemonic::Txa | Mnemonic::Tya | Mnemonic::Tsx
            | Mnemonic::Txs | Mnemonic::Inx | Mnemonic::Iny | Mnemonic::Dex | Mnemonic::Dey
            | Mnemonic::Clc | Mnemonic::Sec | Mnemonic::Cli | Mnemonic::Sei | Mnemonic::Cld
            | Mnemonic::Sed | Mnemonic::Clv | Mnemonic::Jam => {
                self.implied_op(m);
                2
            },
            Mnemonic::Bpl => self.branch(bus, !self.n),
            Mnemonic::Bmi => self.branch(bus, self.n),
            Mnemonic::Bvc => self.branch(bus, !self.v),
            Mnemonic::Bvs => self.branch(bus, self.v),
            Mnemonic::Bcc => self.branch(bus, !self.c),
            Mnemonic::Bcs => self.branch(bus, self.c),
            Mnemonic::Bne => self.branch(bus, !self.z),
            Mnemonic::Beq => self.branch(bus, self.z),
            Mnemonic::Pha | Mnemonic::Php | Mnemonic::Pla | Mnemonic::Plp | Mnemonic::Jmp
            | Mnemonic::Jsr | Mnemonic::Rts | Mnemonic::Rti | Mnemonic::Brk | Mnemonic::Nop => {
                self.control_op(bus, m, mode)
            },
        }
    }

    fn branch<B: Bus>(&mut self, bus: &mut B, taken: bool) -> (cycles: u8)
        ensures
            (sys(*final(self), *final(bus)), cycles) == after_branch(
                sys(*old(self), *old(bus)), taken),
    {
        let off = self.fetch8(bus);
        if !taken {
            return 2;
        }
        let from = self.pc;
        let to = offset_from(from, off);
        self.pc = to;
        if page_crossed(from, to) { 4 } else { 3 }
    }

    /// Stack, jumps, calls, interrupts and `NOP`.
    #[verifier::rlimit(40)]
    #[verifier::spinoff_prover]
    fn control_op<B: Bus>(&mut self, bus: &mut B, m: Mnemonic, mode: AddrMode) -> (cycles: u8)
        ensures
            (sys(*final(self), *final(bus)), cycles) == after_control(
                sys(*old(self), *old(bus)), m, mode),
    {
        match m {
            Mnemonic::Pha => { self.push(bus, self.a); 3 },
            Mnemonic::Php => { let p = self.status(true); self.push(bus, p); 3 },
            Mnemonic::Pla => { let v = self.pull(bus); self.a = v; self.set_zn(v); 4 },
            Mnemonic::Plp => { let p = self.pull(bus); self.set_status(p); 4 },
            Mnemonic::Jmp => {
                let (addr, _) = self.operand(bus, mode);
                self.pc = addr;
                if mode == AddrMode::Ind { 5 } else { 3 }
            },
            Mnemonic::Jsr => {
                // Push address of the last byte of this instruction (PC-1).
                let target = self.fetch16(bus);
                let ret = self.pc.wrapping_sub(1);
                self.push16(bus, ret);
                self.pc = target;
                6
            },
            Mnemonic::Rts => {
                let ret = self.pull16(bus);
                self.pc = ret.wrapping_add(1);
                6
            },
            Mnemonic::Rti => {
                let p = self.pull(bus);
                self.set_status(p);
                self.pc = self.pull16(bus);
                6
            },
            Mnemonic::Brk => {
                // BRK is a 2-byte instruction: the pushed PC skips the padding byte.
                self.pc = self.pc.wrapping_add(1);
                self.enter_handler(bus, VEC_IRQ, true);
                7
            },
            _ => {
                // Official NOP is implied; the undocumented NOPs skip an operand,
                // so consume its bytes to keep the stream aligned.
                if mode == AddrMode::Imp {
                    2
                } else {
                    let (_, crossed) = self.operand(bus, mode);
                    read_cost(mode, crossed)
                }
            },
        }
    }

    /// An instruction that reads `val` and changes registers only.
    fn read_op(&mut self, m: Mnemonic, val: u8)
        ensures
            *final(self) == after_operand(*old(self), m, val),
    {
        match m {
            Mnemonic::Lda => { self.a = val; self.set_zn(val); },
            Mnemonic::Ldx => { self.x = val; self.set_zn(val); },
            Mnemonic::Ldy => { self.y = val; self.set_zn(val); },
            Mnemonic::And => { self.a = self.a & val; self.set_zn(self.a); },
            Mnemonic::Ora => { self.a = self.a | val; self.set_zn(self.a); },
            Mnemonic::Eor => { self.a = self.a ^ val; self.set_zn(self.a); },
            Mnemonic::Bit => {
                self.z = self.a & val == 0;
                self.v = val / 64 % 2 == 1;
                self.n = val >= 0x80;
            },
            Mnemonic::Adc => self.adc(val),
            Mnemonic::Sbc => self.sbc(val),
            Mnemonic::Cmp => self.compare(self.a, val),
            Mnemonic::Cpx => self.compare(self.x, val),
            Mnemonic::Cpy => self.compare(self.y, val),
            Mnemonic::Lax => { self.a = val; self.x = val; self.set_zn(val); },
            Mnemonic::Anc => {
                self.a = self.a & val;
                self.set_zn(self.a);
                self.c = self.a >= 0x80;
            },
            Mnemonic::Alr => {
                let t = self.a & val;
                self.c = t % 2 == 1;
                self.a = t / 2;
                self.set_zn(self.a);
            },
            Mnemonic::Arr => {
                let t = self.a & val;
                self.a = t / 2 + (if self.c { 0x80 } else { 0 });
                self.set_zn(self.a);
                self.c = self.a / 64 % 2 == 1;
                self.v = self.a / 64 % 2 != self.a / 32 % 2;
            },
            Mnemonic::Sbx => {
                let t = self.a & self.x;
                self.c = t >= val;
                self.x = t.wrapping_sub(val);
                self.set_zn(self.x);
            },
            Mnemonic::Las => {
                let v = val & self.sp;
                self.a = v;
                self.x = v;
                self.sp = v;
                self.set_zn(v);
            },
            Mnemonic::Ane => {
                // Highly unstable; a common, workable approximation.
                self.a = (self.a | 0xEE) & self.x & val;
                self.set_zn(self.a);
            },
            _ => {},
        }
    }

    /// The byte a storing instruction writes to `addr`; `TAS` also sets SP.
    fn store_op(&mut self, m: Mnemonic, addr: u16) -> (val: u8)
        ensures
            *final(self) == after_store(*old(self), m),
            val == stored_byte(*old(self), m, addr),
    {
        let hi = ((addr / 256) as u8).wrapping_add(1);
        match m {
            Mnemonic::Sta => self.a,
            Mnemonic::Stx => self.x,
            Mnemonic::Sty => self.y,
            Mnemonic::Sax => self.a & self.x,
            Mnemonic::Sha => self.a & self.x & hi,
            Mnemonic::Shx => self.x & hi,
            Mnemonic::Shy => self.y & hi,
            Mnemonic::Tas => {
                self.sp = self.a & self.x;
                self.sp & hi
            },
            _ => (self.a & self.x) & hi,
        }
    }

    /// A read-modify-write instruction on `val`; returns the byte to write back.
    fn modify_op(&mut self, m: Mnemonic, val: u8) -> (w: u8)
        requires
            modifies(m),
        ensures
            (*final(self), w) == after_modify(*old(self), m, val),
    {
        match m {
            Mnemonic::Slo => { let w = self.shift(Mnemonic::Asl, val); self.read_op(Mnemonic::Ora, w); w },
            Mnemonic::Rla => { let w = self.shift(Mnemonic::Rol, val); self.read_op(Mnemonic::And, w); w },
            Mnemonic::Sre => { let w = self.shift(Mnemonic::Lsr, val); self.read_op(Mnemonic::Eor, w); w },
            Mnemonic::Rra => { let w = self.shift(Mnemonic::Ror, val); self.adc(w); w },
            Mnemonic::Dcp => { let w = self.shift(Mnemonic::Dec, val); self.compare(self.a, w); w },
            Mnemonic::Isc => { let w = self.shift(Mnemonic::Inc, val); self.sbc(w); w },
            _ => self.shift(m, val),
        }
    }

    /// A documented read-modify-write instruction: a shift, a rotation, or a
    /// step up or down.
    fn shift(&mut self, m: Mnemonic, val: u8) -> (w: u8)
        ensures
            *final(self) == after_modify_half(*old(self), m, val),
            w == modified_byte(old(self).c, m, val),
    {
        let carry: u8 = if self.c { 1 } else { 0 };
        let w: u8 = match m {
            Mnemonic::Inc => val.wrapping_add(1),
            Mnemonic::Dec => val.wrapping_sub(1),
            Mnemonic::Asl => val % 128 * 2,
            Mnemonic::Rol => val % 128 * 2 + carry,
            Mnemonic::Lsr => val / 2,
            _ => val / 2 + 128 * carry,
        };
        match m {
            Mnemonic::Asl | Mnemonic::Rol => { self.c = val >= 0x80; },
            Mnemonic::Lsr | Mnemonic::Ror => { self.c = val % 2 == 1; },
            _ => {},
        }
        self.set_zn(w);
        w
    }

    /// The instructions on registers and flags alone.
    fn implied_op(&mut self, m: Mnemonic)
        ensures
            *final(self) == after_implied(*old(self), m),
    {
        match m {
            Mnemonic::Tax => { self.x = self.a; self.set_zn(self.x); },
            Mnemonic::Tay => { self.y = self.a; self.set_zn(self.y); },
            Mnemonic::Txa => { self.a = self.x; self.set_zn(self.a); },
            Mnemonic::Tya => { self.a = self.y; self.set_zn(self.a); },
            Mnemonic::Tsx => { self.x = self.sp; self.set_zn(self.x); },
            Mnemonic::Txs => { self.sp = self.x; },
            Mnemonic::Inx => { self.x = self.x.wrapping_add(1); self.set_zn(self.x); },
            Mnemonic::Iny => { self.y = self.y.wrapping_add(1); self.set_zn(self.y); },
            Mnemonic::Dex => { self.x = self.x.wrapping_sub(1); self.set_zn(self.x); },
            Mnemonic::Dey => { self.y = self.y.wrapping_sub(1); self.set_zn(self.y); },
            Mnemonic::Clc => { self.c = false; },
            Mnemonic::Sec => { self.c = true; },
            Mnemonic::Cli => { self.i = false; },
            Mnemonic::Sei => { self.i = true; },
            Mnemonic::Cld => { self.d = false; },
            Mnemonic::Sed => { self.d = true; },
            Mnemonic::Clv => { self.v = false; },
            _ => {},
        }
    }

    /// Add with carry, binary or decimal.
    fn adc(&mut self, val: u8)
        ensures
            *final(self) == add_with_carry(*old(self), val),
    {
        let a = self.a;
        let carry: u16 = if self.c { 1 } else { 0 };
        let sum: u16 = a as u16 + val as u16 + carry;
        if self.d {
            // Low nibble, with decimal fixup.
            let al: u16 = (a % 16) as u16 + (val % 16) as u16 + carry;
            let low: u16 = if al >= 10 { (al + 6) % 16 + 16 } else { al };
            // High nibble (`low` carries the +$10 from above).
            let mid: u16 = (a / 16 * 16) as u16 + (val / 16 * 16) as u16 + low;
            self.n = mid / 128 % 2 == 1;
            self.v = (a >= 0x80) == (val >= 0x80) && (a >= 0x80) != self.n;
            let res: u16 = if mid >= 0xA0 { mid + 0x60 } else { mid };
            self.c = res >= 0x100;
            self.z = sum % 256 == 0;
            self.a = (res % 256) as u8;
        } else {
            let result = (sum % 256) as u8;
            self.v = (a >= 0x80) == (val >= 0x80) && (a >= 0x80) != (result >= 0x80);
            self.c = sum > 0xFF;
            self.a = result;
            self.set_zn(result);
        }
    }

    /// Subtract with carry. In decimal mode the N/V/Z/C flags match a binary
    /// SBC (only the accumulator differs).
    fn sbc(&mut self, val: u8)
        ensures
            *final(self) == sub_with_carry(*old(self), val),
    {
        let a = self.a;
        let digits = decimal_difference(a, val, self.c);
        self.sbc_binary(val);
        if self.d {
            self.a = digits;
        }
    }

    fn sbc_binary(&mut self, val: u8)
        ensures
            *final(self) == sub_binary(*old(self), val),
    {
        // A + ~val + C.
        let a = self.a;
        let sum: u16 = a as u16 + (255 - val as u16) + (if self.c { 1 } else { 0 });
        let result = (sum % 256) as u8;
        self.v = (a >= 0x80) != (val >= 0x80) && (a >= 0x80) != (result >= 0x80);
        self.c = sum > 0xFF;
        self.a = result;
        self.set_zn(result);
    }

    fn compare(&mut self, reg: u8, val: u8)
        ensures
            *final(self) == compared(*old(self), reg, val),
    {
        self.c = reg >= val;
        self.set_zn(reg.wrapping_sub(val));
    }
}

} // verus!
