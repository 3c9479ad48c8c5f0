//! What each opcode does, read off its number: the registers, the flags and the
//! memory behind one step, in plain arithmetic and bit by bit.
//!
//! Opcodes have the shape `aaabbbcc`: `cc` picks a group of instructions, `aaa`
//! the instruction, `bbb` the way it finds its operand. The laws speak of memory
//! that a read does not change.

use vstd::prelude::*;
use crate::bits::{bit_of, lemma_bitwise, lemma_digits, lemma_masks};
use crate::mos6502::cpu::{after_step, Bus, Core, Cpu};
use crate::mos6502::{cpu, AddrMode, Mnemonic};

verus! {

// ---- the words of the laws ----

/// A read changes nothing.
pub open spec fn quiet<B: Bus>(b: B) -> bool {
    forall|at: u16| #[trigger] b.after_read(at) == b
}

/// The byte at an address, which wraps round at 64 KB.
pub open spec fn at<B: Bus>(s: Core<B>, addr: int) -> u8 {
    s.bus.read_value((addr % 0x1_0000) as u16)
}

/// The opcode, and the bytes behind it.
pub open spec fn code<B: Bus>(s: Core<B>, k: int) -> u8 {
    at(s, s.cpu.pc + k)
}

/// The three parts of an opcode.
pub open spec fn aaa(o: u8) -> int {
    o as int / 32
}

pub open spec fn bbb(o: u8) -> int {
    o as int / 4 % 8
}

pub open spec fn cc(o: u8) -> int {
    o as int % 4
}

/// Zero and sign are those of a byte.
pub open spec fn zn_of(c: Cpu, v: u8) -> bool {
    c.z == (v == 0) && c.n == (v >= 128)
}

/// A flag as a number.
pub open spec fn one(b: bool) -> int {
    if b { 1 } else { 0 }
}

/// Where an operand is in memory.
pub open spec fn place<B: Bus>(s: Core<B>) -> int {
    let o = code(s, 0);
    let b1 = code(s, 1) as int;
    let abs = b1 + 256 * code(s, 2);
    let x = if cc(o) >= 2 && (aaa(o) == 4 || aaa(o) == 5) { s.cpu.y as int } else { s.cpu.x as int };
    let y = s.cpu.y as int;
    if bbb(o) == 0 && cc(o) % 2 == 1 {
        at(s, (b1 + s.cpu.x) % 256) + 256 * at(s, (b1 + s.cpu.x + 1) % 256)
    } else if bbb(o) == 0 || bbb(o) == 2 {
        s.cpu.pc + 1
    } else if bbb(o) == 1 {
        b1
    } else if bbb(o) == 3 {
        abs
    } else if bbb(o) == 4 {
        at(s, b1) + 256 * at(s, (b1 + 1) % 256) + y
    } else if bbb(o) == 5 {
        (b1 + x) % 256
    } else if bbb(o) == 6 {
        abs + y
    } else {
        abs + x
    }
}

/// How many bytes an instruction with an operand in memory takes.
pub open spec fn length(o: u8) -> int {
    if bbb(o) == 3 || bbb(o) == 6 || bbb(o) == 7 { 3 } else { 2 }
}

/// The program counter has moved on by `n` bytes.
pub open spec fn moved<B: Bus>(s: Core<B>, n: int) -> u16 {
    ((s.cpu.pc + n) % 0x1_0000) as u16
}

/// The core after one step of the CPU, and the cycles it took.
#[verifier::opaque]
pub open spec fn stepped<B: Bus>(s: Core<B>) -> (Core<B>, u8) {
    after_step(s)
}

// ---- finding the operand ----

/// The opcodes that find an operand in memory as `bbb` and `cc` say.
pub open spec fn has_place(o: u8) -> bool {
    ||| cc(o) % 2 == 1
    ||| bbb(o) == 1 || bbb(o) == 5 || bbb(o) == 7
    ||| bbb(o) == 3 && o != 0x6C
    ||| bbb(o) == 0 && aaa(o) >= 4
}

/// Where a mode finds its operand, and whether indexing crossed a page.
spec fn spot<B: Bus>(s: Core<B>, mode: AddrMode) -> (int, bool) {
    let b1 = code(s, 1) as int;
    let abs = b1 + 256 * code(s, 2);
    let (x, y) = (s.cpu.x as int, s.cpu.y as int);
    let ptr = at(s, b1) + 256 * at(s, (b1 + 1) % 256);
    match mode {
        AddrMode::Imm => (s.cpu.pc + 1, false),
        AddrMode::Zp => (b1, false),
        AddrMode::Zpx => ((b1 + x) % 256, false),
        AddrMode::Zpy => ((b1 + y) % 256, false),
        AddrMode::Abs => (abs, false),
        AddrMode::Abx => (abs + x, abs / 256 != (abs + x) / 256),
        AddrMode::Aby => (abs + y, abs / 256 != (abs + y) / 256),
        AddrMode::Izx => (at(s, (b1 + x) % 256) + 256 * at(s, (b1 + x + 1) % 256), false),
        AddrMode::Izy => (ptr + y, ptr / 256 != (ptr + y) / 256),
        _ => (0, false),
    }
}

/// The core behind its opcode.
spec fn behind<B: Bus>(s: Core<B>) -> Core<B> {
    Core { cpu: Cpu { pc: moved(s, 1), ..s.cpu }, bus: s.bus }
}

proof fn lemma_code_bytes<B: Bus>(s: Core<B>)
    requires
        quiet(s.bus),
    ensures
        cpu::fetch_byte(s) == (behind(s), code(s, 0)),
        cpu::fetch_byte(behind(s)) == (
            Core { cpu: Cpu { pc: moved(s, 2), ..s.cpu }, bus: s.bus }, code(s, 1)),
        cpu::fetch_word(behind(s)) == (
            Core { cpu: Cpu { pc: moved(s, 3), ..s.cpu }, bus: s.bus },
            (code(s, 1) + 256 * code(s, 2)) as u16,
        ),
{
    assert(s.cpu.pc as int % 0x1_0000 == s.cpu.pc as int);
    let t = behind(s);
    let t2 = Core { cpu: Cpu { pc: moved(s, 2), ..s.cpu }, bus: s.bus };
    assert(cpu::fetch_byte(s) == (t, code(s, 0)));
    assert(t.cpu.pc.wrapping_add(1) == moved(s, 2));
    assert(cpu::fetch_byte(t) == (t2, code(s, 1)));
    assert(t2.cpu.pc.wrapping_add(1) == moved(s, 3));
    assert(cpu::fetch_byte(t2)
        == (Core { cpu: Cpu { pc: moved(s, 3), ..s.cpu }, bus: s.bus }, code(s, 2)));
}

proof fn lemma_pointer<B: Bus>(s: Core<B>, z: u8, b: int)
    requires
        quiet(s.bus),
        z == b % 256,
        0 <= b,
    ensures
        forall|t: Core<B>| t.bus == s.bus ==>
            #[trigger] cpu::read_word_at(t, z as u16, z.wrapping_add(1) as u16)
                == (t, (at(s, b % 256) + 256 * at(s, (b + 1) % 256)) as u16),
{
    assert(z.wrapping_add(1) == (b + 1) % 256);
    assert((b % 256) % 0x1_0000 == b % 256);
    assert(((b + 1) % 256) % 0x1_0000 == (b + 1) % 256);
}

proof fn lemma_operand<B: Bus>(s: Core<B>, mode: AddrMode, len: int)
    requires
        quiet(s.bus),
        mode == AddrMode::Imm || mode == AddrMode::Zp || mode == AddrMode::Zpx
            || mode == AddrMode::Zpy || mode == AddrMode::Abs || mode == AddrMode::Abx
            || mode == AddrMode::Aby || mode == AddrMode::Izx || mode == AddrMode::Izy,
        len == (if mode == AddrMode::Abs || mode == AddrMode::Abx || mode == AddrMode::Aby { 3int }
            else { 2 }),
    ensures
        ({
            let e = cpu::effective(behind(s), mode);
            &&& e.addr == spot(s, mode).0 % 0x1_0000
            &&& e.crossed == spot(s, mode).1
            &&& e.sys == (Core { cpu: Cpu { pc: moved(s, len), ..s.cpu }, bus: s.bus })
        }),
{
    lemma_code_bytes(s);
    if mode == AddrMode::Izx {
        lemma_indexed_pointer(s);
    } else if mode == AddrMode::Izy {
        lemma_pointer_indexed(s);
    } else if mode == AddrMode::Abx || mode == AddrMode::Aby {
        lemma_absolute_indexed(s);
    } else if mode == AddrMode::Imm {
        assert(moved(s, 1).wrapping_add(1) == moved(s, 2));
        assert((s.cpu.pc + 1) % 0x1_0000 == moved(s, 1));
    } else {
        lemma_direct(s, mode, len);
    }
}

proof fn lemma_direct<B: Bus>(s: Core<B>, mode: AddrMode, len: int)
    requires
        quiet(s.bus),
        mode == AddrMode::Zp || mode == AddrMode::Zpx || mode == AddrMode::Zpy
            || mode == AddrMode::Abs,
        len == (if mode == AddrMode::Abs { 3int } else { 2 }),
    ensures
        ({
            let e = cpu::effective(behind(s), mode);
            &&& e.addr == spot(s, mode).0 % 0x1_0000
            &&& e.crossed == spot(s, mode).1
            &&& e.sys == (Core { cpu: Cpu { pc: moved(s, len), ..s.cpu }, bus: s.bus })
        }),
{
    lemma_code_bytes(s);
    assert(code(s, 1).wrapping_add(s.cpu.x) == (code(s, 1) + s.cpu.x) % 256);
    assert(code(s, 1).wrapping_add(s.cpu.y) == (code(s, 1) + s.cpu.y) % 256);
}

proof fn lemma_absolute_indexed<B: Bus>(s: Core<B>)
    requires
        quiet(s.bus),
    ensures
        ({
            let (e, f) = (
                cpu::effective(behind(s), AddrMode::Abx), cpu::effective(behind(s), AddrMode::Aby));
            let after = Core { cpu: Cpu { pc: moved(s, 3), ..s.cpu }, bus: s.bus };
            &&& e.addr == spot(s, AddrMode::Abx).0 % 0x1_0000
            &&& f.addr == spot(s, AddrMode::Aby).0 % 0x1_0000
            &&& e.crossed == spot(s, AddrMode::Abx).1
            &&& f.crossed == spot(s, AddrMode::Aby).1
            &&& e.sys == after && f.sys == after
        }),
{
    lemma_code_bytes(s);
    lemma_index(code(s, 1) + 256 * code(s, 2), s.cpu.x);
    lemma_index(code(s, 1) + 256 * code(s, 2), s.cpu.y);
}

proof fn lemma_indexed_pointer<B: Bus>(s: Core<B>)
    requires
        quiet(s.bus),
    ensures
        ({
            let e = cpu::effective(behind(s), AddrMode::Izx);
            &&& e.addr == spot(s, AddrMode::Izx).0 % 0x1_0000
            &&& !e.crossed
            &&& e.sys == (Core { cpu: Cpu { pc: moved(s, 2), ..s.cpu }, bus: s.bus })
        }),
{
    lemma_code_bytes(s);
    let b = code(s, 1) + s.cpu.x;
    let z = code(s, 1).wrapping_add(s.cpu.x);
    let t = Core { cpu: Cpu { pc: moved(s, 2), ..s.cpu }, bus: s.bus };
    let w = at(s, b % 256) + 256 * at(s, (b + 1) % 256);
    lemma_pointer(s, z, b);
    assert(cpu::read_word_at(t, z as u16, z.wrapping_add(1) as u16) == (t, w as u16));
    assert(0 <= w < 0x1_0000);
}

proof fn lemma_pointer_indexed<B: Bus>(s: Core<B>)
    requires
        quiet(s.bus),
    ensures
        ({
            let e = cpu::effective(behind(s), AddrMode::Izy);
            &&& e.addr == spot(s, AddrMode::Izy).0 % 0x1_0000
            &&& e.crossed == spot(s, AddrMode::Izy).1
            &&& e.sys == (Core { cpu: Cpu { pc: moved(s, 2), ..s.cpu }, bus: s.bus })
        }),
{
    lemma_code_bytes(s);
    let z = code(s, 1);
    let b = z as int;
    let t = Core { cpu: Cpu { pc: moved(s, 2), ..s.cpu }, bus: s.bus };
    let w = at(s, b % 256) + 256 * at(s, (b + 1) % 256);
    assert(b % 256 == b);
    lemma_pointer(s, z, b);
    assert(cpu::read_word_at(t, z as u16, z.wrapping_add(1) as u16) == (t, w as u16));
    assert(0 <= w < 0x1_0000);
    lemma_index(w, s.cpu.y);
}

proof fn lemma_index(base: int, i: u8)
    requires
        0 <= base < 0x1_0000,
    ensures
        (base as u16).wrapping_add(i as u16) == (base + i) % 0x1_0000,
        cpu::pages_differ(base as u16, (base as u16).wrapping_add(i as u16))
            == (base / 256 != (base + i) / 256),
{
}

/// The opcode's instruction and mode, by name only.
#[verifier::opaque]
spec fn decoded(o: u8) -> (Mnemonic, AddrMode) {
    (crate::mos6502::opcode_mnemonic(o), crate::mos6502::opcode_mode(o))
}

/// One instruction, by name only.
#[verifier::opaque]
spec fn performed<B: Bus>(s: Core<B>, m: Mnemonic, mode: AddrMode) -> (Core<B>, u8) {
    cpu::after_instruction(s, m, mode)
}

proof fn lemma_step<B: Bus>(s: Core<B>)
    requires
        quiet(s.bus),
    ensures
        ({
            let d = decoded(code(s, 0));
            let p = performed(behind(s), d.0, d.1);
            &&& stepped(s).1 == p.1
            &&& stepped(s).0.bus == p.0.bus
            &&& stepped(s).0.cpu == (Cpu { cycles: stepped(s).0.cpu.cycles, ..p.0.cpu })
        }),
{
    reveal(decoded);
    reveal(stepped);
    lemma_code_bytes(s);
    let (m, mode) = decoded(code(s, 0));
    lemma_performed(s, m, mode);
}

proof fn lemma_performed<B: Bus>(s: Core<B>, m: Mnemonic, mode: AddrMode)
    ensures
        performed(behind(s), m, mode) == cpu::after_instruction(behind(s), m, mode),
{
    reveal(performed);
}

/// Where the operand is, by the parts of the opcode.
proof fn lemma_place<B: Bus>(s: Core<B>)
    requires
        quiet(s.bus),
        has_place(code(s, 0)),
        code(s, 0) != 0x20,
    ensures
        ({
            let o = code(s, 0);
            let e = cpu::effective(behind(s), decoded(o).1);
            &&& e.addr == place(s) % 0x1_0000
            &&& e.sys.bus == s.bus
            &&& e.sys.cpu == (Cpu { pc: moved(s, length(o)), ..s.cpu })
            &&& e.crossed == (bbb(o) == 4 && (place(s) - s.cpu.y) / 256 != place(s) / 256
                || bbb(o) == 6 && (place(s) - s.cpu.y) / 256 != place(s) / 256
                || bbb(o) == 7 && (code(s, 1) + 256 * code(s, 2)) / 256 != place(s) / 256)
        }),
{
    lemma_mode(code(s, 0));
    lemma_operand(s, decoded(code(s, 0)).1, length(code(s, 0)));
}

/// The addressing mode of an opcode, by its parts.
proof fn lemma_mode(o: u8)
    requires
        has_place(o),
        o != 0x20,
    ensures
        ({
            let mode = decoded(o).1;
            let y = cc(o) >= 2 && (aaa(o) == 4 || aaa(o) == 5);
            &&& bbb(o) == 0 && cc(o) % 2 == 1 ==> mode == AddrMode::Izx
            &&& bbb(o) == 0 && cc(o) % 2 == 0 ==> mode == AddrMode::Imm
            &&& bbb(o) == 1 ==> mode == AddrMode::Zp
            &&& bbb(o) == 2 ==> mode == AddrMode::Imm
            &&& bbb(o) == 3 ==> mode == AddrMode::Abs
            &&& bbb(o) == 4 ==> mode == AddrMode::Izy
            &&& bbb(o) == 5 ==> mode == (if y { AddrMode::Zpy } else { AddrMode::Zpx })
            &&& bbb(o) == 6 ==> mode == AddrMode::Aby
            &&& bbb(o) == 7 ==> mode == (if y { AddrMode::Aby } else { AddrMode::Abx })
        }),
{
    reveal(decoded);
}

/// The instructions of the groups, by row.
proof fn lemma_names(o: u8)
    ensures
        ({
            let m = decoded(o).0;
            let row = aaa(o);
            let b = bbb(o);
            &&& cc(o) == 1 && o != 0x89 ==> m == (if row == 0 { Mnemonic::Ora }
                else if row == 1 { Mnemonic::And } else if row == 2 { Mnemonic::Eor }
                else if row == 3 { Mnemonic::Adc } else if row == 4 { Mnemonic::Sta }
                else if row == 5 { Mnemonic::Lda } else if row == 6 { Mnemonic::Cmp }
                else { Mnemonic::Sbc })
            &&& cc(o) == 0 && row == 5 && (b % 2 == 1 || b == 0) ==> m == Mnemonic::Ldy
            &&& cc(o) == 2 && row == 5 && (b % 2 == 1 || b == 0) ==> m == Mnemonic::Ldx
            &&& cc(o) == 3 && row == 5 && b != 6 ==> m == Mnemonic::Lax
            &&& cc(o) == 0 && row == 4 && (b == 1 || b == 3 || b == 5) ==> m == Mnemonic::Sty
            &&& cc(o) == 2 && row == 4 && (b == 1 || b == 3 || b == 5) ==> m == Mnemonic::Stx
            &&& cc(o) == 3 && row == 4 && (b == 0 || b == 1 || b == 3 || b == 5)
                ==> m == Mnemonic::Sax
            &&& cc(o) == 0 && row == 6 && (b == 0 || b == 1 || b == 3) ==> m == Mnemonic::Cpy
            &&& cc(o) == 0 && row == 7 && (b == 0 || b == 1 || b == 3) ==> m == Mnemonic::Cpx
            &&& o == 0x24 || o == 0x2C ==> m == Mnemonic::Bit
            &&& o == 0xEB ==> m == Mnemonic::Sbc
        }),
{
    reveal(decoded);
}

/// A reading instruction sees the byte at its place, and changes registers only.
proof fn lemma_reads<B: Bus>(s: Core<B>, m: Mnemonic)
    requires
        quiet(s.bus),
        has_place(code(s, 0)),
        code(s, 0) != 0x20,
        decoded(code(s, 0)).0 == m,
        cpu::reads_operand(m),
    ensures
        stepped(s).0.bus == s.bus,
        stepped(s).0.cpu == (Cpu {
            cycles: stepped(s).0.cpu.cycles,
            ..cpu::after_operand(
                Cpu { pc: moved(s, length(code(s, 0))), ..s.cpu }, m, at(s, place(s)))
        }),
{
    lemma_step(s);
    lemma_place(s);
    lemma_performed(s, m, decoded(code(s, 0)).1);
}

/// A storing instruction writes a byte to its place.
proof fn lemma_writes<B: Bus>(s: Core<B>, m: Mnemonic)
    requires
        quiet(s.bus),
        has_place(code(s, 0)),
        code(s, 0) != 0x20,
        decoded(code(s, 0)).0 == m,
        cpu::stores(m),
    ensures
        ({
            let to = (place(s) % 0x1_0000) as u16;
            let c = Cpu { pc: moved(s, length(code(s, 0))), ..s.cpu };
            &&& stepped(s).0.bus == s.bus.after_write(to, cpu::stored_byte(c, m, to))
            &&& stepped(s).0.cpu == (Cpu {
                cycles: stepped(s).0.cpu.cycles, ..cpu::after_store(c, m)
            })
        }),
{
    lemma_step(s);
    lemma_place(s);
    lemma_performed(s, m, decoded(code(s, 0)).1);
}

/// What a read-modify-write instruction does, by name only.
#[verifier::opaque]
spec fn reworked(c: Cpu, m: Mnemonic, v: u8) -> (Cpu, u8) {
    cpu::after_modify(c, m, v)
}

proof fn lemma_performed_rewrite<B: Bus>(t: Core<B>, m: Mnemonic, mode: AddrMode)
    requires
        cpu::modifies(m),
    ensures
        ({
            let p = cpu::after_instruction(t, m, mode).0;
            let e = cpu::effective(t, mode);
            let u = e.sys.bus.after_read(e.addr);
            let v = e.sys.bus.read_value(e.addr);
            &&& mode == AddrMode::Acc ==> p.bus == t.bus && p.cpu == (Cpu {
                a: reworked(t.cpu, m, t.cpu.a).1, ..reworked(t.cpu, m, t.cpu.a).0
            })
            &&& mode != AddrMode::Acc ==> p.cpu == reworked(e.sys.cpu, m, v).0
                && p.bus == u.after_write(e.addr, reworked(e.sys.cpu, m, v).1)
        }),
{
    reveal(reworked);
}

/// A read-modify-write instruction, in memory or on the accumulator.
proof fn lemma_rewrites<B: Bus>(s: Core<B>, m: Mnemonic)
    requires
        quiet(s.bus),
        decoded(code(s, 0)).0 == m,
        cpu::modifies(m),
        decoded(code(s, 0)).1 == AddrMode::Acc
            || has_place(code(s, 0)) && code(s, 0) != 0x20,
    ensures
        ({
            let mem = decoded(code(s, 0)).1 != AddrMode::Acc;
            let to = (place(s) % 0x1_0000) as u16;
            let c = Cpu {
                pc: moved(s, if mem { length(code(s, 0)) } else { 1 }), ..s.cpu
            };
            let (d, w) = reworked(c, m, if mem { at(s, place(s)) } else { s.cpu.a });
            &&& stepped(s).0.bus == (if mem { s.bus.after_write(to, w) } else { s.bus })
            &&& stepped(s).0.cpu == (Cpu {
                cycles: stepped(s).0.cpu.cycles, a: if mem { d.a } else { w }, ..d
            })
        }),
{
    let mode = decoded(code(s, 0)).1;
    lemma_step(s);
    if mode != AddrMode::Acc {
        lemma_place(s);
    }
    lemma_performed_rewrite(behind(s), m, mode);
    lemma_named(s, m, mode);
}

proof fn lemma_named<B: Bus>(s: Core<B>, m: Mnemonic, mode: AddrMode)
    ensures
        performed(behind(s), m, mode).0 == cpu::after_instruction(behind(s), m, mode).0,
{
    reveal(performed);
}

// ---- ORA, AND, EOR, ADC, STA, LDA, CMP, SBC: cc = 01 ----

/// `ORA`, `AND` and `EOR` (aaa = 0, 1, 2): each bit of the accumulator is set
/// exactly when it was set in either, in both, or in just one of accumulator and
/// operand. Zero and sign follow the result, and nothing else changes.
pub proof fn law_logic<B: Bus>(s: Core<B>, k: u8)
    requires
        quiet(s.bus),
        cc(code(s, 0)) == 1,
        aaa(code(s, 0)) <= 2,
        k < 8,
    ensures
        ({
            let r = stepped(s).0;
            let v = at(s, place(s));
            &&& bit_of(r.cpu.a, k) == (if aaa(code(s, 0)) == 0 {
                bit_of(s.cpu.a, k) || bit_of(v, k)
            } else if aaa(code(s, 0)) == 1 {
                bit_of(s.cpu.a, k) && bit_of(v, k)
            } else {
                bit_of(s.cpu.a, k) != bit_of(v, k)
            })
            &&& zn_of(r.cpu, r.cpu.a)
            &&& r.cpu == (Cpu {
                a: r.cpu.a, z: r.cpu.z, n: r.cpu.n, cycles: r.cpu.cycles,
                pc: moved(s, length(code(s, 0))), ..s.cpu
            })
            &&& r.bus == s.bus
        }),
{
    lemma_names(code(s, 0));
    lemma_reads(s, decoded(code(s, 0)).0);
    lemma_bitwise(s.cpu.a, at(s, place(s)), k);
}

/// `EOR` with the accumulator's own value clears it, and `EOR` with a value twice
/// leaves it as it was.
pub proof fn law_eor_cancels<B: Bus>(s: Core<B>, t: Core<B>)
    requires
        quiet(s.bus),
        quiet(t.bus),
        cc(code(s, 0)) == 1 && aaa(code(s, 0)) == 2,
        cc(code(t, 0)) == 1 && aaa(code(t, 0)) == 2,
        t.cpu.a == stepped(s).0.cpu.a,
        at(t, place(t)) == at(s, place(s)),
    ensures
        stepped(t).0.cpu.a == s.cpu.a,
        s.cpu.a == at(s, place(s)) ==> stepped(s).0.cpu.a == 0 && stepped(s).0.cpu.z,
{
    lemma_names(code(s, 0));
    lemma_names(code(t, 0));
    lemma_reads(s, Mnemonic::Eor);
    lemma_reads(t, Mnemonic::Eor);
    lemma_bitwise(s.cpu.a, at(s, place(s)), 0);
}

/// `ADC` (aaa = 3) in binary: the ninth bit of the sum is the carry, and V is up
/// exactly when two numbers of one sign add up to the other. In decimal mode, of
/// decimal digits, the carry is worth a hundred; Z is that of the binary sum.
pub proof fn law_adc<B: Bus>(s: Core<B>)
    requires
        quiet(s.bus),
        cc(code(s, 0)) == 1,
        aaa(code(s, 0)) == 3,
    ensures
        ({
            let r = stepped(s).0;
            let (a, v) = (s.cpu.a, at(s, place(s)));
            &&& !s.cpu.d ==> {
                &&& r.cpu.a + 256 * one(r.cpu.c) == a + v + one(s.cpu.c)
                &&& r.cpu.v == ((a < 128) == (v < 128) && (a < 128) != (r.cpu.a < 128))
                &&& zn_of(r.cpu, r.cpu.a)
            }
            &&& s.cpu.d && a % 16 <= 9 && a / 16 <= 9 && v % 16 <= 9 && v / 16 <= 9 ==> {
                &&& r.cpu.a % 16 <= 9 && r.cpu.a / 16 <= 9
                &&& 10 * (r.cpu.a / 16) + r.cpu.a % 16 + 100 * one(r.cpu.c)
                    == 10 * (a / 16) + a % 16 + 10 * (v / 16) + v % 16 + one(s.cpu.c)
            }
            &&& s.cpu.d ==> {
                // Sign and overflow are taken from the high digits before they
                // are corrected.
                let carry = one(a % 16 + v % 16 + one(s.cpu.c) >= 10);
                let up = (a / 16 + v / 16 + carry) / 8 % 2 == 1;
                &&& r.cpu.n == up
                &&& r.cpu.v == ((a < 128) == (v < 128) && (a < 128) == up)
                &&& r.cpu.z == (a + v + one(s.cpu.c) == 0 || a + v + one(s.cpu.c) == 256)
            }
            &&& r.cpu == (Cpu {
                a: r.cpu.a, c: r.cpu.c, z: r.cpu.z, n: r.cpu.n, v: r.cpu.v,
                cycles: r.cpu.cycles, pc: moved(s, length(code(s, 0))), ..s.cpu
            })
            &&& r.bus == s.bus
        }),
{
    lemma_names(code(s, 0));
    lemma_reads(s, Mnemonic::Adc);
    lemma_adds(Cpu { pc: moved(s, length(code(s, 0))), ..s.cpu }, at(s, place(s)));
}

proof fn lemma_adds(c: Cpu, v: u8)
    ensures
        ({
            let r = cpu::after_operand(c, Mnemonic::Adc, v);
            let a = c.a;
            &&& !c.d ==> {
                &&& r.a + 256 * one(r.c) == a + v + one(c.c)
                &&& r.v == ((a < 128) == (v < 128) && (a < 128) != (r.a < 128))
                &&& zn_of(r, r.a)
            }
            &&& c.d && a % 16 <= 9 && a / 16 <= 9 && v % 16 <= 9 && v / 16 <= 9 ==> {
                &&& r.a % 16 <= 9 && r.a / 16 <= 9
                &&& 10 * (r.a / 16) + r.a % 16 + 100 * one(r.c)
                    == 10 * (a / 16) + a % 16 + 10 * (v / 16) + v % 16 + one(c.c)
            }
            &&& c.d ==> {
                let carry = one(a % 16 + v % 16 + one(c.c) >= 10);
                let up = (a / 16 + v / 16 + carry) / 8 % 2 == 1;
                &&& r.n == up
                &&& r.v == ((a < 128) == (v < 128) && (a < 128) == up)
                &&& r.z == (a + v + one(c.c) == 0 || a + v + one(c.c) == 256)
            }
            &&& r == (Cpu { a: r.a, c: r.c, z: r.z, n: r.n, v: r.v, ..c })
        }),
{
    if c.d {
        if c.a % 16 <= 9 && c.a / 16 <= 9 && v % 16 <= 9 && v / 16 <= 9 {
            crate::mos6502::laws::law_decimal_add(c, v);
        }
        lemma_decimal_middle(c, v);
    }
}

proof fn lemma_decimal_middle(c: Cpu, v: u8)
    requires
        c.d,
    ensures
        ({
            let r = cpu::add_with_carry(c, v);
            let a = c.a;
            let carry = one(a % 16 + v % 16 + one(c.c) >= 10);
            let up = (a / 16 + v / 16 + carry) / 8 % 2 == 1;
            &&& r.n == up
            &&& r.v == ((a < 128) == (v < 128) && (a < 128) == up)
            &&& r.z == (a + v + one(c.c) == 0 || a + v + one(c.c) == 256)
        }),
{
    let (a1, a0, v1, v0) = (c.a / 16, c.a % 16, v / 16, v % 16);
    let al = a0 + v0 + one(c.c);
    let carry = one(al >= 10);
    let mid = c.a / 16 * 16 + v / 16 * 16 + cpu::low_digit_sum(c.a, v, c.c);
    let low = if al >= 10 { (al + 6) % 16 } else { al };
    assert(0 <= low < 16);
    assert(mid == 16 * (a1 + v1 + carry) + low);
    assert(mid / 128 == (a1 + v1 + carry) / 8);
}

/// `SBC` (aaa = 7, and $EB) in binary: a borrow is a carry that is clear, and V is
/// up exactly when the signs differ and the result has not the accumulator's. In
/// decimal mode the digits are decimal, and the flags those of a binary
/// subtraction.
pub proof fn law_sbc<B: Bus>(s: Core<B>)
    requires
        quiet(s.bus),
        cc(code(s, 0)) == 1 && aaa(code(s, 0)) == 7 || code(s, 0) == 0xEB,
    ensures
        ({
            let r = stepped(s).0;
            let (a, v) = (s.cpu.a, at(s, place(s)));
            let full = a - v - 1 + one(s.cpu.c);
            let bin = if full < 0 { full + 256 } else { full };
            &&& !s.cpu.d ==> r.cpu.a == bin
            &&& s.cpu.d && a % 16 <= 9 && a / 16 <= 9 && v % 16 <= 9 && v / 16 <= 9 ==> {
                &&& r.cpu.a % 16 <= 9 && r.cpu.a / 16 <= 9
                &&& 10 * (r.cpu.a / 16) + r.cpu.a % 16 - 100 * (1 - one(r.cpu.c))
                    == 10 * (a / 16) + a % 16 - 10 * (v / 16) - v % 16 - 1 + one(s.cpu.c)
            }
            &&& r.cpu.c == (full >= 0)
            &&& r.cpu.v == ((a < 128) != (v < 128) && (a < 128) != (bin < 128))
            &&& r.cpu.z == (bin == 0) && r.cpu.n == (bin >= 128)
            &&& r.cpu == (Cpu {
                a: r.cpu.a, c: r.cpu.c, z: r.cpu.z, n: r.cpu.n, v: r.cpu.v,
                cycles: r.cpu.cycles, pc: moved(s, length(code(s, 0))), ..s.cpu
            })
            &&& r.bus == s.bus
        }),
{
    lemma_names(code(s, 0));
    lemma_reads(s, Mnemonic::Sbc);
    lemma_subtracts(Cpu { pc: moved(s, length(code(s, 0))), ..s.cpu }, at(s, place(s)));
}

proof fn lemma_subtracts(c: Cpu, v: u8)
    ensures
        ({
            let r = cpu::after_operand(c, Mnemonic::Sbc, v);
            let a = c.a;
            let full = a - v - 1 + one(c.c);
            let bin = if full < 0 { full + 256 } else { full };
            &&& !c.d ==> r.a == bin
            &&& c.d && a % 16 <= 9 && a / 16 <= 9 && v % 16 <= 9 && v / 16 <= 9 ==> {
                &&& r.a % 16 <= 9 && r.a / 16 <= 9
                &&& 10 * (r.a / 16) + r.a % 16 - 100 * (1 - one(r.c))
                    == 10 * (a / 16) + a % 16 - 10 * (v / 16) - v % 16 - 1 + one(c.c)
            }
            &&& r.c == (full >= 0)
            &&& r.v == ((a < 128) != (v < 128) && (a < 128) != (bin < 128))
            &&& r.z == (bin == 0) && r.n == (bin >= 128)
            &&& r == (Cpu { a: r.a, c: r.c, z: r.z, n: r.n, v: r.v, ..c })
        }),
{
    lemma_subtracts_binary(c, v);
    let r = cpu::sub_with_carry(c, v);
    assert(cpu::after_operand(c, Mnemonic::Sbc, v) == r);
    if c.d && c.a % 16 <= 9 && c.a / 16 <= 9 && v % 16 <= 9 && v / 16 <= 9 {
        lemma_subtracts_decimal(c, v);
    }
}

proof fn lemma_subtracts_decimal(c: Cpu, v: u8)
    requires
        c.d,
        c.a % 16 <= 9 && c.a / 16 <= 9 && v % 16 <= 9 && v / 16 <= 9,
    ensures
        ({
            let r = cpu::sub_with_carry(c, v);
            &&& r.a % 16 <= 9 && r.a / 16 <= 9
            &&& 10 * (r.a / 16) + r.a % 16 - 100 * (1 - one(r.c))
                == 10 * (c.a / 16) + c.a % 16 - 10 * (v / 16) - v % 16 - 1 + one(c.c)
        }),
{
    crate::mos6502::laws::law_decimal_sub(c, v);
}

proof fn lemma_subtracts_binary(c: Cpu, v: u8)
    ensures
        ({
            let r = cpu::sub_binary(c, v);
            let a = c.a;
            let full = a - v - 1 + one(c.c);
            let bin = if full < 0 { full + 256 } else { full };
            &&& r.a == bin
            &&& r.c == (full >= 0)
            &&& r.v == ((a < 128) != (v < 128) && (a < 128) != (bin < 128))
            &&& r.z == (bin == 0) && r.n == (bin >= 128)
            &&& r == (Cpu { a: r.a, c: r.c, z: r.z, n: r.n, v: r.v, ..c })
        }),
{
    let full = c.a - v - 1 + one(c.c);
    assert(full % 256 == (if full < 0 { full + 256 } else { full }));
}

/// `LDA`, `LDX`, `LDY` and `LAX` bring in the operand; zero and sign are its own.
pub proof fn law_loads<B: Bus>(s: Core<B>)
    requires
        quiet(s.bus),
        aaa(code(s, 0)) == 5,
        cc(code(s, 0)) == 1 || cc(code(s, 0)) == 3 && bbb(code(s, 0)) != 6
            || bbb(code(s, 0)) % 2 == 1 || bbb(code(s, 0)) == 0,
    ensures
        ({
            let r = stepped(s).0;
            let v = at(s, place(s));
            let g = cc(code(s, 0));
            &&& zn_of(r.cpu, v)
            &&& r.cpu == (Cpu {
                a: if g == 1 || g == 3 { v } else { s.cpu.a },
                x: if g == 2 || g == 3 { v } else { s.cpu.x },
                y: if g == 0 { v } else { s.cpu.y },
                z: r.cpu.z, n: r.cpu.n, cycles: r.cpu.cycles,
                pc: moved(s, length(code(s, 0))), ..s.cpu
            })
            &&& r.bus == s.bus
        }),
{
    lemma_names(code(s, 0));
    lemma_reads(s, decoded(code(s, 0)).0);
}

/// `STA`, `STX`, `STY` and `SAX` write a register, or what accumulator and X have
/// in common, and change no register and no flag.
pub proof fn law_stores<B: Bus>(s: Core<B>, k: u8)
    requires
        quiet(s.bus),
        aaa(code(s, 0)) == 4,
        cc(code(s, 0)) == 1 && bbb(code(s, 0)) != 2 || cc(code(s, 0)) != 1
            && (bbb(code(s, 0)) == 1 || bbb(code(s, 0)) == 3 || bbb(code(s, 0)) == 5
                || cc(code(s, 0)) == 3 && bbb(code(s, 0)) == 0),
        k < 8,
    ensures
        ({
            let r = stepped(s).0;
            let g = cc(code(s, 0));
            let w = if g == 0 { s.cpu.y } else if g == 1 { s.cpu.a } else if g == 2 { s.cpu.x }
                else { s.cpu.a & s.cpu.x };
            &&& g == 3 ==> bit_of(w, k) == (bit_of(s.cpu.a, k) && bit_of(s.cpu.x, k))
            &&& r.bus == s.bus.after_write((place(s) % 0x1_0000) as u16, w)
            &&& r.cpu == (Cpu {
                cycles: r.cpu.cycles, pc: moved(s, length(code(s, 0))), ..s.cpu
            })
        }),
{
    lemma_names(code(s, 0));
    lemma_writes(s, decoded(code(s, 0)).0);
    lemma_bitwise(s.cpu.a, s.cpu.x, k);
}

/// `CMP` ($C1 and its kin), `CPX` and `CPY`: C says that the register is not less
/// than the operand, Z that they are equal, N that their difference has bit 7.
pub proof fn law_compares<B: Bus>(s: Core<B>)
    requires
        quiet(s.bus),
        cc(code(s, 0)) == 1 && aaa(code(s, 0)) == 6
            || cc(code(s, 0)) == 0 && aaa(code(s, 0)) >= 6
                && (bbb(code(s, 0)) == 0 || bbb(code(s, 0)) == 1 || bbb(code(s, 0)) == 3),
    ensures
        ({
            let r = stepped(s).0;
            let v = at(s, place(s));
            let reg = if cc(code(s, 0)) == 1 { s.cpu.a }
                else if aaa(code(s, 0)) == 6 { s.cpu.y } else { s.cpu.x };
            let diff = reg - v;
            &&& r.cpu.c == (reg >= v)
            &&& r.cpu.z == (reg == v)
            &&& r.cpu.n == (diff >= 128 || -128 <= diff < 0)
            &&& r.cpu == (Cpu {
                c: r.cpu.c, z: r.cpu.z, n: r.cpu.n, cycles: r.cpu.cycles,
                pc: moved(s, length(code(s, 0))), ..s.cpu
            })
            &&& r.bus == s.bus
        }),
{
    lemma_names(code(s, 0));
    lemma_reads(s, decoded(code(s, 0)).0);
}

/// `BIT` ($24, $2C): N and V are the operand's bits 7 and 6, and Z says that no
/// bit is set in accumulator and operand both.
pub proof fn law_bit<B: Bus>(s: Core<B>, k: u8)
    requires
        quiet(s.bus),
        code(s, 0) == 0x24 || code(s, 0) == 0x2C,
        k < 8,
    ensures
        ({
            let r = stepped(s).0;
            let v = at(s, place(s));
            &&& r.cpu.z ==> !(bit_of(s.cpu.a, k) && bit_of(v, k))
            &&& !r.cpu.z ==> exists|j: u8| j < 8 && #[trigger] bit_of(s.cpu.a, j) && bit_of(v, j)
            &&& r.cpu.n == bit_of(v, 7)
            &&& r.cpu.v == bit_of(v, 6)
            &&& r.cpu == (Cpu {
                z: r.cpu.z, n: r.cpu.n, v: r.cpu.v, cycles: r.cpu.cycles,
                pc: moved(s, length(code(s, 0))), ..s.cpu
            })
            &&& r.bus == s.bus
        }),
{
    lemma_names(code(s, 0));
    lemma_reads(s, Mnemonic::Bit);
    let v = at(s, place(s));
    lemma_bitwise(s.cpu.a, v, k);
    lemma_some_bit(s.cpu.a, v);
}

proof fn lemma_some_bit(a: u8, v: u8)
    ensures
        bit_of(v, 7) == (v >= 128),
        bit_of(v, 6) == (v / 64 % 2 == 1),
        a & v == 0 ==> !bit_of(a & v, 0) && !bit_of(a & v, 1) && !bit_of(a & v, 2)
            && !bit_of(a & v, 3) && !bit_of(a & v, 4) && !bit_of(a & v, 5) && !bit_of(a & v, 6)
            && !bit_of(a & v, 7),
        a & v == 0 ==> forall|k: u8| k < 8 ==> !#[trigger] bit_of(a & v, k),
        a & v != 0 ==> exists|j: u8| j < 8 && #[trigger] bit_of(a, j) && bit_of(v, j),
{
    lemma_digits(v);
    lemma_digits(a & v);
    if a & v != 0 {
        let j: u8 = if bit_of(a & v, 0) { 0 } else if bit_of(a & v, 1) { 1 }
            else if bit_of(a & v, 2) { 2 } else if bit_of(a & v, 3) { 3 }
            else if bit_of(a & v, 4) { 4 } else if bit_of(a & v, 5) { 5 }
            else if bit_of(a & v, 6) { 6 } else { 7 };
        lemma_bitwise(a, v, j);
        assert(bit_of(a, j) && bit_of(v, j));
    } else {
        assert forall|k: u8| k < 8 implies !#[trigger] bit_of(a & v, k) by {
            assert(k == 0 || k == 1 || k == 2 || k == 3 || k == 4 || k == 5 || k == 6 || k == 7);
        }
    }
}

// ---- shifts, INC and DEC ----

/// The byte that a read-modify-write instruction finds: the accumulator for the
/// four shifts of it, else the operand.
pub open spec fn found<B: Bus>(s: Core<B>) -> u8 {
    if bbb(code(s, 0)) == 2 { s.cpu.a } else { at(s, place(s)) }
}

/// `ASL`, `ROL`, `LSR`, `ROR`, `DEC` and `INC`, in memory or on the accumulator,
/// and their undocumented kin `SLO`, `RLA`, `SRE`, `RRA`, `DCP` and `ISC` in
/// memory: what is written back.
pub open spec fn modifies<B: Bus>(s: Core<B>) -> bool {
    let o = code(s, 0);
    &&& aaa(o) != 4 && aaa(o) != 5
    &&& cc(o) == 2 && bbb(o) % 2 == 1 || cc(o) == 2 && bbb(o) == 2 && aaa(o) <= 3
        || cc(o) == 3 && bbb(o) != 2
}

/// A shift moves every bit up or down by one place; what falls out is the carry,
/// and a rotation brings the old carry in at the other end. `INC` and `DEC` count
/// round at 256.
pub open spec fn rewritten(aaa: int, v: u8, c: bool, w: u8, carry: bool) -> bool {
    if aaa == 0 { w + 256 * one(carry) == 2 * v }
    else if aaa == 1 { w + 256 * one(carry) == 2 * v + one(c) }
    else if aaa == 2 { 2 * w + one(carry) == v }
    else if aaa == 3 { 2 * w + one(carry) == v + 256 * one(c) }
    else if aaa == 6 { (w + 1) % 256 == v && carry == c }
    else { w == (v + 1) % 256 && carry == c }
}

/// The documented ones: what is written back or left in the accumulator is the
/// byte found, shifted or counted; zero and sign are its own.
pub proof fn law_shifts_and_counts<B: Bus>(s: Core<B>)
    requires
        quiet(s.bus),
        modifies(s),
        cc(code(s, 0)) == 2,
    ensures
        ({
            let r = stepped(s).0;
            let o = code(s, 0);
            exists|w: u8| {
                &&& #[trigger] rewritten(aaa(o), found(s), s.cpu.c, w, r.cpu.c)
                &&& zn_of(r.cpu, w)
                &&& bbb(o) == 2 ==> r.bus == s.bus && r.cpu == (Cpu {
                    a: w, c: r.cpu.c, z: r.cpu.z, n: r.cpu.n, cycles: r.cpu.cycles,
                    pc: moved(s, 1), ..s.cpu
                })
                &&& bbb(o) != 2 ==> r.bus
                    == s.bus.after_write((place(s) % 0x1_0000) as u16, w) && r.cpu == (Cpu {
                    c: r.cpu.c, z: r.cpu.z, n: r.cpu.n, cycles: r.cpu.cycles,
                    pc: moved(s, length(o)), ..s.cpu
                })
            }
        }),
{
    let o = code(s, 0);
    let r = stepped(s).0;
    lemma_modifier(o);
    let m = decoded(o).0;
    lemma_rewrites(s, m);
    let c = Cpu { pc: moved(s, if bbb(o) == 2 { 1 } else { length(o) }), ..s.cpu };
    lemma_rewritten(c, o, m, found(s));
    let w = reworked(c, m, found(s)).1;
    assert(rewritten(aaa(o), found(s), s.cpu.c, w, r.cpu.c));
}

proof fn lemma_rewritten(c: Cpu, o: u8, m: Mnemonic, v: u8)
    requires
        m == (if aaa(o) == 0 { Mnemonic::Asl } else if aaa(o) == 1 { Mnemonic::Rol }
            else if aaa(o) == 2 { Mnemonic::Lsr } else if aaa(o) == 3 { Mnemonic::Ror }
            else if aaa(o) == 6 { Mnemonic::Dec } else { Mnemonic::Inc }),
        aaa(o) != 4 && aaa(o) != 5,
    ensures
        ({
            let (d, w) = reworked(c, m, v);
            &&& rewritten(aaa(o), v, c.c, w, d.c)
            &&& zn_of(d, w)
            &&& d == (Cpu { c: d.c, z: d.z, n: d.n, ..c })
        }),
{
    reveal(reworked);
}

proof fn lemma_modifier(o: u8)
    requires
        aaa(o) != 4 && aaa(o) != 5,
        cc(o) == 2 && bbb(o) % 2 == 1 || cc(o) == 2 && bbb(o) == 2 && aaa(o) <= 3
            || cc(o) == 3 && bbb(o) != 2,
    ensures
        ({
            let m = decoded(o).0;
            let row = aaa(o);
            &&& cc(o) == 2 && bbb(o) == 2 ==> decoded(o).1 == AddrMode::Acc
            &&& cc(o) == 2 ==> m == (if row == 0 { Mnemonic::Asl } else if row == 1 { Mnemonic::Rol }
                else if row == 2 { Mnemonic::Lsr } else if row == 3 { Mnemonic::Ror }
                else if row == 6 { Mnemonic::Dec } else { Mnemonic::Inc })
            &&& cc(o) == 3 ==> m == (if row == 0 { Mnemonic::Slo } else if row == 1 { Mnemonic::Rla }
                else if row == 2 { Mnemonic::Sre } else if row == 3 { Mnemonic::Rra }
                else if row == 6 { Mnemonic::Dcp } else { Mnemonic::Isc })
            &&& !(cc(o) == 2 && bbb(o) == 2) ==> decoded(o).1 != AddrMode::Acc
        }),
{
    reveal(decoded);
}

/// The undocumented ones write the same byte, and then do to the accumulator what
/// the documented instruction one place before them (`ORA`, `AND`, `EOR`, `ADC`,
/// `CMP`, `SBC`) does with that byte.
pub proof fn law_combined<B: Bus>(s: Core<B>, k: u8)
    requires
        quiet(s.bus),
        modifies(s),
        cc(code(s, 0)) == 3,
        k < 8,
    ensures
        ({
            let r = stepped(s).0;
            let row = aaa(code(s, 0));
            let a = s.cpu.a;
            exists|w: u8, carry: bool| {
                &&& #[trigger] rewritten(row, found(s), s.cpu.c, w, carry)
                &&& r.bus == s.bus.after_write((place(s) % 0x1_0000) as u16, w)
                &&& row == 0 ==> bit_of(r.cpu.a, k) == (bit_of(a, k) || bit_of(w, k))
                &&& row == 1 ==> bit_of(r.cpu.a, k) == (bit_of(a, k) && bit_of(w, k))
                &&& row == 2 ==> bit_of(r.cpu.a, k) == (bit_of(a, k) != bit_of(w, k))
                &&& row <= 2 ==> zn_of(r.cpu, r.cpu.a) && r.cpu.c == carry && r.cpu.v == s.cpu.v
                &&& row == 3 && !s.cpu.d ==> {
                    &&& r.cpu.a + 256 * one(r.cpu.c) == a + w + one(carry)
                    &&& r.cpu.v == ((a < 128) == (w < 128) && (a < 128) != (r.cpu.a < 128))
                    &&& zn_of(r.cpu, r.cpu.a)
                }
                &&& row == 6 ==> r.cpu.a == a && r.cpu.c == (a >= w) && r.cpu.z == (a == w)
                    && r.cpu.v == s.cpu.v
                &&& row == 7 && !s.cpu.d ==> {
                    &&& r.cpu.a == a - w - 1 + one(s.cpu.c) + 256 * (1 - one(r.cpu.c))
                    &&& r.cpu.v == ((a < 128) != (w < 128) && (a < 128) != (r.cpu.a < 128))
                    &&& zn_of(r.cpu, r.cpu.a)
                }
                &&& r.cpu == (Cpu {
                    a: r.cpu.a, c: r.cpu.c, z: r.cpu.z, n: r.cpu.n, v: r.cpu.v,
                    cycles: r.cpu.cycles, pc: moved(s, length(code(s, 0))), ..s.cpu
                })
            }
        }),
{
    let o = code(s, 0);
    let r = stepped(s).0;
    lemma_modifier(o);
    lemma_rewrites(s, decoded(o).0);
    let c = Cpu { pc: moved(s, length(o)), ..s.cpu };
    let (w, carry) = lemma_both_halves(c, o, decoded(o).0, found(s), k);
    assert(rewritten(aaa(o), found(s), s.cpu.c, w, carry));
}

proof fn lemma_reworked(c: Cpu, m: Mnemonic, v: u8)
    ensures
        ({
            let half = cpu::modifying_half(m);
            let w = cpu::modified_byte(c.c, half, v);
            reworked(c, m, v)
                == (cpu::after_operand(
                    cpu::after_modify_half(c, half, v), cpu::accumulating_half(m), w), w)
        }),
{
    reveal(reworked);
}

proof fn lemma_first_half(c: bool, o: u8, half: Mnemonic, v: u8)
    requires
        half == (if aaa(o) == 0 { Mnemonic::Asl } else if aaa(o) == 1 { Mnemonic::Rol }
            else if aaa(o) == 2 { Mnemonic::Lsr } else if aaa(o) == 3 { Mnemonic::Ror }
            else if aaa(o) == 6 { Mnemonic::Dec } else { Mnemonic::Inc }),
        aaa(o) != 4 && aaa(o) != 5,
    ensures
        rewritten(
            aaa(o), v, c, cpu::modified_byte(c, half, v), cpu::modified_carry(c, half, v)),
{
}

proof fn lemma_second_half(c: Cpu, o: u8, m: Mnemonic, w: u8, k: u8)
    requires
        aaa(o) != 4 && aaa(o) != 5,
        m == (if aaa(o) == 0 { Mnemonic::Ora } else if aaa(o) == 1 { Mnemonic::And }
            else if aaa(o) == 2 { Mnemonic::Eor } else if aaa(o) == 3 { Mnemonic::Adc }
            else if aaa(o) == 6 { Mnemonic::Cmp } else { Mnemonic::Sbc }),
        k < 8,
    ensures
        ({
            let row = aaa(o);
            let d = cpu::after_operand(c, m, w);
            &&& row == 0 ==> bit_of(d.a, k) == (bit_of(c.a, k) || bit_of(w, k))
            &&& row == 1 ==> bit_of(d.a, k) == (bit_of(c.a, k) && bit_of(w, k))
            &&& row == 2 ==> bit_of(d.a, k) == (bit_of(c.a, k) != bit_of(w, k))
            &&& row <= 2 ==> zn_of(d, d.a) && d.c == c.c && d.v == c.v
            &&& row == 3 && !c.d ==> {
                &&& d.a + 256 * one(d.c) == c.a + w + one(c.c)
                &&& d.v == ((c.a < 128) == (w < 128) && (c.a < 128) != (d.a < 128))
                &&& zn_of(d, d.a)
            }
            &&& row == 6 ==> d.a == c.a && d.c == (c.a >= w) && d.z == (c.a == w) && d.v == c.v
            &&& row == 7 && !c.d ==> {
                &&& d.a == c.a - w - 1 + one(c.c) + 256 * (1 - one(d.c))
                &&& d.v == ((c.a < 128) != (w < 128) && (c.a < 128) != (d.a < 128))
                &&& zn_of(d, d.a)
            }
            &&& d == (Cpu { a: d.a, c: d.c, z: d.z, n: d.n, v: d.v, ..c })
        }),
{
    lemma_bitwise(c.a, w, k);
    if aaa(o) == 3 {
        lemma_adds(c, w);
    } else if aaa(o) == 7 {
        lemma_subtracts(c, w);
    }
}

/// What both halves of an undocumented read-modify-write instruction do.
proof fn lemma_both_halves(c: Cpu, o: u8, m: Mnemonic, v: u8, k: u8) -> (r: (u8, bool))
    requires
        aaa(o) != 4 && aaa(o) != 5,
        m == (if aaa(o) == 0 { Mnemonic::Slo } else if aaa(o) == 1 { Mnemonic::Rla }
            else if aaa(o) == 2 { Mnemonic::Sre } else if aaa(o) == 3 { Mnemonic::Rra }
            else if aaa(o) == 6 { Mnemonic::Dcp } else { Mnemonic::Isc }),
        k < 8,
    ensures
        ({
            let (w, carry) = r;
            let row = aaa(o);
            let d = reworked(c, m, v).0;
            &&& reworked(c, m, v).1 == w
            &&& rewritten(row, v, c.c, w, carry)
            &&& row == 0 ==> bit_of(d.a, k) == (bit_of(c.a, k) || bit_of(w, k))
            &&& row == 1 ==> bit_of(d.a, k) == (bit_of(c.a, k) && bit_of(w, k))
            &&& row == 2 ==> bit_of(d.a, k) == (bit_of(c.a, k) != bit_of(w, k))
            &&& row <= 2 ==> zn_of(d, d.a) && d.c == carry && d.v == c.v
            &&& row == 3 && !c.d ==> {
                &&& d.a + 256 * one(d.c) == c.a + w + one(carry)
                &&& d.v == ((c.a < 128) == (w < 128) && (c.a < 128) != (d.a < 128))
                &&& zn_of(d, d.a)
            }
            &&& row == 6 ==> d.a == c.a && d.c == (c.a >= w) && d.z == (c.a == w) && d.v == c.v
            &&& row == 7 && !c.d ==> {
                &&& d.a == c.a - w - 1 + one(c.c) + 256 * (1 - one(d.c))
                &&& d.v == ((c.a < 128) != (w < 128) && (c.a < 128) != (d.a < 128))
                &&& zn_of(d, d.a)
            }
            &&& d == (Cpu { a: d.a, c: d.c, z: d.z, n: d.n, v: d.v, ..c })
        }),
{
    lemma_reworked(c, m, v);
    let half = cpu::modifying_half(m);
    let w = cpu::modified_byte(c.c, half, v);
    let carry = cpu::modified_carry(c.c, half, v);
    lemma_bitwise(c.a, w, k);
    let c1 = cpu::after_modify_half(c, half, v);
    assert(c1 == (Cpu { c: carry, z: w == 0, n: w >= 128, ..c }));
    let acc = cpu::accumulating_half(m);
    assert(reworked(c, m, v) == (cpu::after_operand(c1, acc, w), w));
    lemma_first_half(c.c, o, half, v);
    lemma_second_half(c1, o, acc, w, k);
    (w, carry)
}

// ---- one-byte instructions on registers and flags ----

/// The transfers, counts and flag instructions, by number.
pub proof fn law_registers<B: Bus>(s: Core<B>)
    requires
        quiet(s.bus),
    ensures
        ({
            let r = stepped(s).0;
            let c = Cpu { pc: moved(s, 1), cycles: r.cpu.cycles, ..s.cpu };
            let zn = |d: Cpu, v: u8| Cpu { z: v == 0, n: v >= 128, ..d };
            let up = |v: u8| if v == 255 { 0u8 } else { (v + 1) as u8 };
            let down = |v: u8| if v == 0 { 255u8 } else { (v - 1) as u8 };
            let o = code(s, 0);
            &&& o == 0xAA ==> r.cpu == zn(Cpu { x: s.cpu.a, ..c }, s.cpu.a)
            &&& o == 0xA8 ==> r.cpu == zn(Cpu { y: s.cpu.a, ..c }, s.cpu.a)
            &&& o == 0x8A ==> r.cpu == zn(Cpu { a: s.cpu.x, ..c }, s.cpu.x)
            &&& o == 0x98 ==> r.cpu == zn(Cpu { a: s.cpu.y, ..c }, s.cpu.y)
            &&& o == 0xBA ==> r.cpu == zn(Cpu { x: s.cpu.sp, ..c }, s.cpu.sp)
            &&& o == 0x9A ==> r.cpu == (Cpu { sp: s.cpu.x, ..c })
            &&& o == 0xE8 ==> r.cpu == zn(Cpu { x: up(s.cpu.x), ..c }, up(s.cpu.x))
            &&& o == 0xC8 ==> r.cpu == zn(Cpu { y: up(s.cpu.y), ..c }, up(s.cpu.y))
            &&& o == 0xCA ==> r.cpu == zn(Cpu { x: down(s.cpu.x), ..c }, down(s.cpu.x))
            &&& o == 0x88 ==> r.cpu == zn(Cpu { y: down(s.cpu.y), ..c }, down(s.cpu.y))
            &&& o == 0x18 ==> r.cpu == (Cpu { c: false, ..c })
            &&& o == 0x38 ==> r.cpu == (Cpu { c: true, ..c })
            &&& o == 0x58 ==> r.cpu == (Cpu { i: false, ..c })
            &&& o == 0x78 ==> r.cpu == (Cpu { i: true, ..c })
            &&& o == 0xB8 ==> r.cpu == (Cpu { v: false, ..c })
            &&& o == 0xD8 ==> r.cpu == (Cpu { d: false, ..c })
            &&& o == 0xF8 ==> r.cpu == (Cpu { d: true, ..c })
            &&& o == 0xEA ==> r.cpu == c
            &&& (o == 0xAA || o == 0xA8 || o == 0x8A || o == 0x98 || o == 0xBA || o == 0x9A
                || o == 0xE8 || o == 0xC8 || o == 0xCA || o == 0x88 || o == 0x18 || o == 0x38
                || o == 0x58 || o == 0x78 || o == 0xB8 || o == 0xD8 || o == 0xF8 || o == 0xEA)
                ==> r.bus == s.bus
        }),
{
    let o = code(s, 0);
    lemma_step(s);
    lemma_names_of_registers(o);
    lemma_performed(s, decoded(o).0, decoded(o).1);
}

proof fn lemma_names_of_registers(o: u8)
    ensures
        o == 0xAA ==> decoded(o).0 == Mnemonic::Tax,
        o == 0xA8 ==> decoded(o).0 == Mnemonic::Tay,
        o == 0x8A ==> decoded(o).0 == Mnemonic::Txa,
        o == 0x98 ==> decoded(o).0 == Mnemonic::Tya,
        o == 0xBA ==> decoded(o).0 == Mnemonic::Tsx,
        o == 0x9A ==> decoded(o).0 == Mnemonic::Txs,
        o == 0xE8 ==> decoded(o).0 == Mnemonic::Inx,
        o == 0xC8 ==> decoded(o).0 == Mnemonic::Iny,
        o == 0xCA ==> decoded(o).0 == Mnemonic::Dex,
        o == 0x88 ==> decoded(o).0 == Mnemonic::Dey,
        o == 0x18 ==> decoded(o).0 == Mnemonic::Clc,
        o == 0x38 ==> decoded(o).0 == Mnemonic::Sec,
        o == 0x58 ==> decoded(o).0 == Mnemonic::Cli,
        o == 0x78 ==> decoded(o).0 == Mnemonic::Sei,
        o == 0xB8 ==> decoded(o).0 == Mnemonic::Clv,
        o == 0xD8 ==> decoded(o).0 == Mnemonic::Cld,
        o == 0xF8 ==> decoded(o).0 == Mnemonic::Sed,
        o == 0xEA ==> decoded(o) == (Mnemonic::Nop, AddrMode::Imp),
        o == 0x48 ==> decoded(o).0 == Mnemonic::Pha,
        o == 0x08 ==> decoded(o).0 == Mnemonic::Php,
        o == 0x68 ==> decoded(o).0 == Mnemonic::Pla,
        o == 0x28 ==> decoded(o).0 == Mnemonic::Plp,
        o == 0x4C ==> decoded(o) == (Mnemonic::Jmp, AddrMode::Abs),
        o == 0x6C ==> decoded(o) == (Mnemonic::Jmp, AddrMode::Ind),
        o == 0x60 ==> decoded(o).0 == Mnemonic::Rts,
        o == 0x40 ==> decoded(o).0 == Mnemonic::Rti,
        o == 0x20 ==> decoded(o).0 == Mnemonic::Jsr,
        o == 0x00 ==> decoded(o).0 == Mnemonic::Brk,
{
    reveal(decoded);
}

// ---- the stack, jumps and calls ----

/// `PHA` and `PHP` write below the stack pointer's place; `PHP` sets bits 4 and 5
/// and lays the flags out as N V - B D I Z C.
pub proof fn law_pushes<B: Bus>(s: Core<B>)
    requires
        quiet(s.bus),
        code(s, 0) == 0x48 || code(s, 0) == 0x08,
    ensures
        ({
            let r = stepped(s).0;
            let flags = 48 + one(s.cpu.c) + 2 * one(s.cpu.z) + 4 * one(s.cpu.i)
                + 8 * one(s.cpu.d) + 64 * one(s.cpu.v) + 128 * one(s.cpu.n);
            &&& r.bus == s.bus.after_write(
                (0x100 + s.cpu.sp) as u16,
                if code(s, 0) == 0x48 { s.cpu.a } else { flags as u8 },
            )
            &&& r.cpu == (Cpu {
                sp: if s.cpu.sp == 0 { 255 } else { (s.cpu.sp - 1) as u8 },
                pc: moved(s, 1), cycles: r.cpu.cycles, ..s.cpu
            })
        }),
{
    let o = code(s, 0);
    lemma_step(s);
    lemma_names_of_registers(o);
    lemma_performed(s, decoded(o).0, decoded(o).1);
}

/// `PLA` and `PLP` read above the stack pointer's place.
pub proof fn law_pulls<B: Bus>(s: Core<B>)
    requires
        quiet(s.bus),
        code(s, 0) == 0x68 || code(s, 0) == 0x28,
    ensures
        ({
            let r = stepped(s).0;
            let sp = if s.cpu.sp == 255 { 0u8 } else { (s.cpu.sp + 1) as u8 };
            let v = at(s, 0x100 + sp);
            &&& code(s, 0) == 0x68 ==> r.cpu == (Cpu {
                a: v, z: v == 0, n: v >= 128, sp, pc: moved(s, 1), cycles: r.cpu.cycles, ..s.cpu
            })
            &&& code(s, 0) == 0x28 ==> r.cpu == (Cpu {
                c: v % 2 == 1, z: v / 2 % 2 == 1, i: v / 4 % 2 == 1, d: v / 8 % 2 == 1,
                v: v / 64 % 2 == 1, n: v >= 128, sp, pc: moved(s, 1), cycles: r.cpu.cycles, ..s.cpu
            })
            &&& r.bus == s.bus
        }),
{
    let o = code(s, 0);
    lemma_step(s);
    lemma_names_of_registers(o);
    lemma_performed(s, decoded(o).0, decoded(o).1);
}

/// `JMP` goes where its operand says, or to the word that its operand points to,
/// whose high byte comes from the page of the low one. `RTS` and `RTI` go where
/// the stack says, `RTS` a byte further, and `RTI` brings the flags back.
pub proof fn law_jumps<B: Bus>(s: Core<B>)
    requires
        quiet(s.bus),
    ensures
        ({
            let r = stepped(s).0;
            let o = code(s, 0);
            let w = code(s, 1) + 256 * code(s, 2);
            let sp = |n: int| (s.cpu.sp + n) % 256;
            let pulled = |n: int| at(s, 0x100 + sp(n));
            &&& o == 0x4C ==> r.cpu == (Cpu { pc: w as u16, cycles: r.cpu.cycles, ..s.cpu })
            &&& o == 0x6C ==> r.cpu == (Cpu {
                pc: (at(s, w) + 256 * at(s, w / 256 * 256 + (w + 1) % 256)) as u16,
                cycles: r.cpu.cycles, ..s.cpu
            })
            &&& o == 0x60 ==> r.cpu == (Cpu {
                pc: ((pulled(1) + 256 * pulled(2) + 1) % 0x1_0000) as u16,
                sp: sp(2) as u8, cycles: r.cpu.cycles, ..s.cpu
            })
            &&& o == 0x40 ==> r.cpu == (Cpu {
                c: pulled(1) % 2 == 1, z: pulled(1) / 2 % 2 == 1, i: pulled(1) / 4 % 2 == 1,
                d: pulled(1) / 8 % 2 == 1, v: pulled(1) / 64 % 2 == 1, n: pulled(1) >= 128,
                pc: (pulled(2) + 256 * pulled(3)) as u16,
                sp: sp(3) as u8, cycles: r.cpu.cycles, ..s.cpu
            })
            &&& o == 0x4C || o == 0x6C || o == 0x60 || o == 0x40 ==> r.bus == s.bus
        }),
{
    let o = code(s, 0);
    if o == 0x4C || o == 0x6C {
        lemma_jmp(s);
    }
    if o == 0x60 || o == 0x40 {
        lemma_returns(s);
    }
}

proof fn lemma_jmp<B: Bus>(s: Core<B>)
    requires
        quiet(s.bus),
        code(s, 0) == 0x4C || code(s, 0) == 0x6C,
    ensures
        ({
            let r = stepped(s).0;
            let w = code(s, 1) + 256 * code(s, 2);
            &&& code(s, 0) == 0x4C ==> r.cpu == (Cpu {
                pc: w as u16, cycles: r.cpu.cycles, ..s.cpu
            })
            &&& code(s, 0) == 0x6C ==> r.cpu == (Cpu {
                pc: (at(s, w) + 256 * at(s, w / 256 * 256 + (w + 1) % 256)) as u16,
                cycles: r.cpu.cycles, ..s.cpu
            })
            &&& r.bus == s.bus
        }),
{
    let o = code(s, 0);
    lemma_step(s);
    lemma_names_of_registers(o);
    lemma_performed(s, decoded(o).0, decoded(o).1);
    lemma_code_bytes(s);
    let w = code(s, 1) + 256 * code(s, 2);
    let ptr = w as u16;
    let t = Core { cpu: Cpu { pc: moved(s, 3), ..s.cpu }, bus: s.bus };
    let hi = w / 256 * 256 + (w + 1) % 256;
    assert(cpu::next_in_page(ptr) == hi);
    assert(w % 0x1_0000 == w && hi % 0x1_0000 == hi);
    assert(cpu::read_word_at(t, ptr, cpu::next_in_page(ptr))
        == (t, (at(s, w) + 256 * at(s, hi)) as u16));
}

proof fn lemma_returns<B: Bus>(s: Core<B>)
    requires
        quiet(s.bus),
        code(s, 0) == 0x60 || code(s, 0) == 0x40,
    ensures
        ({
            let r = stepped(s).0;
            let sp = |n: int| (s.cpu.sp + n) % 256;
            let pulled = |n: int| at(s, 0x100 + sp(n));
            &&& code(s, 0) == 0x60 ==> r.cpu == (Cpu {
                pc: ((pulled(1) + 256 * pulled(2) + 1) % 0x1_0000) as u16,
                sp: sp(2) as u8, cycles: r.cpu.cycles, ..s.cpu
            })
            &&& code(s, 0) == 0x40 ==> r.cpu == (Cpu {
                c: pulled(1) % 2 == 1, z: pulled(1) / 2 % 2 == 1, i: pulled(1) / 4 % 2 == 1,
                d: pulled(1) / 8 % 2 == 1, v: pulled(1) / 64 % 2 == 1, n: pulled(1) >= 128,
                pc: (pulled(2) + 256 * pulled(3)) as u16,
                sp: sp(3) as u8, cycles: r.cpu.cycles, ..s.cpu
            })
            &&& r.bus == s.bus
        }),
{
    let o = code(s, 0);
    lemma_step(s);
    lemma_names_of_registers(o);
    lemma_named(s, decoded(o).0, decoded(o).1);
    if o == 0x60 {
        lemma_rts(s, decoded(o).1);
    } else {
        lemma_rti(s, decoded(o).1);
    }
}

proof fn lemma_stacked<B: Bus>(s: Core<B>, t: Core<B>)
    requires
        quiet(s.bus),
        t.bus == s.bus,
    ensures
        cpu::pull_byte(t) == (
            Core { cpu: Cpu { sp: ((t.cpu.sp + 1) % 256) as u8, ..t.cpu }, bus: s.bus },
            at(s, 0x100 + (t.cpu.sp + 1) % 256),
        ),
        cpu::pull_word(t) == (
            Core { cpu: Cpu { sp: ((t.cpu.sp + 2) % 256) as u8, ..t.cpu }, bus: s.bus },
            (at(s, 0x100 + (t.cpu.sp + 1) % 256) + 256 * at(s, 0x100 + (t.cpu.sp + 2) % 256))
                as u16,
        ),
{
    assert(t.cpu.sp.wrapping_add(1) == (t.cpu.sp + 1) % 256);
    assert(t.cpu.sp.wrapping_add(1).wrapping_add(1) == (t.cpu.sp + 2) % 256);
    let u = Core { cpu: Cpu { sp: ((t.cpu.sp + 1) % 256) as u8, ..t.cpu }, bus: s.bus };
    assert(cpu::pull_byte(t).0 == u);
    assert(cpu::pull_byte(u).1 == at(s, 0x100 + (t.cpu.sp + 2) % 256));
}

proof fn lemma_rts<B: Bus>(s: Core<B>, mode: AddrMode)
    requires
        quiet(s.bus),
    ensures
        ({
            let r = cpu::after_instruction(behind(s), Mnemonic::Rts, mode).0;
            let (lo, hi) = (at(s, 0x100 + (s.cpu.sp + 1) % 256), at(s, 0x100 + (s.cpu.sp + 2) % 256));
            &&& r.cpu == (Cpu {
                pc: ((lo + 256 * hi + 1) % 0x1_0000) as u16,
                sp: ((s.cpu.sp + 2) % 256) as u8, ..s.cpu
            })
            &&& r.bus == s.bus
        }),
{
    lemma_stacked(s, behind(s));
}

proof fn lemma_rti<B: Bus>(s: Core<B>, mode: AddrMode)
    requires
        quiet(s.bus),
    ensures
        ({
            let r = cpu::after_instruction(behind(s), Mnemonic::Rti, mode).0;
            let p = at(s, 0x100 + (s.cpu.sp + 1) % 256);
            let (lo, hi) = (at(s, 0x100 + (s.cpu.sp + 2) % 256), at(s, 0x100 + (s.cpu.sp + 3) % 256));
            &&& r.cpu == (Cpu {
                c: p % 2 == 1, z: p / 2 % 2 == 1, i: p / 4 % 2 == 1, d: p / 8 % 2 == 1,
                v: p / 64 % 2 == 1, n: p >= 128,
                pc: (lo + 256 * hi) as u16, sp: ((s.cpu.sp + 3) % 256) as u8, ..s.cpu
            })
            &&& r.bus == s.bus
        }),
{
    let t = behind(s);
    lemma_stacked(s, t);
    let (u, p) = cpu::pull_byte(t);
    let f = Core { cpu: cpu::with_status(u.cpu, p), ..u };
    lemma_stacked(s, f);
    assert((f.cpu.sp + 1) % 256 == (s.cpu.sp + 2) % 256);
    assert((f.cpu.sp + 2) % 256 == (s.cpu.sp + 3) % 256);
    assert(p / 128 % 2 == 1 <==> p >= 128);
}

/// `JSR` ($20) stacks the address of its last byte, high byte first, and jumps.
pub proof fn law_calls<B: Bus>(s: Core<B>)
    requires
        quiet(s.bus),
        code(s, 0) == 0x20,
    ensures
        ({
            let r = stepped(s).0;
            let ret = moved(s, 2);
            let top = (0x100 + s.cpu.sp) as u16;
            let below = (0x100 + (s.cpu.sp + 255) % 256) as u16;
            &&& r.bus == s.bus.after_write(top, (ret / 256) as u8)
                .after_write(below, (ret % 256) as u8)
            &&& r.cpu == (Cpu {
                pc: (code(s, 1) + 256 * code(s, 2)) as u16,
                sp: ((s.cpu.sp + 254) % 256) as u8, cycles: r.cpu.cycles, ..s.cpu
            })
        }),
{
    let o = code(s, 0);
    lemma_step(s);
    lemma_names_of_registers(o);
    lemma_performed(s, decoded(o).0, decoded(o).1);
    lemma_code_bytes(s);
}

/// What an interrupt stacks and where it goes: the program counter, high byte
/// first, then the status (bit 5 set, bit 4 for `BRK` only); the handler is read
/// from the vector. `BRK` stacks the address two behind itself.
pub proof fn law_interrupts<B: Bus>(s: Core<B>, vector: u16)
    ensures
        ({
            let r = cpu::hardware_interrupt(s, vector);
            let flags = 32 + one(s.cpu.c) + 2 * one(s.cpu.z) + 4 * one(s.cpu.i)
                + 8 * one(s.cpu.d) + 64 * one(s.cpu.v) + 128 * one(s.cpu.n);
            let pushed = s.bus
                .after_write((0x100 + s.cpu.sp) as u16, (s.cpu.pc / 256) as u8)
                .after_write((0x100 + (s.cpu.sp + 255) % 256) as u16, (s.cpu.pc % 256) as u8)
                .after_write((0x100 + (s.cpu.sp + 254) % 256) as u16, flags as u8);
            let next = ((vector + 1) % 0x1_0000) as u16;
            &&& r.bus == pushed.after_read(vector).after_read(next)
            &&& r.cpu == (Cpu {
                pc: (pushed.read_value(vector)
                    + 256 * pushed.after_read(vector).read_value(next)) as u16,
                sp: ((s.cpu.sp + 253) % 256) as u8,
                i: true,
                cycles: ((s.cpu.cycles + 7) % 0x1_0000_0000_0000_0000) as u64,
                ..s.cpu
            })
        }),
        quiet(s.bus) && code(s, 0) == 0x00 ==> {
            let r = stepped(s).0;
            let flags = 48 + one(s.cpu.c) + 2 * one(s.cpu.z) + 4 * one(s.cpu.i)
                + 8 * one(s.cpu.d) + 64 * one(s.cpu.v) + 128 * one(s.cpu.n);
            let pushed = s.bus
                .after_write((0x100 + s.cpu.sp) as u16, (moved(s, 2) / 256) as u8)
                .after_write((0x100 + (s.cpu.sp + 255) % 256) as u16, (moved(s, 2) % 256) as u8)
                .after_write((0x100 + (s.cpu.sp + 254) % 256) as u16, flags as u8);
            &&& r.bus == pushed.after_read(0xFFFE).after_read(0xFFFF)
            &&& r.cpu == (Cpu {
                pc: (pushed.read_value(0xFFFE)
                    + 256 * pushed.after_read(0xFFFE).read_value(0xFFFF)) as u16,
                sp: ((s.cpu.sp + 253) % 256) as u8,
                i: true,
                cycles: r.cpu.cycles,
                ..s.cpu
            })
        },
{
    lemma_entered(s, vector, false);
    if quiet(s.bus) && code(s, 0) == 0x00 {
        lemma_step(s);
        lemma_names_of_registers(0x00);
        lemma_named(s, decoded(0x00).0, decoded(0x00).1);
        lemma_brk(s, decoded(0x00).1);
    }
}

proof fn lemma_brk<B: Bus>(s: Core<B>, mode: AddrMode)
    ensures
        cpu::after_instruction(behind(s), Mnemonic::Brk, mode).0 == cpu::enter_interrupt(
            Core { cpu: Cpu { pc: moved(s, 2), ..s.cpu }, bus: s.bus }, 0xFFFE, true),
        ({
            let t = Core { cpu: Cpu { pc: moved(s, 2), ..s.cpu }, bus: s.bus };
            let r = cpu::enter_interrupt(t, 0xFFFE, true);
            let flags = 48 + one(s.cpu.c) + 2 * one(s.cpu.z) + 4 * one(s.cpu.i)
                + 8 * one(s.cpu.d) + 64 * one(s.cpu.v) + 128 * one(s.cpu.n);
            let pushed = s.bus
                .after_write((0x100 + s.cpu.sp) as u16, (moved(s, 2) / 256) as u8)
                .after_write((0x100 + (s.cpu.sp + 255) % 256) as u16, (moved(s, 2) % 256) as u8)
                .after_write((0x100 + (s.cpu.sp + 254) % 256) as u16, flags as u8);
            &&& r.bus == pushed.after_read(0xFFFE).after_read(0xFFFF)
            &&& r.cpu == (Cpu {
                pc: (pushed.read_value(0xFFFE)
                    + 256 * pushed.after_read(0xFFFE).read_value(0xFFFF)) as u16,
                sp: ((s.cpu.sp + 253) % 256) as u8,
                i: true,
                ..s.cpu
            })
        }),
{
    let t = Core { cpu: Cpu { pc: moved(s, 2), ..s.cpu }, bus: s.bus };
    assert(moved(s, 1).wrapping_add(1) == moved(s, 2));
    lemma_entered(t, 0xFFFE, true);
}

proof fn lemma_entered<B: Bus>(s: Core<B>, vector: u16, brk: bool)
    ensures
        ({
            let r = cpu::enter_interrupt(s, vector, brk);
            let flags = 32 + 16 * one(brk) + one(s.cpu.c) + 2 * one(s.cpu.z) + 4 * one(s.cpu.i)
                + 8 * one(s.cpu.d) + 64 * one(s.cpu.v) + 128 * one(s.cpu.n);
            let pushed = s.bus
                .after_write((0x100 + s.cpu.sp) as u16, (s.cpu.pc / 256) as u8)
                .after_write((0x100 + (s.cpu.sp + 255) % 256) as u16, (s.cpu.pc % 256) as u8)
                .after_write((0x100 + (s.cpu.sp + 254) % 256) as u16, flags as u8);
            let next = ((vector + 1) % 0x1_0000) as u16;
            &&& r.bus == pushed.after_read(vector).after_read(next)
            &&& r.cpu == (Cpu {
                pc: (pushed.read_value(vector)
                    + 256 * pushed.after_read(vector).read_value(next)) as u16,
                sp: ((s.cpu.sp + 253) % 256) as u8,
                i: true,
                ..s.cpu
            })
        }),
{
    let sp1 = s.cpu.sp.wrapping_sub(1);
    let sp2 = sp1.wrapping_sub(1);
    assert(sp1 == (s.cpu.sp + 255) % 256);
    assert(sp2 == (s.cpu.sp + 254) % 256);
    assert(sp2.wrapping_sub(1) == (s.cpu.sp + 253) % 256);
    assert(vector.wrapping_add(1) == (vector + 1) % 0x1_0000);
    let flags = 32 + 16 * one(brk) + one(s.cpu.c) + 2 * one(s.cpu.z) + 4 * one(s.cpu.i)
        + 8 * one(s.cpu.d) + 64 * one(s.cpu.v) + 128 * one(s.cpu.n);
    assert(cpu::status_byte(s.cpu, brk) == flags);
}

/// The branches ($10, $30, ... $F0): bits 7 and 6 of the opcode pick N, V, C or Z,
/// and bit 5 the value of it that takes the branch. The offset counts from behind
/// the branch, and is signed.
pub proof fn law_branches<B: Bus>(s: Core<B>)
    requires
        quiet(s.bus),
        code(s, 0) % 32 == 0x10,
    ensures
        ({
            let r = stepped(s);
            let o = code(s, 0) as int;
            let flag = if o / 64 == 0 { s.cpu.n } else if o / 64 == 1 { s.cpu.v }
                else if o / 64 == 2 { s.cpu.c } else { s.cpu.z };
            let taken = flag == (o / 32 % 2 == 1);
            let b = code(s, 1) as int;
            let to = moved(s, 2 + (if b < 128 { b } else { b - 256 }));
            &&& r.0.cpu == (Cpu {
                pc: if taken { to } else { moved(s, 2) }, cycles: r.0.cpu.cycles, ..s.cpu
            })
            &&& r.0.bus == s.bus
            &&& r.1 == (if !taken { 2int } else if moved(s, 2) / 256 != to / 256 { 4 } else { 3 })
        }),
{
    let o = code(s, 0);
    lemma_step(s);
    lemma_code_bytes(s);
    lemma_names_of_branches(o);
    lemma_performed(s, decoded(o).0, decoded(o).1);
}

proof fn lemma_names_of_branches(o: u8)
    requires
        o % 32 == 0x10,
    ensures
        decoded(o).0 == (if o == 0x10 { Mnemonic::Bpl } else if o == 0x30 { Mnemonic::Bmi }
            else if o == 0x50 { Mnemonic::Bvc } else if o == 0x70 { Mnemonic::Bvs }
            else if o == 0x90 { Mnemonic::Bcc } else if o == 0xB0 { Mnemonic::Bcs }
            else if o == 0xD0 { Mnemonic::Bne } else { Mnemonic::Beq }),
{
    reveal(decoded);
}

// ---- the remaining undocumented opcodes ----

/// The immediate ones: `ANC` ($0B, $2B), `ALR` ($4B), `ARR` ($6B), `ANE` ($8B) and
/// `SBX` ($CB).
pub proof fn law_odd_immediates<B: Bus>(s: Core<B>, k: u8)
    requires
        quiet(s.bus),
        bbb(code(s, 0)) == 2 && cc(code(s, 0)) == 3,
        code(s, 0) != 0xAB && code(s, 0) != 0xEB,
        k < 8,
    ensures
        ({
            let r = stepped(s).0;
            let o = code(s, 0);
            let v = code(s, 1);
            let both = s.cpu.a & v;
            &&& bit_of(both, k) == (bit_of(s.cpu.a, k) && bit_of(v, k))
            &&& o == 0x0B || o == 0x2B ==> r.cpu.a == both && r.cpu.c == r.cpu.n
            &&& o == 0x4B ==> 2 * r.cpu.a + one(r.cpu.c) == both
            &&& o == 0x6B ==> {
                &&& r.cpu.a == both / 2 + 128 * one(s.cpu.c)
                &&& r.cpu.c == (r.cpu.a / 64 % 2 == 1)
                &&& r.cpu.v == (r.cpu.a / 64 % 2 != r.cpu.a / 32 % 2)
            }
            &&& o == 0x8B ==> bit_of(r.cpu.a, k) == ((bit_of(s.cpu.a, k) || k != 0 && k != 4)
                && bit_of(s.cpu.x, k) && bit_of(v, k))
            &&& o == 0xCB ==> {
                &&& r.cpu.a == s.cpu.a
                &&& r.cpu.x - 256 * one(!r.cpu.c) == (s.cpu.a & s.cpu.x) - v
                &&& zn_of(r.cpu, r.cpu.x)
            }
            &&& o != 0xCB ==> zn_of(r.cpu, r.cpu.a) && r.cpu.x == s.cpu.x
            &&& r.cpu == (Cpu {
                a: r.cpu.a, x: r.cpu.x, c: r.cpu.c, z: r.cpu.z, n: r.cpu.n, v: r.cpu.v,
                cycles: r.cpu.cycles, pc: moved(s, 2), ..s.cpu
            })
            &&& o != 0x6B ==> r.cpu.v == s.cpu.v
            &&& r.bus == s.bus
        }),
{
    let o = code(s, 0);
    lemma_odd_names(o);
    lemma_reads(s, decoded(o).0);
    let v = code(s, 1);
    lemma_bitwise(s.cpu.a, v, k);
    lemma_bitwise(s.cpu.a, 0xEE, k);
    lemma_bitwise(s.cpu.a | 0xEE, s.cpu.x, k);
    lemma_bitwise((s.cpu.a | 0xEE) & s.cpu.x, v, k);
    lemma_masks(k);
    assert(o == 0x0B || o == 0x2B || o == 0x4B || o == 0x6B || o == 0x8B || o == 0xCB);
}

proof fn lemma_odd_names(o: u8)
    ensures
        o == 0x0B || o == 0x2B ==> decoded(o).0 == Mnemonic::Anc,
        o == 0x4B ==> decoded(o).0 == Mnemonic::Alr,
        o == 0x6B ==> decoded(o).0 == Mnemonic::Arr,
        o == 0x8B ==> decoded(o).0 == Mnemonic::Ane,
        o == 0xCB ==> decoded(o).0 == Mnemonic::Sbx,
        o == 0x93 || o == 0x9F ==> decoded(o).0 == Mnemonic::Sha,
        o == 0x9B ==> decoded(o).0 == Mnemonic::Tas,
        o == 0x9C ==> decoded(o).0 == Mnemonic::Shy,
        o == 0x9E ==> decoded(o).0 == Mnemonic::Shx,
        o == 0xBB ==> decoded(o).0 == Mnemonic::Las,
{
    reveal(decoded);
}

/// The unstable stores `SHA` ($93, $9F), `TAS` ($9B), `SHY` ($9C) and `SHX` ($9E):
/// a bit is written where it is set in the registers and in the high byte of the
/// address plus one; and `LAS` ($BB).
pub proof fn law_odd_stores<B: Bus>(s: Core<B>, k: u8)
    requires
        quiet(s.bus),
        code(s, 0) == 0x93 || code(s, 0) == 0x9F || code(s, 0) == 0x9B || code(s, 0) == 0x9C
            || code(s, 0) == 0x9E || code(s, 0) == 0xBB,
        k < 8,
    ensures
        ({
            let r = stepped(s).0;
            let o = code(s, 0);
            let to = (place(s) % 0x1_0000) as u16;
            let hi = ((to / 256 + 1) % 256) as u8;
            let both = s.cpu.a & s.cpu.x;
            &&& o != 0xBB ==> exists|w: u8| {
                &&& r.bus == #[trigger] s.bus.after_write(to, w)
                &&& bit_of(w, k) == (bit_of(hi, k)
                    && (if o == 0x9C { bit_of(s.cpu.y, k) } else { bit_of(s.cpu.x, k) })
                    && (o == 0x9C || o == 0x9E || bit_of(s.cpu.a, k)))
            }
            &&& o != 0xBB ==> r.cpu == (Cpu {
                sp: if o == 0x9B { both } else { s.cpu.sp },
                pc: moved(s, length(o)), cycles: r.cpu.cycles, ..s.cpu
            })
            &&& o == 0xBB ==> {
                &&& bit_of(r.cpu.a, k) == (bit_of(at(s, place(s)), k) && bit_of(s.cpu.sp, k))
                &&& zn_of(r.cpu, r.cpu.a)
                &&& r.bus == s.bus
                &&& r.cpu == (Cpu {
                    a: r.cpu.a, x: r.cpu.a, sp: r.cpu.a, z: r.cpu.z, n: r.cpu.n,
                    pc: moved(s, 3), cycles: r.cpu.cycles, ..s.cpu
                })
            }
        }),
{
    let o = code(s, 0);
    lemma_odd_names(o);
    if o == 0xBB {
        lemma_reads(s, Mnemonic::Las);
    } else {
        lemma_writes(s, decoded(o).0);
    }
    let to = (place(s) % 0x1_0000) as u16;
    let hi = ((to / 256 + 1) % 256) as u8;
    lemma_bitwise(s.cpu.a, s.cpu.x, k);
    lemma_bitwise(s.cpu.a & s.cpu.x, hi, k);
    lemma_bitwise(s.cpu.x, hi, k);
    lemma_bitwise(s.cpu.y, hi, k);
    lemma_bitwise(at(s, place(s)), s.cpu.sp, k);
    let w = if o == 0x9C { s.cpu.y & hi } else if o == 0x9E { s.cpu.x & hi }
        else { (s.cpu.a & s.cpu.x) & hi };
    assert(cpu::hi_of(to).wrapping_add(1) == hi);
    assert(o != 0xBB ==> stepped(s).0.bus == s.bus.after_write(to, w));
}

/// The opcodes that do nothing but take up space, and the jams, which move on by
/// a byte: no register, no flag and no memory changes.
pub proof fn law_nothing_happens<B: Bus>(s: Core<B>)
    requires
        quiet(s.bus),
        ({
            let o = code(s, 0);
            ||| o % 32 == 0x1A && o != 0x9A && o != 0xBA
            ||| o % 32 == 0x12 || o == 0x02 || o == 0x22 || o == 0x42 || o == 0x62
            ||| o == 0x80 || o == 0x82 || o == 0x89 || o == 0xC2 || o == 0xE2
            ||| o == 0x04 || o == 0x44 || o == 0x64 || o == 0x0C
            ||| (o % 32 == 0x14 || o % 32 == 0x1C) && aaa(o) != 4 && aaa(o) != 5
        }),
    ensures
        ({
            let r = stepped(s).0;
            let o = code(s, 0);
            let n = if o % 32 == 0x1A || o % 32 == 0x12 || o % 32 == 0x02 && aaa(o) < 4 { 1int }
                else if o == 0x0C || o % 32 == 0x1C { 3 } else { 2 };
            &&& r.cpu == (Cpu { pc: moved(s, n), cycles: r.cpu.cycles, ..s.cpu })
            &&& r.bus == s.bus
        }),
{
    let o = code(s, 0);
    lemma_step(s);
    lemma_idle_names(o);
    let (m, mode) = decoded(o);
    lemma_named(s, m, mode);
    lemma_idles(behind(s), m, mode);
    if m == Mnemonic::Nop && mode != AddrMode::Imp {
        lemma_place(s);
    }
}

proof fn lemma_idles<B: Bus>(t: Core<B>, m: Mnemonic, mode: AddrMode)
    requires
        m == Mnemonic::Nop || m == Mnemonic::Jam,
    ensures
        cpu::after_instruction(t, m, mode).0
            == (if m == Mnemonic::Jam || mode == AddrMode::Imp { t }
                else { cpu::effective(t, mode).sys }),
{
}

proof fn lemma_idle_names(o: u8)
    requires
        o % 32 == 0x1A && o != 0x9A && o != 0xBA
            || o % 32 == 0x12 || o == 0x02 || o == 0x22 || o == 0x42 || o == 0x62
            || o == 0x80 || o == 0x82 || o == 0x89 || o == 0xC2 || o == 0xE2
            || o == 0x04 || o == 0x44 || o == 0x64 || o == 0x0C
            || (o % 32 == 0x14 || o % 32 == 0x1C) && aaa(o) != 4 && aaa(o) != 5,
    ensures
        ({
            let (m, mode) = decoded(o);
            &&& o % 32 == 0x12 || o % 32 == 0x02 && aaa(o) < 4 ==> m == Mnemonic::Jam
            &&& o % 32 == 0x1A ==> m == Mnemonic::Nop && mode == AddrMode::Imp
            &&& !(o % 32 == 0x12 || o % 32 == 0x02 && aaa(o) < 4 || o % 32 == 0x1A)
                ==> m == Mnemonic::Nop && mode != AddrMode::Imp
        }),
{
    reveal(decoded);
}

// ---- cycles ----

/// The cycles of an opcode without its penalties.
pub open spec fn base_cycles(o: u8) -> int {
    match o {
        0x08 | 0x48 | 0x4C | 0x04 | 0x05 | 0x24 | 0x25 | 0x44 | 0x45 | 0x64 | 0x65 | 0x84 | 0x85
        | 0x86 | 0x87 | 0xA4 | 0xA5 | 0xA6 | 0xA7 | 0xC4 | 0xC5 | 0xE4 | 0xE5 => 3,
        0x28 | 0x68 | 0x0C | 0x0D | 0x2C | 0x2D | 0x4D | 0x6D | 0x8C | 0x8D | 0x8E | 0x8F | 0xAC
        | 0xAD | 0xAE | 0xAF | 0xCC | 0xCD | 0xEC | 0xED | 0x14 | 0x15 | 0x34 | 0x35 | 0x54
        | 0x55 | 0x74 | 0x75 | 0x94 | 0x95 | 0x96 | 0x97 | 0xB4 | 0xB5 | 0xB6 | 0xB7 | 0xD4
        | 0xD5 | 0xF4 | 0xF5 | 0x19 | 0x1C | 0x1D | 0x39 | 0x3C | 0x3D | 0x59 | 0x5C | 0x5D
        | 0x79 | 0x7C | 0x7D | 0xB9 | 0xBB | 0xBC | 0xBD | 0xBE | 0xBF | 0xD9 | 0xDC | 0xDD
        | 0xF9 | 0xFC | 0xFD => 4,
        0x6C | 0x06 | 0x07 | 0x26 | 0x27 | 0x46 | 0x47 | 0x66 | 0x67 | 0xC6 | 0xC7 | 0xE6 | 0xE7
        | 0x11 | 0x31 | 0x51 | 0x71 | 0xB1 | 0xB3 | 0xD1 | 0xF1 | 0x99 | 0x9D | 0x9B | 0x9C
        | 0x9E | 0x9F => 5,
        0x20 | 0x40 | 0x60 | 0x01 | 0x21 | 0x41 | 0x61 | 0x81 | 0x83 | 0xA1 | 0xA3 | 0xC1 | 0xE1
        | 0x91 | 0x93 | 0x0E | 0x0F | 0x2E | 0x2F | 0x4E | 0x4F | 0x6E | 0x6F | 0xCE | 0xCF
        | 0xEE | 0xEF | 0x16 | 0x17 | 0x36 | 0x37 | 0x56 | 0x57 | 0x76 | 0x77 | 0xD6 | 0xD7
        | 0xF6 | 0xF7 => 6,
        0x00 | 0x1E | 0x1F | 0x3E | 0x3F | 0x5E | 0x5F | 0x7E | 0x7F | 0xDE | 0xDF | 0xFE | 0xFF
        | 0x1B | 0x3B | 0x5B | 0x7B | 0xDB | 0xFB => 7,
        0x03 | 0x23 | 0x43 | 0x63 | 0xC3 | 0xE3 | 0x13 | 0x33 | 0x53 | 0x73 | 0xD3 | 0xF3 => 8,
        _ => 2,
    }
}

/// A read whose indexing crosses a page takes a cycle more: `(zp),Y` ($11, ...),
/// `abs,Y` and `abs,X`, of the instructions that only read.
pub open spec fn pays_for_pages(o: u8) -> bool {
    match o {
        0x11 | 0x31 | 0x51 | 0x71 | 0xB1 | 0xB3 | 0xD1 | 0xF1 | 0x19 | 0x39 | 0x59 | 0x79 | 0xB9
        | 0xBB | 0xD9 | 0xF9 | 0x1C | 0x3C | 0x5C | 0x7C | 0xDC | 0xFC | 0x1D | 0x3D | 0x5D
        | 0x7D | 0xBC | 0xBD | 0xBE | 0xBF | 0xDD | 0xFD => true,
        _ => false,
    }
}

/// The cycles of every opcode but the branches, which have a law of their own.
pub proof fn law_cycles<B: Bus>(s: Core<B>)
    requires
        quiet(s.bus),
        code(s, 0) % 32 != 0x10,
    ensures
        ({
            let o = code(s, 0);
            let base = if bbb(o) == 7 { code(s, 1) + 256 * code(s, 2) } else { place(s) - s.cpu.y };
            stepped(s).1 == base_cycles(o)
                + one(pays_for_pages(o) && base / 256 != place(s) / 256)
        }),
{
    let o = code(s, 0);
    let (m, mode) = decoded(o);
    lemma_step(s);
    lemma_timing(o);
    lemma_performed(s, m, mode);
    if has_place(o) && o != 0x20 {
        lemma_place(s);
        lemma_mode(o);
    }
}

/// The cycles of an opcode by its instruction and mode.
proof fn lemma_timing(o: u8)
    requires
        o % 32 != 0x10,
    ensures
        ({
            let (m, mode) = decoded(o);
            let reads = cpu::reads_operand(m) || m == Mnemonic::Nop && mode != AddrMode::Imp;
            &&& !cpu::branches(m)
            &&& reads ==> base_cycles(o) == cpu::read_cycles(mode, false)
            &&& cpu::stores(m) ==> base_cycles(o) == cpu::store_cycles(mode)
            &&& cpu::modifies(m) ==> base_cycles(o)
                == (if mode == AddrMode::Acc { 2 } else { cpu::modify_cycles(mode) })
            &&& cpu::implied(m) || m == Mnemonic::Nop && mode == AddrMode::Imp
                ==> base_cycles(o) == 2
            &&& m == Mnemonic::Pha || m == Mnemonic::Php ==> base_cycles(o) == 3
            &&& m == Mnemonic::Pla || m == Mnemonic::Plp ==> base_cycles(o) == 4
            &&& m == Mnemonic::Jmp ==> base_cycles(o) == (if mode == AddrMode::Ind { 5int } else { 3 })
            &&& m == Mnemonic::Jsr || m == Mnemonic::Rts || m == Mnemonic::Rti
                ==> base_cycles(o) == 6
            &&& m == Mnemonic::Brk ==> base_cycles(o) == 7
            &&& pays_for_pages(o) == (reads && (mode == AddrMode::Abx || mode == AddrMode::Aby
                || mode == AddrMode::Izy))
            &&& reads ==> has_place(o) && o != 0x20
        }),
{
    reveal(decoded);
}

} // verus!
