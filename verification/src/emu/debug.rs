//! A tiny live debugger, so you can inspect a running (or stuck) machine without
//! stopping it. It takes a command line and gives the answer as text; a host
//! reads the one and prints the other between two frames.

use std::collections::HashSet;
use vstd::prelude::*;
use crate::c64::machine::C64;
use crate::c64::{machine, Board};
use crate::emu::status;
use crate::mos6502::{decode, Cpu};
use crate::{c64, cia6526, disasm, iec, mos6502, text, vic2};

verus! {

/// What `help` says.
pub const HELP: &'static str = "\
debug commands (type in this terminal while the emulator runs):
  cpu | r          CPU registers, flags, PC
  vic              VIC-II mode, raster, colours, IRQ
  irq              interrupt state (who is asserting, is the CPU masked)
  spr | sprites    sprite registers
  bus              serial (IEC) bus lines
  mem <a> [len]    hex dump (through banking), e.g.  mem 0400 100
  dis [a]          disassemble from <a> (default PC)
  stuck            sample the PC to see if it is looping, and where
  poke <a> <v>     write a RAM byte
  key <code>       hold a keyboard matrix code briefly (56=1 59=2 60=space)
  help | ?         this list
numbers are hex by default; prefix with # for decimal";

/// How many frames a key is held.
pub const KEY_FRAMES: u32 = 8;

/// How many instructions are sampled to see whether the machine is looping.
pub const STUCK_STEPS: u32 = 200_000;

/// Fewer distinct addresses than this look like a loop.
pub const STUCK_LIMIT: usize = 500;

// ---- numbers ----

/// The number a text gives: hex by default, `#` prefix for decimal, `$`/`0x`
/// accepted.
pub open spec fn number_given(s: Seq<char>) -> Option<u16> {
    let t = text::trimmed(s);
    if t.len() >= 1 && t[0] == '#' {
        text::number(t.skip(1), 10)
    } else if t.len() >= 2 && t[0] == '0' && t[1] == 'x' {
        text::number(t.skip(2), 16)
    } else if t.len() >= 1 && t[0] == '$' {
        text::number(t.skip(1), 16)
    } else {
        text::number(t, 16)
    }
}

/// Parse a number: hex by default, `#` prefix for decimal, `$`/`0x` accepted.
fn parse_num(s: &[char]) -> (r: Option<u16>)
    ensures
        r == number_given(s@),
{
    let t = text::trim(s);
    if t.len() >= 1 && t[0] == '#' {
        text::parse_number(vstd::slice::slice_subrange(t.as_slice(), 1, t.len()), 10)
    } else if t.len() >= 2 && t[0] == '0' && t[1] == 'x' {
        text::parse_number(vstd::slice::slice_subrange(t.as_slice(), 2, t.len()), 16)
    } else if t.len() >= 1 && t[0] == '$' {
        text::parse_number(vstd::slice::slice_subrange(t.as_slice(), 1, t.len()), 16)
    } else {
        text::parse_number(t.as_slice(), 16)
    }
}

/// The number at a place of a command line, if there is one.
pub open spec fn argument(w: Seq<Seq<char>>, k: int) -> Option<u16> {
    if k < w.len() { number_given(w[k]) } else { None }
}

/// The number at a place of a command line, or a default.
pub open spec fn argument_or(w: Seq<Seq<char>>, k: int, default: u16) -> u16 {
    match argument(w, k) {
        Some(v) => v,
        None => default,
    }
}

fn take_argument(w: &Vec<Vec<char>>, k: usize) -> (r: Option<u16>)
    ensures
        r == argument(text::word_texts(w@), k as int),
{
    if k < w.len() {
        assert(text::word_texts(w@)[k as int] == w@[k as int]@);
        parse_num(w[k].as_slice())
    } else {
        None
    }
}

// ---- registers ----

/// The CPU's registers and flags.
pub open spec fn cpu_text(p: Cpu) -> Seq<char> {
    "PC:"@ + text::hex(p.pc as nat, 4) + " A:"@ + text::hex(p.a as nat, 2)
        + " X:"@ + text::hex(p.x as nat, 2) + " Y:"@ + text::hex(p.y as nat, 2)
        + " SP:"@ + text::hex(p.sp as nat, 2) + "  ["@ + status::flags_text(p) + "]  I(masked):"@
        + status::level_text(p.i) + "  cyc:"@ + text::decimal(p.cycles as nat)
}

fn cpu(p: &Cpu) -> (s: String)
    ensures
        s@ == cpu_text(*p),
{
    let mut s = String::new();
    text::push_text(&mut s, "PC:");
    text::push_hex(&mut s, p.pc as u64, 4);
    text::push_text(&mut s, " A:");
    text::push_hex(&mut s, p.a as u64, 2);
    text::push_text(&mut s, " X:");
    text::push_hex(&mut s, p.x as u64, 2);
    text::push_text(&mut s, " Y:");
    text::push_hex(&mut s, p.y as u64, 2);
    text::push_text(&mut s, " SP:");
    text::push_hex(&mut s, p.sp as u64, 2);
    text::push_text(&mut s, "  [");
    status::push_flags(&mut s, p);
    text::push_text(&mut s, "]  I(masked):");
    text::push_text(&mut s, status::level(p.i));
    text::push_text(&mut s, "  cyc:");
    text::push_decimal(&mut s, p.cycles);
    assert(s@ =~= cpu_text(*p));
    s
}

/// A truth value.
pub open spec fn bool_text(b: bool) -> Seq<char> {
    if b { "true"@ } else { "false"@ }
}

fn push_bool(out: &mut String, b: bool)
    ensures
        final(out)@ == old(out)@ + bool_text(b),
{
    text::push_text(out, if b { "true" } else { "false" });
}

/// The line the raster is compared with.
pub open spec fn compared_line(regs: Seq<u8>) -> nat {
    (regs[0x12] + (if regs[0x11] >= 0x80 { 256int } else { 0 })) as nat
}

/// The VIC's registers.
pub open spec fn vic_text(v: vic2::Vic) -> Seq<char> {
    let r = v.regs@;
    "mode:"@ + status::mode_text(r) + " raster:"@ + text::decimal(v.raster as nat)
        + " d011:"@ + text::hex(r[0x11] as nat, 2) + " d016:"@ + text::hex(r[0x16] as nat, 2)
        + " d018:"@ + text::hex(r[0x18] as nat, 2) + " border:"@
        + text::hex((r[0x20] % 16) as nat, 1) + " bg:"@ + text::hex((r[0x21] % 16) as nat, 1)
        + "\nraster-cmp:"@ + text::decimal(compared_line(r)) + " d019(latch):"@
        + text::hex((r[0x19] % 16) as nat, 2) + " d01a(enable):"@ + text::hex(r[0x1A] as nat, 2)
        + " irq:"@ + bool_text(vic2::asserts_irq(v))
}

fn vic(v: &vic2::Vic) -> (s: String)
    ensures
        s@ == vic_text(*v),
{
    let r = &v.regs;
    let line: u64 = r[0x12] as u64 + (if r[0x11] >= 0x80 { 256u64 } else { 0 });
    let mut s = String::new();
    text::push_text(&mut s, "mode:");
    text::push_text(&mut s, status::mode_name(v));
    text::push_text(&mut s, " raster:");
    text::push_decimal(&mut s, v.raster() as u64);
    text::push_text(&mut s, " d011:");
    text::push_hex(&mut s, r[0x11] as u64, 2);
    text::push_text(&mut s, " d016:");
    text::push_hex(&mut s, r[0x16] as u64, 2);
    text::push_text(&mut s, " d018:");
    text::push_hex(&mut s, r[0x18] as u64, 2);
    text::push_text(&mut s, " border:");
    text::push_hex(&mut s, (r[0x20] % 16) as u64, 1);
    text::push_text(&mut s, " bg:");
    text::push_hex(&mut s, (r[0x21] % 16) as u64, 1);
    text::push_text(&mut s, "\nraster-cmp:");
    text::push_decimal(&mut s, line);
    text::push_text(&mut s, " d019(latch):");
    text::push_hex(&mut s, (r[0x19] % 16) as u64, 2);
    text::push_text(&mut s, " d01a(enable):");
    text::push_hex(&mut s, r[0x1A] as u64, 2);
    text::push_text(&mut s, " irq:");
    push_bool(&mut s, v.irq_asserted());
    assert(s@ =~= vic_text(*v));
    s
}

/// The interrupts, with the vector at the top of memory read through banking.
pub open spec fn irq_text(m: C64, lo: u8, hi: u8) -> Seq<char> {
    "CPU I-flag (IRQ masked): "@ + status::level_text(m.cpu.i) + "\nasserting -> VIC:"@
        + bool_text(vic2::asserts_irq(m.board.vic)) + " CIA1:"@
        + bool_text(cia6526::asserts_irq(m.board.cia1)) + " CIA2(NMI):"@
        + bool_text(cia6526::asserts_irq(m.board.cia2)) + "\n$0314 IRQ vec -> $"@
        + text::hex(m.board.ram[0x0315] as nat, 2) + text::hex(m.board.ram[0x0314] as nat, 2)
        + "   $FFFE -> $"@ + text::hex(hi as nat, 2) + text::hex(lo as nat, 2)
}

/// A machine after its memory was read at an address.
pub open spec fn peeked(m: C64, addr: u16) -> C64 {
    C64 { board: c64::board_after_read(m.board, addr), ..m }
}

/// The interrupts, and the machine after the vector was read.
pub open spec fn irq_answer(m: C64) -> (C64, Seq<char>) {
    let n = peeked(m, 0xFFFE);
    let o = peeked(n, 0xFFFF);
    (o, irq_text(m, c64::value_at(m.board, 0xFFFE), c64::value_at(n.board, 0xFFFF)))
}

fn irq(m: &mut C64) -> (s: String)
    ensures
        (*final(m), s@) == irq_answer(*old(m)),
{
    let mut s = String::new();
    text::push_text(&mut s, "CPU I-flag (IRQ masked): ");
    text::push_text(&mut s, status::level(m.cpu.i));
    text::push_text(&mut s, "\nasserting -> VIC:");
    push_bool(&mut s, m.board.vic.irq_asserted());
    text::push_text(&mut s, " CIA1:");
    push_bool(&mut s, m.board.cia1.irq_asserted());
    text::push_text(&mut s, " CIA2(NMI):");
    push_bool(&mut s, m.board.cia2.irq_asserted());
    text::push_text(&mut s, "\n$0314 IRQ vec -> $");
    text::push_hex(&mut s, m.board.ram[0x0315] as u64, 2);
    text::push_hex(&mut s, m.board.ram[0x0314] as u64, 2);
    text::push_text(&mut s, "   $FFFE -> $");
    let lo = m.board.peek(0xFFFE);
    let hi = m.board.peek(0xFFFF);
    text::push_hex(&mut s, hi as u64, 2);
    text::push_hex(&mut s, lo as u64, 2);
    assert(s@ =~= irq_text(*old(m), lo, hi));
    s
}

/// The levels of the serial bus.
pub open spec fn bus_text(b: iec::Bus) -> Seq<char> {
    "ATN:"@ + status::level_text(iec::line_high(b, iec::Line::Atn)) + " CLK:"@
        + status::level_text(iec::line_high(b, iec::Line::Clk)) + " DATA:"@
        + status::level_text(iec::line_high(b, iec::Line::Data)) + "  (1 = released/high)"@
}

fn bus(b: &iec::Bus) -> (s: String)
    ensures
        s@ == bus_text(*b),
{
    let mut s = String::new();
    text::push_text(&mut s, "ATN:");
    text::push_text(&mut s, status::level(b.atn()));
    text::push_text(&mut s, " CLK:");
    text::push_text(&mut s, status::level(b.clk()));
    text::push_text(&mut s, " DATA:");
    text::push_text(&mut s, status::level(b.data()));
    text::push_text(&mut s, "  (1 = released/high)");
    assert(s@ =~= bus_text(*b));
    s
}

// ---- sprites ----

/// A byte shifted down by some bits.
pub open spec fn shifted(b: u8, bits: int) -> u8
    decreases bits,
{
    if bits <= 0 { b } else { shifted(b, bits - 1) / 2 }
}

/// Is a bit of a byte set?
pub open spec fn bit(b: u8, k: int) -> bool {
    shifted(b, k) % 2 == 1
}

/// The registers that all sprites share.
pub open spec fn sprites_head(r: Seq<u8>) -> Seq<char> {
    "enable:"@ + text::hex(r[0x15] as nat, 2) + " x-exp:"@ + text::hex(r[0x1D] as nat, 2)
        + " y-exp:"@ + text::hex(r[0x17] as nat, 2) + " mc:"@ + text::hex(r[0x1C] as nat, 2)
        + " pri:"@ + text::hex(r[0x1B] as nat, 2) + " mc0:"@ + text::hex((r[0x25] % 16) as nat, 1)
        + " mc1:"@ + text::hex((r[0x26] % 16) as nat, 1) + "\n"@
}

/// The line of a sprite.
pub open spec fn sprite_line(r: Seq<u8>, k: int) -> Seq<char> {
    let x = r[2 * k] + (if bit(r[0x10], k) { 256int } else { 0 });
    "  spr"@ + text::decimal(k as nat) + ": x="@ + text::decimal(x as nat) + " y="@
        + text::decimal(r[2 * k + 1] as nat) + " col:"@ + text::hex((r[0x27 + k] % 16) as nat, 1)
        + "\n"@
}

/// The lines of the first `n` sprites, as far as they are on.
pub open spec fn sprite_lines(r: Seq<u8>, n: int) -> Seq<char>
    decreases n,
{
    if n <= 0 {
        Seq::empty()
    } else if bit(r[0x15], n - 1) {
        sprite_lines(r, n - 1) + sprite_line(r, n - 1)
    } else {
        sprite_lines(r, n - 1)
    }
}

/// The sprite registers.
pub open spec fn sprites_text(r: Seq<u8>) -> Seq<char> {
    sprites_head(r) + sprite_lines(r, 8)
}

fn push_sprite(out: &mut String, r: &[u8; 0x40], k: usize, high: bool)
    requires
        k < 8,
        high == bit(r[0x10], k as int),
    ensures
        final(out)@ == old(out)@ + sprite_line(r@, k as int),
{
    let x: u64 = r[2 * k] as u64 + (if high { 256u64 } else { 0 });
    text::push_text(out, "  spr");
    text::push_decimal(out, k as u64);
    text::push_text(out, ": x=");
    text::push_decimal(out, x);
    text::push_text(out, " y=");
    text::push_decimal(out, r[2 * k + 1] as u64);
    text::push_text(out, " col:");
    text::push_hex(out, (r[0x27 + k] % 16) as u64, 1);
    text::push_text(out, "\n");
    assert(out@ =~= old(out)@ + sprite_line(r@, k as int));
}

fn sprites(r: &[u8; 0x40]) -> (s: String)
    ensures
        s@ == sprites_text(r@),
{
    let mut s = String::new();
    text::push_text(&mut s, "enable:");
    text::push_hex(&mut s, r[0x15] as u64, 2);
    text::push_text(&mut s, " x-exp:");
    text::push_hex(&mut s, r[0x1D] as u64, 2);
    text::push_text(&mut s, " y-exp:");
    text::push_hex(&mut s, r[0x17] as u64, 2);
    text::push_text(&mut s, " mc:");
    text::push_hex(&mut s, r[0x1C] as u64, 2);
    text::push_text(&mut s, " pri:");
    text::push_hex(&mut s, r[0x1B] as u64, 2);
    text::push_text(&mut s, " mc0:");
    text::push_hex(&mut s, (r[0x25] % 16) as u64, 1);
    text::push_text(&mut s, " mc1:");
    text::push_hex(&mut s, (r[0x26] % 16) as u64, 1);
    text::push_text(&mut s, "\n");
    assert(s@ =~= sprites_head(r@));
    let mut on = r[0x15];
    let mut high = r[0x10];
    let mut k: usize = 0;
    assert(s@ =~= sprites_head(r@) + sprite_lines(r@, 0));
    while k < 8
        invariant
            k <= 8,
            on == shifted(r[0x15], k as int),
            high == shifted(r[0x10], k as int),
            s@ == sprites_head(r@) + sprite_lines(r@, k as int),
        decreases 8 - k,
    {
        if on % 2 == 1 {
            push_sprite(&mut s, r, k, high % 2 == 1);
        }
        assert(s@ =~= sprites_head(r@) + sprite_lines(r@, k + 1));
        on /= 2;
        high /= 2;
        k += 1;
    }
    s
}

// ---- memory ----

/// A machine and the bytes read from it so far.
pub struct Dump {
    pub m: C64,
    pub bytes: Seq<u8>,
}

/// The machine after `n` bytes were read from an address on, with the bytes.
pub open spec fn bytes_read(m: C64, addr: u16, n: nat) -> Dump
    decreases n,
{
    if n == 0 {
        Dump { m, bytes: Seq::empty() }
    } else {
        let d = bytes_read(m, addr, (n - 1) as nat);
        let a = ((addr + n - 1) % 0x1_0000) as u16;
        Dump { m: peeked(d.m, a), bytes: d.bytes.push(c64::value_at(d.m.board, a)) }
    }
}

/// Bytes in hexadecimal, each followed by a space.
pub open spec fn spaced_hex(bytes: Seq<u8>) -> Seq<char>
    decreases bytes.len(),
{
    if bytes.len() == 0 {
        Seq::empty()
    } else {
        spaced_hex(bytes.drop_last()) + (text::hex(bytes.last() as nat, 2) + " "@)
    }
}

/// A line of a memory dump.
#[verifier::opaque]
pub open spec fn dump_line(addr: u16, bytes: Seq<u8>) -> Seq<char> {
    text::hex(addr as nat, 4) + ": "@ + text::padded(spaced_hex(bytes), 48) + " "@
        + disasm::trace::printable(bytes) + "\n"@
}

/// A dump of `left` bytes from an address on, sixteen to a line, and the machine
/// after it.
pub open spec fn dumped(m: C64, addr: u16, left: nat) -> (C64, Seq<char>)
    decreases left,
{
    if left == 0 {
        (m, Seq::empty())
    } else {
        let n = if left < 16 { left } else { 16 };
        let d = bytes_read(m, addr, n);
        let (after, rest) = dumped(d.m, ((addr + n) % 0x1_0000) as u16, (left - n) as nat);
        (after, dump_line(addr, d.bytes) + rest)
    }
}

fn read_bytes(m: &mut C64, addr: u16, n: u16) -> (v: Vec<u8>)
    ensures
        (Dump { m: *final(m), bytes: v@ }) == bytes_read(*old(m), addr, n as nat),
{
    let mut v: Vec<u8> = Vec::new();
    let mut k: u16 = 0;
    while k < n
        invariant
            k <= n,
            (Dump { m: *m, bytes: v@ }) == bytes_read(*old(m), addr, k as nat),
        decreases n - k,
    {
        let b = m.board.peek(addr.wrapping_add(k));
        v.push(b);
        k += 1;
    }
    v
}

fn hex_of(bytes: &[u8]) -> (s: String)
    ensures
        s@ == spaced_hex(bytes@),
{
    let mut s = String::new();
    let mut k: usize = 0;
    while k < bytes.len()
        invariant
            k <= bytes.len(),
            s@ == spaced_hex(bytes@.take(k as int)),
        decreases bytes.len() - k,
    {
        assert(bytes@.take(k + 1).drop_last() =~= bytes@.take(k as int));
        text::push_hex(&mut s, bytes[k] as u64, 2);
        text::push_text(&mut s, " ");
        assert(s@ =~= spaced_hex(bytes@.take(k + 1)));
        k += 1;
    }
    assert(bytes@.take(k as int) =~= bytes@);
    s
}

fn push_dump_line(out: &mut String, m: &mut C64, a: u16, n: u16)
    ensures
        *final(m) == bytes_read(*old(m), a, n as nat).m,
        final(out)@ == old(out)@ + dump_line(a, bytes_read(*old(m), a, n as nat).bytes),
{
    reveal(dump_line);
    let bytes = read_bytes(m, a, n);
    text::push_hex(out, a as u64, 4);
    text::push_text(out, ": ");
    text::push_padded(out, hex_of(bytes.as_slice()).as_str(), 48);
    text::push_text(out, " ");
    disasm::trace::push_printable(out, bytes.as_slice());
    text::push_text(out, "\n");
    assert(out@ =~= old(out)@ + dump_line(a, bytes@));
}

proof fn lemma_dumped(m: C64, a: u16, left: u16, n: u16, next: u16)
    requires
        left > 0,
        n == (if left < 16 { left } else { 16 }),
        next == (a + n) % 0x1_0000,
    ensures
        ({
            let d = bytes_read(m, a, n as nat);
            let t = dumped(d.m, next, (left - n) as nat);
            dumped(m, a, left as nat) == (t.0, dump_line(a, d.bytes) + t.1)
        }),
{
}

fn mem(m: &mut C64, addr: u16, len: u16) -> (s: String)
    ensures
        (*final(m), s@) == dumped(*old(m), addr, len as nat),
{
    let mut s = String::new();
    let mut a = addr;
    let mut left = len;
    let ghost goal = dumped(*m, addr, len as nat);
    assert(s@ + dumped(*m, a, left as nat).1 =~= goal.1);
    while left > 0
        invariant
            dumped(*m, a, left as nat).0 == goal.0,
            s@ + dumped(*m, a, left as nat).1 == goal.1,
        decreases left,
    {
        let n: u16 = if left < 16 { left } else { 16 };
        let next = a.wrapping_add(n);
        let ghost before = s@;
        let ghost line = dump_line(a, bytes_read(*m, a, n as nat).bytes);
        proof {
            lemma_dumped(*m, a, left, n, next);
        }
        push_dump_line(&mut s, m, a, n);
        proof {
            let rest = dumped(*m, next, (left - n) as nat).1;
            assert(before + (line + rest) =~= (before + line) + rest);
        }
        a = next;
        left -= n;
    }
    assert(s@ + dumped(*m, a, left as nat).1 =~= s@);
    s
}

/// A line of a disassembly, marked where the program counter is.
#[verifier::opaque]
pub open spec fn dis_line(pc: u16, addr: u16, bytes: Seq<u8>) -> Seq<char> {
    (if addr == pc { "->"@ } else { "  "@ }) + text::hex(addr as nat, 4) + ": "@
        + disasm::instr_text(
            bytes[0],
            disasm::operand_text(mos6502::opcode_mode(bytes[0]), addr, bytes[1], bytes[2]),
        ) + "\n"@
}

/// A disassembly of `n` instructions from an address on, and the machine after
/// it.
pub open spec fn disassembled(m: C64, addr: u16, n: nat) -> (C64, Seq<char>)
    decreases n,
{
    if n == 0 {
        (m, Seq::empty())
    } else {
        let d = bytes_read(m, addr, 3);
        let next = ((addr + mos6502::mode_len(mos6502::opcode_mode(d.bytes[0]))) % 0x1_0000) as u16;
        let (after, rest) = disassembled(d.m, next, (n - 1) as nat);
        (after, dis_line(m.cpu.pc, addr, d.bytes) + rest)
    }
}

proof fn lemma_bytes_read(m: C64, addr: u16, n: nat)
    ensures
        bytes_read(m, addr, n).bytes.len() == n,
        bytes_read(m, addr, n).m.cpu == m.cpu,
    decreases n,
{
    if n > 0 {
        lemma_bytes_read(m, addr, (n - 1) as nat);
    }
}

fn push_dis_line(out: &mut String, pc: u16, a: u16, bytes: &[u8])
    requires
        bytes.len() == 3,
    ensures
        final(out)@ == old(out)@ + dis_line(pc, a, bytes@),
{
    reveal(dis_line);
    let operand = disasm::operand(decode(bytes[0]).mode, a, bytes[1], bytes[2]);
    text::push_text(out, if a == pc { "->" } else { "  " });
    text::push_hex(out, a as u64, 4);
    text::push_text(out, ": ");
    disasm::push_instr(out, bytes[0], operand.as_str());
    text::push_text(out, "\n");
    assert(out@ =~= old(out)@ + dis_line(pc, a, bytes@));
}

fn dis(m: &mut C64, addr: u16, count: usize) -> (s: String)
    ensures
        (*final(m), s@) == disassembled(*old(m), addr, count as nat),
{
    let mut s = String::new();
    let mut a = addr;
    let mut left = count;
    let ghost goal = disassembled(*m, addr, count as nat);
    assert(s@ + disassembled(*m, a, left as nat).1 =~= goal.1);
    while left > 0
        invariant
            disassembled(*m, a, left as nat).0 == goal.0,
            s@ + disassembled(*m, a, left as nat).1 == goal.1,
        decreases left,
    {
        let ghost before = s@;
        let ghost d = bytes_read(*m, a, 3);
        proof {
            lemma_bytes_read(*m, a, 3);
        }
        let ghost pc = m.cpu.pc;
        let bytes = read_bytes(m, a, 3);
        push_dis_line(&mut s, m.cpu.pc, a, bytes.as_slice());
        let next = a.wrapping_add(decode(bytes[0]).len() as u16);
        let ghost rest = disassembled(d.m, next, (left - 1) as nat).1;
        assert(before + (dis_line(pc, a, d.bytes) + rest) =~= s@ + rest);
        a = next;
        left -= 1;
    }
    assert(s@ + disassembled(*m, a, left as nat).1 =~= s@);
    s
}

// ---- running ----

/// The machine after one instruction.
#[verifier::opaque]
pub open spec fn step_of(m: C64) -> C64 {
    machine::stepped(m).0
}

fn step(m: &mut C64)
    requires
        c64::board_sound(old(m).board),
    ensures
        *final(m) == step_of(*old(m)),
        c64::board_sound(final(m).board),
        old(m).cpu.cycles + machine::MAX_STEP <= u64::MAX ==> old(m).cpu.cycles
            < final(m).cpu.cycles <= old(m).cpu.cycles + machine::MAX_STEP,
{
    reveal(step_of);
    proof {
        if m.cpu.cycles + machine::MAX_STEP <= u64::MAX {
            machine::law_step_moves_time(*m);
        }
    }
    m.step();
}

/// The machine after `n` instructions.
pub open spec fn steps_of(m: C64, n: nat) -> C64
    decreases n,
{
    if n == 0 { m } else { step_of(steps_of(m, (n - 1) as nat)) }
}

/// The addresses at which the first `n` instructions start.
pub open spec fn sampled(m: C64, n: nat) -> Set<u16>
    decreases n,
{
    if n == 0 {
        Set::empty()
    } else {
        sampled(m, (n - 1) as nat).insert(steps_of(m, (n - 1) as nat).cpu.pc)
    }
}

/// The lowest of these addresses.
pub open spec fn lowest(m: C64, n: nat) -> u16
    decreases n,
{
    if n == 0 {
        0xFFFF
    } else {
        let pc = steps_of(m, (n - 1) as nat).cpu.pc;
        let lo = lowest(m, (n - 1) as nat);
        if pc < lo { pc } else { lo }
    }
}

/// The highest of these addresses.
pub open spec fn highest(m: C64, n: nat) -> u16
    decreases n,
{
    if n == 0 {
        0
    } else {
        let pc = steps_of(m, (n - 1) as nat).cpu.pc;
        let hi = highest(m, (n - 1) as nat);
        if pc > hi { pc } else { hi }
    }
}

/// What the sample says.
pub open spec fn stuck_text(distinct: nat, lo: u16, hi: u16) -> Seq<char> {
    "PC over 200k steps: "@ + text::decimal(distinct) + " distinct in $"@ + text::hex(lo as nat, 4)
        + "..$"@ + text::hex(hi as nat, 4) + "  "@
        + (if distinct < STUCK_LIMIT {
            "<< LOOPING (try 'dis' at the low address)"@
        } else {
            "(running freely)"@
        })
}

/// The sample, and the machine after it.
pub open spec fn stuck_answer(m: C64) -> (C64, Seq<char>) {
    let n = STUCK_STEPS as nat;
    (steps_of(m, n), stuck_text(sampled(m, n).len(), lowest(m, n), highest(m, n)))
}

/// Sample the program counter. Note: this advances the machine about a second's
/// worth.
fn stuck(m: &mut C64) -> (s: String)
    requires
        c64::board_sound(old(m).board),
    ensures
        (*final(m), s@) == stuck_answer(*old(m)),
        c64::board_sound(final(m).board),
{
    let mut seen: HashSet<u16> = HashSet::new();
    let mut lo: u16 = 0xFFFF;
    let mut hi: u16 = 0;
    let mut n: u32 = 0;
    while n < STUCK_STEPS
        invariant
            n <= STUCK_STEPS,
            c64::board_sound(m.board),
            *m == steps_of(*old(m), n as nat),
            seen@ == sampled(*old(m), n as nat),
            lo == lowest(*old(m), n as nat),
            hi == highest(*old(m), n as nat),
        decreases STUCK_STEPS - n,
    {
        let pc = m.cpu.pc;
        seen.insert(pc);
        if pc < lo {
            lo = pc;
        }
        if pc > hi {
            hi = pc;
        }
        step(m);
        n += 1;
    }
    let distinct = seen.len();
    let mut s = String::new();
    text::push_text(&mut s, "PC over 200k steps: ");
    text::push_decimal(&mut s, distinct as u64);
    text::push_text(&mut s, " distinct in $");
    text::push_hex(&mut s, lo as u64, 4);
    text::push_text(&mut s, "..$");
    text::push_hex(&mut s, hi as u64, 4);
    text::push_text(&mut s, "  ");
    text::push_text(
        &mut s,
        if distinct < STUCK_LIMIT {
            "<< LOOPING (try 'dis' at the low address)"
        } else {
            "(running freely)"
        },
    );
    assert(s@ =~= stuck_text(distinct as nat, lo, hi));
    s
}

/// The machine after it ran up to a deadline.
pub open spec fn ran_to(m: C64, deadline: u64) -> C64
    decreases u64::MAX - m.cpu.cycles,
{
    if m.cpu.cycles < deadline && m.cpu.cycles < step_of(m).cpu.cycles {
        ran_to(step_of(m), deadline)
    } else {
        m
    }
}

/// A machine with nothing but one key down.
pub open spec fn only_key(m: C64, code: u8) -> C64 {
    C64 { board: c64::key_set(no_key(m).board, code, true), ..m }
}

/// A machine with no key down.
pub open spec fn no_key(m: C64) -> C64 {
    C64 {
        board: Board {
            key_matrix: vstd::array::spec_array_fill_for_copy_type::<u8, 8>(0), ..m.board
        },
        ..m
    }
}

/// The machine after a key was held for `n` frames.
pub open spec fn key_held(m: C64, code: u8, n: nat) -> C64
    decreases n,
{
    if n == 0 {
        m
    } else {
        let p = key_held(m, code, (n - 1) as nat);
        ran_to(only_key(p, code), p.cpu.cycles.wrapping_add(machine::FRAME_CYCLES))
    }
}

/// What is said of a key that was held.
pub open spec fn key_text(code: u16, pc: u16) -> Seq<char> {
    "holding matrix code "@ + text::decimal(code as nat) + " for a moment (use for testing)"@
        + "  -> PC now $"@ + text::hex(pc as nat, 4)
}

/// A key held for a moment, and the machine after it.
pub open spec fn key_answer(m: C64, code: u16) -> (C64, Seq<char>) {
    let n = no_key(key_held(m, (code % 256) as u8, KEY_FRAMES as nat));
    (n, key_text(code, n.cpu.pc))
}

/// Run for a frame with nothing but one key down.
fn hold_for_frame(m: &mut C64, code: u8)
    requires
        c64::board_sound(old(m).board),
        old(m).cpu.cycles + machine::FRAME_CYCLES + machine::MAX_STEP <= u64::MAX,
    ensures
        *final(m) == ran_to(
            only_key(*old(m), code), old(m).cpu.cycles.wrapping_add(machine::FRAME_CYCLES)),
        c64::board_sound(final(m).board),
        final(m).cpu.cycles <= old(m).cpu.cycles + machine::FRAME_CYCLES + machine::MAX_STEP,
{
    let end = m.cpu.cycles.wrapping_add(machine::FRAME_CYCLES);
    m.board.key_matrix = [0; 8];
    m.board.set_key(code, true);
    let ghost goal = ran_to(*m, end);
    assert(*m == only_key(*old(m), code));
    while m.cpu.cycles < end
        invariant
            end + machine::MAX_STEP <= u64::MAX,
            c64::board_sound(m.board),
            m.cpu.cycles <= end + machine::MAX_STEP,
            ran_to(*m, end) == goal,
        decreases u64::MAX - m.cpu.cycles,
    {
        step(m);
    }
}

/// Hold a key for about eight frames so the keyboard scan catches it.
fn hold_key(m: &mut C64, code: u16) -> (s: String)
    requires
        c64::board_sound(old(m).board),
        old(m).cpu.cycles + 8 * (machine::FRAME_CYCLES + machine::MAX_STEP) <= u64::MAX,
    ensures
        (*final(m), s@) == key_answer(*old(m), code),
        c64::board_sound(final(m).board),
{
    let key = (code % 256) as u8;
    let mut n: u32 = 0;
    while n < KEY_FRAMES
        invariant
            n <= KEY_FRAMES,
            c64::board_sound(m.board),
            old(m).cpu.cycles + 8 * (machine::FRAME_CYCLES + machine::MAX_STEP) <= u64::MAX,
            m.cpu.cycles <= old(m).cpu.cycles + 19_722 * n,
            *m == key_held(*old(m), key, n as nat),
        decreases KEY_FRAMES - n,
    {
        hold_for_frame(m, key);
        n += 1;
    }
    m.board.key_matrix = [0; 8];
    let mut s = String::new();
    text::push_text(&mut s, "holding matrix code ");
    text::push_decimal(&mut s, code as u64);
    text::push_text(&mut s, " for a moment (use for testing)");
    text::push_text(&mut s, "  -> PC now $");
    text::push_hex(&mut s, m.cpu.pc as u64, 4);
    assert(s@ =~= key_text(code, m.cpu.pc));
    s
}

/// A machine with a RAM byte written.
pub open spec fn poked(m: C64, addr: u16, val: u8) -> C64 {
    C64 {
        board: Board {
            ram: vstd::array::spec_array_update(m.board.ram, addr as int, val), ..m.board
        },
        ..m
    }
}

/// What is said of a byte that was written.
pub open spec fn poke_text(addr: u16, val: u8) -> Seq<char> {
    "poked $"@ + text::hex(addr as nat, 4) + " = $"@ + text::hex(val as nat, 2)
}

fn poke(m: &mut C64, addr: u16, val: u8) -> (s: String)
    ensures
        *final(m) == poked(*old(m), addr, val),
        s@ == poke_text(addr, val),
{
    m.board.ram[addr as usize] = val;
    let mut s = String::new();
    text::push_text(&mut s, "poked $");
    text::push_hex(&mut s, addr as u64, 4);
    text::push_text(&mut s, " = $");
    text::push_hex(&mut s, val as u64, 2);
    assert(s@ =~= poke_text(addr, val));
    s
}

// ---- commands ----

/// The answer to the words of a command line, and the machine after it.
pub open spec fn answer_words(m: C64, w: Seq<Seq<char>>) -> (C64, Seq<char>) {
    if w.len() == 0 {
        (m, Seq::empty())
    } else if w[0] == "help"@ || w[0] == "?"@ {
        (m, HELP@)
    } else if w[0] == "cpu"@ || w[0] == "r"@ {
        (m, cpu_text(m.cpu))
    } else if w[0] == "vic"@ {
        (m, vic_text(m.board.vic))
    } else if w[0] == "irq"@ {
        irq_answer(m)
    } else if w[0] == "spr"@ || w[0] == "sprites"@ {
        (m, sprites_text(m.board.vic.regs@))
    } else if w[0] == "bus"@ {
        (m, bus_text(m.board.iec))
    } else if w[0] == "mem"@ || w[0] == "m"@ {
        dumped(m, argument_or(w, 1, 0), argument_or(w, 2, 64) as nat)
    } else if w[0] == "dis"@ || w[0] == "d"@ {
        disassembled(m, argument_or(w, 1, m.cpu.pc), 16)
    } else if w[0] == "stuck"@ {
        stuck_answer(m)
    } else if w[0] == "poke"@ {
        match (argument(w, 1), argument(w, 2)) {
            (Some(a), Some(v)) => {
                (poked(m, a, (v % 256) as u8), poke_text(a, (v % 256) as u8))
            },
            _ => (m, "usage: poke <addr> <val>"@),
        }
    } else if w[0] == "key"@ {
        match argument(w, 1) {
            Some(code) => key_answer(m, code),
            None => (m, "usage: key <matrix-code>  (e.g. 56=1, 59=2, 60=space)"@),
        }
    } else {
        (m, "unknown command '"@ + w[0] + "' \u{2014} type 'help'"@)
    }
}

/// The answer to a command line, and the machine after it.
pub open spec fn answer(m: C64, line: Seq<char>) -> (C64, Seq<char>) {
    answer_words(m, text::words(line))
}

fn line_of(s: &str) -> (r: String)
    ensures
        r@ == s@,
{
    let mut r = String::new();
    text::push_text(&mut r, s);
    assert(r@ =~= s@);
    r
}

fn unknown(w: &[char]) -> (s: String)
    ensures
        s@ == "unknown command '"@ + w@ + "' \u{2014} type 'help'"@,
{
    let mut s = String::new();
    text::push_text(&mut s, "unknown command '");
    text::push_text(&mut s, text::string_of(w).as_str());
    text::push_text(&mut s, "' \u{2014} type 'help'");
    assert(s@ =~= "unknown command '"@ + w@ + "' \u{2014} type 'help'"@);
    s
}

/// There is room in the clock for what a command runs: only a held key runs
/// whole frames.
pub open spec fn has_room(m: C64, w: Seq<Seq<char>>) -> bool {
    w.len() > 0 && w[0] == "key"@ && argument(w, 1) is Some
        ==> m.cpu.cycles + 8 * (machine::FRAME_CYCLES + machine::MAX_STEP) <= u64::MAX
}

proof fn lemma_reading_keeps_sound(m: C64, addr: u16, n: nat)
    requires
        c64::board_sound(m.board),
    ensures
        c64::board_sound(bytes_read(m, addr, n).m.board),
    decreases n,
{
    if n > 0 {
        lemma_reading_keeps_sound(m, addr, (n - 1) as nat);
    }
}

proof fn lemma_dump_keeps_sound(m: C64, addr: u16, n: nat)
    requires
        c64::board_sound(m.board),
    ensures
        c64::board_sound(dumped(m, addr, n).0.board),
    decreases n,
{
    if n > 0 {
        let k: nat = if n < 16 { n } else { 16 };
        lemma_reading_keeps_sound(m, addr, k);
        let d = bytes_read(m, addr, k);
        lemma_dump_keeps_sound(d.m, ((addr + k) % 0x1_0000) as u16, (n - k) as nat);
    }
}

proof fn lemma_disassembly_keeps_sound(m: C64, addr: u16, n: nat)
    requires
        c64::board_sound(m.board),
    ensures
        c64::board_sound(disassembled(m, addr, n).0.board),
    decreases n,
{
    if n > 0 {
        lemma_reading_keeps_sound(m, addr, 3);
        let d = bytes_read(m, addr, 3);
        let next = ((addr + mos6502::mode_len(mos6502::opcode_mode(d.bytes[0]))) % 0x1_0000) as u16;
        lemma_disassembly_keeps_sound(d.m, next, (n - 1) as nat);
    }
}

/// Handle one debugger command line against the machine. Returns text to print.
pub fn command(m: &mut C64, line: &str) -> (s: String)
    requires
        c64::board_sound(old(m).board),
        has_room(*old(m), text::words(line@)),
    ensures
        (*final(m), s@) == answer(*old(m), line@),
        c64::board_sound(final(m).board),
{
    let v = text::split_words(text::chars_of(line).as_slice());
    let ghost w = text::word_texts(v@);
    if v.len() == 0 {
        return String::new();
    }
    assert(w[0] == v@[0]@);
    let c = v[0].as_slice();
    if text::is_text(c, "help") || text::is_text(c, "?") {
        line_of(HELP)
    } else if text::is_text(c, "cpu") || text::is_text(c, "r") {
        cpu(&m.cpu)
    } else if text::is_text(c, "vic") {
        vic(&m.board.vic)
    } else if text::is_text(c, "irq") {
        irq(m)
    } else if text::is_text(c, "spr") || text::is_text(c, "sprites") {
        sprites(&m.board.vic.regs)
    } else if text::is_text(c, "bus") {
        bus(&m.board.iec)
    } else if text::is_text(c, "mem") || text::is_text(c, "m") {
        let addr = match take_argument(&v, 1) {
            Some(a) => a,
            None => 0,
        };
        let len = match take_argument(&v, 2) {
            Some(n) => n,
            None => 64,
        };
        proof {
            lemma_dump_keeps_sound(*m, addr, len as nat);
        }
        mem(m, addr, len)
    } else if text::is_text(c, "dis") || text::is_text(c, "d") {
        let addr = match take_argument(&v, 1) {
            Some(a) => a,
            None => m.cpu.pc,
        };
        proof {
            lemma_disassembly_keeps_sound(*m, addr, 16);
        }
        dis(m, addr, 16)
    } else if text::is_text(c, "stuck") {
        stuck(m)
    } else if text::is_text(c, "poke") {
        match (take_argument(&v, 1), take_argument(&v, 2)) {
            (Some(a), Some(val)) => poke(m, a, (val % 256) as u8),
            _ => line_of("usage: poke <addr> <val>"),
        }
    } else if text::is_text(c, "key") {
        match take_argument(&v, 1) {
            Some(code) => hold_key(m, code),
            None => line_of("usage: key <matrix-code>  (e.g. 56=1, 59=2, 60=space)"),
        }
    } else {
        unknown(c)
    }
}

// ---- what holds of the debugger ----

/// A command that only looks at registers, at the screen's chip or at the bus
/// leaves the machine as it is.
pub proof fn law_looking_changes_nothing(m: C64, w: Seq<Seq<char>>)
    requires
        w.len() > 0,
        w[0] == "cpu"@ || w[0] == "r"@ || w[0] == "vic"@ || w[0] == "spr"@ || w[0] == "sprites"@
            || w[0] == "bus"@ || w[0] == "help"@ || w[0] == "?"@,
    ensures
        answer_words(m, w).0 == m,
{
    reveal_strlit("irq");
    reveal_strlit("mem");
    reveal_strlit("m");
    reveal_strlit("dis");
    reveal_strlit("d");
    reveal_strlit("stuck");
    reveal_strlit("poke");
    reveal_strlit("key");
    reveal_strlit("cpu");
    reveal_strlit("r");
    reveal_strlit("vic");
    reveal_strlit("spr");
    reveal_strlit("sprites");
    reveal_strlit("bus");
    reveal_strlit("help");
    reveal_strlit("?");
    if w[0] == "bus"@ {
        assert(w[0][0] == 'b');
    }
}

/// A poked byte is there, and nothing else changed.
pub proof fn law_poke_writes_one_byte(m: C64, addr: u16, val: u8, other: u16)
    ensures
        poked(m, addr, val).board.ram[addr as int] == val,
        other != addr ==> poked(m, addr, val).board.ram[other as int] == m.board.ram[other as int],
        poked(m, addr, val).cpu == m.cpu,
{
}

/// Numbers on the command line: hexadecimal as they are, behind a `$` or behind `0x`,
/// and decimal behind a `#`.
pub proof fn law_numbers_given(n: u16)
    ensures
        number_given(text::hex(n as nat, 4)) == Some(n),
        number_given(seq!['$'] + text::hex(n as nat, 4)) == Some(n),
        number_given(seq!['0', 'x'] + text::hex(n as nat, 4)) == Some(n),
        number_given(seq!['#'] + text::decimal(n as nat)) == Some(n),
{
    let h = text::hex(n as nat, 4);
    let d = text::decimal(n as nat);
    text::law_numbers_read_back(n);
    text::law_hex_stands_for_its_number(n as nat, 4);
    assert(text::digit_value(h[0]) < 16 && text::digit_value(h[1]) < 16);
    assert(text::digit_value(h.last()) < 16 && text::digit_value(d.last()) < 10);
    lemma_untrimmed(h);
    lemma_untrimmed(seq!['$'] + h);
    lemma_untrimmed(seq!['0', 'x'] + h);
    lemma_untrimmed(seq!['#'] + d);
    assert((seq!['$'] + h).skip(1) =~= h);
    assert((seq!['0', 'x'] + h).skip(2) =~= h);
    assert((seq!['#'] + d).skip(1) =~= d);
}

/// Text that neither starts nor ends with white space is trimmed already.
proof fn lemma_untrimmed(s: Seq<char>)
    requires
        s.len() > 0,
        !text::is_space_char(s[0]),
        !text::is_space_char(s.last()),
    ensures
        text::trimmed(s) == s,
{
}

} // verus!
