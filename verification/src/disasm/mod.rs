//! 6502 disassembler for Commodore ROM images.
//!
//! Two ways:
//!   * **trace**: recursive-traversal disassembly. Starts from the reset/IRQ/NMI
//!     vectors (plus any entry points given) and follows control flow, so code
//!     and data separate cleanly and jump/call targets get labels. See
//!     [`trace`].
//!   * **linear**: decode every byte start-to-finish. Simple, but embedded data
//!     tables decode as garbage. See [`disassemble_linear`].
//!
//! An image is the bytes of a ROM and the address it is loaded at, which
//! together have to fit the 64 KB address space.

use vstd::prelude::*;
use crate::mos6502::{cpu, decode, AddrMode};
use crate::{mos6502, text};

pub mod flow;
pub mod spelling;
pub mod trace;

verus! {

/// Does an image of `len` bytes at `org` fit the 64 KB address space?
pub fn image_fits(len: usize, org: u16) -> (b: bool)
    ensures
        b == (org + len <= 0x1_0000),
{
    len <= 0x1_0000 && org as usize + len <= 0x1_0000
}

// ---- operands ----

/// `$` and two hexadecimal digits.
pub open spec fn byte_text(b: u8) -> Seq<char> {
    "$"@ + text::hex(b as nat, 2)
}

/// `$` and four hexadecimal digits.
pub open spec fn word_text(w: u16) -> Seq<char> {
    "$"@ + text::hex(w as nat, 4)
}

/// Where a relative branch at `addr` goes.
pub open spec fn branch_to(addr: u16, off: u8) -> u16 {
    ((addr + 2 + cpu::signed(off)) % 0x1_0000) as u16
}

/// The operand of an instruction at `addr` whose operand bytes are `lo` and
/// `hi`.
pub open spec fn operand_text(mode: AddrMode, addr: u16, lo: u8, hi: u8) -> Seq<char> {
    let w = cpu::word_of(lo, hi);
    match mode {
        AddrMode::Imp | AddrMode::Ill => Seq::empty(),
        AddrMode::Acc => "A"@,
        AddrMode::Imm => "#"@ + byte_text(lo),
        AddrMode::Zp => byte_text(lo),
        AddrMode::Zpx => byte_text(lo) + ",X"@,
        AddrMode::Zpy => byte_text(lo) + ",Y"@,
        AddrMode::Abs => word_text(w),
        AddrMode::Abx => word_text(w) + ",X"@,
        AddrMode::Aby => word_text(w) + ",Y"@,
        AddrMode::Ind => "("@ + word_text(w) + ")"@,
        AddrMode::Izx => "("@ + byte_text(lo) + ",X)"@,
        AddrMode::Izy => "("@ + byte_text(lo) + "),Y"@,
        AddrMode::Rel => word_text(branch_to(addr, lo)),
    }
}

pub(crate) fn push_byte(out: &mut String, b: u8)
    ensures
        final(out)@ == old(out)@ + byte_text(b),
{
    text::push_text(out, "$");
    text::push_hex(out, b as u64, 2);
    assert(out@ =~= old(out)@ + byte_text(b));
}

/// Append `$` and four hexadecimal digits.
pub fn push_word(out: &mut String, w: u16)
    ensures
        final(out)@ == old(out)@ + word_text(w),
{
    text::push_text(out, "$");
    text::push_hex(out, w as u64, 4);
    assert(out@ =~= old(out)@ + word_text(w));
}

/// Branch target of a relative instruction at `addr` with signed offset `off`.
pub fn branch_target(addr: u16, off: u8) -> (t: u16)
    ensures
        t == branch_to(addr, off),
{
    let next = addr.wrapping_add(2);
    if off < 0x80 { next.wrapping_add(off as u16) } else { next.wrapping_sub(0x100 - off as u16) }
}

/// Format the operand text for an instruction at `addr` with the operand bytes
/// `lo` and `hi`.
pub fn operand(mode: AddrMode, addr: u16, lo: u8, hi: u8) -> (s: String)
    ensures
        s@ == operand_text(mode, addr, lo, hi),
{
    let word: u16 = lo as u16 + 256 * (hi as u16);
    let mut s = String::new();
    match mode {
        AddrMode::Imp | AddrMode::Ill => {},
        AddrMode::Acc => text::push_text(&mut s, "A"),
        AddrMode::Imm => {
            text::push_text(&mut s, "#");
            push_byte(&mut s, lo);
        },
        AddrMode::Zp => push_byte(&mut s, lo),
        AddrMode::Zpx => {
            push_byte(&mut s, lo);
            text::push_text(&mut s, ",X");
        },
        AddrMode::Zpy => {
            push_byte(&mut s, lo);
            text::push_text(&mut s, ",Y");
        },
        AddrMode::Abs => push_word(&mut s, word),
        AddrMode::Abx => {
            push_word(&mut s, word);
            text::push_text(&mut s, ",X");
        },
        AddrMode::Aby => {
            push_word(&mut s, word);
            text::push_text(&mut s, ",Y");
        },
        AddrMode::Ind => {
            text::push_text(&mut s, "(");
            push_word(&mut s, word);
            text::push_text(&mut s, ")");
        },
        AddrMode::Izx => {
            text::push_text(&mut s, "(");
            push_byte(&mut s, lo);
            text::push_text(&mut s, ",X)");
        },
        AddrMode::Izy => {
            text::push_text(&mut s, "(");
            push_byte(&mut s, lo);
            text::push_text(&mut s, "),Y");
        },
        AddrMode::Rel => push_word(&mut s, branch_target(addr, lo)),
    }
    assert(s@ =~= operand_text(mode, addr, lo, hi));
    s
}

/// A byte of an instruction, zero where the instruction has none.
pub open spec fn byte_or_zero(bytes: Seq<u8>, k: int) -> u8 {
    if k < bytes.len() { bytes[k] } else { 0 }
}

/// Format the operand text for a decoded instruction. `bytes` holds the full
/// instruction (opcode + operand) and `addr` is the instruction's address.
pub fn format_operand(mode: AddrMode, addr: u16, bytes: &[u8]) -> (s: String)
    ensures
        s@ == operand_text(mode, addr, byte_or_zero(bytes@, 1), byte_or_zero(bytes@, 2)),
{
    let lo = if bytes.len() > 1 { bytes[1] } else { 0 };
    let hi = if bytes.len() > 2 { bytes[2] } else { 0 };
    operand(mode, addr, lo, hi)
}

/// Bytes as space-separated hexadecimal.
pub open spec fn bytes_text(bytes: Seq<u8>) -> Seq<char>
    decreases bytes.len(),
{
    if bytes.len() == 0 {
        Seq::empty()
    } else if bytes.len() == 1 {
        text::hex(bytes[0] as nat, 2)
    } else {
        bytes_text(bytes.drop_last()) + " "@ + text::hex(bytes.last() as nat, 2)
    }
}

/// Render a byte slice as space-separated uppercase hex.
pub fn hex_bytes(bytes: &[u8]) -> (s: String)
    ensures
        s@ == bytes_text(bytes@),
{
    let mut s = String::new();
    let mut k: usize = 0;
    while k < bytes.len()
        invariant
            k <= bytes.len(),
            s@ == bytes_text(bytes@.take(k as int)),
        decreases bytes.len() - k,
    {
        assert(bytes@.take(k + 1).drop_last() =~= bytes@.take(k as int));
        if k > 0 {
            text::push_text(&mut s, " ");
        }
        text::push_hex(&mut s, bytes[k] as u64, 2);
        assert(s@ =~= bytes_text(bytes@.take(k + 1)));
        k += 1;
    }
    assert(bytes@.take(k as int) =~= bytes@);
    s
}

// ---- the image ----

/// The little-endian word at an address of an image, if both bytes are in it.
pub open spec fn image_word(rom: Seq<u8>, org: u16, addr: u16) -> Option<u16> {
    if org <= addr && addr - org + 1 < rom.len() {
        Some(cpu::word_of(rom[addr - org], rom[addr - org + 1]))
    } else {
        None
    }
}

/// Read a little-endian word from the image at absolute address `addr`.
pub fn read_word(rom: &[u8], org: u16, addr: u16) -> (w: Option<u16>)
    ensures
        w == image_word(rom@, org, addr),
{
    if addr < org {
        return None;
    }
    let start = (addr - org) as usize;
    if start + 1 >= rom.len() {
        return None;
    }
    Some(rom[start] as u16 + 256 * (rom[start + 1] as u16))
}

// ---- the linear sweep ----

/// The bytes that the instruction at an offset takes, as far as the image has
/// them.
pub open spec fn instr_bytes(rom: Seq<u8>, i: int) -> Seq<u8> {
    let len = mos6502::mode_len(mos6502::opcode_mode(rom[i])) as int;
    rom.subrange(i, if i + len <= rom.len() { i + len } else { rom.len() as int })
}

/// Is there a whole instruction at an offset? Only truly unknown opcodes are
/// none: known undocumented ones have a real mode.
pub open spec fn decodable(rom: Seq<u8>, i: int) -> bool {
    let mode = mos6502::opcode_mode(rom[i]);
    mode != AddrMode::Ill && i + mos6502::mode_len(mode) <= rom.len()
}

/// The front of a listing line: the address and the bytes.
pub open spec fn line_front(addr: u16, bytes: Seq<u8>) -> Seq<char> {
    text::hex(addr as nat, 4) + ":  "@ + text::padded(bytes_text(bytes), 8) + "  "@
}

/// The name of the instruction and its operand.
pub open spec fn instr_text(opcode: u8, operand: Seq<char>) -> Seq<char> {
    text::padded(mos6502::mnemonic_name(mos6502::opcode_mnemonic(opcode)), 4) + " "@ + operand
}

/// The line that a linear sweep gives at an offset.
pub open spec fn linear_line(rom: Seq<u8>, org: u16, i: int) -> Seq<char> {
    let addr = (org + i) as u16;
    let bytes = instr_bytes(rom, i);
    if decodable(rom, i) {
        line_front(addr, bytes) + instr_text(
            rom[i],
            operand_text(
                mos6502::opcode_mode(rom[i]), addr, byte_or_zero(bytes, 1), byte_or_zero(bytes, 2)),
        )
    } else {
        line_front(addr, bytes) + (".byte "@ + byte_text(rom[i]))
    }
}

/// The lines of a linear sweep from an offset on.
pub open spec fn linear_lines(rom: Seq<u8>, org: u16, i: int) -> Seq<Seq<char>>
    decreases rom.len() - i,
{
    if i < 0 || i >= rom.len() {
        Seq::empty()
    } else {
        let step = if decodable(rom, i) { mos6502::mode_len(mos6502::opcode_mode(rom[i])) } else { 1 };
        seq![linear_line(rom, org, i)] + linear_lines(rom, org, i + step)
    }
}

pub(crate) fn push_front(out: &mut String, addr: u16, bytes: &[u8])
    ensures
        final(out)@ == old(out)@ + line_front(addr, bytes@),
{
    text::push_hex(out, addr as u64, 4);
    text::push_text(out, ":  ");
    text::push_padded(out, hex_bytes(bytes).as_str(), 8);
    text::push_text(out, "  ");
    assert(out@ =~= old(out)@ + line_front(addr, bytes@));
}

pub(crate) fn push_instr(out: &mut String, opcode: u8, operand: &str)
    ensures
        final(out)@ == old(out)@ + instr_text(opcode, operand@),
{
    text::push_padded(out, decode(opcode).mnemonic, 4);
    text::push_text(out, " ");
    text::push_text(out, operand);
    assert(out@ =~= old(out)@ + instr_text(opcode, operand@));
}

/// Walk the ROM linearly, decoding one instruction at a time. Gives the lines of
/// the listing.
pub fn disassemble_linear(rom: &[u8], org: u16) -> (lines: Vec<String>)
    requires
        org + rom.len() <= 0x1_0000,
    ensures
        text::texts(lines@) == linear_lines(rom@, org, 0),
{
    let mut lines: Vec<String> = Vec::new();
    let mut i: usize = 0;
    assert(text::texts(lines@) + linear_lines(rom@, org, 0) =~= linear_lines(rom@, org, 0));
    while i < rom.len()
        invariant
            i <= rom.len(),
            org + rom.len() <= 0x1_0000,
            text::texts(lines@) + linear_lines(rom@, org, i as int) == linear_lines(rom@, org, 0),
        decreases rom.len() - i,
    {
        let addr = org + i as u16;
        let opcode = rom[i];
        let op = decode(opcode);
        let len = op.len() as usize;

        let avail = if rom.len() - i < len { rom.len() - i } else { len };
        let bytes = vstd::slice::slice_subrange(rom, i, i + avail);
        let mut line = String::new();
        push_front(&mut line, addr, bytes);
        let ghost done = text::texts(lines@);

        if op.mode == AddrMode::Ill || avail < len {
            text::push_text(&mut line, ".byte ");
            push_byte(&mut line, opcode);
            assert(line@ =~= linear_line(rom@, org, i as int));
            text::push_line(&mut lines, line);
            assert(done + linear_lines(rom@, org, i as int)
                =~= text::texts(lines@) + linear_lines(rom@, org, i + 1));
            i += 1;
        } else {
            let operand = format_operand(op.mode, addr, bytes);
            push_instr(&mut line, opcode, operand.as_str());
            assert(line@ =~= linear_line(rom@, org, i as int));
            text::push_line(&mut lines, line);
            assert(done + linear_lines(rom@, org, i as int)
                =~= text::texts(lines@) + linear_lines(rom@, org, i + len));
            i += len;
        }
    }
    assert(text::texts(lines@) + linear_lines(rom@, org, i as int) =~= text::texts(lines@));
    lines
}

// ---- the hardware vectors ----

/// A line on a hardware vector.
pub open spec fn vector_text(rom: Seq<u8>, org: u16, name: Seq<char>, v: u16) -> Seq<char> {
    "; "@ + text::padded(name, 7) + " @ "@ + word_text(v) + " -> "@
        + (match image_word(rom, org, v) {
            Some(target) => word_text(target),
            None => "(outside image)"@,
        })
}

fn vector_line(rom: &[u8], org: u16, name: &str, v: u16) -> (line: String)
    ensures
        line@ == vector_text(rom@, org, name@, v),
{
    let mut line = String::new();
    text::push_text(&mut line, "; ");
    text::push_padded(&mut line, name, 7);
    text::push_text(&mut line, " @ ");
    push_word(&mut line, v);
    text::push_text(&mut line, " -> ");
    match read_word(rom, org, v) {
        Some(target) => push_word(&mut line, target),
        None => text::push_text(&mut line, "(outside image)"),
    }
    assert(line@ =~= vector_text(rom@, org, name@, v));
    line
}

/// The 6502 hardware vectors at the top of the image ($FFFA/$FFFC/$FFFE), a line
/// each.
pub fn print_vectors(rom: &[u8], org: u16) -> (lines: Vec<String>)
    ensures
        text::texts(lines@) == seq![
            vector_text(rom@, org, "NMI"@, 0xFFFA),
            vector_text(rom@, org, "RESET"@, 0xFFFC),
            vector_text(rom@, org, "IRQ/BRK"@, 0xFFFE),
        ],
{
    let mut lines: Vec<String> = Vec::new();
    assert(text::texts(lines@) =~= Seq::empty());
    text::push_line(&mut lines, vector_line(rom, org, "NMI", 0xFFFA));
    text::push_line(&mut lines, vector_line(rom, org, "RESET", 0xFFFC));
    text::push_line(&mut lines, vector_line(rom, org, "IRQ/BRK", 0xFFFE));
    lines
}

// ---- what the command line says ----

/// The number a text gives in decimal, or in hexadecimal behind `0x`, `0X` or
/// `$`.
pub open spec fn word_given(s: Seq<char>) -> Option<u16> {
    let t = text::trimmed(s);
    if t.len() >= 2 && t[0] == '0' && (t[1] == 'x' || t[1] == 'X') {
        text::number(t.skip(2), 16)
    } else if t.len() >= 1 && t[0] == '$' {
        text::number(t.skip(1), 16)
    } else {
        text::number(t, 10)
    }
}

/// Parse a `u16` from decimal, `0x`-prefixed, or `$`-prefixed hex.
pub fn parse_u16(s: &str) -> (r: Option<u16>)
    ensures
        r == word_given(s@),
{
    word_in(text::chars_of(s).as_slice())
}

fn word_in(s: &[char]) -> (r: Option<u16>)
    ensures
        r == word_given(s@),
{
    let t = text::trim(s);
    if t.len() >= 2 && t[0] == '0' && (t[1] == 'x' || t[1] == 'X') {
        text::parse_number(vstd::slice::slice_subrange(t.as_slice(), 2, t.len()), 16)
    } else if t.len() >= 1 && t[0] == '$' {
        text::parse_number(vstd::slice::slice_subrange(t.as_slice(), 1, t.len()), 16)
    } else {
        text::parse_number(t.as_slice(), 10)
    }
}

/// Where the first colon is, from a place on; the length if there is none.
pub open spec fn colon(s: Seq<char>, from: int) -> int
    decreases s.len() - from,
{
    if from >= s.len() || s[from] == ':' { from } else { colon(s, from + 1) }
}

/// The piece from a place to the next colon.
pub open spec fn piece(s: Seq<char>, from: int) -> Seq<char> {
    s.subrange(from, colon(s, from))
}

fn find_colon(s: &[char], from: usize) -> (k: usize)
    requires
        from <= s.len(),
    ensures
        k == colon(s@, from as int),
        from <= k <= s.len(),
{
    let mut k = from;
    while k < s.len() && s[k] != ':'
        invariant
            from <= k <= s.len(),
            colon(s@, k as int) == colon(s@, from as int),
        decreases s.len() - k,
    {
        k += 1;
    }
    k
}

/// The pointer table a text gives: `ADDR:COUNT`.
pub open spec fn table_given(s: Seq<char>) -> Option<(u16, u16)> {
    let c = colon(s, 0);
    match (word_given(s.take(c)), word_given(s.skip(c + 1))) {
        (Some(addr), Some(count)) => if c < s.len() { Some((addr, count)) } else { None },
        _ => None,
    }
}

/// Parse a `ADDR:COUNT` pointer-table spec (each part decimal or hex).
pub fn parse_table(s: &str) -> (r: Option<(u16, u16)>)
    ensures
        r == table_given(s@),
{
    let v = text::chars_of(s);
    let t = v.as_slice();
    let c = find_colon(t, 0);
    if c >= t.len() {
        return None;
    }
    let addr = vstd::slice::slice_subrange(t, 0, c);
    let count = vstd::slice::slice_subrange(t, c + 1, t.len());
    assert(addr@ =~= s@.take(c as int));
    assert(count@ =~= s@.skip(c + 1));
    match (word_in(addr), word_in(count)) {
        (Some(a), Some(n)) => Some((a, n)),
        _ => None,
    }
}

/// The code table a text gives: `ADDR:COUNT`, and a stride that is three where
/// none stands. What stands behind a third colon is ignored.
pub open spec fn code_table_given(s: Seq<char>) -> Option<(u16, u16, u16)> {
    let c = colon(s, 0);
    let d = colon(s, c + 1);
    if c >= s.len() {
        None
    } else {
        match (
            word_given(piece(s, 0)),
            word_given(piece(s, c + 1)),
            if d < s.len() { word_given(piece(s, d + 1)) } else { Some(3u16) },
        ) {
            (Some(addr), Some(count), Some(stride)) => Some((addr, count, stride)),
            _ => None,
        }
    }
}

/// Parse a `ADDR:COUNT[:STRIDE]` code-table spec; STRIDE defaults to 3 (a
/// classic `JMP nnnn` jump table like the KERNAL API vectors).
pub fn parse_code_table(s: &str) -> (r: Option<(u16, u16, u16)>)
    ensures
        r == code_table_given(s@),
{
    let v = text::chars_of(s);
    let t = v.as_slice();
    let c = find_colon(t, 0);
    if c >= t.len() {
        return None;
    }
    let d = find_colon(t, c + 1);
    let addr = word_in(vstd::slice::slice_subrange(t, 0, c));
    let count = word_in(vstd::slice::slice_subrange(t, c + 1, d));
    let stride = if d < t.len() {
        let e = find_colon(t, d + 1);
        word_in(vstd::slice::slice_subrange(t, d + 1, e))
    } else {
        Some(3)
    };
    match (addr, count, stride) {
        (Some(a), Some(n), Some(st)) => Some((a, n, st)),
        _ => None,
    }
}

} // verus!
