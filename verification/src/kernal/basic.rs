//! The BASIC cold-start seam ($E394): the glue between KERNAL and BASIC.
//!
//! After RESET does `JMP ($A000)`, control lands at `$E394`. Despite being
//! "BASIC cold start", these routines live in the **KERNAL ROM**: they set up
//! BASIC's zero page and RAM vectors, print the startup banner and free-memory
//! count, then hand off into the BASIC interpreter's main loop.
//!
//! This module **stops at the boundary**: the calls into the BASIC ROM proper
//! ($A000-$BFFF), the string printer and the interpreter's main loop, are noted
//! but not carried out. The demonstrable result is the exact startup text a real
//! C64 shows, `38911 BASIC BYTES FREE` and all.
//!
//! ```text
//! E394:  20 53 E4  JSR  $E453    ; init_basic_vectors  ($0300 table)
//! E397:  20 BF E3  JSR  $E3BF    ; init_basic_ram      (zero page, pointers)
//! E39A:  20 22 E4  JSR  $E422    ; print banner + free bytes  (into BASIC ROM)
//! E39D:  A2 FB     LDX  #$FB
//! E39F:  9A        TXS           ; stack pointer for BASIC
//! E3A0:  D0 E4     BNE  $E386    ; -> LDX #$80; JMP ($0300)  (the READY/main entry)
//! ```

use vstd::prelude::*;
use crate::kernal::{C64Mem, Memory};
use crate::text;

verus! {

/// BASIC's 6 indirect vectors, copied to $0300-$030B by `init_basic_vectors`.
/// $0300 IERROR=$E38B, $0302 IMAIN=$A483, $0304 ICRNCH=$A57C, $0306 IQPLOP=$A71A,
/// $0308 IGONE=$A7E4, $030A IEVAL=$AE86.
pub const BASIC_VECTORS: [u8; 12] =
    [0x8B, 0xE3, 0x83, 0xA4, 0x7C, 0xA5, 0x1A, 0xA7, 0xE4, 0xA7, 0x86, 0xAE];

/// The CHRGET routine (BASIC's "fetch next program byte"), copied into zero page
/// at $73 by `init_basic_ram`. It lives in RAM so BASIC can self-modify the
/// program pointer it holds.
pub const CHRGET_ROUTINE: [u8; 29] = [
    0xE6, 0x7A, 0xD0, 0x02, 0xE6, 0x7B, 0xAD, 0x60, 0xEA, 0xC9, 0x3A, 0xB0, 0x0A, 0xC9, 0x20, 0xF0,
    0xEF, 0x38, 0xE9, 0x30, 0x38, 0xE9, 0xD0, 0x60, 0x80, 0x4F, 0xC7, 0x52, 0x58,
];

/// The startup banner string ($E473, PETSCII): clear-screen, then
/// "    **** COMMODORE 64 BASIC V2 ****" and " 64K RAM SYSTEM  ".
pub const STARTUP_BANNER: [u8; 56] = [
    0x93, 0x0D, 0x20, 0x20, 0x20, 0x20, 0x2A, 0x2A, 0x2A, 0x2A, 0x20, 0x43, 0x4F, 0x4D, 0x4D, 0x4F,
    0x44, 0x4F, 0x52, 0x45, 0x20, 0x36, 0x34, 0x20, 0x42, 0x41, 0x53, 0x49, 0x43, 0x20, 0x56, 0x32,
    0x20, 0x2A, 0x2A, 0x2A, 0x2A, 0x0D, 0x0D, 0x20, 0x36, 0x34, 0x4B, 0x20, 0x52, 0x41, 0x4D, 0x20,
    0x53, 0x59, 0x53, 0x54, 0x45, 0x4D, 0x20, 0x20,
];

/// The " BASIC BYTES FREE\r" string ($E460, PETSCII).
pub const FREE_MSG: [u8; 18] = [
    0x20, 0x42, 0x41, 0x53, 0x49, 0x43, 0x20, 0x42, 0x59, 0x54, 0x45, 0x53, 0x20, 0x46, 0x52, 0x45,
    0x45, 0x0D,
];

/// What the cold-start seam produced.
pub struct ColdStart {
    /// The startup text as it would appear on screen (PETSCII decoded).
    pub banner: String,
    /// Address the seam jumps through next (`JMP ($0300)` = IERROR $E38B), which
    /// prints `READY.` and enters BASIC's main loop at IMAIN ($A483). Everything
    /// from here on is the BASIC interpreter.
    pub handoff: u16,
}

/// Memory after BASIC's vectors were installed.
pub open spec fn vectored(m: Memory) -> Memory {
    m.poke_all(0x0300, BASIC_VECTORS@)
}

/// Memory after the constant part of BASIC's RAM was set up.
pub open spec fn workspace_set(m: Memory) -> Memory {
    m.poke(0x0054, 0x4C).poke(0x0310, 0x4C).poke(0x0311, 0x48).poke(0x0312, 0xB2)
        .poke(0x0005, 0x91).poke(0x0006, 0xB3).poke(0x0003, 0xAA).poke(0x0004, 0xB1)
        .poke_all(0x0073, CHRGET_ROUTINE@)
        .poke(0x0053, 0x03).poke(0x0068, 0x00).poke(0x0013, 0x00).poke(0x0018, 0x00)
        .poke(0x01FD, 0x01).poke(0x01FC, 0x01).poke(0x0016, 0x19)
}

/// Memory after BASIC's limits were taken over from the KERNAL's: TXTTAB from
/// MEMBOT, MEMSIZ and FRETOP from MEMTOP.
pub open spec fn limits_set(m: Memory) -> Memory {
    m.poke(0x002B, m.ram[0x0281]).poke(0x002C, m.ram[0x0282])
        .poke(0x0037, m.ram[0x0283]).poke(0x0038, m.ram[0x0284])
        .poke(0x0033, m.ram[0x0283]).poke(0x0034, m.ram[0x0284])
}

/// Memory after the zero byte in front of the program was written and TXTTAB
/// set to the byte behind it.
pub open spec fn text_started(m: Memory) -> Memory {
    let start = m.word(0x002B) as int;
    let next = (start + 1) % 0x1_0000;
    m.poke(start, 0x00).poke(0x002B, (next % 256) as u8).poke(0x002C, (next / 256) as u8)
}

/// Memory after BASIC's RAM was set up.
pub open spec fn ram_set(m: Memory) -> Memory {
    text_started(limits_set(workspace_set(m)))
}

/// The bytes free for BASIC: MEMSIZ - TXTTAB.
pub open spec fn bytes_free(m: Memory) -> nat {
    ((m.word(0x0037) - m.word(0x002B)) % 0x1_0000) as nat
}

/// A PETSCII code as readable text: printable codes stay, carriage return makes
/// a new line, and control codes go.
pub open spec fn shown(b: u8) -> Seq<char> {
    if b == 0x0D {
        seq!['\n']
    } else if 0x20 <= b <= 0x5F {
        seq![b as char]
    } else {
        Seq::empty()
    }
}

/// A PETSCII string as readable text.
pub open spec fn petscii_text(bytes: Seq<u8>) -> Seq<char>
    decreases bytes.len(),
{
    if bytes.len() == 0 {
        Seq::empty()
    } else {
        petscii_text(bytes.drop_last()) + shown(bytes.last())
    }
}

/// The startup text.
pub open spec fn banner_text(m: Memory) -> Seq<char> {
    petscii_text(STARTUP_BANNER@) + text::decimal(bytes_free(m)) + petscii_text(FREE_MSG@)
}

/// BASIC cold start ($E394): the whole seam.
pub fn cold_start(m: &mut C64Mem) -> (cs: ColdStart)
    ensures
        final(m)@ == ram_set(vectored(old(m)@)),
        cs.banner@ == banner_text(ram_set(vectored(old(m)@))),
        cs.handoff == ram_set(vectored(old(m)@)).word(0x0300),
{
    init_basic_vectors(m); // JSR $E453
    init_basic_ram(m); // JSR $E3BF
    let banner = startup_banner(m); // JSR $E422 (+ its BASIC-ROM print calls)
    // LDX #$FB; TXS; then $E386: LDX #$80; JMP ($0300).
    let handoff = m.zp_ptr_at(0x0300);
    ColdStart { banner, handoff }
}

/// Install BASIC's indirect vectors into $0300-$030B ($E453).
///
/// ```text
/// E453: LDX #$0B
/// E455: LDA $E447,X; STA $0300,X; DEX; BPL $E455
/// E45E: RTS
/// ```
pub fn init_basic_vectors(m: &mut C64Mem)
    ensures
        final(m)@ == vectored(old(m)@),
{
    m.w_all(0x0300, BASIC_VECTORS.as_slice());
}

/// Initialize BASIC's zero page and RAM pointers ($E3BF): the USR() jump, the
/// float/int conversion vectors, the CHRGET routine, and TXTTAB / MEMSIZ /
/// FRETOP from the KERNAL's MEMBOT / MEMTOP.
pub fn init_basic_ram(m: &mut C64Mem)
    ensures
        final(m)@ == ram_set(old(m)@),
{
    init_workspace(m);

    // TXTTAB = MEMBOT ($0281/$0282); MEMSIZ = FRETOP = MEMTOP ($0283/$0284).
    let (bx, by) = (m.r(0x0281), m.r(0x0282)); // MEMBOT ($FF9C, carry set = read)
    m.w(0x002B, bx);
    m.w(0x002C, by);
    let (tx, ty) = (m.r(0x0283), m.r(0x0284)); // MEMTOP ($FF99, carry set = read)
    m.w(0x0037, tx);
    m.w(0x0038, ty);
    m.w(0x0033, tx);
    m.w(0x0034, ty);
    assert(m@ == limits_set(workspace_set(old(m)@)));
    start_text(m);
}

/// The constant part of BASIC's zero page and RAM.
fn init_workspace(m: &mut C64Mem)
    ensures
        final(m)@ == workspace_set(old(m)@),
{
    // USR() call: a JMP opcode at $54 and $0310, vector -> $B248.
    m.w(0x0054, 0x4C);
    m.w(0x0310, 0x4C);
    m.w(0x0311, 0x48);
    m.w(0x0312, 0xB2);
    // ADRAY1/ADRAY2 float<->int conversion vectors.
    m.w(0x0005, 0x91);
    m.w(0x0006, 0xB3); // $B391
    m.w(0x0003, 0xAA);
    m.w(0x0004, 0xB1); // $B1AA
    // Copy CHRGET into zero page at $73.
    m.w_all(0x0073, CHRGET_ROUTINE.as_slice());
    m.w(0x0053, 0x03);
    m.w(0x0068, 0x00);
    m.w(0x0013, 0x00);
    m.w(0x0018, 0x00);
    m.w(0x01FD, 0x01);
    m.w(0x01FC, 0x01);
    m.w(0x0016, 0x19);
}

/// Write a 0 at the start of BASIC text, then bump TXTTAB past it ($0800->$0801).
fn start_text(m: &mut C64Mem)
    ensures
        final(m)@ == text_started(old(m)@),
{
    let txttab = m.zp_ptr_at(0x002B);
    m.w(txttab, 0x00);
    let bumped = txttab.wrapping_add(1);
    m.w(0x002B, (bumped % 256) as u8);
    m.w(0x002C, (bumped / 256) as u8);
}

/// Print the startup banner and free-byte count ($E422). The ROM does this via
/// BASIC-ROM calls (memory check $A408, print-string $AB1E, print-number $BDCD,
/// then $A644); here we compute the same text directly.
///
/// ```text
/// E422: LDA $2B; LDY $2C; JSR $A408        ; set top of BASIC / check memory
/// E429: LDA #$73; LDY #$E4; JSR $AB1E      ; print banner ($E473)
/// E430: LDA $37; SEC; SBC $2B; TAX
/// E436: LDA $38; SBC $2C; JSR $BDCD        ; print (MEMSIZ - TXTTAB) as decimal
/// E43D: LDA #$60; LDY #$E4; JSR $AB1E      ; print " BASIC BYTES FREE" ($E460)
/// E444: JMP $A644                          ; -> BASIC NEW, then RTS back
/// ```
pub fn startup_banner(m: &C64Mem) -> (s: String)
    ensures
        s@ == banner_text(m@),
{
    let mut out = String::new();
    decode_petscii(&mut out, STARTUP_BANNER.as_slice());
    // Free bytes = MEMSIZ ($37/$38) - TXTTAB ($2B/$2C).
    let memsiz = m.zp_ptr_at(0x0037);
    let txttab = m.zp_ptr_at(0x002B);
    let free = memsiz.wrapping_sub(txttab);
    assert(free == bytes_free(m@));
    text::push_decimal(&mut out, free as u64);
    decode_petscii(&mut out, FREE_MSG.as_slice());
    assert(out@ =~= banner_text(m@));
    out
}

/// Turn a PETSCII string into readable text: printable codes pass through,
/// carriage return ($0D) becomes a newline, and clear-screen ($93) is dropped.
fn decode_petscii(out: &mut String, bytes: &[u8])
    ensures
        final(out)@ == old(out)@ + petscii_text(bytes@),
{
    let mut k: usize = 0;
    assert(out@ =~= old(out)@ + petscii_text(bytes@.take(0)));
    while k < bytes.len()
        invariant
            k <= bytes.len(),
            out@ == old(out)@ + petscii_text(bytes@.take(k as int)),
        decreases bytes.len() - k,
    {
        let b = bytes[k];
        assert(bytes@.take(k + 1).drop_last() =~= bytes@.take(k as int));
        if b == 0x0D {
            out.push('\n');
        } else if 0x20 <= b && b <= 0x5F {
            out.push(b as char); // ASCII-compatible PETSCII range
        }
        // Control codes ($93 clear-screen, etc.) are dropped.
        assert(out@ =~= old(out)@ + petscii_text(bytes@.take(k + 1)));
        k += 1;
    }
    assert(bytes@.take(k as int) =~= bytes@);
}

} // verus!
