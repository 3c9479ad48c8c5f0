//! Where control goes from an instruction, read off its opcode byte, and what a
//! trace makes of it.

use vstd::prelude::*;
use crate::disasm::trace::{self, Entries};
use crate::{disasm, mos6502};

verus! {

/// The opcodes behind which control does not go on: `BRK`, `RTI`, `RTS` and the
/// two `JMP`s.
pub open spec fn ends_run(o: u8) -> bool {
    o == 0x00 || o == 0x40 || o == 0x60 || o == 0x4C || o == 0x6C
}

/// The opcodes that stop the processor.
pub open spec fn stops(o: u8) -> bool {
    o == 0x02 || o == 0x12 || o == 0x22 || o == 0x32 || o == 0x42 || o == 0x52 || o == 0x62
        || o == 0x72 || o == 0x92 || o == 0xB2 || o == 0xD2 || o == 0xF2
}

/// How many bytes an instruction takes, by the low five bits of its opcode; only in
/// the first columns do rows differ.
pub open spec fn bytes_of(o: u8) -> int {
    let col = o as int % 32;
    if o == 0x20 { 3 }
    else if o == 0x00 || o == 0x40 || o == 0x60 || stops(o) { 1 }
    else if col == 0x08 || col == 0x0A || col == 0x18 || col == 0x1A { 1 }
    else if 0x0C <= col <= 0x0F || col == 0x19 || 0x1B <= col { 3 }
    else { 2 }
}

/// Every opcode is as long as its column says, and what stops the processor is no
/// instruction.
pub proof fn law_lengths(o: u8)
    ensures
        mos6502::mode_len(mos6502::opcode_mode(o)) == bytes_of(o),
        (mos6502::opcode_mode(o) == mos6502::AddrMode::Ill) == stops(o),
{
}

/// Byte `k` behind the opcode at an offset, as a number.
pub open spec fn operand_byte(rom: Seq<u8>, off: int, k: int) -> int {
    rom[off + k] as int
}

/// The address that an instruction sends control to, if it is one that does: a
/// branch counts from behind itself, `JMP` and `JSR` name the address, and `JMP ()`
/// takes it from the image, its high byte from the page of the low one.
pub open spec fn sends_to(rom: Seq<u8>, org: int, off: int, a: int) -> bool {
    let o = rom[off];
    let b = operand_byte(rom, off, 1);
    let w = b + 256 * operand_byte(rom, off, 2);
    let hi = if w % 256 == 255 { w - 255 } else { w + 1 };
    if o % 32 == 0x10 {
        a == (org + off + 2 + (if b < 128 { b } else { b - 256 })) % 0x1_0000
    } else if o == 0x4C || o == 0x20 {
        a == w
    } else if o == 0x6C {
        &&& org <= w < org + rom.len() && org <= hi < org + rom.len()
        &&& a == rom[w - org] + 256 * rom[hi - org]
    } else {
        false
    }
}

/// Control goes from an instruction to another one: where it is sent, or behind the
/// instruction unless that ends the run.
pub open spec fn goes_to(rom: Seq<u8>, org: int, from: int, to: int) -> bool {
    ||| sends_to(rom, org, from, org + to)
    ||| !ends_run(rom[from]) && to == from + bytes_of(rom[from])
}

proof fn lemma_decode(o: u8)
    ensures
        ({
            let m = mos6502::opcode_mnemonic(o);
            let mode = mos6502::opcode_mode(o);
            &&& (m == mos6502::Mnemonic::Jmp) == (o == 0x4C || o == 0x6C)
            &&& (m == mos6502::Mnemonic::Jsr) == (o == 0x20)
            &&& (m == mos6502::Mnemonic::Rts) == (o == 0x60)
            &&& (m == mos6502::Mnemonic::Rti) == (o == 0x40)
            &&& (m == mos6502::Mnemonic::Brk) == (o == 0x00)
            &&& (mode == mos6502::AddrMode::Rel) == (o % 32 == 0x10)
            &&& (mode == mos6502::AddrMode::Ind) == (o == 0x6C)
        }),
{
}

/// The edges that a trace follows are just those.
pub proof fn law_control_flow(rom: Seq<u8>, org: u16, from: int, to: int)
    requires
        org + rom.len() <= 0x1_0000,
        0 <= from < rom.len(),
        0 <= to < rom.len(),
    ensures
        trace::leads(rom, org, from, to) == goes_to(rom, org as int, from, to),
        trace::runs(rom, from)
            == (!stops(rom[from]) && from + bytes_of(rom[from]) <= rom.len()),
{
    law_lengths(rom[from]);
    lemma_decode(rom[from]);
    let w = rom[from + 1] + 256 * rom[from + 2];
    let hi = if w % 256 == 255 { w - 255 } else { w + 1 };
    assert(0 <= w < 0x1_0000);
    assert(mos6502::cpu::next_in_page(w as u16) == hi);
}

/// A trace lists as code just the whole instructions that an entry point or the
/// flow of control leads to; everything else is data.
pub proof fn law_code_and_data(rom: Seq<u8>, org: u16, e: Entries, off: int)
    requires
        org + rom.len() <= 0x1_0000,
        0 <= off < rom.len(),
    ensures
        ({
            let code = trace::found(rom, org, e).starts;
            code[off] == (!stops(rom[off]) && off + bytes_of(rom[off]) <= rom.len()
                && (trace::is_entry(rom, org, e, (org + off) as u16)
                    || exists|p: int| 0 <= p < rom.len() && #[trigger] code[p]
                        && goes_to(rom, org as int, p, off)))
        }),
{
    let f = trace::found(rom, org, e);
    law_control_flow(rom, org, off, off);
    if trace::runs(rom, off) {
        trace::law_code_is_what_is_reached(rom, org, e, off);
        if exists|p: int| 0 <= p < rom.len() && f.starts[p]
            && #[trigger] trace::leads(rom, org, p, off) {
            let p = choose|p: int| 0 <= p < rom.len() && f.starts[p]
                && #[trigger] trace::leads(rom, org, p, off);
            law_control_flow(rom, org, p, off);
            assert(f.starts[p] && goes_to(rom, org as int, p, off));
        }
        if exists|p: int| 0 <= p < rom.len() && #[trigger] f.starts[p]
            && goes_to(rom, org as int, p, off) {
            let p = choose|p: int| 0 <= p < rom.len() && #[trigger] f.starts[p]
                && goes_to(rom, org as int, p, off);
            law_control_flow(rom, org, p, off);
            assert(trace::leads(rom, org, p, off));
        }
    } else {
        let entry = trace::entry_of(rom, org, e);
        assert(!trace::is_code(rom, org, entry, off)) by {
            if trace::is_code(rom, org, entry, off) {
                let k = choose|k: nat| trace::reached(rom, org, entry, off, k);
                assert(trace::reached(rom, org, entry, off, k));
            }
        }
    }
}

/// What is code is reached in steps: nothing is code because of itself. From an
/// offset that is code a run of control leads back to an entry point.
pub proof fn law_code_comes_from_an_entry(rom: Seq<u8>, org: u16, e: Entries, off: int)
    -> (path: Seq<int>)
    requires
        org + rom.len() <= 0x1_0000,
        0 <= off < rom.len(),
        trace::found(rom, org, e).starts[off],
    ensures
        path.len() >= 1,
        path.last() == off,
        trace::is_entry(rom, org, e, (org + path[0]) as u16),
        forall|i: int| 0 <= i < path.len() ==> 0 <= #[trigger] path[i] < rom.len(),
        forall|i: int| #![trigger path[i]] 0 <= i < path.len() - 1
            ==> goes_to(rom, org as int, path[i], path[i + 1]),
{
    let entry = trace::entry_of(rom, org, e);
    let k = choose|k: nat| trace::reached(rom, org, entry, off, k);
    lemma_path(rom, org, e, off, k)
}

proof fn lemma_path(rom: Seq<u8>, org: u16, e: Entries, off: int, k: nat) -> (path: Seq<int>)
    requires
        org + rom.len() <= 0x1_0000,
        trace::reached(rom, org, trace::entry_of(rom, org, e), off, k),
    ensures
        path.len() >= 1,
        path.last() == off,
        trace::is_entry(rom, org, e, (org + path[0]) as u16),
        forall|i: int| 0 <= i < path.len() ==> 0 <= #[trigger] path[i] < rom.len(),
        forall|i: int| #![trigger path[i]] 0 <= i < path.len() - 1
            ==> goes_to(rom, org as int, path[i], path[i + 1]),
    decreases k,
{
    let entry = trace::entry_of(rom, org, e);
    if entry((org + off) as u16) {
        seq![off]
    } else {
        let p = choose|p: int| trace::reached(rom, org, entry, p, (k - 1) as nat)
            && #[trigger] trace::leads(rom, org, p, off);
        let before = lemma_path(rom, org, e, p, (k - 1) as nat);
        law_control_flow(rom, org, p, off);
        let path = before.push(off);
        assert forall|i: int| #![trigger path[i]] 0 <= i < path.len() - 1 implies
            goes_to(rom, org as int, path[i], path[i + 1]) by {
            if i < before.len() - 1 {
                assert(path[i] == before[i] && path[i + 1] == before[i + 1]);
            }
        }
        path
    }
}

/// The entry points: what the words at $FFFA, $FFFC and $FFFE point at, the single
/// addresses, the words of the pointer tables, and the slots of the code tables as
/// far as they are in the image.
pub proof fn law_entry_points(rom: Seq<u8>, org: u16, e: Entries, a: u16)
    requires
        org + rom.len() <= 0x1_0000,
        // No table runs round the end of memory.
        forall|i: int| 0 <= i < e.tables.len() ==>
            (#[trigger] e.tables[i]).0 + 2 * e.tables[i].1 <= 0x1_0000,
        forall|i: int| 0 <= i < e.code_tables.len() ==>
            (#[trigger] e.code_tables[i]).0 + e.code_tables[i].1 * e.code_tables[i].2 <= 0x1_0000,
    ensures
        trace::is_entry(rom, org, e, a) == ({
            ||| points_at(rom, org as int, 0xFFFA, a as int)
            ||| points_at(rom, org as int, 0xFFFC, a as int)
            ||| points_at(rom, org as int, 0xFFFE, a as int)
            ||| e.extra.contains(a)
            ||| exists|i: int, k: int| #![trigger e.tables[i], word_of_table(e, i, k)]
                0 <= i < e.tables.len() && 0 <= k < e.tables[i].1
                && points_at(rom, org as int, word_of_table(e, i, k), a as int)
            ||| org <= a < org + rom.len() && exists|i: int, k: int|
                #![trigger e.code_tables[i], slot_of_table(e, i, k)]
                0 <= i < e.code_tables.len() && 0 <= k < e.code_tables[i].1
                && slot_of_table(e, i, k) == a
        }),
{
    assert(e.extra.contains(a) == exists|i: int| 0 <= i < e.extra.len()
        && #[trigger] e.extra[i] == a);
    assert forall|i: int, k: int| 0 <= i < e.tables.len() && 0 <= k < e.tables[i].1 implies
        #[trigger] trace::slot(e.tables[i].0, k, 2) == word_of_table(e, i, k) by {
        assert(e.tables[i].0 + 2 * e.tables[i].1 <= 0x1_0000);
    }
    assert forall|i: int, k: int| 0 <= i < e.code_tables.len() && 0 <= k < e.code_tables[i].1
        implies #[trigger] trace::slot(e.code_tables[i].0, k, e.code_tables[i].2)
            == slot_of_table(e, i, k) by {
        let (at, n, step) = e.code_tables[i];
        assert(at + n * step <= 0x1_0000);
        assert(0 <= k * step && k * step + step <= n * step) by (nonlinear_arith)
            requires
                0 <= k < n,
                0 <= step,
        ;
        assert(step == 0 ==> k * step == 0) by (nonlinear_arith);
    }
    lemma_table_entries(rom, org, e, a);
}

/// The word at an address of the image is another address.
pub open spec fn points_at(rom: Seq<u8>, org: int, at: int, a: int) -> bool {
    &&& org <= at && at + 1 < org + rom.len()
    &&& rom[at - org] + 256 * rom[at - org + 1] == a
}

/// Where word `k` of a pointer table is.
pub open spec fn word_of_table(e: Entries, i: int, k: int) -> int {
    e.tables[i].0 + 2 * k
}

/// Where slot `k` of a code table is.
pub open spec fn slot_of_table(e: Entries, i: int, k: int) -> int {
    e.code_tables[i].0 + k * e.code_tables[i].2
}

proof fn lemma_table_entries(rom: Seq<u8>, org: u16, e: Entries, a: u16)
    requires
        org + rom.len() <= 0x1_0000,
        forall|i: int, k: int| 0 <= i < e.tables.len() && 0 <= k < e.tables[i].1
            ==> #[trigger] trace::slot(e.tables[i].0, k, 2) == word_of_table(e, i, k),
        forall|i: int, k: int| 0 <= i < e.code_tables.len() && 0 <= k < e.code_tables[i].1
            ==> #[trigger] trace::slot(e.code_tables[i].0, k, e.code_tables[i].2)
                == slot_of_table(e, i, k),
    ensures
        (exists|i: int| 0 <= i < e.tables.len()
            && trace::in_table(rom, org, #[trigger] e.tables[i], e.tables[i].1 as int, a))
            == (exists|i: int, k: int| #![trigger e.tables[i], word_of_table(e, i, k)]
                0 <= i < e.tables.len() && 0 <= k < e.tables[i].1
                && points_at(rom, org as int, word_of_table(e, i, k), a as int)),
        (exists|i: int| 0 <= i < e.code_tables.len()
            && trace::in_code_table(
                rom, org, #[trigger] e.code_tables[i], e.code_tables[i].1 as int, a))
            == (org <= a < org + rom.len() && exists|i: int, k: int|
                #![trigger e.code_tables[i], slot_of_table(e, i, k)]
                0 <= i < e.code_tables.len() && 0 <= k < e.code_tables[i].1
                && slot_of_table(e, i, k) == a),
{
    if exists|i: int| 0 <= i < e.tables.len()
        && trace::in_table(rom, org, #[trigger] e.tables[i], e.tables[i].1 as int, a) {
        let i = choose|i: int| 0 <= i < e.tables.len()
            && trace::in_table(rom, org, #[trigger] e.tables[i], e.tables[i].1 as int, a);
        let k = choose|k: int| 0 <= k < e.tables[i].1 && disasm::image_word(
            rom, org, #[trigger] trace::slot(e.tables[i].0, k, 2)) == Some(a);
        assert(points_at(rom, org as int, word_of_table(e, i, k), a as int));
    }
    if exists|i: int, k: int| #![trigger e.tables[i], word_of_table(e, i, k)]
        0 <= i < e.tables.len() && 0 <= k < e.tables[i].1
        && points_at(rom, org as int, word_of_table(e, i, k), a as int) {
        let (i, k) = choose|i: int, k: int| #![trigger e.tables[i], word_of_table(e, i, k)]
            0 <= i < e.tables.len() && 0 <= k < e.tables[i].1
            && points_at(rom, org as int, word_of_table(e, i, k), a as int);
        assert(trace::slot(e.tables[i].0, k, 2) == word_of_table(e, i, k));
        assert(disasm::image_word(rom, org, trace::slot(e.tables[i].0, k, 2)) == Some(a));
        assert(trace::in_table(rom, org, e.tables[i], e.tables[i].1 as int, a));
    }
    if exists|i: int| 0 <= i < e.code_tables.len() && trace::in_code_table(
        rom, org, #[trigger] e.code_tables[i], e.code_tables[i].1 as int, a) {
        let i = choose|i: int| 0 <= i < e.code_tables.len() && trace::in_code_table(
            rom, org, #[trigger] e.code_tables[i], e.code_tables[i].1 as int, a);
        let k = choose|k: int| 0 <= k < e.code_tables[i].1
            && #[trigger] trace::slot(e.code_tables[i].0, k, e.code_tables[i].2) == a;
        assert(slot_of_table(e, i, k) == a);
    }
    if org <= a < org + rom.len() && exists|i: int, k: int|
        #![trigger e.code_tables[i], slot_of_table(e, i, k)]
        0 <= i < e.code_tables.len() && 0 <= k < e.code_tables[i].1
        && slot_of_table(e, i, k) == a {
        let (i, k) = choose|i: int, k: int| #![trigger e.code_tables[i], slot_of_table(e, i, k)]
            0 <= i < e.code_tables.len() && 0 <= k < e.code_tables[i].1
            && slot_of_table(e, i, k) == a;
        assert(trace::slot(e.code_tables[i].0, k, e.code_tables[i].2) == a);
        assert(trace::in_code_table(rom, org, e.code_tables[i], e.code_tables[i].1 as int, a));
    }
}

} // verus!
