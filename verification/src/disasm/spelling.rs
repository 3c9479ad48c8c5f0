//! How an instruction is written down, read off its opcode byte.

use vstd::prelude::*;
use crate::disasm::trace;
use crate::{disasm, mos6502, text};

verus! {

/// The written name of an opcode.
pub open spec fn name(o: u8) -> Seq<char> {
    mos6502::mnemonic_name(mos6502::opcode_mnemonic(o))
}

/// The written operand of an opcode at an address.
pub open spec fn operand(o: u8, addr: u16, lo: u8, hi: u8) -> Seq<char> {
    disasm::operand_text(mos6502::opcode_mode(o), addr, lo, hi)
}

/// Names by column: the upper three bits of an opcode choose among eight.
pub proof fn law_names(o: u8)
    ensures
        ({
            let row = o as int / 32;
            &&& o % 4 == 1 && o != 0x89 ==> name(o)
                == seq!["ORA"@, "AND"@, "EOR"@, "ADC"@, "STA"@, "LDA"@, "CMP"@, "SBC"@][row]
            &&& o % 4 == 3 && o % 8 != 3 && o != 0x9F ==> name(o)
                == seq!["SLO"@, "RLA"@, "SRE"@, "RRA"@, "SAX"@, "LAX"@, "DCP"@, "ISC"@][row]
            &&& o % 8 == 6 && o != 0x9E ==> name(o)
                == seq!["ASL"@, "ROL"@, "LSR"@, "ROR"@, "STX"@, "LDX"@, "DEC"@, "INC"@][row]
            &&& o % 32 == 0x10 ==> name(o)
                == seq!["BPL"@, "BMI"@, "BVC"@, "BVS"@, "BCC"@, "BCS"@, "BNE"@, "BEQ"@][row]
            &&& o % 32 == 0x18 ==> name(o)
                == seq!["CLC"@, "SEC"@, "CLI"@, "SEI"@, "TYA"@, "CLV"@, "CLD"@, "SED"@][row]
            &&& o % 32 == 0x08 ==> name(o)
                == seq!["PHP"@, "PLP"@, "PHA"@, "PLA"@, "DEY"@, "TAY"@, "INY"@, "INX"@][row]
            &&& o % 32 == 0x0A ==> name(o)
                == seq!["ASL"@, "ROL"@, "LSR"@, "ROR"@, "TXA"@, "TAX"@, "DEX"@, "NOP"@][row]
            &&& o % 32 == 0x0C ==> name(o)
                == seq!["NOP"@, "BIT"@, "JMP"@, "JMP"@, "STY"@, "LDY"@, "CPY"@, "CPX"@][row]
            &&& o % 32 == 0x00 ==> name(o)
                == seq!["BRK"@, "JSR"@, "RTI"@, "RTS"@, "NOP"@, "LDY"@, "CPY"@, "CPX"@][row]
            &&& o == 0x24 ==> name(o) == "BIT"@
            &&& o == 0x84 || o == 0x94 ==> name(o) == "STY"@
            &&& o == 0xA4 || o == 0xB4 || o == 0xBC ==> name(o) == "LDY"@
            &&& o == 0xC4 ==> name(o) == "CPY"@
            &&& o == 0xE4 ==> name(o) == "CPX"@
            &&& o == 0xA2 ==> name(o) == "LDX"@
            &&& o == 0x9A ==> name(o) == "TXS"@
            &&& o == 0xBA ==> name(o) == "TSX"@
        }),
{
    let row = o as int / 32;
    assert(row == 0 || row == 1 || row == 2 || row == 3 || row == 4 || row == 5 || row == 6
        || row == 7);
}

/// Operands by column: `#` is immediate, `(..,X)` and `(..),Y` go through zero page,
/// a branch is written as the address it goes to, and `A` is the accumulator.
pub proof fn law_operands(o: u8, addr: u16, lo: u8, hi: u8)
    ensures
        ({
            let col = o as int % 32;
            let t = operand(o, addr, lo, hi);
            let short = text::hex(lo as nat, 2);
            let long = text::hex((lo + 256 * hi) as nat, 4);
            let by_y = o == 0x96 || o == 0xB6 || o == 0x97 || o == 0xB7 || o == 0x9E || o == 0xBE
                || o == 0x9F || o == 0xBF;
            let index = if by_y { 'Y' } else { 'X' };
            &&& col == 0x01 || col == 0x03 ==> t == seq!['(', '$'] + short + seq![',', 'X', ')']
            &&& col == 0x11 || col == 0x13 ==> t == seq!['(', '$'] + short + seq![')', ',', 'Y']
            &&& col == 0x09 || col == 0x0B || o >= 0x80 && col == 0
                || o == 0x82 || o == 0xA2 || o == 0xC2 || o == 0xE2 ==> t == seq!['#', '$'] + short
            &&& 0x04 <= col <= 0x07 ==> t == seq!['$'] + short
            &&& 0x14 <= col <= 0x17 ==> t == seq!['$'] + short + seq![',', index]
            &&& 0x1C <= col <= 0x1F ==> t == seq!['$'] + long + seq![',', index]
            &&& col == 0x19 || col == 0x1B ==> t == seq!['$'] + long + seq![',', 'Y']
            &&& 0x0C <= col <= 0x0F && o != 0x6C || o == 0x20 ==> t == seq!['$'] + long
            &&& o == 0x6C ==> t == seq!['(', '$'] + long + seq![')']
            &&& col == 0x10 ==> t == seq!['$'] + text::hex(
                ((addr + 2 + (if lo < 128 { lo as int } else { lo - 256 })) % 0x1_0000) as nat, 4)
            &&& o < 0x80 && col == 0x0A ==> t == seq!['A']
            &&& col == 0x08 || col == 0x18 || col == 0x1A || o >= 0x80 && col == 0x0A
                || o == 0x00 || o == 0x40 || o == 0x60 ==> t.len() == 0
        }),
{
    lemma_marks();
    let t = operand(o, addr, lo, hi);
    let short = text::hex(lo as nat, 2);
    let long = text::hex((lo + 256 * hi) as nat, 4);
    assert(seq!['('] + (seq!['$'] + short) =~= seq!['(', '$'] + short);
    assert(seq!['('] + (seq!['$'] + long) =~= seq!['(', '$'] + long);
    assert(seq!['#'] + (seq!['$'] + short) =~= seq!['#', '$'] + short);
}

proof fn lemma_marks()
    ensures
        "$"@ == seq!['$'],
        "#"@ == seq!['#'],
        "A"@ == seq!['A'],
        "("@ == seq!['('],
        ")"@ == seq![')'],
        ",X"@ == seq![',', 'X'],
        ",Y"@ == seq![',', 'Y'],
        ",X)"@ == seq![',', 'X', ')'],
        "),Y"@ == seq![')', ',', 'Y'],
{
    reveal_strlit("$");
    reveal_strlit("#");
    reveal_strlit("A");
    reveal_strlit("(");
    reveal_strlit(")");
    reveal_strlit(",X");
    reveal_strlit(",Y");
    reveal_strlit(",X)");
    reveal_strlit("),Y");
    assert("$"@ =~= seq!['$']);
    assert("#"@ =~= seq!['#']);
    assert("A"@ =~= seq!['A']);
    assert("("@ =~= seq!['(']);
    assert(")"@ =~= seq![')']);
    assert(",X"@ =~= seq![',', 'X']);
    assert(",Y"@ =~= seq![',', 'Y']);
    assert(",X)"@ =~= seq![',', 'X', ')']);
    assert("),Y"@ =~= seq![')', ',', 'Y']);
}

/// A byte that is printable stands for itself in a dump, and any other is a dot.
pub proof fn law_dumped_characters(bytes: Seq<u8>, k: int)
    requires
        0 <= k < bytes.len(),
    ensures
        disasm::trace::printable(bytes).len() == bytes.len(),
        ' ' as int <= bytes[k] <= '~' as int
            ==> disasm::trace::printable(bytes)[k] as int == bytes[k],
        !(' ' as int <= bytes[k] <= '~' as int) ==> disasm::trace::printable(bytes)[k] == '.',
{
}

/// A listing goes through the image from front to back, instruction by instruction; what
/// is no whole instruction is a byte.
pub proof fn law_linear_listing(rom: Seq<u8>, org: u16, i: int)
    requires
        0 <= i < rom.len(),
    ensures
        ({
            let n = disasm::flow::bytes_of(rom[i]);
            let whole = !disasm::flow::stops(rom[i]) && i + n <= rom.len();
            disasm::linear_lines(rom, org, i) == seq![disasm::linear_line(rom, org, i)]
                + disasm::linear_lines(rom, org, i + if whole { n } else { 1 })
        }),
        disasm::linear_lines(rom, org, rom.len() as int) == Seq::<Seq<char>>::empty(),
{
    disasm::flow::law_lengths(rom[i]);
}

/// Addresses on the command line: decimal as they are, hexadecimal behind `$`, `0x` or
/// `0X`.
pub proof fn law_words_given(n: u16)
    ensures
        disasm::word_given(text::decimal(n as nat)) == Some(n),
        disasm::word_given(seq!['$'] + text::hex(n as nat, 4)) == Some(n),
        disasm::word_given(seq!['0', 'x'] + text::hex(n as nat, 4)) == Some(n),
        disasm::word_given(seq!['0', 'X'] + text::hex(n as nat, 4)) == Some(n),
{
    let h = text::hex(n as nat, 4);
    let d = text::decimal(n as nat);
    text::law_numbers_read_back(n);
    text::law_hex_stands_for_its_number(n as nat, 4);
    assert(text::digit_value(h.last()) < 16 && text::digit_value(d.last()) < 10);
    assert(text::digit_value(d[0]) < 10);
    if d.len() >= 2 {
        assert(text::digit_value(d[1]) < 10);
    }
    lemma_untrimmed(d);
    lemma_untrimmed(seq!['$'] + h);
    lemma_untrimmed(seq!['0', 'x'] + h);
    lemma_untrimmed(seq!['0', 'X'] + h);
    assert((seq!['$'] + h).skip(1) =~= h);
    assert((seq!['0', 'x'] + h).skip(2) =~= h);
    assert((seq!['0', 'X'] + h).skip(2) =~= h);
}

proof fn lemma_untrimmed(s: Seq<char>)
    requires
        s.len() > 0,
        !text::is_space_char(s[0]),
        !text::is_space_char(s.last()),
    ensures
        text::trimmed(s) == s,
{
}

/// Tables on the command line are an address and a count with a colon between; one of
/// code may have a stride behind another, which is three without.
pub proof fn law_tables_given(a: Seq<char>, b: Seq<char>, c: Seq<char>)
    requires
        forall|k: int| 0 <= k < a.len() ==> #[trigger] a[k] != ':',
        forall|k: int| 0 <= k < b.len() ==> #[trigger] b[k] != ':',
        forall|k: int| 0 <= k < c.len() ==> #[trigger] c[k] != ':',
    ensures
        ({
            let (x, y, z) = (disasm::word_given(a), disasm::word_given(b), disasm::word_given(c));
            let two = a.push(':') + b;
            &&& disasm::table_given(two)
                == (if x is Some && y is Some { Some((x->0, y->0)) } else { None })
            &&& disasm::table_given(a) is None
            &&& disasm::code_table_given(two)
                == (if x is Some && y is Some { Some((x->0, y->0, 3u16)) } else { None })
            &&& disasm::code_table_given(two.push(':') + c)
                == (if x is Some && y is Some && z is Some { Some((x->0, y->0, z->0)) } else { None })
            &&& disasm::code_table_given(a) is None
        }),
{
    let two = a.push(':') + b;
    let three = two.push(':') + c;
    let (m, n) = (a.len() as int, b.len() as int);
    lemma_colon(a, 0, m);
    lemma_colon(two, 0, m);
    lemma_colon(two, m + 1, m + 1 + n);
    lemma_colon(three, 0, m);
    lemma_colon(three, m + 1, m + 1 + n);
    lemma_colon(three, m + n + 2, m + n + 2 + c.len());
    assert(two.take(m) =~= a && two.skip(m + 1) =~= b);
    assert(two.subrange(0, m) =~= a);
    assert(two.subrange(m + 1, m + 1 + n) =~= b);
    assert(three.subrange(0, m) =~= a);
    assert(three.subrange(m + 1, m + 1 + n) =~= b);
    assert(three.subrange(m + n + 2, m + n + 2 + c.len()) =~= c);
}

proof fn lemma_colon(s: Seq<char>, from: int, to: int)
    requires
        0 <= from <= to <= s.len(),
        forall|k: int| from <= k < to ==> #[trigger] s[k] != ':',
        to < s.len() ==> s[to] == ':',
    ensures
        disasm::colon(s, from) == to,
    decreases to - from,
{
    if from < to {
        lemma_colon(s, from + 1, to);
    }
}

/// Labels: an address that is one has a blank line and its label in front, and where it
/// is the target of a branch, a jump or a call it goes by its label.
pub proof fn law_labels(rom: Seq<u8>, org: u16, f: trace::Found, off: int, addr: u16)
    requires
        0 <= off,
        off + 3 <= rom.len(),
        org + rom.len() <= 0x1_0000,
    ensures
        ({
            let (o, lo, hi) = (rom[off], rom[off + 1], rom[off + 2]);
            let t = trace::labeled_operand(rom, org, f, off);
            let called = |a: int| if f.labels[a] { "L"@ + text::hex(a as nat, 4) }
                else { "$"@ + text::hex(a as nat, 4) };
            &&& f.labels[addr as int] ==> trace::label_lines(f, addr)
                == seq![Seq::empty(), "L"@ + text::hex(addr as nat, 4) + ":"@]
            &&& !f.labels[addr as int] ==> trace::label_lines(f, addr).len() == 0
            &&& o == 0x4C || o == 0x20 ==> t == called(lo + 256 * hi)
            &&& o % 32 == 0x10 ==> t == called(
                (org + off + 2 + (if lo < 128 { lo as int } else { lo - 256 })) % 0x1_0000)
        }),
{
    disasm::flow::law_lengths(rom[off]);
}

/// Data is listed in runs that end before code and before a label, and have no more than
/// eight bytes.
pub proof fn law_data_runs(rom: Seq<u8>, org: u16, f: trace::Found, from: int, i: int, k: int)
    requires
        0 <= from < i <= from + 8,
        i <= rom.len(),
    ensures
        ({
            let end = trace::run_end(rom, org, f, from, i);
            &&& i <= end <= rom.len() && end <= from + 8
            &&& i <= k < end ==> !f.starts[k] && !f.labels[org + k]
            &&& end < rom.len() && end < from + 8 ==> f.starts[end] || f.labels[org + end]
        }),
    decreases rom.len() - i,
{
    if i < rom.len() && !f.starts[i] && !f.labels[org + i] && i - from < 8 {
        law_data_runs(rom, org, f, from, i + 1, k);
    }
}

} // verus!
