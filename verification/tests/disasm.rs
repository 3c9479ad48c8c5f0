//! The two disassemblers.

use c64research::disasm::trace::disassemble_trace;
use c64research::disasm::{
    branch_target, disassemble_linear, format_operand, hex_bytes, image_fits, parse_code_table,
    parse_table, parse_u16, print_vectors, read_word,
};
use c64research::mos6502::AddrMode;

/// A program at the top of memory, with its vectors.
const IMAGE: [u8; 16] = [
    0x20, 0xF8, 0xFF, // FFF0  JSR $FFF8
    0xD0, 0xFB, // FFF3  BNE $FFF0
    0x4C, 0xF0, 0xFF, // FFF5  JMP $FFF0
    0xE8, // FFF8  INX
    0x60, // FFF9  RTS
    0xF8, 0xFF, 0xF0, 0xFF, 0x00, 0x00,
];

#[test]
fn traces_code_and_leaves_the_rest_as_data() {
    let r = disassemble_trace(&IMAGE, 0xFFF0, &[], &[], &[]);
    assert_eq!(
        r.lines,
        [
            "; tracing disassembly from reset/IRQ/NMI vectors",
            "",
            "; entry points: NMI=$FFF8 RESET=$FFF0 IRQ=$0000",
            "",
            "        * = $FFF0",
            "",
            "",
            "LFFF0:",
            "FFF0:  20 F8 FF  JSR  LFFF8",
            "FFF3:  D0 FB     BNE  LFFF0",
            "FFF5:  4C F0 FF  JMP  LFFF0",
            "",
            "LFFF8:",
            "FFF8:  E8        INX  ",
            "FFF9:  60        RTS  ",
            "FFFA:  F8 FF F0 FF 00 00  .byte $F8,$FF,$F0,$FF,$00,$00      ; ......",
        ]
    );
    assert_eq!(r.instructions, 5);
    assert_eq!(r.code_bytes, 10);
    assert_eq!(r.data_bytes, 6);
    assert_eq!(r.labels, 2);
}

/// Every byte is either code or data, whatever the entry points.
#[test]
fn every_byte_is_counted_once() {
    let r = disassemble_trace(&IMAGE, 0x1000, &[0x1008], &[], &[]);
    assert_eq!(r.instructions, 2);
    assert_eq!(r.code_bytes, 2);
    assert_eq!(r.code_bytes + r.data_bytes, IMAGE.len());
    assert_eq!(r.lines[2], "; entry points: USER=$1008");
}

#[test]
fn tables_seed_entry_points() {
    // A pointer table at $2000 with one word, and the routine it points at.
    let rom = [0x03, 0x20, 0xFF, 0x60];
    let r = disassemble_trace(&rom, 0x2000, &[], &[(0x2000, 1)], &[]);
    assert_eq!(r.lines[2], "; entry points: TABLE=$2000x1");
    assert_eq!(r.instructions, 1);
    assert!(r.lines.contains(&"2003:  60        RTS  ".to_string()));

    // A jump table: the slots themselves are code.
    let jumps = [0x4C, 0x06, 0x20, 0x4C, 0x07, 0x20, 0xEA, 0x60];
    let r = disassemble_trace(&jumps, 0x2000, &[], &[], &[(0x2000, 2, 3)]);
    assert_eq!(r.lines[2], "; entry points: CODETBL=$2000x2/3");
    assert_eq!(r.instructions, 4);
    assert_eq!(r.data_bytes, 0);
    assert_eq!(r.labels, 4);
}

/// An indirect jump through a pointer in the image is followed, with the 6502's
/// page wrap.
#[test]
fn indirect_jumps_wrap_within_the_page() {
    let mut rom = vec![0xFFu8; 0x200];
    rom[0x00] = 0x6C; // JMP ($10FF)
    rom[0x01] = 0xFF;
    rom[0x02] = 0x10;
    rom[0xFF] = 0x80; // low byte of the target at $10FF
    // The high byte comes from $1000, which holds the opcode $6C.
    let r = disassemble_trace(&rom, 0x1000, &[0x1000], &[], &[]);
    assert_eq!(r.instructions, 1);
    // The label at $6C80 lies outside the image.
    assert_eq!(r.labels, 1);
}

#[test]
fn data_runs_break_at_eight_bytes() {
    let r = disassemble_trace(b"HELLO WORLD", 0x3000, &[], &[], &[]);
    assert_eq!(
        r.lines[6],
        "3000:  48 45 4C 4C 4F 20 57 4F  .byte $48,$45,$4C,$4C,$4F,$20,$57,$4F ; HELLO WO"
    );
    assert_eq!(r.lines[7], "3008:  52 4C 44  .byte $52,$4C,$44                  ; RLD");
    assert_eq!(r.instructions, 0);
}

#[test]
fn sweeps_linearly() {
    assert_eq!(
        disassemble_linear(&[0xA9, 0x01, 0x02, 0x8D, 0x20], 0xC000),
        [
            "C000:  A9 01     LDA  #$01",
            "C002:  02        .byte $02",
            "C003:  8D 20     .byte $8D",
            "C004:  20        .byte $20",
        ]
    );
    assert!(disassemble_linear(&[], 0xC000).is_empty());
}

#[test]
fn shows_the_vectors() {
    assert_eq!(
        print_vectors(&IMAGE, 0xFFF0),
        [
            "; NMI     @ $FFFA -> $FFF8",
            "; RESET   @ $FFFC -> $FFF0",
            "; IRQ/BRK @ $FFFE -> $0000",
        ]
    );
    assert_eq!(print_vectors(&IMAGE, 0x1000)[0], "; NMI     @ $FFFA -> (outside image)");
}

#[test]
fn formats_every_operand() {
    let f = |mode| format_operand(mode, 0x1000, &[0, 0x34, 0x12]);
    assert_eq!(f(AddrMode::Imp), "");
    assert_eq!(f(AddrMode::Ill), "");
    assert_eq!(f(AddrMode::Acc), "A");
    assert_eq!(f(AddrMode::Imm), "#$34");
    assert_eq!(f(AddrMode::Zp), "$34");
    assert_eq!(f(AddrMode::Zpx), "$34,X");
    assert_eq!(f(AddrMode::Zpy), "$34,Y");
    assert_eq!(f(AddrMode::Abs), "$1234");
    assert_eq!(f(AddrMode::Abx), "$1234,X");
    assert_eq!(f(AddrMode::Aby), "$1234,Y");
    assert_eq!(f(AddrMode::Ind), "($1234)");
    assert_eq!(f(AddrMode::Izx), "($34,X)");
    assert_eq!(f(AddrMode::Izy), "($34),Y");
    assert_eq!(f(AddrMode::Rel), "$1036");
    // Missing bytes read as zero.
    assert_eq!(format_operand(AddrMode::Abs, 0, &[0x4C]), "$0000");
}

#[test]
fn branches_go_both_ways_and_wrap() {
    assert_eq!(branch_target(0x1000, 0x7F), 0x1081);
    assert_eq!(branch_target(0x1000, 0xFE), 0x1000);
    assert_eq!(branch_target(0xFFFE, 0x00), 0x0000);
    assert_eq!(branch_target(0x0000, 0x80), 0xFF82);
}

#[test]
fn reads_words_inside_the_image_only() {
    assert_eq!(read_word(&IMAGE, 0xFFF0, 0xFFFC), Some(0xFFF0));
    assert_eq!(read_word(&IMAGE, 0xFFF0, 0xFFEF), None);
    assert_eq!(read_word(&IMAGE, 0xFFF0, 0xFFFF), None);
}

#[test]
fn bytes_are_written_in_hex() {
    assert_eq!(hex_bytes(&[0x00, 0xAB, 0x7F]), "00 AB 7F");
    assert_eq!(hex_bytes(&[]), "");
}

#[test]
fn an_image_must_fit_in_memory() {
    assert!(image_fits(0x4000, 0xC000));
    assert!(!image_fits(0x4001, 0xC000));
    assert!(image_fits(0x10000, 0));
    assert!(!image_fits(0x10001, 0));
}

#[test]
fn parses_numbers() {
    assert_eq!(parse_u16("0xC000"), Some(0xC000));
    assert_eq!(parse_u16("0Xc000"), Some(0xC000));
    assert_eq!(parse_u16("$FFFF"), Some(0xFFFF));
    assert_eq!(parse_u16(" 42 "), Some(42));
    assert_eq!(parse_u16("+7"), Some(7));
    assert_eq!(parse_u16("65536"), None);
    assert_eq!(parse_u16("$10000"), None);
    assert_eq!(parse_u16(""), None);
    assert_eq!(parse_u16("0x"), None);
    assert_eq!(parse_u16("-1"), None);
    assert_eq!(parse_u16("C000"), None);
}

#[test]
fn parses_tables() {
    assert_eq!(parse_table("0xFF54:16"), Some((0xFF54, 16)));
    assert_eq!(parse_table("0xFF54"), None);
    assert_eq!(parse_table("0xFF54:16:3"), None);
    assert_eq!(parse_code_table("0xFF81:36"), Some((0xFF81, 36, 3)));
    assert_eq!(parse_code_table("0xFF81:36:2"), Some((0xFF81, 36, 2)));
    assert_eq!(parse_code_table("0xFF81:36:2:junk"), Some((0xFF81, 36, 2)));
    assert_eq!(parse_code_table("0xFF81"), None);
    assert_eq!(parse_code_table("0xFF81:x"), None);
    assert_eq!(parse_code_table("0xFF81:1:"), None);
}
