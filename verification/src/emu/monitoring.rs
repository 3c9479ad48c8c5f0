//! What the monitor says, and what a frame of the emulator consists of.

use vstd::prelude::*;
use crate::bits::{bit_of, lemma_digits, lemma_tests};
use crate::c64::machine::{self, Showing, C64};
use crate::c64::memory;
use crate::c64::Board;
use crate::emu::debug;
use crate::emu::frame::{self, Film};
use crate::emu::status;
use crate::emu::{self, Setup};
use crate::mos6502::Cpu;
use crate::vic2::picture;
use crate::{c64, cia6526, disasm, sid, text, vic2};

verus! {

// ---- words ----

/// A flag is a capital while it is set and a small letter while it is not.
pub proof fn law_flags(p: Cpu)
    ensures
        ({
            let t = status::flags_text(p);
            &&& t.len() == 6
            &&& t[0] == (if p.n { 'N' } else { 'n' }) && t[1] == (if p.v { 'V' } else { 'v' })
            &&& t[2] == (if p.d { 'D' } else { 'd' }) && t[3] == (if p.i { 'I' } else { 'i' })
            &&& t[4] == (if p.z { 'Z' } else { 'z' }) && t[5] == (if p.c { 'C' } else { 'c' })
        }),
{
}

/// The display mode: bit 5 of $D011 makes a bitmap, bit 4 of $D016 several colours,
/// and bit 6 of $D011 more backgrounds where it is plain text.
pub proof fn law_mode_names(regs: Seq<u8>)
    ensures
        ({
            let (bitmap, multi) = (bit_of(regs[0x11], 5), bit_of(regs[0x16], 4));
            let t = status::mode_text(regs);
            &&& bitmap && multi ==> t == "MC-BITMAP"@
            &&& bitmap && !multi ==> t == "BITMAP"@
            &&& !bitmap && multi ==> t == "MC-TEXT"@
            &&& !bitmap && !multi && bit_of(regs[0x11], 6) ==> t == "ECM-TEXT"@
            &&& !bitmap && !multi && !bit_of(regs[0x11], 6) ==> t == "TEXT"@
        }),
{
    lemma_tests(regs[0x11]);
    lemma_tests(regs[0x16]);
}

/// The banking, by the lines of the 6510's port.
pub proof fn law_banking_names(b: Board)
    requires
        b.cart is None,
    ensures
        ({
            let (lo, hi, io) = (memory::line(b, 0), memory::line(b, 1), memory::line(b, 2));
            status::banking_text(b) == "A000:"@ + (if lo && hi { "BASIC"@ } else { "RAM"@ })
                + "  D000:"@ + (if !lo && !hi { "RAM"@ } else if io { "I/O"@ } else { "CHAR"@ })
                + "  E000:"@ + (if hi { "KERNAL"@ } else { "RAM"@ })
        }),
{
    memory::law_lines(b);
}

/// Who asks for an interrupt: the VIC comes first.
pub proof fn law_interrupt_names(m: C64)
    ensures
        vic2::asserts_irq(m.board.vic) ==> status::irq_source(m) == "VIC"@,
        !vic2::asserts_irq(m.board.vic) && cia6526::asserts_irq(m.board.cia1)
            ==> status::irq_source(m) == "CIA1"@,
        !vic2::asserts_irq(m.board.vic) && !cia6526::asserts_irq(m.board.cia1)
            ==> status::irq_source(m) == "-"@,
{
}

/// A joystick's letters: a switch shows while it is closed, which is a low bit.
pub proof fn law_joystick_names(j: u8)
    ensures
        status::joystick_text(j) == (if bit_of(j, 0) { "."@ } else { "U"@ }) + " "@
            + (if bit_of(j, 1) { "."@ } else { "D"@ }) + " "@
            + (if bit_of(j, 2) { "."@ } else { "L"@ }) + " "@
            + (if bit_of(j, 3) { "."@ } else { "R"@ }) + "  FIRE:"@
            + (if bit_of(j, 4) { "no "@ } else { "YES"@ }),
{
    lemma_tests(j);
}

/// The recorder: its motor is bit 5 of the port and its key bit 4.
pub proof fn law_tape_names(p: u8)
    ensures
        status::tape_text(p) == "motor:"@ + text::decimal(if bit_of(p, 5) { 1 } else { 0 })
            + " sense:"@ + text::decimal(if bit_of(p, 4) { 1 } else { 0 })
            + " (no datasette)"@,
{
    lemma_digits(p);
}

// ---- pixels ----

/// A pixel of a text is lit where its character has a one: the leftmost pixel is bit 7.
pub proof fn law_text_pixels(
    fb: Seq<u32>, cg: Seq<u8>, col: int, row: int, bytes: Seq<u8>, color: u32, i: int, x: int, y: int,
)
    requires
        fb.len() == 320 * 200,
        0 <= i < bytes.len(),
        0 <= col,
        col + i < 40,
        0 <= row < 25,
        0 <= x < 8,
        0 <= y < 8,
    ensures
        ({
            let at = 320 * (8 * row + y) + 8 * (col + i) + x;
            let bits = cg[8 * status::code_of(bytes[i]) + y];
            status::drawn(fb, cg, col, row, bytes, color)[at]
                == (if bit_of(bits, (7 - x) as u8) { color } else { fb[at] })
        }),
{
    let at = 320 * (8 * row + y) + 8 * (col + i) + x;
    let bits = cg[8 * status::code_of(bytes[i]) + y];
    assert(at % 320 == 8 * (col + i) + x && at / 320 == 8 * row + y);
    assert((8 * (col + i) + x) / 8 == col + i && (8 * (col + i) + x) % 8 == x);
    assert((8 * row + y) / 8 == row && (8 * row + y) % 8 == y);
    lemma_dots(bits, x);
}

proof fn lemma_dots(bits: u8, x: int)
    requires
        0 <= x < 8,
    ensures
        status::dot(bits, x) == bit_of(bits, (7 - x) as u8),
    decreases x,
{
    if x > 0 {
        let next = (2 * (bits % 128)) as u8;
        lemma_dots(next, x - 1);
        lemma_doubled(bits, (7 - x) as u8);
    } else {
        lemma_doubled(bits, 0);
    }
}

/// Doubling moves every bit up by one.
proof fn lemma_doubled(bits: u8, k: u8)
    by (bit_vector)
    requires
        k < 7,
    ensures
        bit_of((2 * (bits % 128)) as u8, (k + 1) as u8) == bit_of(bits, k),
        bit_of(bits, 7) == (bits >= 128),
{
}

/// Outside its cells a text changes nothing.
pub proof fn law_text_stays_in_its_cells(
    fb: Seq<u32>, cg: Seq<u8>, col: int, row: int, bytes: Seq<u8>, color: u32, at: int,
)
    requires
        fb.len() == 320 * 200,
        0 <= at < 320 * 200,
        at / 320 / 8 != row || at % 320 / 8 < col || at % 320 / 8 >= col + bytes.len(),
    ensures
        status::drawn(fb, cg, col, row, bytes, color)[at] == fb[at],
{
}

// ---- frames ----

/// A beat: the line under the beam is drawn, if it is on the picture and was not drawn
/// in this frame, from the machine as it is then, and then the machine steps.
pub proof fn law_beat(s: Showing)
    requires
        s.drawn.len() == 200,
    ensures
        ({
            let y = s.m.board.vic.raster as int;
            let scene = machine::board_scene(s.m.board);
            let b = machine::beat(s);
            &&& y < 200 && !s.drawn[y] ==> {
                &&& b.drawn == s.drawn.update(y, true)
                &&& b.fb == picture::line_drawn(s.fb, scene, y)
                &&& b.m == machine::stepped(C64 {
                    board: Board {
                        vic: picture::collisions_noted(
                            s.m.board.vic, picture::sprite_hits(scene, y),
                            picture::background_hits(scene, y)),
                        ..s.m.board
                    },
                    ..s.m
                }).0
            }
            &&& y >= 200 || s.drawn[y] ==> b.drawn == s.drawn && b.fb == s.fb
                && b.m == machine::stepped(s.m).0
        }),
{
    reveal(machine::beat);
}

/// The emulator's beat is the machine's, with the drive beside it; the sound is what
/// the SID puts out behind the instruction, for as many cycles as it took.
pub proof fn law_film_beat(f: Film)
    requires
        f.drawn.len() == 200,
    ensures
        ({
            let s = Showing { m: f.setup.c64, fb: f.fb, drawn: f.drawn };
            let y = s.m.board.vic.raster as int;
            let p = if y < 200 && !s.drawn[y] { machine::drawn_line(s, y) } else { s };
            let t = emu::setup_stepped(Setup { c64: p.m, drive: f.setup.drive });
            let chip = t.c64.board.sid;
            let b = frame::beat(f);
            &&& b.setup == t && b.fb == p.fb && b.drawn == p.drawn
            &&& b.sound.len() == f.sound.len() + 1
            &&& b.sound.take(f.sound.len() as int) == f.sound
            &&& b.sound.last().0 == machine::stepped(p.m).1
            &&& b.sound.last().1 == ((sid::voice_level(chip.voices[0])
                + sid::voice_level(chip.voices[1]) + sid::voice_level(chip.voices[2]))
                * chip.volume) as i32
        }),
{
    reveal(frame::beat);
    reveal(frame::heard);
    assert(frame::beat(f).sound.take(f.sound.len() as int) =~= f.sound);
}

// ---- the debugger ----

/// What a dump reads is what the processor would, byte by byte and round the end of
/// memory; while no I/O is banked in, reading changes nothing.
pub proof fn law_dumps_read_memory(m: C64, addr: u16, n: nat, k: int)
    requires
        !c64::io_visible(m.board),
        0 <= k < n,
    ensures
        debug::bytes_read(m, addr, n).m == m,
        debug::bytes_read(m, addr, n).bytes.len() == n,
        debug::bytes_read(m, addr, n).bytes[k]
            == c64::value_at(m.board, ((addr + k) % 0x1_0000) as u16),
    decreases n,
{
    if n == 1 {
        assert(debug::bytes_read(m, addr, 0).m == m);
        assert(debug::peeked(m, addr) == m);
    } else {
        if k < n - 1 {
            law_dumps_read_memory(m, addr, (n - 1) as nat, k);
        } else {
            law_dumps_read_memory(m, addr, (n - 1) as nat, 0);
        }
        let a = ((addr + n - 1) % 0x1_0000) as u16;
        assert(debug::peeked(m, a) == m);
    }
}

/// Sampling: each of the addresses at which the first `n` instructions start is noted,
/// and none lies outside the two bounds.
pub proof fn law_sampling(m: C64, n: nat, k: nat)
    requires
        k < n,
    ensures
        ({
            let pc = debug::steps_of(m, k).cpu.pc;
            &&& debug::sampled(m, n).contains(pc)
            &&& debug::lowest(m, n) <= pc <= debug::highest(m, n)
        }),
    decreases n,
{
    if k < n - 1 {
        law_sampling(m, (n - 1) as nat, k);
    }
}

/// Nothing else is noted, and the bounds are among what is.
pub proof fn law_sampled_addresses_occur(m: C64, n: nat, pc: u16) -> (k: nat)
    requires
        debug::sampled(m, n).contains(pc),
    ensures
        k < n,
        debug::steps_of(m, k).cpu.pc == pc,
    decreases n,
{
    if debug::steps_of(m, (n - 1) as nat).cpu.pc == pc {
        (n - 1) as nat
    } else {
        law_sampled_addresses_occur(m, (n - 1) as nat, pc)
    }
}

/// `stuck` looks at 200000 instructions, and finds a loop where they have fewer than 500
/// addresses.
pub proof fn law_stuck(m: C64)
    ensures
        ({
            let (after, said) = debug::stuck_answer(m);
            let n = debug::sampled(m, 200_000).len();
            &&& after == debug::steps_of(m, 200_000)
            &&& said == "PC over 200k steps: "@ + text::decimal(n) + " distinct in $"@
                + text::hex(debug::lowest(m, 200_000) as nat, 4) + "..$"@
                + text::hex(debug::highest(m, 200_000) as nat, 4) + "  "@
                + (if n < 500 { "<< LOOPING (try 'dis' at the low address)"@ }
                    else { "(running freely)"@ })
        }),
{
}

/// The commands: memory is dumped from 0 and 64 bytes of it unless told otherwise,
/// disassembly goes from the program counter for 16 instructions, and a byte is poked
/// into RAM.
pub proof fn law_debugger_commands(m: C64, w: Seq<Seq<char>>)
    requires
        w.len() > 0,
    ensures
        ({
            let a = debug::answer_words(m, w);
            let given = |k: int| if k < w.len() { debug::number_given(w[k]) } else { None };
            let (x, y) = (given(1), given(2));
            &&& w[0] == "mem"@ || w[0] == "m"@ ==> a == debug::dumped(
                m, if x is Some { x->0 } else { 0 }, if y is Some { y->0 as nat } else { 64 })
            &&& w[0] == "dis"@ || w[0] == "d"@
                ==> a == debug::disassembled(m, if x is Some { x->0 } else { m.cpu.pc }, 16)
            &&& w[0] == "poke"@ && x is Some && y is Some ==> {
                &&& a.0.board.ram@ == m.board.ram@.update(x->0 as int, (y->0 % 256) as u8)
                &&& a.0 == (C64 { board: Board { ram: a.0.board.ram, ..m.board }, ..m })
            }
            &&& w[0] == "poke"@ && (x is None || y is None) ==> a.0 == m
        }),
{
    lemma_names();
    assert(w[0].len() >= 0);
}

/// No two commands with arguments go by the same name, nor by that of another.
proof fn lemma_names()
    ensures
        forall|s: Seq<char>| #![trigger s.len()] s == "mem"@ || s == "m"@ || s == "dis"@ || s == "d"@
            || s == "poke"@ ==> {
            &&& s != "help"@ && s != "?"@ && s != "cpu"@ && s != "r"@ && s != "vic"@ && s != "irq"@
            &&& s != "spr"@ && s != "sprites"@ && s != "bus"@ && s != "stuck"@
        },
        "dis"@ != "mem"@ && "dis"@ != "m"@ && "d"@ != "mem"@ && "d"@ != "m"@,
        "poke"@ != "mem"@ && "poke"@ != "m"@ && "poke"@ != "dis"@ && "poke"@ != "d"@,
{
    reveal_strlit("help");
    reveal_strlit("?");
    reveal_strlit("cpu");
    reveal_strlit("r");
    reveal_strlit("vic");
    reveal_strlit("irq");
    reveal_strlit("spr");
    reveal_strlit("sprites");
    reveal_strlit("bus");
    reveal_strlit("stuck");
    reveal_strlit("mem");
    reveal_strlit("m");
    reveal_strlit("dis");
    reveal_strlit("d");
    reveal_strlit("poke");
    assert("mem"@[0] == 'm' && "m"@[0] == 'm' && "dis"@[0] == 'd' && "d"@[0] == 'd');
    assert("poke"@[0] == 'p' && "help"@[0] == 'h' && "?"@[0] == '?' && "cpu"@[0] == 'c');
    assert("r"@[0] == 'r' && "vic"@[0] == 'v' && "irq"@[0] == 'i' && "spr"@[0] == 's');
    assert("sprites"@[0] == 's' && "bus"@[0] == 'b' && "stuck"@[0] == 's');
}

/// A disassembly goes on behind each instruction, round the end of memory.
pub proof fn law_disassembly_goes_on(m: C64, addr: u16, n: nat)
    requires
        !c64::io_visible(m.board),
        n > 0,
    ensures
        ({
            let o = c64::value_at(m.board, addr);
            let next = ((addr + disasm::flow::bytes_of(o)) % 0x1_0000) as u16;
            let line = debug::dis_line(m.cpu.pc, addr, debug::bytes_read(m, addr, 3).bytes);
            &&& debug::disassembled(m, addr, n).1
                == line + debug::disassembled(m, next, (n - 1) as nat).1
            &&& debug::disassembled(m, addr, n).0 == debug::disassembled(m, next, (n - 1) as nat).0
        }),
{
    law_dumps_read_memory(m, addr, 3, 0);
    disasm::flow::law_lengths(c64::value_at(m.board, addr));
}

} // verus!
