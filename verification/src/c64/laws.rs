//! What holds of the C64 as a whole: banking, memory, keyboard and joysticks.

use vstd::prelude::*;
use crate::c64::machine;
use crate::c64::{Board, CartKind};
use crate::mos6502::Bus;
use crate::{c64, cia6526, iec};

verus! {

/// The bit facts behind banking, keyboard and joysticks.
proof fn lemma_board_bits(v: u8, w: u8, m: u8)
    by (bit_vector)
    ensures
        (v | !0u8) & 0x07 & 0x01 != 0,
        (v | !0u8) & 0x07 & 0x02 != 0,
        (v | !0u8) & 0x07 & 0x04 != 0,
        (0u8 | !0xFFu8) & 0x07 & 0x01 == 0,
        (0u8 | !0xFFu8) & 0x07 & 0x02 == 0,
        w & m == 0 ==> (v & w) & m == 0,
        v & m == 0 ==> (v & w) & m == 0,
        v & m == 0 ==> (v & !w) & m == 0,
        w & m == m ==> (v & !w) & m == 0,
        (v | m) & m == m,
        (v & !m) & m == 0,
{
}

/// With the port's bits all inputs, as at power-on, BASIC, KERNAL and I/O are
/// visible.
pub proof fn law_default_banking(b: Board)
    requires
        b.port_ddr == 0,
    ensures
        c64::loram_high(b) && c64::hiram_high(b) && c64::charen_high(b),
        c64::io_visible(b),
{
    lemma_board_bits(b.port_data, 0, 0);
}

/// Writes land in RAM, also under ROMs and cartridges, unless they go to the
/// 6510 port or to visible I/O; and they change nothing else.
pub proof fn law_writes_land_in_ram(b: Board, addr: u16, val: u8)
    requires
        addr >= 2,
        !(0xD000 <= addr < 0xE000 && c64::io_visible(b)),
    ensures
        c64::board_after_write(b, addr, val).ram@ == b.ram@.update(addr as int, val),
        c64::board_after_write(b, addr, val)
            == (Board { ram: c64::board_after_write(b, addr, val).ram, ..b }),
{
}

/// No access changes a ROM, the cartridge, the keyboard or the joysticks.
pub proof fn law_roms_are_read_only(b: Board, addr: u16, val: u8)
    ensures
        ({
            let w = c64::board_after_write(b, addr, val);
            let r = c64::board_after_read(b, addr);
            &&& w.kernal == b.kernal && w.basic == b.basic && w.chargen == b.chargen
            &&& w.cart == b.cart && w.key_matrix == b.key_matrix
            &&& w.joy1 == b.joy1 && w.joy2 == b.joy2
            &&& r.kernal == b.kernal && r.basic == b.basic && r.chargen == b.chargen
            &&& r.cart == b.cart && r.key_matrix == b.key_matrix
            &&& r.joy1 == b.joy1 && r.joy2 == b.joy2
            &&& r.ram == b.ram
        }),
{
}

/// A write under a ROM does not show while the ROM is banked in, and shows once
/// everything is banked out.
pub proof fn law_ram_lies_under_rom(b: Board, addr: u16, val: u8)
    requires
        addr >= 2,
        !(0xD000 <= addr < 0xE000 && c64::io_visible(b)),
    ensures
        ({
            let w = c64::board_after_write(b, addr, val);
            let out = Board { port_ddr: 0xFF, port_data: 0x00, ..w };
            &&& 0xE000 <= addr && c64::hiram_high(b)
                ==> c64::value_at(w, addr) == b.kernal[addr - 0xE000]
            &&& 0x8000 <= addr < 0xA000 && b.cart is Some && c64::hiram_high(b)
                ==> c64::value_at(w, addr) == b.cart->0.roml[addr - 0x8000]
            &&& c64::value_at(out, addr) == val
        }),
{
    lemma_board_bits(0, 0, 0);
}

/// Without a cartridge $8000 is plain RAM.
pub proof fn law_no_cartridge(b: Board, addr: u16)
    requires
        b.cart is None,
        0x8000 <= addr < 0xA000,
    ensures
        c64::value_at(b, addr) == b.ram[addr as int],
{
}

/// An 8 KB cartridge appears at $8000 and leaves BASIC alone; a 16 KB one takes
/// $A000 away from BASIC.
pub proof fn law_cartridge_banking(b: Board, addr: u16)
    requires
        c64::hiram_high(b),
        c64::loram_high(b),
        b.cart is Some,
    ensures
        0x8000 <= addr < 0xA000 ==> c64::value_at(b, addr) == b.cart->0.roml[addr - 0x8000],
        0xA000 <= addr < 0xC000 && b.cart->0.kind == CartKind::Lo8k
            ==> c64::value_at(b, addr) == b.basic[addr - 0xA000],
        0xA000 <= addr < 0xC000 && b.cart->0.kind == CartKind::Hi16k
            ==> c64::value_at(b, addr) == b.cart->0.romh[addr - 0xA000],
{
}

/// What the banking display says is what a read finds: BASIC, KERNAL, I/O or
/// characters where it says so, and never I/O and characters at once.
pub proof fn law_banking_tells_what_is_read(b: Board, addr: u16)
    ensures
        c64::basic_visible(b) && 0xA000 <= addr < 0xC000
            ==> c64::value_at(b, addr) == b.basic[addr - 0xA000],
        !c64::basic_visible(b) && 0xA000 <= addr < 0xC000
            ==> c64::value_at(b, addr) == b.ram[addr as int]
                || c64::value_at(b, addr) == b.cart->0.romh[addr - 0xA000],
        c64::hiram_high(b) && 0xE000 <= addr
            ==> c64::value_at(b, addr) == b.kernal[addr - 0xE000],
        !c64::hiram_high(b) && 0xE000 <= addr ==> c64::value_at(b, addr) == b.ram[addr as int],
        c64::io_visible(b) && 0xD000 <= addr < 0xE000
            ==> c64::value_at(b, addr) == c64::io_value(b, addr),
        c64::chargen_visible(b) && 0xD000 <= addr < 0xE000
            ==> c64::value_at(b, addr) == b.chargen[addr - 0xD000],
        !c64::io_visible(b) && !c64::chargen_visible(b) && 0xD000 <= addr < 0xE000
            ==> c64::value_at(b, addr) == b.ram[addr as int],
        !(c64::io_visible(b) && c64::chargen_visible(b)),
{
}

/// Page one is plain memory on the C64, so what holds of the stack holds here:
/// calls return, and interrupts are undone by `RTI`.
pub proof fn law_stack_page_is_memory()
    ensures
        crate::mos6502::laws::stack_is_memory::<Board>(),
{
    assert forall|b: Board, at: u16, val: u8| 0x100 <= at < 0x200 implies
        #[trigger] b.after_write(at, val).read_value(at) == val by {
        law_writes_land_in_ram(b, at, val);
    }
    assert forall|b: Board, at: u16, val: u8, other: u16|
        0x100 <= at < 0x200 && 0x100 <= other < 0x200 && at != other implies
        #[trigger] b.after_write(at, val).read_value(other) == b.read_value(other) by {
        law_writes_land_in_ram(b, at, val);
    }
}

/// A pressed joystick direction reads low: port 2 at $DC00, port 1 at $DC01.
pub proof fn law_joystick_reads_low(b: Board, m: u8)
    requires
        c64::io_visible(b),
    ensures
        b.joy2 & m == 0 ==> c64::value_at(b, 0xDC00) & m == 0,
        b.joy1 & m == 0 && b.cia1.ddrb == 0 ==> c64::value_at(b, 0xDC01) & m == 0,
{
    let reg0 = cia6526::register(b.cia1, 0);
    lemma_board_bits(reg0, b.joy2, m);
    let rows = c64::keyboard_rows(
        cia6526::port_level(b.cia1.pra, b.cia1.ddra, b.cia1.pa_in), b.key_matrix@, 8);
    lemma_board_bits(rows, b.joy1, m);
    let pins = rows & b.joy1;
    let prb = b.cia1.prb;
    assert((prb & 0u8) | (pins & !0u8) == pins) by (bit_vector);
    assert(0u8 & 0x0F == 0 && 1u8 & 0x0F == 1) by (bit_vector);
}

/// A pressed key pulls its row low whenever its column is driven low.
pub proof fn law_pressed_key_reads_low(pra: u8, keys: Seq<u8>, col: int, m: u8, n: int)
    requires
        0 <= col < n,
        pra & (1u8 << (col as u8)) == 0,
        keys[col] & m == m,
    ensures
        c64::keyboard_rows(pra, keys, n) & m == 0,
    decreases n,
{
    let rows = c64::keyboard_rows(pra, keys, n - 1);
    lemma_board_bits(rows, keys[n - 1], m);
    if col < n - 1 {
        law_pressed_key_reads_low(pra, keys, col, m, n - 1);
    }
}

/// With no key pressed every row reads high.
pub proof fn law_no_key_reads_high(pra: u8, keys: Seq<u8>, n: int)
    requires
        n <= 8,
        forall|k: int| 0 <= k < n ==> keys[k] == 0,
    ensures
        c64::keyboard_rows(pra, keys, n) == 0xFF,
    decreases n,
{
    if n > 0 {
        law_no_key_reads_high(pra, keys, n - 1);
        assert(0xFFu8 & !0u8 == 0xFF) by (bit_vector);
    }
}

/// A key that is set shows in its place of the matrix, and a key that is
/// released does not; other columns stay as they are.
pub proof fn law_key_in_matrix(b: Board, code: u8, pressed: bool, other: int)
    requires
        code < 64,
        0 <= other < 8,
    ensures
        c64::key_set(b, code, true).key_matrix[code as int / 8] & (1u8 << (code % 8))
            == 1u8 << (code % 8),
        c64::key_set(b, code, false).key_matrix[code as int / 8] & (1u8 << (code % 8)) == 0,
        other != code as int / 8
            ==> c64::key_set(b, code, pressed).key_matrix[other] == b.key_matrix[other],
{
    lemma_board_bits(b.key_matrix[code as int / 8], 0, 1u8 << (code % 8));
}

/// The C64 reads its own pulls back: a line that CIA2 pulls reads low.
pub proof fn law_serial_lines_read_back(b: Board)
    ensures
        (c64::serial_in(b.iec) / 64 % 2 == 1) == iec::line_high(b.iec, iec::Line::Clk),
        (c64::serial_in(b.iec) / 128 == 1) == iec::line_high(b.iec, iec::Line::Data),
{
}

/// A program that fits below the top of memory is in RAM after loading, byte
/// for byte from its load address on, and nothing else has changed; a BASIC
/// program also moves the end-of-program pointers.
pub proof fn law_program_is_loaded(ram: Seq<u8>, prg: Seq<u8>, at: int)
    requires
        ram.len() == 0x1_0000,
        prg.len() >= 2,
        machine::load_address(prg) + prg.len() - 2 <= 0x1_0000,
        0 <= at < 0x1_0000,
    ensures
        ({
            let load = machine::load_address(prg);
            let r = machine::ram_with_prg(ram, prg);
            &&& r.len() == ram.len()
            &&& load <= at < load + prg.len() - 2 ==> r[at] == prg[2 + (at - load)]
            &&& !(load <= at < load + prg.len() - 2) && !(load == 0x0801 && 0x2D <= at <= 0x32)
                ==> r[at] == ram[at]
        }),
{
    let load = machine::load_address(prg);
    let data = prg.skip(2);
    lemma_loaded(ram, load, data, data.len() as int, at);
}

proof fn lemma_loaded(ram: Seq<u8>, load: int, data: Seq<u8>, n: int, at: int)
    requires
        ram.len() == 0x1_0000,
        0 <= n <= data.len(),
        0 <= load,
        load + data.len() <= 0x1_0000,
        0 <= at < 0x1_0000,
    ensures
        machine::loaded(ram, load, data, n).len() == ram.len(),
        machine::loaded(ram, load, data, n)[at]
            == (if load <= at < load + n { data[at - load] } else { ram[at] }),
    decreases n,
{
    if n > 0 {
        lemma_loaded(ram, load, data, n - 1, at);
        assert((load + n - 1) % 0x1_0000 == load + n - 1);
    }
}

} // verus!
