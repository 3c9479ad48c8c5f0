//! The C64's memory map, line by line and bit by bit: what a read finds, where a
//! write goes, and what the keyboard, the joysticks and the serial bus show.

use vstd::prelude::*;
use crate::bits::{bit_of, lemma_bitwise, lemma_digits, lemma_masks, lemma_tests};
use crate::c64::machine::{self, C64};
use crate::c64::{Board, CartKind};
use crate::mos6502::cpu::{self, Core};
use crate::{c64, cia6526, iec, sid, vic2};

verus! {

// ---- banking ----

/// A line of the 6510's port: what was written where it is an output, else high.
pub open spec fn line(b: Board, k: u8) -> bool {
    bit_of(b.port_ddr, k) ==> bit_of(b.port_data, k)
}

/// LORAM, HIRAM and CHAREN are the port's lines 0, 1 and 2.
pub proof fn law_lines(b: Board)
    ensures
        c64::loram_high(b) == line(b, 0),
        c64::hiram_high(b) == line(b, 1),
        c64::charen_high(b) == line(b, 2),
{
    let v = (b.port_data | !b.port_ddr) & 0x07;
    lemma_tests(v);
    lemma_bank_bit(b, 0);
    lemma_bank_bit(b, 1);
    lemma_bank_bit(b, 2);
}

proof fn lemma_bank_bit(b: Board, k: u8)
    requires
        k < 3,
    ensures
        bit_of((b.port_data | !b.port_ddr) & 0x07, k) == line(b, k),
{
    lemma_bitwise(b.port_ddr, 0, k);
    lemma_bitwise(b.port_data, !b.port_ddr, k);
    lemma_bitwise(b.port_data | !b.port_ddr, 0x07, k);
    lemma_masks(k);
}

/// What a read finds. Lines 0, 1 and 2 of the port are LORAM, HIRAM and CHAREN: the
/// KERNAL needs HIRAM, BASIC needs both, and at $D000 there are I/O or characters
/// while either is up. A cartridge shows while HIRAM is up, at $8000 and, if it is
/// a 16 KB one, in BASIC's place. Everything else is RAM.
pub proof fn law_memory_map(b: Board, addr: u16)
    ensures
        ({
            let (lo, hi, io) = (line(b, 0), line(b, 1), line(b, 2));
            let big = b.cart matches Some(c) && c.kind == CartKind::Hi16k;
            &&& 2 <= addr < 0x8000 || 0xC000 <= addr < 0xD000
                ==> c64::value_at(b, addr) == b.ram[addr as int]
            &&& 0x8000 <= addr < 0xA000 ==> c64::value_at(b, addr)
                == (if b.cart is Some && hi { b.cart->0.roml[addr - 0x8000] }
                    else { b.ram[addr as int] })
            &&& 0xA000 <= addr < 0xC000 ==> c64::value_at(b, addr)
                == (if big && hi { b.cart->0.romh[addr - 0xA000] }
                    else if lo && hi { b.basic[addr - 0xA000] }
                    else { b.ram[addr as int] })
            &&& 0xD000 <= addr < 0xE000 && !lo && !hi
                ==> c64::value_at(b, addr) == b.ram[addr as int]
            &&& 0xD000 <= addr < 0xE000 && (lo || hi) && !io
                ==> c64::value_at(b, addr) == b.chargen[addr - 0xD000]
            &&& 0xE000 <= addr ==> c64::value_at(b, addr)
                == (if hi { b.kernal[addr - 0xE000] } else { b.ram[addr as int] })
            &&& c64::io_visible(b) == ((lo || hi) && io)
        }),
{
    law_lines(b);
}

/// The port itself: its directions at 0, and at 1 what was written to the outputs,
/// with the inputs high.
pub proof fn law_port(b: Board, val: u8, k: u8)
    requires
        k < 8,
    ensures
        c64::value_at(b, 0) == b.port_ddr,
        bit_of(c64::value_at(b, 1), k) == line(b, k),
        c64::board_after_write(b, 0, val) == (Board { port_ddr: val, ..b }),
        c64::board_after_write(b, 1, val) == (Board { port_data: val, ..b }),
{
    lemma_bitwise(b.port_data, b.port_ddr, k);
    lemma_bitwise(b.port_ddr, 0, k);
    lemma_bitwise(b.port_data & b.port_ddr, !b.port_ddr, k);
}

// ---- I/O ----

/// What a read of I/O finds: the VIC from $D000 on and every 64 bytes, the SID from
/// $D400 and every 32, colour RAM from $D800 with its upper half high, the CIAs from
/// $DC00 and $DD00 and every 16, and nothing from $DE00.
pub proof fn law_io_reads(b: Board, addr: u16, k: u8)
    requires
        0xD000 <= addr < 0xE000,
        c64::io_visible(b),
        k < 8,
    ensures
        ({
            let v = c64::value_at(b, addr);
            let r = (addr % 16) as u8;
            &&& addr < 0xD400 ==> v == vic2::register(b.vic, (addr % 64) as u8)
            &&& 0xD400 <= addr < 0xD800 ==> v == sid::register(b.sid, (addr % 32) as u8)
            &&& 0xD800 <= addr < 0xDC00 ==> v % 16 == b.ram[addr as int] % 16 && v / 16 == 15
            &&& 0xDC00 <= addr < 0xDD00 && r >= 2 ==> v == cia6526::register(b.cia1, r)
            &&& 0xDD00 <= addr < 0xDE00 && r >= 1 ==> v == cia6526::register(b.cia2, r)
            &&& 0xDE00 <= addr ==> v == 0
            &&& 0xDC00 <= addr < 0xDD00 && r == 0 ==> bit_of(v, k)
                == (bit_of(cia6526::register(b.cia1, 0), k) && bit_of(b.joy2, k))
        }),
{
    lemma_bitwise(cia6526::register(b.cia1, 0), b.joy2, k);
}

/// A key in column `c`, row `r` of the matrix is held, and its column is selected:
/// pin `c` of port A is low.
pub open spec fn pulls_row(b: Board, c: int, r: u8) -> bool {
    bit_of(b.key_matrix[c], r) && !bit_of(cia6526::register(b.cia1, 0), c as u8)
}

/// A row of the keyboard at $DC01 is low exactly where a held key of a selected
/// column or joystick 1 pulls it, as far as its pin is an input.
pub proof fn law_keyboard_rows(b: Board, r: u8)
    requires
        c64::io_visible(b),
        r < 8,
    ensures
        bit_of(c64::value_at(b, 0xDC01), r) == (if bit_of(b.cia1.ddrb, r) {
            bit_of(b.cia1.prb, r)
        } else {
            bit_of(b.joy1, r) && forall|c: int| 0 <= c < 8 ==> !#[trigger] pulls_row(b, c, r)
        }),
{
    let pra = cia6526::port_level(b.cia1.pra, b.cia1.ddra, b.cia1.pa_in);
    lemma_digits(0);
    lemma_digits(1);
    assert(cia6526::register(b.cia1, 0) == pra);
    lemma_rows(b, pra, 8, r);
    let rows = c64::keyboard_rows(pra, b.key_matrix@, 8);
    lemma_bitwise(rows, b.joy1, r);
    let sampled = c64::cia1_sampled(b, 1);
    cia6526::law_port_pins(sampled, r);
}

proof fn lemma_rows(b: Board, pra: u8, n: int, r: u8)
    requires
        0 <= n <= 8,
        r < 8,
        pra == cia6526::register(b.cia1, 0),
    ensures
        bit_of(c64::keyboard_rows(pra, b.key_matrix@, n), r)
            == forall|c: int| 0 <= c < n ==> !#[trigger] pulls_row(b, c, r),
    decreases n,
{
    if n == 0 {
        lemma_masks(r);
    } else {
        lemma_rows(b, pra, n - 1, r);
        let rows = c64::keyboard_rows(pra, b.key_matrix@, n - 1);
        let keys = b.key_matrix@[n - 1];
        lemma_bitwise(pra, 0, (n - 1) as u8);
        lemma_bitwise(keys, 0, r);
        lemma_bitwise(rows, !keys, r);
        let now = bit_of(c64::keyboard_rows(pra, b.key_matrix@, n), r);
        assert(now == (bit_of(rows, r) && !pulls_row(b, n - 1, r)));
        if now {
            assert forall|c: int| 0 <= c < n implies !#[trigger] pulls_row(b, c, r) by {}
        }
        if forall|c: int| 0 <= c < n ==> !#[trigger] pulls_row(b, c, r) {
            assert(!pulls_row(b, n - 1, r));
            assert forall|c: int| 0 <= c < n - 1 implies !#[trigger] pulls_row(b, c, r) by {}
        }
    }
}

/// Pressing or releasing a key changes its own place of the matrix, column `code/8`
/// and row `code%8`, and no other; there are 64 keys.
pub proof fn law_key_places(b: Board, code: u8, pressed: bool, c: int, r: u8)
    requires
        0 <= c < 8,
        r < 8,
    ensures
        bit_of(c64::key_set(b, code, pressed).key_matrix[c], r)
            == (if code == 8 * c + r { pressed } else { bit_of(b.key_matrix[c], r) }),
        c64::key_set(b, code, pressed)
            == (Board { key_matrix: c64::key_set(b, code, pressed).key_matrix, ..b }),
{
    if code < 64 {
        let col = code as int / 8;
        let row = (code % 8) as u8;
        let old = b.key_matrix[col];
        lemma_bitwise(old, 1u8 << row, r);
        lemma_bitwise(1u8 << row, 0, r);
        lemma_bitwise(old, !(1u8 << row), r);
        lemma_single(row, r);
    }
}

proof fn lemma_single(row: u8, r: u8)
    by (bit_vector)
    requires
        row < 8,
        r < 8,
    ensures
        bit_of(1u8 << row, r) == (row == r),
{
}

/// Where a write to visible I/O goes. Colour RAM keeps four bits. What CIA2 puts
/// out at bits 3, 4 and 5 of its port A pulls ATN, CLK and DATA, a one meaning low.
pub proof fn law_io_writes(b: Board, addr: u16, val: u8)
    requires
        0xD000 <= addr < 0xE000,
        c64::io_visible(b),
    ensures
        ({
            let w = c64::board_after_write(b, addr, val);
            let r = (addr % 16) as u8;
            &&& addr < 0xD400
                ==> w == (Board { vic: vic2::after_write(b.vic, (addr % 64) as u8, val), ..b })
            &&& 0xD400 <= addr < 0xD800
                ==> w == (Board { sid: sid::after_write(b.sid, (addr % 32) as u8, val), ..b })
            &&& 0xD800 <= addr < 0xDC00
                ==> w.ram@ == b.ram@.update(addr as int, (val % 16) as u8)
                    && w == (Board { ram: w.ram, ..b })
            &&& 0xDC00 <= addr < 0xDD00
                ==> w == (Board { cia1: cia6526::after_write(b.cia1, r, val), ..b })
            &&& 0xDD00 <= addr < 0xDE00 ==> {
                let out = cia6526::register(w.cia2, 0);
                &&& w == (Board { cia2: w.cia2, iec: w.iec, ..b })
                &&& w.cia2 == cia6526::after_write(b.cia2, r, val)
                &&& r == 0 || r == 2 ==> {
                    &&& iec::pulls_line(w.iec, 0, iec::Line::Atn) == bit_of(out, 3)
                    &&& iec::pulls_line(w.iec, 0, iec::Line::Clk) == bit_of(out, 4)
                    &&& iec::pulls_line(w.iec, 0, iec::Line::Data) == bit_of(out, 5)
                    &&& forall|d: int| 1 <= d < 4 ==> #[trigger] w.iec.pulls[d] == b.iec.pulls[d]
                }
                &&& r != 0 && r != 2 ==> w.iec == b.iec
            }
            &&& 0xDE00 <= addr ==> w == b
        }),
{
    if 0xDD00 <= addr < 0xDE00 {
        let w = c64::board_after_write(b, addr, val);
        lemma_digits(0);
        let out = cia6526::register(w.cia2, 0);
        assert(out == cia6526::port_level(w.cia2.pra, w.cia2.ddra, w.cia2.pa_in));
        lemma_tests(out);
        let s = c64::serial_out(out);
        lemma_digits(s);
        lemma_tests(s & 0x07);
        lemma_bitwise(s, 0x07, 0);
        lemma_bitwise(s, 0x07, 1);
        lemma_bitwise(s, 0x07, 2);
        lemma_masks(0);
        lemma_masks(1);
        lemma_masks(2);
        lemma_serial_masks(s & 0x07);
    }
}

proof fn lemma_serial_masks(s: u8)
    ensures
        (s & iec::mask_of(iec::Line::Atn) != 0) == bit_of(s, 0),
        (s & iec::mask_of(iec::Line::Clk) != 0) == bit_of(s, 1),
        (s & iec::mask_of(iec::Line::Data) != 0) == bit_of(s, 2),
{
    lemma_tests(s);
}

/// The serial bus at $DD00: bit 6 is the level of CLK and bit 7 that of DATA, high
/// unless somebody pulls, where the pin is an input.
pub proof fn law_serial_bus_is_read(b: Board)
    requires
        c64::io_visible(b),
    ensures
        !bit_of(b.cia2.ddra, 6) ==> bit_of(c64::value_at(b, 0xDD00), 6)
            == forall|d: int| 0 <= d < 4 ==> !#[trigger] iec::pulls_line(b.iec, d, iec::Line::Clk),
        !bit_of(b.cia2.ddra, 7) ==> bit_of(c64::value_at(b, 0xDD00), 7)
            == forall|d: int| 0 <= d < 4 ==> !#[trigger] iec::pulls_line(b.iec, d, iec::Line::Data),
{
    let sampled = c64::cia2_sampled(b, 0);
    cia6526::law_port_pins(sampled, 6);
    cia6526::law_port_pins(sampled, 7);
    lemma_digits(c64::serial_in(b.iec));
}

/// What reading does besides: outside visible I/O nothing, there the VIC forgets the
/// collisions that were read and a CIA the flags that were, from its register 13, and
/// the CIAs take a look at their pins.
pub proof fn law_reads_have_effects(b: Board, addr: u16)
    ensures
        ({
            let a = c64::board_after_read(b, addr);
            let io = 0xD000 <= addr < 0xE000 && c64::io_visible(b);
            let acknowledged = addr % 16 == 13;
            &&& !io ==> a == b
            &&& io && addr < 0xD400
                ==> a == (Board { vic: vic2::after_read(b.vic, (addr % 64) as u8), ..b })
            &&& io && 0xD400 <= addr < 0xDC00 || io && addr >= 0xDE00 ==> a == b
            &&& io && 0xDC00 <= addr < 0xDD00 ==> a == (Board {
                cia1: cia6526::Cia {
                    icr_data: if acknowledged { 0 } else { b.cia1.icr_data },
                    pa_in: a.cia1.pa_in,
                    pb_in: a.cia1.pb_in,
                    ..b.cia1
                },
                ..b
            })
            &&& io && 0xDD00 <= addr < 0xDE00 ==> a == (Board {
                cia2: cia6526::Cia {
                    icr_data: if acknowledged { 0 } else { b.cia2.icr_data },
                    pa_in: a.cia2.pa_in,
                    pb_in: a.cia2.pb_in,
                    ..b.cia2
                },
                ..b
            })
        }),
{
    lemma_digits((addr % 16) as u8);
}

// ---- the machine ----

/// One step: an instruction; the CIAs, the VIC and the SID run for just the cycles
/// it took; then an interrupt from CIA1 or the VIC goes through $FFFE unless it is
/// masked, and CIA2's goes through $FFFA when it newly comes up.
pub proof fn law_step(m: C64)
    ensures
        ({
            let (s, n) = cpu::after_step(Core { cpu: m.cpu, bus: m.board });
            let ran = Board {
                cia1: cia6526::ticked(s.bus.cia1, n as nat),
                cia2: cia6526::ticked(s.bus.cia2, n as nat),
                vic: vic2::ticked(s.bus.vic, n as int),
                sid: sid::clocked(s.bus.sid, n as nat),
                ..s.bus
            };
            let t = Core { cpu: s.cpu, bus: ran };
            let irq = (cia6526::asserts_irq(ran.cia1) || vic2::asserts_irq(ran.vic)) && !s.cpu.i;
            let u = if irq { cpu::hardware_interrupt(t, 0xFFFE) } else { t };
            let nmi = cia6526::asserts_irq(u.bus.cia2);
            let v = if nmi && !m.prev_nmi { cpu::hardware_interrupt(u, 0xFFFA) } else { u };
            machine::stepped(m)
                == (C64 { cpu: v.cpu, board: v.bus, prev_nmi: nmi }, n)
        }),
{
}

/// A program loaded at $0801 ends BASIC's program: the three pointers at $2D, $2F
/// and $31 point behind it.
pub proof fn law_basic_end_pointers(ram: Seq<u8>, prg: Seq<u8>)
    requires
        ram.len() == 0x1_0000,
        prg.len() >= 2,
        prg[0] == 0x01 && prg[1] == 0x08,
        prg.len() < 0xF000,
    ensures
        ({
            let r = machine::ram_with_prg(ram, prg);
            let end = 0x0801 + prg.len() - 2;
            &&& r[0x2D] + 256 * r[0x2E] == end
            &&& r[0x2F] + 256 * r[0x30] == end
            &&& r[0x31] + 256 * r[0x32] == end
        }),
{
    let data = prg.skip(2);
    lemma_len(ram, 0x0801, data, data.len() as int);
}

proof fn lemma_len(ram: Seq<u8>, load: int, data: Seq<u8>, n: int)
    requires
        ram.len() == 0x1_0000,
    ensures
        machine::loaded(ram, load, data, n).len() == ram.len(),
    decreases n,
{
    if n > 0 {
        lemma_len(ram, load, data, n - 1);
    }
}

} // verus!
