//! How the drive's parts are wired, pin by pin: the serial bus on VIA1, the disk on
//! VIA2, and the clock, the interrupts and BYTE-READY on the CPU.

use vstd::prelude::*;
use crate::bits::{bit_of, lemma_digits, lemma_tests};
use crate::c1541::disk::{self, Controller};
use crate::c1541::machine::{self, Board, Machine};
use crate::mos6502::cpu::{self, Core};
use crate::mos6502::Cpu;
use crate::via6522::Via;
use crate::{d64, gcr, iec, via6522};

verus! {

// ---- the serial bus ----

/// What VIA1 sees of the bus where its pins are inputs: DATA at bit 0, CLK at bit 2
/// and ATN at bit 7, a one meaning low; bits 5 and 6 are strapped to ground, which
/// makes it device 8. ATN is at CA1 too.
pub proof fn law_serial_inputs(v: Via, bus: iec::Bus)
    requires
        v.ddrb == 0,
    ensures
        ({
            let s = machine::bus_sampled(v, bus);
            let pins = via6522::register(s, 0);
            &&& bit_of(pins, 0) == !iec::line_high(bus, iec::Line::Data)
            &&& bit_of(pins, 2) == !iec::line_high(bus, iec::Line::Clk)
            &&& bit_of(pins, 7) == !iec::line_high(bus, iec::Line::Atn)
            &&& !bit_of(pins, 5) && !bit_of(pins, 6)
            &&& s.ca1 == !iec::line_high(bus, iec::Line::Atn)
            &&& s == (Via { pb_in: s.pb_in, ca1: s.ca1, ifr: s.ifr, ..v })
        }),
{
    let s = machine::bus_sampled(v, bus);
    lemma_digits(0);
    lemma_digits(s.pb_in);
    via6522::law_port_pins(s, 0);
    via6522::law_port_pins(s, 2);
    via6522::law_port_pins(s, 5);
    via6522::law_port_pins(s, 6);
    via6522::law_port_pins(s, 7);
    crate::bits::lemma_masks(0);
    crate::bits::lemma_masks(2);
    crate::bits::lemma_masks(5);
    crate::bits::lemma_masks(6);
    crate::bits::lemma_masks(7);
}

/// What the drive pulls: CLK where bit 3 of VIA1's port B is set, DATA where bit 1
/// is, or where bit 4 and attention disagree; ATN never. Nobody else's pulls change.
pub proof fn law_serial_outputs(b: Board, bus: iec::Bus, slot: int)
    requires
        0 <= slot < 4,
    ensures
        ({
            let pb = via6522::register(b.via1, 0);
            let after = machine::bus_driven(b, bus, slot);
            let attention = !iec::line_high(bus, iec::Line::Atn);
            &&& !iec::pulls_line(after, slot, iec::Line::Atn)
            &&& iec::pulls_line(after, slot, iec::Line::Clk) == bit_of(pb, 3)
            &&& iec::pulls_line(after, slot, iec::Line::Data)
                == (bit_of(pb, 1) || bit_of(pb, 4) != attention)
            &&& forall|d: int| 0 <= d < 4 && d != slot
                ==> #[trigger] after.pulls[d] == bus.pulls[d]
        }),
{
    lemma_digits(0);
    let pb = via6522::register(b.via1, 0);
    assert(pb == via6522::port_level(b.via1.orb, b.via1.ddrb, b.via1.pb_in));
    lemma_tests(pb);
    machine::law_drive_outputs(b, bus, slot);
}

// ---- the disk ----

/// How many cycles a byte takes under the head: the outer tracks are faster.
pub open spec fn pace(track: int) -> int {
    if track <= 17 { 26 } else if track <= 24 { 28 } else if track <= 30 { 30 } else { 32 }
}

/// The head's half-track after the stepper's phase went from one value to another.
pub open spec fn stepped_to(half: int, from: int, to: int) -> int {
    if (to - from) % 4 == 1 && half < 68 {
        half + 1
    } else if (to - from) % 4 == 3 && half > 0 {
        half - 1
    } else {
        half
    }
}

/// Bits 0 and 1 of VIA2's port B are the stepper. A change of its phase starts the
/// track over, on the track where the head is then.
pub proof fn law_stepping(c: Controller, via2: Via, cycles: u32)
    requires
        disk::mechanism_sound(c),
    ensures
        ({
            let phase = via6522::register(via2, 0) % 4;
            let a = disk::mechanism_ticked(c, via2, cycles).0;
            &&& a.last_phase == phase
            &&& a.half_track == stepped_to(c.half_track as int, c.last_phase as int, phase as int)
            &&& a.disk == c.disk
            &&& phase != c.last_phase ==> disk::mechanism_ticked(c, via2, cycles)
                == disk::mechanism_ticked(
                    Controller {
                        half_track: a.half_track,
                        last_phase: (via6522::register(via2, 0) % 4) as u8,
                        pos: 0,
                        prev_byte: 0,
                        sync: false,
                        acc: 0,
                        ..c
                    },
                    via2,
                    cycles,
                )
        }),
{
    lemma_digits(0);
}

/// Bit 2 of VIA2's port B runs the motor. While the head stays on its track, a byte
/// goes by each time the track's pace is up, and is on port A; what is left of the
/// cycles is kept. Two $FF in a row are a sync mark, and any other byte is signalled.
pub proof fn law_reading(c: Controller, via2: Via, cycles: u32)
    requires
        disk::mechanism_sound(c),
        c.disk is Some,
        bit_of(via6522::register(via2, 0), 2),
        via6522::register(via2, 0) % 4 == c.last_phase,
    ensures
        ({
            let (a, v, ready) = disk::mechanism_ticked(c, via2, cycles);
            let track = c.half_track as int / 2 + 1;
            let stream = c.disk->0.tracks@[track - 1]@;
            let n = (c.acc + cycles) / pace(track);
            let at = (c.pos + n) % (stream.len() as int);
            &&& a.pos == at
            &&& a.acc == (c.acc + cycles) % pace(track)
            &&& n == 0 ==> !ready && v.pa_in == via2.pa_in && a.sync == c.sync
            &&& n > 0 ==> v.pa_in == stream[at] && a.prev_byte == stream[at]
            &&& n == 1 ==> a.sync == (stream[at] == 0xFF && c.prev_byte == 0xFF)
                && ready == !a.sync
        }),
{
    let pb = via6522::register(via2, 0);
    lemma_digits(0);
    lemma_tests(pb);
    assert(pb == via6522::port_level(via2.orb, via2.ddrb, via2.pb_in));
    let track = c.half_track as int / 2 + 1;
    let t = pace(track);
    let stream = c.disk->0.tracks@[track - 1]@;
    assert(t == disk::byte_time(track as u8));
    let n = (c.acc + cycles) / t;
    assert(n >= 0) by (nonlinear_arith)
        requires
            n == (c.acc + cycles) / t,
            t >= 26,
    ;
    disk::law_head_follows_the_track(disk::head_of(c, via2), stream, n as nat);
    reveal_with_fuel(disk::bytes_passed, 3);
    if n > 0 {
        let h = disk::bytes_passed(disk::head_of(c, via2), stream, (n - 1) as nat);
        assert(disk::rotated(c, via2, cycles) == disk::byte_passed(h, stream));
    }
    assert((c.acc + cycles) % t < t) by (nonlinear_arith)
        requires
            t >= 26,
    ;
    assert(0 <= (c.acc + cycles) % t);
    let track_bytes = c.disk->0.tracks@[track - 1];
    assert(track_bytes.len() == stream.len());
    let at = (c.pos + n) % (stream.len() as int);
    vstd::arithmetic::div_mod::lemma_mod_bound(c.pos + n, stream.len() as int);
    assert(0 <= at < stream.len());
    let h = disk::rotated(c, via2, cycles);
    assert(h.pos == at);
    let (a, v, ready) = disk::mechanism_ticked(c, via2, cycles);
    assert(disk::phase_set(c, (pb % 4) as u8) == c);
    assert(a.pos == at);
    assert(a.acc == (c.acc + cycles) % t);
    if n == 0 {
        assert(h == disk::head_of(c, via2));
    }
}

/// With the motor off, or without a disk, nothing moves under the head and there is
/// neither a sync mark nor a byte.
pub proof fn law_standing_still(c: Controller, via2: Via, cycles: u32)
    requires
        !bit_of(via6522::register(via2, 0), 2) || c.disk is None,
        via6522::register(via2, 0) % 4 == c.last_phase,
    ensures
        ({
            let (a, v, ready) = disk::mechanism_ticked(c, via2, cycles);
            !ready && !a.sync && a.pos == c.pos && v.pa_in == via2.pa_in
        }),
{
    lemma_digits(0);
    lemma_tests(via6522::register(via2, 0));
}

/// What VIA2 sees of the mechanism: bit 7 is low over a sync mark, bit 4 is low while
/// a write-protected disk is in, and the other pins are high.
pub proof fn law_disk_inputs(c: Controller, via2: Via, cycles: u32, k: u8)
    requires
        k < 8,
    ensures
        ({
            let (a, v, _) = disk::mechanism_ticked(c, via2, cycles);
            bit_of(v.pb_in, k) == (if k == 7 {
                !a.sync
            } else if k == 4 {
                !(c.disk is Some && c.disk->0.write_protected)
            } else {
                true
            })
        }),
{
    let v = disk::mechanism_ticked(c, via2, cycles).1;
    lemma_digits(v.pb_in);
}

/// What is on a track of a disk: behind the header of each sector, which bears the
/// disk's ID, stand the bytes of the image's sector.
pub proof fn law_tracks_hold_the_image(img: Seq<u8>, track: u8, k: int, g: int, j: int)
    requires
        1 <= track <= 35,
        0 <= k < gcr::zone_sectors(track),
        0 <= g < 65,
        0 <= j < 4,
        forall|s: u8| (#[trigger] d64::sector_of(img, track, s)).len() == 256,
    ensures
        ({
            let bits = disk::track_bits(img, track);
            let d = gcr::ungrouped(bits.subrange(362 * k + 29 + 5 * g, 362 * k + 34 + 5 * g));
            let h = gcr::ungrouped(bits.subrange(362 * k + 10, 362 * k + 15));
            &&& 1 <= 4 * g + j <= 256 ==> d[j] == d64::sector_of(img, track, k as u8)[4 * g + j - 1]
            &&& h[0] == d64::bam(img, 0xA3) && h[1] == d64::bam(img, 0xA2)
        }),
{
    let sectors = disk::track_sectors(img, track);
    let id = seq![d64::bam(img, 0xA2), d64::bam(img, 0xA3)];
    let n = gcr::zone_sectors(track) as nat;
    assert forall|i: int| 0 <= i < sectors.len() implies (#[trigger] sectors[i]).len() == 256 by {
        assert(sectors[i] == d64::sector_of(img, track, i as u8));
    }
    gcr::law_track_decodes(sectors, track, id, n, k, g);
    gcr::law_track_decodes(sectors, track, id, n, k, 1);
    gcr::law_header((k % 256) as u8, track, id);
    assert(sectors[k] == d64::sector_of(img, track, k as u8));
    if 1 <= 4 * g + j <= 256 {
        gcr::law_data_block(sectors[k], 4 * g + j - 1);
    }
}

// ---- the CPU ----

/// One step: an instruction; both VIAs and the disk run for just the cycles it took;
/// BYTE-READY sets the overflow flag; then an interrupt of either VIA goes through
/// $FFFE unless it is masked.
pub proof fn law_drive_step(m: Machine)
    ensures
        ({
            let (s, n) = cpu::after_step(Core { cpu: m.cpu, bus: m.board });
            let (mechanism, via2, ready) = disk::mechanism_ticked(
                s.bus.disk, via6522::ticked(s.bus.via2, n as nat), n as u32);
            let via1 = via6522::ticked(s.bus.via1, n as nat);
            let t = Core {
                cpu: Cpu { v: s.cpu.v || ready, ..s.cpu },
                bus: Board { via1, via2, disk: mechanism, ..s.bus },
            };
            let irq = (via6522::asserts_irq(via1) || via6522::asserts_irq(via2)) && !s.cpu.i;
            let u = if irq { cpu::hardware_interrupt(t, 0xFFFE) } else { t };
            machine::drive_stepped(m) == (Machine { cpu: u.cpu, board: u.bus }, n)
        }),
{
    reveal(machine::drive_ticked);
}

/// A step on the bus: the bus is sampled before it and driven after it.
pub proof fn law_drive_step_on_bus(m: Machine, bus: iec::Bus, slot: int)
    ensures
        ({
            let v = machine::bus_sampled(m.board.via1, bus);
            let (t, n) = machine::drive_stepped(
                Machine { board: Board { via1: v, ..m.board }, ..m });
            machine::drive_stepped_on_bus(m, bus, slot)
                == (t, machine::bus_driven(t.board, bus, slot), n)
        }),
{
}

/// Where the drive's CPU finds things: 2 KB of RAM at 0, VIA1 at $1800, VIA2 at
/// $1C00, the ROM at $C000, and zero elsewhere.
pub proof fn law_drive_map(b: Board, at: u16, val: u8)
    ensures
        ({
            let v = machine::drive_value(b, at);
            let w = machine::drive_after_write(b, at, val);
            let r = (at % 16) as u8;
            &&& at < 0x800 ==> v == b.ram[at as int] && w.ram@ == b.ram@.update(at as int, val)
                && w == (Board { ram: w.ram, ..b })
            &&& 0x1800 <= at < 0x1C00 ==> v == via6522::register(b.via1, r)
                && w == (Board { via1: via6522::after_write(b.via1, r, val), ..b })
            &&& 0x1C00 <= at < 0x2000 ==> v == via6522::register(b.via2, r)
                && w == (Board { via2: via6522::after_write(b.via2, r, val), ..b })
            &&& 0xC000 <= at ==> v == b.rom[at - 0xC000] && w == b
            &&& 0x800 <= at < 0x1800 || 0x2000 <= at < 0xC000 ==> v == 0 && w == b
        }),
{
}

} // verus!
