//! A bootable 1541 disk drive: the 6502 CPU wired to the drive's RAM, ROM, and
//! two 6522 VIAs over the real memory map.
//!
//! Memory map (the drive CPU's 64 KB space):
//!
//! ```text
//!   $0000-$07FF   2 KB RAM
//!   $1800-$1BFF   VIA1  (serial IEC bus)      mirrored every 16 bytes
//!   $1C00-$1FFF   VIA2  (disk controller)     mirrored every 16 bytes
//!   $C000-$FFFF   16 KB DOS ROM
//!   (everything else reads as open bus / 0)
//! ```
//!
//! The ROM image is the caller's: a drive is built around the 16 KB it is given.

use vstd::prelude::*;
use crate::c1541::disk::{Controller, Disk};
use crate::iec::line;
use crate::mos6502::cpu::Core;
use crate::mos6502::{cpu, laws, Bus, Cpu};
use crate::via6522::Via;
use crate::{c1541, iec, via6522};

verus! {

/// The size of the drive's RAM.
pub const RAM_SIZE: usize = 0x0800;

/// Everything the CPU talks to: RAM, ROM, the two VIAs, and the disk mechanism
/// wired to VIA2.
pub struct Board {
    pub ram: [u8; 0x0800],
    pub rom: [u8; 0x4000],
    pub via1: Via,
    pub via2: Via,
    pub disk: Controller,
}

/// The byte the drive's CPU reads at an address.
pub open spec fn drive_value(b: Board, addr: u16) -> u8 {
    if addr < 0x0800 {
        b.ram[addr as int]
    } else if 0x1800 <= addr < 0x1C00 {
        via6522::register(b.via1, (addr % 16) as u8)
    } else if 0x1C00 <= addr < 0x2000 {
        via6522::register(b.via2, (addr % 16) as u8)
    } else if addr >= 0xC000 {
        b.rom[addr - 0xC000]
    } else {
        0
    }
}

/// The board after the drive's CPU read an address.
pub open spec fn drive_after_read(b: Board, addr: u16) -> Board {
    if 0x1800 <= addr < 0x1C00 {
        Board { via1: via6522::after_read(b.via1, (addr % 16) as u8), ..b }
    } else if 0x1C00 <= addr < 0x2000 {
        Board { via2: via6522::after_read(b.via2, (addr % 16) as u8), ..b }
    } else {
        b
    }
}

/// The board after the drive's CPU wrote an address. ROM and unmapped space
/// ignore writes.
pub open spec fn drive_after_write(b: Board, addr: u16, val: u8) -> Board {
    if addr < 0x0800 {
        Board { ram: vstd::array::spec_array_update(b.ram, addr as int, val), ..b }
    } else if 0x1800 <= addr < 0x1C00 {
        Board { via1: via6522::after_write(b.via1, (addr % 16) as u8, val), ..b }
    } else if 0x1C00 <= addr < 0x2000 {
        Board { via2: via6522::after_write(b.via2, (addr % 16) as u8, val), ..b }
    } else {
        b
    }
}

impl Bus for Board {
    open spec fn after_read(self, addr: u16) -> Self {
        drive_after_read(self, addr)
    }

    open spec fn read_value(self, addr: u16) -> u8 {
        drive_value(self, addr)
    }

    open spec fn after_write(self, addr: u16, val: u8) -> Self {
        drive_after_write(self, addr, val)
    }

    fn read(&mut self, addr: u16) -> (v: u8) {
        if addr < 0x0800 {
            self.ram[addr as usize]
        } else if 0x1800 <= addr && addr < 0x1C00 {
            self.via1.read((addr % 16) as u8)
        } else if 0x1C00 <= addr && addr < 0x2000 {
            self.via2.read((addr % 16) as u8)
        } else if addr >= 0xC000 {
            self.rom[(addr - 0xC000) as usize]
        } else {
            0
        }
    }

    fn write(&mut self, addr: u16, val: u8) {
        if addr < 0x0800 {
            self.ram[addr as usize] = val;
        } else if 0x1800 <= addr && addr < 0x1C00 {
            self.via1.write((addr % 16) as u8, val);
        } else if 0x1C00 <= addr && addr < 0x2000 {
            self.via2.write((addr % 16) as u8, val);
        }
    }
}

// ---- the serial bus at VIA1 ----

/// VIA1's port B pins for the levels of the three lines: DATA on PB0, CLK on
/// PB2, ATN on PB7, each inverted, and the jumpers of device 8 on PB5-6
/// grounded.
pub open spec fn serial_pins(bus: iec::Bus) -> u8 {
    (0x9F - (if iec::line_high(bus, iec::Line::Data) { 0x01int } else { 0 })
        - (if iec::line_high(bus, iec::Line::Clk) { 0x04int } else { 0 })
        - (if iec::line_high(bus, iec::Line::Atn) { 0x80int } else { 0 })) as u8
}

/// VIA1 after the bus was sampled: the pins, and the inverted ATN on CA1.
pub open spec fn bus_sampled(v: Via, bus: iec::Bus) -> Via {
    via6522::ca1_set(
        Via { pb_in: serial_pins(bus), ..v }, !iec::line_high(bus, iec::Line::Atn))
}

/// Does the drive pull DATA? It does where the DOS asks for it (PB1), and where
/// ATNA (PB4) disagrees with ATN.
pub open spec fn drives_data(pb: u8, atn_asserted: bool) -> bool {
    pb & 0x02 != 0 || (pb & 0x10 != 0) != atn_asserted
}

/// The lines the drive pulls, from VIA1's port B and the state of ATN.
pub open spec fn drive_pulls(pb: u8, atn_asserted: bool) -> u8 {
    ((if drives_data(pb, atn_asserted) { line::DATA as int } else { 0 })
        + (if pb & 0x08 != 0 { line::CLK as int } else { 0 })) as u8
}

/// The bus after the drive put its outputs on it.
pub open spec fn bus_driven(b: Board, bus: iec::Bus, slot: int) -> iec::Bus {
    iec::with_pulls(
        bus,
        slot,
        drive_pulls(
            via6522::port_level(b.via1.orb, b.via1.ddrb, b.via1.pb_in),
            !iec::line_high(bus, iec::Line::Atn),
        ),
    )
}

/// A board at power-on, around a DOS ROM.
pub open spec fn drive_factory(b: Board, rom: [u8; 0x4000]) -> bool {
    &&& forall|k: int| 0 <= k < RAM_SIZE ==> #[trigger] b.ram[k] == 0
    &&& b.rom == rom
    &&& b.via1 == via6522::power_on()
    &&& b.via2 == via6522::power_on()
    &&& b.disk == c1541::disk::mechanism_idle()
}

impl Board {
    /// A board at power-on, with a DOS ROM mapped at `$C000`.
    pub fn new(rom: &[u8; 0x4000]) -> (b: Self)
        ensures
            drive_factory(b, *rom),
    {
        Board {
            ram: [0; 0x0800],
            rom: *rom,
            via1: Via::new(),
            via2: Via::new(),
            disk: Controller::default(),
        }
    }

    /// Sample the serial bus into VIA1's inputs (`$1800`), before the CPU reads
    /// them.
    ///
    /// Port B bit assignments: PB0 DATA-in, PB2 CLK-in, PB7 ATN-in, PB5-6 the
    /// device-address jumpers.
    ///
    /// **All three serial inputs are inverted**: they reach the VIA through
    /// inverting buffers, so a `1` means the line is *pulled low*, not high.
    /// The DOS's own bit-receive loop proves it for DATA:
    ///
    /// ```text
    ///   EA0B:  LDA $1800
    ///   EA0E:  EOR #$01     ; flip PB0 ...
    ///   EA10:  LSR A        ; ... into the carry
    ///   EA11:  AND #$02     ; (and isolate PB2, the clock)
    ///   EA13:  BNE $EA0B    ; wait for the clock edge
    ///   EA18:  ROR $85      ; the *flipped* PB0 is the data bit
    /// ```
    ///
    /// A released DATA line means a one bit, and the DOS shifts in `NOT PB0`,
    /// so `PB0 = 0` is a released line. The same loop pins CLK down: a listener
    /// samples on the clock's *rising* edge, and this one leaves the wait when
    /// PB2 is `0`, so `PB2 = 0` is CLK high.
    ///
    /// The DOS wires ATN to CA1 with PCR=$01 (rising edge), so the drive takes
    /// an interrupt the instant the C64 asserts ATN.
    pub fn sync_bus_in(&mut self, bus: &iec::Bus)
        ensures
            *final(self) == (Board { via1: bus_sampled(old(self).via1, *bus), ..*old(self) }),
    {
        let data: u8 = if bus.data() { 0x01 } else { 0 };
        let clk: u8 = if bus.clk() { 0x04 } else { 0 };
        let atn: u8 = if bus.atn() { 0x80 } else { 0 };
        // Device 8 leaves both jumpers grounded: bits 5 and 6 read 0.
        self.via1.pb_in = 0x9F - data - clk - atn;
        // CA1 = inverted ATN: high while ATN is asserted (bus low).
        self.via1.set_ca1(!bus.atn());
    }

    /// Push VIA1's outputs onto the bus after the CPU has run.
    ///
    /// PB1 and PB3 are the DOS's DATA and CLK outputs (1 = pull the line low).
    /// PB4 is **ATNA**, and it feeds a gate on the drive's board that also pulls
    /// DATA low, wired-OR with PB1.
    ///
    /// Its output pulls DATA low whenever **ATNA disagrees with ATN**, which is
    /// what makes a drive answer attention before its CPU has run. The DOS's
    /// handler then takes the hold over in software and hands it back:
    ///
    /// ```text
    ///   E870:  JSR $E9A5     ; PB1 = 1  -- pull DATA low in *software*
    ///   E873:  ORA #$10      ; ATNA = 1 -- and hand the hold over
    ///   ...
    ///   E9D7:  JSR $E99C     ; PB1 = 0  -- release the software hold
    ///   E9DC:  JMP $FF20     ; then WAIT for DATA to read low
    /// ```
    pub fn sync_bus_out(&self, bus: &mut iec::Bus, slot: usize)
        ensures
            *final(bus) == bus_driven(*self, *old(bus), slot as int),
            iec::bus_sound(*old(bus)) ==> iec::bus_sound(*final(bus)),
    {
        let pb = self.via1.port_b();
        let atna = pb & 0x10 != 0;
        let atn_asserted = !bus.atn();
        let data: u8 = if pb & 0x02 != 0 || atna != atn_asserted { line::DATA } else { 0 };
        let clk: u8 = if pb & 0x08 != 0 { line::CLK } else { 0 };
        bus.set_pulls(slot, data + clk);
    }
}

// ---- the drive ----

/// The whole drive: CPU + board. Kept as separate fields so the CPU can borrow
/// the board as its bus without aliasing.
pub struct Machine {
    pub cpu: Cpu,
    pub board: Board,
}

/// What every reachable drive keeps: the head stays on the disk.
pub open spec fn drive_sound(m: Machine) -> bool {
    c1541::disk::mechanism_sound(m.board.disk)
}

/// The drive after the VIAs and the disk caught up with `cycles`. BYTE-READY is
/// wired to the CPU's SO pin, which sets V.
#[verifier::opaque]
pub open spec fn drive_ticked(s: Core<Board>, cycles: u8) -> Core<Board> {
    let via2 = via6522::ticked(s.bus.via2, cycles as nat);
    let (disk, via2, ready) = c1541::disk::mechanism_ticked(s.bus.disk, via2, cycles as u32);
    Core {
        cpu: Cpu { v: s.cpu.v || ready, ..s.cpu },
        bus: Board { via1: via6522::ticked(s.bus.via1, cycles as nat), via2, disk, ..s.bus },
    }
}

/// Both VIAs share the IRQ line, which the CPU serves unless masked.
pub open spec fn drive_irq_served(s: Core<Board>) -> Core<Board> {
    if (via6522::asserts_irq(s.bus.via1) || via6522::asserts_irq(s.bus.via2)) && !s.cpu.i {
        cpu::hardware_interrupt(s, cpu::VEC_IRQ)
    } else {
        s
    }
}

/// One step: an instruction, then the VIAs and the disk, then an interrupt.
pub open spec fn drive_stepped(m: Machine) -> (Machine, u8) {
    let (s, cycles) = cpu::after_step(cpu::sys(m.cpu, m.board));
    let t = drive_irq_served(drive_ticked(s, cycles));
    (Machine { cpu: t.cpu, board: t.bus }, cycles)
}

/// The drive after `n` steps.
pub open spec fn drive_steps(m: Machine, n: nat) -> Machine
    decreases n,
{
    if n == 0 { m } else { drive_stepped(drive_steps(m, (n - 1) as nat)).0 }
}

/// The cycles that `n` steps take.
pub open spec fn drive_time(m: Machine, n: nat) -> nat
    decreases n,
{
    if n == 0 {
        0
    } else {
        drive_time(m, (n - 1) as nat) + drive_stepped(drive_steps(m, (n - 1) as nat)).1 as nat
    }
}

/// One step on a shared bus: sample it, step, drive it.
pub open spec fn drive_stepped_on_bus(m: Machine, bus: iec::Bus, slot: int) -> (Machine, iec::Bus, u8) {
    let sampled = Machine {
        board: Board { via1: bus_sampled(m.board.via1, bus), ..m.board }, ..m
    };
    let (t, cycles) = drive_stepped(sampled);
    (t, bus_driven(t.board, bus, slot), cycles)
}

/// Nothing the CPU does on the bus moves the head.
proof fn lemma_accesses_keep_disk()
    ensures
        laws::kept_by_accesses(|b: Board| c1541::disk::mechanism_sound(b.disk)),
{
    let p = |b: Board| c1541::disk::mechanism_sound(b.disk);
    assert forall|b: Board, at: u16| p(b) implies #[trigger] p(Bus::after_read(b, at)) by {}
    assert forall|b: Board, at: u16, val: u8| p(b) implies
        #[trigger] p(Bus::after_write(b, at, val)) by {}
}

proof fn lemma_step_keeps_disk(s: Core<Board>)
    requires
        c1541::disk::mechanism_sound(s.bus.disk),
    ensures
        c1541::disk::mechanism_sound(cpu::after_step(s).0.bus.disk),
{
    let p = |b: Board| c1541::disk::mechanism_sound(b.disk);
    lemma_accesses_keep_disk();
    laws::law_bus_invariant_kept(s, 0, p);
    assert(p(cpu::after_step(s).0.bus));
}

proof fn lemma_irq_keeps_disk(s: Core<Board>)
    requires
        c1541::disk::mechanism_sound(s.bus.disk),
    ensures
        c1541::disk::mechanism_sound(cpu::hardware_interrupt(s, cpu::VEC_IRQ).bus.disk),
{
    let p = |b: Board| c1541::disk::mechanism_sound(b.disk);
    lemma_accesses_keep_disk();
    laws::law_bus_invariant_kept(s, cpu::VEC_IRQ, p);
    assert(p(cpu::hardware_interrupt(s, cpu::VEC_IRQ).bus));
}

impl Machine {
    /// Build and reset a fresh drive.
    pub fn new(rom: &[u8; 0x4000]) -> (m: Self)
        ensures
            drive_factory(m.board, *rom),
            drive_sound(m),
            m.cpu == (Cpu {
                pc: cpu::word_of(rom[0x3FFC], rom[0x3FFD]),
                cycles: 7,
                ..cpu::power_on()
            }),
    {
        let mut m = Machine { cpu: Cpu::new(), board: Board::new(rom) };
        m.reset();
        m
    }

    /// Pull RESET: load PC from the reset vector.
    pub fn reset(&mut self)
        ensures
            *final(self) == (Machine {
                cpu: Cpu {
                    pc: cpu::word_of(old(self).board.rom[0x3FFC], old(self).board.rom[0x3FFD]),
                    sp: 0xFD,
                    i: true,
                    cycles: old(self).cpu.cycles.wrapping_add(7),
                    ..old(self).cpu
                },
                ..*old(self)
            }),
    {
        self.cpu.reset(&mut self.board);
    }

    /// Execute one instruction, advance both VIA timers by the cycles it took,
    /// rotate the disk under the head, and service an IRQ if either VIA is
    /// asserting one. Returns those cycles.
    ///
    /// The disk's BYTE-READY line is wired to the CPU's SO pin on real hardware,
    /// setting the V flag the moment a byte arrives; we reproduce that by setting
    /// `cpu.v` when the mechanism reports a fresh byte, which is what makes the
    /// DOS's `BVC` read loop advance.
    pub fn step(&mut self) -> (cycles: u8)
        requires
            drive_sound(*old(self)),
        ensures
            (*final(self), cycles) == drive_stepped(*old(self)),
            drive_sound(*final(self)),
    {
        proof {
            lemma_step_keeps_disk(cpu::sys(self.cpu, self.board));
        }
        let cycles = self.cpu.step(&mut self.board);
        self.catch_up(cycles);
        proof {
            lemma_irq_keeps_disk(cpu::sys(self.cpu, self.board));
        }
        if self.board.via1.irq_asserted() || self.board.via2.irq_asserted() {
            self.cpu.irq(&mut self.board);
        }
        cycles
    }

    /// Advance the VIAs and the disk by the cycles of an instruction.
    fn catch_up(&mut self, cycles: u8)
        requires
            drive_sound(*old(self)),
        ensures
            cpu::sys(final(self).cpu, final(self).board)
                == drive_ticked(cpu::sys(old(self).cpu, old(self).board), cycles),
            drive_sound(*final(self)),
    {
        reveal(drive_ticked);
        self.board.via1.tick(cycles as u32);
        self.board.via2.tick(cycles as u32);
        if self.board.disk.tick(&mut self.board.via2, cycles as u32) {
            self.cpu.v = true; // BYTE-READY -> SO pin -> V flag
        }
    }

    /// Insert a disk into the drive.
    pub fn insert_disk(&mut self, disk: Disk)
        ensures
            *final(self) == (Machine {
                board: Board {
                    disk: Controller {
                        disk: Some(disk), pos: 0, prev_byte: 0, sync: false, ..old(self).board.disk
                    },
                    ..old(self).board
                },
                ..*old(self)
            }),
            drive_sound(*old(self)) && c1541::disk::media_sound(disk) ==> drive_sound(*final(self)),
    {
        self.board.disk.insert(disk);
    }

    /// Execute one instruction with the drive's VIA1 wired to a shared serial
    /// `bus` at device slot `slot`: sample the bus in, step, drive the bus out.
    pub fn step_on_bus(&mut self, bus: &mut iec::Bus, slot: usize) -> (cycles: u8)
        requires
            drive_sound(*old(self)),
        ensures
            (*final(self), *final(bus), cycles)
                == drive_stepped_on_bus(*old(self), *old(bus), slot as int),
            drive_sound(*final(self)),
            iec::bus_sound(*old(bus)) ==> iec::bus_sound(*final(bus)),
    {
        self.board.sync_bus_in(bus);
        let cycles = self.step();
        self.board.sync_bus_out(bus, slot);
        cycles
    }

    /// Run for at least `cycles` clocks (finishing the instruction that crosses
    /// the boundary). Returns the number of instructions executed.
    pub fn run_cycles(&mut self, cycles: u64) -> (instrs: u64)
        requires
            drive_sound(*old(self)),
            cycles + 7 <= u64::MAX,
        ensures
            *final(self) == drive_steps(*old(self), instrs as nat),
            drive_time(*old(self), instrs as nat) >= cycles,
            instrs > 0 ==> drive_time(*old(self), (instrs - 1) as nat) < cycles,
            drive_sound(*final(self)),
    {
        let mut spent: u64 = 0;
        let mut instrs: u64 = 0;
        while spent < cycles
            invariant
                cycles + 7 <= u64::MAX,
                drive_sound(*self),
                *self == drive_steps(*old(self), instrs as nat),
                spent == drive_time(*old(self), instrs as nat),
                instrs <= spent,
                instrs > 0 ==> drive_time(*old(self), (instrs - 1) as nat) < cycles,
            decreases u64::MAX - spent,
        {
            proof {
                laws::law_cycles_bounded(cpu::sys(self.cpu, self.board));
            }
            spent += self.step() as u64;
            instrs += 1;
        }
        instrs
    }
}

// ---- what holds of the drive ----

/// The bits of what a drive pulls.
proof fn lemma_pull_bits()
    by (bit_vector)
    ensures
        0u8 & 1 == 0 && 2u8 & 1 == 0 && 4u8 & 1 == 0 && 6u8 & 1 == 0,
        0u8 & 2 == 0 && 2u8 & 2 != 0 && 4u8 & 2 == 0 && 6u8 & 2 != 0,
        0u8 & 4 == 0 && 2u8 & 4 == 0 && 4u8 & 4 != 0 && 6u8 & 4 != 0,
{
}

/// What a drive leaves on its slot: DATA and CLK follow VIA1's outputs and the
/// attention gate, and ATN is never pulled.
pub proof fn law_drive_outputs(b: Board, bus: iec::Bus, slot: int)
    requires
        0 <= slot < iec::MAX_DEVICES,
    ensures
        ({
            let pb = via6522::port_level(b.via1.orb, b.via1.ddrb, b.via1.pb_in);
            let after = bus_driven(b, bus, slot);
            let asserted = !iec::line_high(bus, iec::Line::Atn);
            &&& !iec::pulls_line(after, slot, iec::Line::Atn)
            &&& iec::pulls_line(after, slot, iec::Line::Clk) == (pb & 0x08 != 0)
            &&& iec::pulls_line(after, slot, iec::Line::Data) == drives_data(pb, asserted)
        }),
{
    lemma_pull_bits();
}

/// A drive answers attention in hardware: while ATN is asserted and the DOS has
/// not set ATNA, DATA is low once the drive has put its outputs on the bus,
/// whatever its CPU did.
pub proof fn law_attention_is_answered_in_hardware(b: Board, bus: iec::Bus, slot: int)
    requires
        0 <= slot < iec::MAX_DEVICES,
        !iec::line_high(bus, iec::Line::Atn),
        via6522::port_level(b.via1.orb, b.via1.ddrb, b.via1.pb_in) & 0x10 == 0,
    ensures
        !iec::line_high(bus_driven(b, bus, slot), iec::Line::Data),
{
    law_drive_outputs(b, bus, slot);
    assert(iec::pulls_line(bus_driven(b, bus, slot), slot, iec::Line::Data));
}

/// RAM reads back what was written, ROM does not change, and reading RAM or ROM
/// changes nothing.
pub proof fn law_drive_memory(b: Board, at: u16, val: u8)
    ensures
        at < 0x0800 ==> drive_value(drive_after_write(b, at, val), at) == val,
        at >= 0xC000 ==> drive_after_write(b, at, val) == b,
        at < 0x0800 || at >= 0xC000 ==> drive_after_read(b, at) == b,
{
}

/// The VIAs answer at every sixteenth address of their range.
pub proof fn law_vias_are_mirrored(b: Board, at: u16)
    requires
        0x1800 <= at < 0x1BF0 || 0x1C00 <= at < 0x1FF0,
    ensures
        drive_value(b, at) == drive_value(b, (at + 16) as u16),
        drive_after_read(b, at) == drive_after_read(b, (at + 16) as u16),
        forall|val: u8|
            #[trigger] drive_after_write(b, at, val) == drive_after_write(b, (at + 16) as u16, val),
{
}

} // verus!
