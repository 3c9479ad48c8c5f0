//! A Commodore 64 machine.
//!
//! Wires the 6510 CPU to 64 KB RAM, the three ROMs, two CIAs, the SID and the
//! VIC-II, with the 6510/PLA memory banking that makes it all coexist. The CPU
//! borrows a [`Board`] as its bus; [`C64::step`] advances the chips and services
//! interrupts.
//!
//! Banking rule: **writes always land in RAM** unless I/O is mapped there;
//! reads see BASIC ROM ($A000-$BFFF), the character generator or I/O
//! ($D000-$DFFF), or KERNAL ROM ($E000-$FFFF) depending on the
//! LORAM/HIRAM/CHAREN bits of the 6510 port at $0001. That write-hits-RAM rule
//! is what lets the KERNAL's RAMTAS find the top of RAM under the ROMs.
//!
//! The machine takes the ROM images as byte slices.

use vstd::prelude::*;
use crate::cia6526::Cia;
use crate::mos6502::Bus;
use crate::sid::Sid;
use crate::vic2::Vic;
use crate::{cia6526, iec, sid, vic2};

pub mod joystick;
pub mod laws;
pub mod machine;
pub mod memory;

pub use machine::C64;

verus! {

/// A cartridge plugged into the expansion port.
///
/// The port is not just extra ROM: it carries two lines, `EXROM` and `GAME`,
/// that the PLA feeds into its banking decisions. Two layouts cover the great
/// majority of real cartridges:
///
/// | Kind | `EXROM` | `GAME` | Visible |
/// |------|---------|--------|---------|
/// | [`CartKind::Lo8k`] | low | high | 8 KB at `$8000` (ROML) |
/// | [`CartKind::Hi16k`] | low | low | 8 KB at `$8000` **and** 8 KB at `$A000` (ROMH) |
///
/// The second half of the 16 KB layout sits at `$A000`, exactly where BASIC ROM
/// lives, and **replaces it**.
///
/// A cartridge that wants to boot itself puts the `CBM80` signature at `$8004`;
/// the KERNAL's reset finds it and jumps through the vector at `$8000` before
/// BASIC is ever started.
pub struct Cartridge {
    pub kind: CartKind,
    /// ROML: the 8 KB seen at $8000-$9FFF.
    pub roml: [u8; 0x2000],
    /// ROMH: the 8 KB seen at $A000-$BFFF, for a 16 KB cartridge.
    pub romh: [u8; 0x2000],
}

/// Which expansion-port configuration a cartridge asserts.
#[derive(Debug, Clone, Copy, PartialEq, Eq, Structural)]
pub enum CartKind {
    /// 8 KB at `$8000` only.
    Lo8k,
    /// 16 KB: `$8000` plus `$A000`, displacing BASIC ROM.
    Hi16k,
}

/// Byte `at` of an image that is padded with zeros.
pub open spec fn padded(image: Seq<u8>, at: int) -> u8 {
    if at < image.len() { image[at] } else { 0 }
}

/// The first 8 KB of `rom` from `from` on, zero-padded.
fn eight_k(rom: &[u8], from: usize) -> (block: [u8; 0x2000])
    requires
        from <= 0x2000,
    ensures
        forall|k: int| 0 <= k < 0x2000 ==> #[trigger] block@[k] == padded(rom@, from + k),
{
    let mut block: [u8; 0x2000] = [0; 0x2000];
    let mut k: usize = 0;
    while k < 0x2000
        invariant
            k <= 0x2000,
            from <= 0x2000,
            forall|j: int| 0 <= j < k ==> #[trigger] block@[j] == padded(rom@, from + j),
            forall|j: int| k <= j < 0x2000 ==> #[trigger] block@[j] == 0,
        decreases 0x2000 - k,
    {
        if from + k < rom.len() {
            block[k] = rom[from + k];
        }
        k += 1;
    }
    block
}

impl Cartridge {
    /// An 8 KB cartridge at `$8000`. Shorter images are zero-padded.
    pub fn lo8k(rom: &[u8]) -> (c: Self)
        ensures
            c.kind == CartKind::Lo8k,
            forall|k: int| 0 <= k < 0x2000 ==> #[trigger] c.roml@[k] == padded(rom@, k),
            forall|k: int| 0 <= k < 0x2000 ==> #[trigger] c.romh@[k] == 0,
    {
        Cartridge { kind: CartKind::Lo8k, roml: eight_k(rom, 0), romh: [0; 0x2000] }
    }

    /// A 16 KB cartridge: the first 8 KB at `$8000`, the second at `$A000`.
    pub fn hi16k(rom: &[u8]) -> (c: Self)
        ensures
            c.kind == CartKind::Hi16k,
            forall|k: int| 0 <= k < 0x2000 ==> #[trigger] c.roml@[k] == padded(rom@, k),
            forall|k: int| 0 <= k < 0x2000 ==> #[trigger] c.romh@[k] == padded(rom@, 0x2000 + k),
    {
        Cartridge { kind: CartKind::Hi16k, roml: eight_k(rom, 0), romh: eight_k(rom, 0x2000) }
    }

    /// Which configuration this cartridge asserts.
    pub fn kind(&self) -> (k: CartKind)
        ensures
            k == self.kind,
    {
        self.kind
    }

    /// Does this cartridge ask to be started at reset (`CBM80` at `$8004`)?
    pub fn is_autostart(&self) -> (b: bool)
        ensures
            b == (self.roml@.subrange(4, 9) == seq![0xC3u8, 0xC2, 0xCD, 0x38, 0x30]),
    {
        let b = self.roml[4] == 0xC3 && self.roml[5] == 0xC2 && self.roml[6] == 0xCD
            && self.roml[7] == 0x38 && self.roml[8] == 0x30;
        proof {
            let s = self.roml@.subrange(4, 9);
            let cbm80 = seq![0xC3u8, 0xC2, 0xCD, 0x38, 0x30];
            assert(b ==> s =~= cbm80);
            assert(s == cbm80 ==> s[0] == cbm80[0] && s[1] == cbm80[1] && s[2] == cbm80[2]
                && s[3] == cbm80[3] && s[4] == cbm80[4]);
        }
        b
    }
}

/// Everything on the C64's bus.
pub struct Board {
    pub ram: [u8; 0x1_0000],
    pub kernal: [u8; 0x2000],
    pub basic: [u8; 0x2000],
    pub chargen: [u8; 0x1000],
    pub cia1: Cia,
    pub cia2: Cia,
    pub vic: Vic,
    pub sid: Sid,
    /// 6510 on-chip I/O port: data-direction ($0000) and data ($0001).
    pub port_ddr: u8,
    pub port_data: u8,
    /// Keyboard matrix: `key_matrix[c]` bit `r` set means the key wired to CIA1
    /// port-A select line `c` and port-B return line `r` is held down. Index by
    /// the KERNAL matrix code: line = idx/8, bit = idx%8.
    pub key_matrix: [u8; 8],
    /// Joystick states, **active-low**: a clear bit means pressed. Bits
    /// 0-4 = up/down/left/right/fire; default `$FF` (centered, not firing).
    /// Port 2 shares CIA1 port A ($DC00), port 1 shares port B ($DC01), the same
    /// pins the keyboard uses, so a joystick pulls those read lines low.
    pub joy1: u8,
    pub joy2: u8,
    /// The serial (IEC) bus hanging off CIA2. The C64 occupies
    /// [`iec::CONTROLLER`]; a drive attaches to another slot and is clocked by
    /// whoever owns both machines.
    pub iec: iec::Bus,
    /// A cartridge in the expansion port, if one is plugged in.
    pub cart: Option<Cartridge>,
}

// ---- banking ----

/// What the 6510 port pins say: an output bit its latch, an input bit high.
pub open spec fn bank_lines(b: Board) -> u8 {
    (b.port_data | !b.port_ddr) & 0x07
}

pub open spec fn loram_high(b: Board) -> bool {
    bank_lines(b) & 0x01 != 0
}

pub open spec fn hiram_high(b: Board) -> bool {
    bank_lines(b) & 0x02 != 0
}

pub open spec fn charen_high(b: Board) -> bool {
    bank_lines(b) & 0x04 != 0
}

/// I/O is visible at $D000-$DFFF when CHAREN is set and any ROM is banked.
pub open spec fn io_visible(b: Board) -> bool {
    charen_high(b) && (loram_high(b) || hiram_high(b))
}

/// Is a 16 KB cartridge asserting GAME, taking over `$A000`?
pub open spec fn cart_takes_basic(b: Board) -> bool {
    b.cart is Some && b.cart->0.kind == CartKind::Hi16k
}

/// BASIC is visible at $A000-$BFFF, unless a 16 KB cartridge has its place.
pub open spec fn basic_visible(b: Board) -> bool {
    loram_high(b) && hiram_high(b) && !cart_takes_basic(b)
}

/// The character ROM is visible at $D000-$DFFF when CHAREN is clear and any ROM
/// is banked.
pub open spec fn chargen_visible(b: Board) -> bool {
    !charen_high(b) && (loram_high(b) || hiram_high(b))
}

/// The port at `$01` as the CPU reads it.
pub open spec fn port01_level(b: Board) -> u8 {
    (b.port_data & b.port_ddr) | !b.port_ddr
}

// ---- I/O ----

/// The keyboard's return lines, for the first `n` columns: each column that
/// port A drives low pulls down the lines of its pressed keys.
pub open spec fn keyboard_rows(pra: u8, keys: Seq<u8>, n: int) -> u8
    decreases n,
{
    if n <= 0 {
        0xFF
    } else {
        let rows = keyboard_rows(pra, keys, n - 1);
        if pra & (1u8 << ((n - 1) as u8)) == 0 { rows & !keys[n - 1] } else { rows }
    }
}

/// The level of CIA1's port B pins: the keyboard, and joystick 1 on the same
/// lines.
pub open spec fn port_b_pins(b: Board) -> u8 {
    keyboard_rows(cia6526::port_level(b.cia1.pra, b.cia1.ddra, b.cia1.pa_in), b.key_matrix@, 8)
        & b.joy1
}

/// The serial bus as CIA2's port A sees it: bit 6 is CLK, bit 7 is DATA, each
/// high while the line is high. The other pins float high.
pub open spec fn serial_in(bus: iec::Bus) -> u8 {
    (255 - (if iec::line_high(bus, iec::Line::Clk) { 0int } else { 0x40 })
        - (if iec::line_high(bus, iec::Line::Data) { 0int } else { 0x80 })) as u8
}

/// The lines that CIA2's port A pulls low: bits 3, 4 and 5, inverted on their
/// way to ATN, CLK and DATA.
pub open spec fn serial_out(pra: u8) -> u8 {
    ((if pra & 0x08 != 0 { 1int } else { 0 }) + (if pra & 0x10 != 0 { 2int } else { 0 })
        + (if pra & 0x20 != 0 { 4int } else { 0 })) as u8
}

/// CIA1 as a read of port B finds it.
pub open spec fn cia1_sampled(b: Board, reg: u8) -> Cia {
    if reg == 1 { Cia { pb_in: port_b_pins(b), ..b.cia1 } } else { b.cia1 }
}

/// CIA2 as a read of port A finds it.
pub open spec fn cia2_sampled(b: Board, reg: u8) -> Cia {
    if reg == 0 { Cia { pa_in: serial_in(b.iec), ..b.cia2 } } else { b.cia2 }
}

/// What a read of an I/O address returns.
pub open spec fn io_value(b: Board, addr: u16) -> u8 {
    let reg = (addr % 16) as u8;
    if addr < 0xD400 {
        vic2::register(b.vic, (addr % 64) as u8)
    } else if addr < 0xD800 {
        sid::register(b.sid, (addr % 32) as u8)
    } else if addr < 0xDC00 {
        // Colour RAM: four bits, the others read high.
        (b.ram[addr as int] % 16 + 0xF0) as u8
    } else if addr < 0xDD00 {
        // Port A: a joystick in port 2 pulls its pins low.
        let v = cia6526::register(cia1_sampled(b, reg), reg);
        if reg == 0 { v & b.joy2 } else { v }
    } else if addr < 0xDE00 {
        cia6526::register(cia2_sampled(b, reg), reg)
    } else {
        0
    }
}

/// The board after a read of an I/O address.
pub open spec fn after_io_read(b: Board, addr: u16) -> Board {
    let reg = (addr % 16) as u8;
    if addr < 0xD400 {
        Board { vic: vic2::after_read(b.vic, (addr % 64) as u8), ..b }
    } else if addr < 0xDC00 {
        b
    } else if addr < 0xDD00 {
        Board { cia1: cia6526::after_read(cia1_sampled(b, reg), reg), ..b }
    } else if addr < 0xDE00 {
        Board { cia2: cia6526::after_read(cia2_sampled(b, reg), reg), ..b }
    } else {
        b
    }
}

/// The board after a write to an I/O address. A write to CIA2's port A or to
/// its direction register changes what the C64 pulls on the serial bus.
pub open spec fn after_io_write(b: Board, addr: u16, val: u8) -> Board {
    let reg = (addr % 16) as u8;
    if addr < 0xD400 {
        Board { vic: vic2::after_write(b.vic, (addr % 64) as u8, val), ..b }
    } else if addr < 0xD800 {
        Board { sid: sid::after_write(b.sid, (addr % 32) as u8, val), ..b }
    } else if addr < 0xDC00 {
        Board { ram: vstd::array::spec_array_update(b.ram, addr as int, val % 16), ..b }
    } else if addr < 0xDD00 {
        Board { cia1: cia6526::after_write(b.cia1, reg, val), ..b }
    } else if addr < 0xDE00 {
        let cia2 = cia6526::after_write(b.cia2, reg, val);
        let pra = cia6526::port_level(cia2.pra, cia2.ddra, cia2.pa_in);
        if reg == 0 || reg == 2 {
            Board {
                cia2,
                iec: iec::with_pulls(
                    b.iec, iec::CONTROLLER as int, serial_out(pra) & iec::line::ALL),
                ..b
            }
        } else {
            Board { cia2, ..b }
        }
    } else {
        b
    }
}

// ---- memory ----

/// What the CPU reads at an address.
pub open spec fn value_at(b: Board, addr: u16) -> u8 {
    if addr == 0 {
        b.port_ddr
    } else if addr == 1 {
        port01_level(b)
    } else if 0x8000 <= addr < 0xA000 && b.cart is Some && hiram_high(b) {
        b.cart->0.roml[addr - 0x8000]
    } else if 0xA000 <= addr < 0xC000 && cart_takes_basic(b) && hiram_high(b) {
        b.cart->0.romh[addr - 0xA000]
    } else if 0xA000 <= addr < 0xC000 && loram_high(b) && hiram_high(b) {
        b.basic[addr - 0xA000]
    } else if 0xD000 <= addr < 0xE000 && io_visible(b) {
        io_value(b, addr)
    } else if 0xD000 <= addr < 0xE000 && (loram_high(b) || hiram_high(b)) {
        b.chargen[addr - 0xD000]
    } else if 0xE000 <= addr && hiram_high(b) {
        b.kernal[addr - 0xE000]
    } else {
        b.ram[addr as int]
    }
}

/// The board after the CPU has read an address: only I/O reads have effects.
pub open spec fn board_after_read(b: Board, addr: u16) -> Board {
    if 0xD000 <= addr < 0xE000 && io_visible(b) { after_io_read(b, addr) } else { b }
}

/// The board after the CPU has written an address. Everything but the port and
/// visible I/O writes to RAM, also under the ROMs.
pub open spec fn board_after_write(b: Board, addr: u16, val: u8) -> Board {
    if addr == 0 {
        Board { port_ddr: val, ..b }
    } else if addr == 1 {
        Board { port_data: val, ..b }
    } else if 0xD000 <= addr < 0xE000 && io_visible(b) {
        after_io_write(b, addr, val)
    } else {
        Board { ram: vstd::array::spec_array_update(b.ram, addr as int, val), ..b }
    }
}

/// What every reachable board keeps: its VIC and its SID are sound.
pub open spec fn board_sound(b: Board) -> bool {
    vic2::vic_sound(b.vic) && sid::sid_sound(b.sid)
}

/// A key of the matrix pressed or released; there are 64 of them.
pub open spec fn key_set(b: Board, code: u8, pressed: bool) -> Board {
    if code >= 64 {
        b
    } else {
        let line = code as int / 8;
        let m = 1u8 << (code % 8);
        let keys = if pressed { b.key_matrix[line] | m } else { b.key_matrix[line] & !m };
        Board { key_matrix: vstd::array::spec_array_update(b.key_matrix, line, keys), ..b }
    }
}

/// A board fresh from the factory with these ROMs.
pub open spec fn factory(b: Board, kernal: Seq<u8>, basic: Seq<u8>, chargen: Seq<u8>) -> bool {
    &&& forall|k: int| 0 <= k < 0x1_0000 ==> #[trigger] b.ram@[k] == 0
    &&& b.kernal@ == kernal.take(0x2000)
    &&& b.basic@ == basic.take(0x2000)
    &&& b.chargen@ == chargen.take(0x1000)
    &&& cia6526::power_on(b.cia1) && cia6526::power_on(b.cia2)
    &&& vic2::power_on(b.vic) && sid::power_on(b.sid)
    &&& b.port_ddr == 0 && b.port_data == 0
    &&& forall|k: int| 0 <= k < 8 ==> #[trigger] b.key_matrix@[k] == 0
    &&& b.joy1 == 0xFF && b.joy2 == 0xFF
    &&& forall|d: int| 0 <= d < 4 ==> #[trigger] b.iec.pulls@[d] == 0
    &&& b.cart is None
}

impl Board {
    /// Build a board from the three ROM images (KERNAL 8K, BASIC 8K, CHARGEN 4K).
    pub fn new(kernal: &[u8], basic: &[u8], chargen: &[u8]) -> (b: Self)
        requires
            kernal.len() >= 0x2000,
            basic.len() >= 0x2000,
            chargen.len() >= 0x1000,
        ensures
            factory(b, kernal@, basic@, chargen@),
            board_sound(b),
    {
        let mut glyphs: [u8; 0x1000] = [0; 0x1000];
        let mut k: usize = 0;
        while k < 0x1000
            invariant
                k <= 0x1000,
                chargen.len() >= 0x1000,
                forall|j: int| 0 <= j < k ==> #[trigger] glyphs@[j] == chargen@[j],
            decreases 0x1000 - k,
        {
            glyphs[k] = chargen[k];
            k += 1;
        }
        let b = Board {
            ram: [0; 0x1_0000],
            kernal: eight_k(kernal, 0),
            basic: eight_k(basic, 0),
            chargen: glyphs,
            cia1: Cia::new(),
            cia2: Cia::new(),
            vic: Vic::new(),
            sid: Sid::new(),
            port_ddr: 0x00,
            port_data: 0x00,
            key_matrix: [0; 8],
            joy1: 0xFF,
            joy2: 0xFF,
            iec: iec::Bus::new(),
            cart: None,
        };
        assert(b.kernal@ =~= kernal@.take(0x2000));
        assert(b.basic@ =~= basic@.take(0x2000));
        assert(b.chargen@ =~= chargen@.take(0x1000));
        b
    }

    /// Effective LORAM/HIRAM/CHAREN bits: an output bit reads its latch, an input
    /// bit floats high (pull-ups on bits 0-2), giving the default $37 at reset.
    fn bank_bits(&self) -> (v: u8)
        ensures
            v == bank_lines(*self),
    {
        (self.port_data | !self.port_ddr) & 0x07
    }

    fn loram(&self) -> (b: bool)
        ensures
            b == loram_high(*self),
    {
        self.bank_bits() & 0x01 != 0
    }

    fn hiram(&self) -> (b: bool)
        ensures
            b == hiram_high(*self),
    {
        self.bank_bits() & 0x02 != 0
    }

    fn charen(&self) -> (b: bool)
        ensures
            b == charen_high(*self),
    {
        self.bank_bits() & 0x04 != 0
    }

    fn io_mapped(&self) -> (b: bool)
        ensures
            b == io_visible(*self),
    {
        self.charen() && (self.loram() || self.hiram())
    }

    /// The 6510 port at `$01` as the CPU reads it (banking latch).
    pub fn port01(&self) -> (v: u8)
        ensures
            v == port01_level(*self),
    {
        (self.port_data & self.port_ddr) | !self.port_ddr
    }

    /// Is a 16 KB cartridge asserting GAME, taking over `$A000`?
    fn cart_hi(&self) -> (b: bool)
        ensures
            b == cart_takes_basic(*self),
    {
        match &self.cart {
            Some(c) => c.kind == CartKind::Hi16k,
            None => false,
        }
    }

    /// What is currently banked in, for a status/monitor display:
    /// `(basic @ $A000, kernal @ $E000, io @ $D000, chargen @ $D000)`.
    pub fn banking(&self) -> (r: (bool, bool, bool, bool))
        ensures
            r.0 == basic_visible(*self),
            r.1 == hiram_high(*self),
            r.2 == io_visible(*self),
            r.3 == chargen_visible(*self),
    {
        let any_rom = self.loram() || self.hiram();
        (
            self.loram() && self.hiram() && !self.cart_hi(),
            self.hiram(),
            self.io_mapped(),
            !self.charen() && any_rom,
        )
    }

    fn io_read(&mut self, addr: u16) -> (v: u8)
        requires
            0xD000 <= addr < 0xE000,
        ensures
            v == io_value(*old(self), addr),
            *final(self) == after_io_read(*old(self), addr),
    {
        if addr < 0xD400 {
            self.vic.read((addr % 64) as u8)
        } else if addr < 0xD800 {
            self.sid.read((addr % 32) as u8)
        } else if addr < 0xDC00 {
            self.ram[addr as usize] % 16 + 0xF0 // colour RAM (4-bit)
        } else if addr < 0xDD00 {
            let reg = (addr % 16) as u8;
            if reg == 0 {
                // Port A ($DC00): keyboard column drive, but a joystick in port 2
                // pulls its pins low regardless, so AND its mask into the read.
                self.cia1.read(0) & self.joy2
            } else if reg == 1 {
                // Port B ($DC01): the keyboard rows for whichever columns port A
                // is driving low, plus a joystick in port 1 on the same lines.
                self.cia1.pb_in = self.keyboard_prb() & self.joy1;
                self.cia1.read(1)
            } else {
                self.cia1.read(reg)
            }
        } else if addr < 0xDE00 {
            let reg = (addr % 16) as u8;
            // Reading CIA2 port A samples the two serial-bus input lines.
            if reg == 0 {
                self.sync_iec_in();
            }
            self.cia2.read(reg)
        } else {
            0 // I/O expansion
        }
    }

    /// Sample the serial bus into CIA2's port-A input pins.
    ///
    /// `$DD00` bit 6 is CLK IN and bit 7 is DATA IN, and unlike the *output*
    /// bits they are **not** inverted: the bit reads `1` when the line is high
    /// (released) and `0` when some device is pulling it low. The C64 sees its
    /// own output pulls here too.
    fn sync_iec_in(&mut self)
        ensures
            *final(self) == (Board {
                cia2: Cia { pa_in: serial_in(old(self).iec), ..old(self).cia2 }, ..*old(self)
            }),
    {
        let clk: u8 = if self.iec.clk() { 0 } else { 0x40 };
        let data: u8 = if self.iec.data() { 0 } else { 0x80 };
        self.cia2.pa_in = 0xFF - clk - data;
    }

    /// Push CIA2's serial-bus output bits onto the bus.
    ///
    /// `$DD00` bits 3/4/5 are ATN/CLK/DATA out, and the 7406 buffers on the
    /// board **invert** them: a `1` in the register pulls its line **low**. A
    /// register of all zeroes is an idle bus with every line released.
    fn sync_iec_out(&mut self)
        ensures
            *final(self) == (Board {
                iec: iec::with_pulls(
                    old(self).iec,
                    iec::CONTROLLER as int,
                    serial_out(cia6526::port_level(
                        old(self).cia2.pra, old(self).cia2.ddra, old(self).cia2.pa_in))
                        & iec::line::ALL,
                ),
                ..*old(self)
            }),
    {
        let pra = self.cia2.port_a();
        let atn: u8 = if pra & 0x08 != 0 { iec::line::ATN } else { 0 };
        let clk: u8 = if pra & 0x10 != 0 { iec::line::CLK } else { 0 };
        let data: u8 = if pra & 0x20 != 0 { iec::line::DATA } else { 0 };
        self.iec.set_pulls(iec::CONTROLLER, atn + clk + data);
    }

    /// Read a byte the way the CPU would, for tests and debuggers.
    ///
    /// Goes through the real banking, so it sees what the CPU sees rather than
    /// raw RAM. It is **not** side-effect free: reading an I/O register here
    /// clears the same latches it would clear for the CPU, because it is the
    /// same read.
    pub fn peek(&mut self, addr: u16) -> (v: u8)
        ensures
            v == value_at(*old(self), addr),
            *final(self) == board_after_read(*old(self), addr),
    {
        self.read(addr)
    }

    /// Plug a cartridge into the expansion port (or unplug with `None`).
    pub fn set_cartridge(&mut self, cart: Option<Cartridge>)
        ensures
            *final(self) == (Board { cart, ..*old(self) }),
    {
        self.cart = cart;
    }

    /// The cartridge currently plugged in, if any.
    pub fn cartridge(&self) -> (c: Option<&Cartridge>)
        ensures
            match self.cart {
                Some(cart) => c == Some(&cart),
                None => c is None,
            },
    {
        self.cart.as_ref()
    }

    /// Compute the CIA1 port-B keyboard return lines from the matrix and the
    /// columns currently selected (driven low) on port A.
    fn keyboard_prb(&self) -> (rows: u8)
        ensures
            rows == keyboard_rows(
                cia6526::port_level(self.cia1.pra, self.cia1.ddra, self.cia1.pa_in),
                self.key_matrix@,
                8,
            ),
    {
        let pra = self.cia1.port_a();
        let mut rows: u8 = 0xFF;
        let mut col: usize = 0;
        while col < 8
            invariant
                col <= 8,
                rows == keyboard_rows(pra, self.key_matrix@, col as int),
            decreases 8 - col,
        {
            if pra & (1u8 << (col as u8)) == 0 {
                rows = rows & !self.key_matrix[col];
            }
            col += 1;
        }
        rows
    }

    /// Press (`true`) or release a key by its KERNAL matrix code (0..63).
    pub fn set_key(&mut self, matrix_code: u8, pressed: bool)
        ensures
            *final(self) == key_set(*old(self), matrix_code, pressed),
    {
        if matrix_code >= 64 {
            return;
        }
        let line = (matrix_code / 8) as usize;
        let m = 1u8 << (matrix_code % 8);
        if pressed {
            self.key_matrix[line] = self.key_matrix[line] | m;
        } else {
            self.key_matrix[line] = self.key_matrix[line] & !m;
        }
    }

    fn io_write(&mut self, addr: u16, val: u8)
        requires
            0xD000 <= addr < 0xE000,
        ensures
            *final(self) == after_io_write(*old(self), addr, val),
    {
        if addr < 0xD400 {
            self.vic.write((addr % 64) as u8, val);
        } else if addr < 0xD800 {
            self.sid.write((addr % 32) as u8, val);
        } else if addr < 0xDC00 {
            self.ram[addr as usize] = val % 16; // colour RAM
        } else if addr < 0xDD00 {
            self.cia1.write((addr % 16) as u8, val);
        } else if addr < 0xDE00 {
            let reg = (addr % 16) as u8;
            self.cia2.write(reg, val);
            // Port A or its direction register changed the levels the C64
            // is driving onto the serial bus.
            if reg == 0x00 || reg == 0x02 {
                self.sync_iec_out();
            }
        }
    }

    /// CIA2 port A. Its low two bits pick the VIC's 16 KB bank (used by the
    /// renderer).
    pub fn cia2_pra(&self) -> (v: u8)
        ensures
            v == cia6526::port_level(self.cia2.pra, self.cia2.ddra, self.cia2.pa_in),
    {
        self.cia2.port_a()
    }
}

impl Bus for Board {
    open spec fn after_read(self, addr: u16) -> Self {
        board_after_read(self, addr)
    }

    open spec fn read_value(self, addr: u16) -> u8 {
        value_at(self, addr)
    }

    open spec fn after_write(self, addr: u16, val: u8) -> Self {
        board_after_write(self, addr, val)
    }

    fn read(&mut self, addr: u16) -> (v: u8) {
        if addr == 0x0000 {
            self.port_ddr
        } else if addr == 0x0001 {
            self.port01()
        } else if addr < 0x8000 {
            self.ram[addr as usize]
        } else if addr < 0xA000 {
            // ROML: an 8 KB cartridge appears here whenever the 6510 has HIRAM
            // set, which it does in the machine's normal state.
            match &self.cart {
                Some(c) => if self.hiram() {
                    c.roml[(addr - 0x8000) as usize]
                } else {
                    self.ram[addr as usize]
                },
                None => self.ram[addr as usize],
            }
        } else if addr < 0xC000 {
            // ROMH *replaces* BASIC: a 16 KB cartridge wins this region, and
            // that is precisely how it stops BASIC from ever running.
            if self.hiram() {
                if let Some(c) = &self.cart {
                    if c.kind == CartKind::Hi16k {
                        return c.romh[(addr - 0xA000) as usize];
                    }
                }
                if self.loram() {
                    return self.basic[(addr - 0xA000) as usize];
                }
            }
            self.ram[addr as usize]
        } else if 0xD000 <= addr && addr < 0xE000 && (self.loram() || self.hiram()) {
            if self.charen() {
                self.io_read(addr)
            } else {
                self.chargen[(addr - 0xD000) as usize]
            }
        } else if 0xE000 <= addr && self.hiram() {
            self.kernal[(addr - 0xE000) as usize]
        } else {
            self.ram[addr as usize]
        }
    }

    fn write(&mut self, addr: u16, val: u8) {
        if addr == 0x0000 {
            self.port_ddr = val;
        } else if addr == 0x0001 {
            self.port_data = val;
        } else if 0xD000 <= addr && addr < 0xE000 && self.io_mapped() {
            self.io_write(addr, val);
        } else {
            // Everything else, also under the ROMs, writes to RAM.
            self.ram[addr as usize] = val;
        }
    }
}

} // verus!
