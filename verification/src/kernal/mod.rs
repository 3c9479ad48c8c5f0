//! C64 KERNAL routines as readable code.
//!
//! Nothing in the machine uses this module: it exists to make the KERNAL
//! legible. Each routine does to a 64 KB memory what the 6502 code of the same
//! address does, with the ROM listing quoted right above it, and says so in its
//! contract.
//!
//! - [`reset`]: RESET (`$FCE2`), **the KERNAL main**: the whole power-on boot
//!   chain (cartridge check, IOINIT, RAMTAS, RESTOR, CINT) ending at the
//!   `JMP ($A000)` hand-off to BASIC.
//! - [`irq`]: the default IRQ handler (`$EA31`) and keyboard scan (`$EA87`):
//!   what runs 60 times a second once interrupts are enabled.
//! - [`basic`]: the BASIC cold-start seam (`$E394`): the KERNAL-resident glue
//!   that sets up BASIC and prints the startup banner before the interpreter
//!   takes over. Stops at the KERNAL/BASIC-ROM boundary.
//! - [`vectors`]: RESTOR / VECTOR (`$FD15`/`$FD1A`): install & fetch the RAM
//!   I/O vectors. This is *why* so much of the KERNAL is reached indirectly.
//! - [`ramtas`]: RAMTAS (`$FD50`): power-on RAM test, clear, and size.
//! - [`udtim`]: UDTIM (`$F69B`): advance the jiffy clock and scan the STOP key.

use vstd::prelude::*;

pub mod basic;
pub mod effects;
pub mod irq;
pub mod laws;
pub mod loc;
pub mod ramtas;
pub mod reset;
pub mod udtim;
pub mod vectors;

verus! {

/// A 64 KB address space that models the one C64 banking rule the boot code
/// depends on: **writes always land in RAM, but reads in a banked ROM region
/// return the ROM.** That asymmetry is exactly how RAMTAS discovers the top of
/// RAM: it writes a test pattern, reads it back, and where a ROM shadows the
/// read the pattern "doesn't stick".
///
/// When `rom` is set it shadows reads in the BASIC ($A000-$BFFF) and KERNAL
/// ($E000-$FFFF) regions; the I/O area ($D000-$DFFF) and everything else always
/// read/write plain RAM. `rom` is `None` by default (all RAM).
pub struct C64Mem {
    pub ram: [u8; 0x1_0000],
    /// Optional 64 KB ROM image; only its $A000-$BFFF and $E000-$FFFF bytes are
    /// ever consulted (on reads).
    pub rom: Option<Vec<u8>>,
}

/// What a [`C64Mem`] holds.
#[verifier::ext_equal]
pub struct Memory {
    pub ram: Seq<u8>,
    pub rom: Option<Seq<u8>>,
}

impl View for C64Mem {
    type V = Memory;

    open spec fn view(&self) -> Memory {
        Memory {
            ram: self.ram@,
            rom: match self.rom {
                Some(rom) => Some(rom@),
                None => None,
            },
        }
    }
}

/// The address ranges where banked-in ROM shadows reads at boot.
pub open spec fn rom_region(addr: int) -> bool {
    0xA000 <= addr < 0xC000 || 0xE000 <= addr < 0x1_0000
}

impl Memory {
    /// The byte a read returns: ROM in the banked ROM regions, RAM elsewhere.
    pub open spec fn peek(self, addr: int) -> u8 {
        if self.rom is Some && rom_region(addr) { self.rom->0[addr] } else { self.ram[addr] }
    }

    /// The memory after a write, which lands in RAM even under a ROM.
    pub open spec fn poke(self, addr: int, val: u8) -> Memory {
        Memory { ram: self.ram.update(addr, val), ..self }
    }

    /// The memory after a run of bytes was written.
    pub open spec fn poke_all(self, base: int, bytes: Seq<u8>) -> Memory {
        Memory {
            ram: Seq::new(
                self.ram.len(),
                |a: int| if base <= a < base + bytes.len() { bytes[a - base] } else { self.ram[a] },
            ),
            ..self
        }
    }

    /// The little-endian word at an address, wrapping round at the top.
    pub open spec fn word(self, addr: int) -> u16 {
        (self.peek(addr) + 256 * self.peek((addr + 1) % 0x1_0000)) as u16
    }

    /// The little-endian word in zero page, wrapping round within it.
    pub open spec fn zp_word(self, zp: u8) -> u16 {
        (self.peek(zp as int) + 256 * self.peek((zp + 1) % 256)) as u16
    }

    /// The ROM image, where there is one, covers the address space.
    pub open spec fn covered(self) -> bool {
        self.rom is Some ==> self.rom->0.len() >= 0x1_0000
    }
}

/// True for the address ranges where banked-in ROM shadows reads at boot.
fn is_rom_region(addr: u16) -> (b: bool)
    ensures
        b == rom_region(addr as int),
{
    (0xA000 <= addr && addr <= 0xBFFF) || 0xE000 <= addr
}

impl Default for C64Mem {
    fn default() -> (m: Self)
        ensures
            m@.ram == Seq::new(0x1_0000, |a: int| 0u8),
            m@.rom is None,
    {
        let m = C64Mem { ram: [0; 0x1_0000], rom: None };
        assert(m@.ram =~= Seq::new(0x1_0000, |a: int| 0u8));
        m
    }
}

impl C64Mem {
    pub fn new() -> (m: Self)
        ensures
            m@.ram == Seq::new(0x1_0000, |a: int| 0u8),
            m@.rom is None,
    {
        Self::default()
    }

    /// Read a byte (`LDA`, `CMP`, ...). Returns ROM in the banked ROM regions.
    pub fn r(&self, addr: u16) -> (b: u8)
        requires
            self@.rom is Some && rom_region(addr as int) ==> addr < self@.rom->0.len(),
        ensures
            b == self@.peek(addr as int),
    {
        if let Some(rom) = &self.rom {
            if is_rom_region(addr) {
                return rom[addr as usize];
            }
        }
        self.ram[addr as usize]
    }

    /// Write a byte (`STA`, ...). Always writes RAM, even "under" a ROM.
    pub fn w(&mut self, addr: u16, val: u8)
        ensures
            final(self)@ == old(self)@.poke(addr as int, val),
    {
        self.ram[addr as usize] = val;
    }

    /// Write a run of bytes.
    pub fn w_all(&mut self, base: u16, bytes: &[u8])
        requires
            base + bytes.len() <= 0x1_0000,
        ensures
            final(self)@ == old(self)@.poke_all(base as int, bytes@),
    {
        let mut k: usize = 0;
        assert(self@ =~= old(self)@.poke_all(base as int, bytes@.take(0)));
        while k < bytes.len()
            invariant
                k <= bytes.len(),
                base + bytes.len() <= 0x1_0000,
                self@ == old(self)@.poke_all(base as int, bytes@.take(k as int)),
            decreases bytes.len() - k,
        {
            self.ram[base as usize + k] = bytes[k];
            assert(self@ =~= old(self)@.poke_all(base as int, bytes@.take(k + 1)));
            k += 1;
        }
        assert(bytes@.take(k as int) =~= bytes@);
    }

    /// The 16-bit little-endian pointer stored at zero page `zp`/`zp+1`: the
    /// base used by `($zp),Y` indirect-indexed addressing.
    pub fn zp_ptr(&self, zp: u8) -> (p: u16)
        ensures
            p == self@.zp_word(zp),
    {
        self.r(zp as u16) as u16 + 256 * (self.r(zp.wrapping_add(1) as u16) as u16)
    }

    /// The 16-bit little-endian word stored at any address `addr`/`addr+1`.
    pub fn zp_ptr_at(&self, addr: u16) -> (p: u16)
        requires
            self@.rom is Some ==> {
                let len = self@.rom->0.len();
                let next = (addr + 1) % 0x1_0000;
                (rom_region(addr as int) ==> addr < len) && (rom_region(next) ==> next < len)
            },
        ensures
            p == self@.word(addr as int),
    {
        self.r(addr) as u16 + 256 * (self.r(addr.wrapping_add(1)) as u16)
    }
}

// ---- named zero-page / KERNAL locations ----

/// TIME, the 24-bit jiffy clock: `$A0` high, `$A1` middle, `$A2` low.
pub const TIME_HI: u16 = 0x00A0;
pub const TIME_MID: u16 = 0x00A1;
pub const TIME_LO: u16 = 0x00A2;
/// STKEY, the latched STOP-key column read by UDTIM.
pub const STKEY: u16 = 0x0091;

/// CINV, base of the 16-entry RAM vector table ($0314..$0333).
pub const CINV: u16 = 0x0314;

/// CIA #1 ports (keyboard matrix).
pub const CIA1_PRA: u16 = 0xDC00;
pub const CIA1_PRB: u16 = 0xDC01;

/// MEMSTR/MEMSIZ, OS start-of-memory ($0281/$0282) and top-of-memory
/// ($0283/$0284) pointers that RAMTAS fills in.
pub const MEMSTR_HI: u16 = 0x0282;
pub const MEMSIZ_LO: u16 = 0x0283;
pub const MEMSIZ_HI: u16 = 0x0284;
/// High byte of the default screen page ($0288 -> $04 -> screen at $0400).
pub const SCREEN_PAGE: u16 = 0x0288;

/// A machine whose reads see banked-in ROM at $A000/$E000 (so RAMTAS finds RAM
/// ending at $A000). The ROM is filler except the BASIC cold-start vector at
/// $A000 -> $E394.
pub fn test_machine_with_rom() -> (m: C64Mem)
    ensures
        m@.ram == Seq::new(0x1_0000, |a: int| 0u8),
        m@.rom == Some(Seq::new(0x1_0000, |a: int|
            if a == 0xA000 { 0x94u8 } else if a == 0xA001 { 0xE3u8 } else { 0x60u8 })),
{
    let mut m = C64Mem::new();
    let mut rom: Vec<u8> = vec![0x60u8; 0x1_0000]; // filler that isn't the RAM-test pattern
    rom[0xA000] = 0x94; // BASIC cold-start vector lo
    rom[0xA001] = 0xE3; // BASIC cold-start vector hi -> $E394
    assert(rom@ =~= Seq::new(0x1_0000, |a: int|
        if a == 0xA000 { 0x94u8 } else if a == 0xA001 { 0xE3u8 } else { 0x60u8 }));
    m.rom = Some(rom);
    m
}

} // verus!
