//! The whole machine: CPU and board, stepped together.

use vstd::prelude::*;
use crate::c64::{Board, Cartridge};
use crate::mos6502::cpu::Core;
use crate::mos6502::{cpu, Cpu};
use crate::vic2::picture::Scene;
use crate::vic2::{picture, render};
use crate::{c64, cia6526, sid, vic2};

verus! {

/// About one PAL frame, in CPU cycles.
pub const FRAME_CYCLES: u64 = 19_700;

/// The most cycles one step can take: an instruction, an IRQ and an NMI.
pub const MAX_STEP: u64 = 22;

/// The whole machine: CPU + board.
pub struct C64 {
    pub cpu: Cpu,
    pub board: Board,
    /// The level of the NMI line after the previous step.
    pub prev_nmi: bool,
}

/// The chips after the cycles of an instruction.
pub open spec fn chips_ticked(b: Board, cycles: nat) -> Board {
    Board {
        cia1: cia6526::ticked(b.cia1, cycles),
        cia2: cia6526::ticked(b.cia2, cycles),
        vic: vic2::ticked(b.vic, cycles as int),
        sid: sid::clocked(b.sid, cycles),
        ..b
    }
}

/// CIA1 and the VIC share the IRQ line, which the CPU serves unless masked.
pub open spec fn irq_served(s: Core<Board>) -> Core<Board> {
    if (cia6526::asserts_irq(s.bus.cia1) || vic2::asserts_irq(s.bus.vic)) && !s.cpu.i {
        cpu::hardware_interrupt(s, cpu::VEC_IRQ)
    } else {
        s
    }
}

/// CIA2 drives the NMI line, which the CPU serves on its rising edge.
pub open spec fn nmi_served(s: Core<Board>, prev_nmi: bool) -> Core<Board> {
    if cia6526::asserts_irq(s.bus.cia2) && !prev_nmi {
        cpu::hardware_interrupt(s, cpu::VEC_NMI)
    } else {
        s
    }
}

/// One step: an instruction, then the chips catch up, then interrupts.
pub open spec fn stepped(m: C64) -> (C64, u8) {
    let (s, cycles) = cpu::after_step(Core { cpu: m.cpu, bus: m.board });
    let t = irq_served(Core { bus: chips_ticked(s.bus, cycles as nat), ..s });
    let u = nmi_served(t, m.prev_nmi);
    (C64 { cpu: u.cpu, board: u.bus, prev_nmi: cia6526::asserts_irq(t.bus.cia2) }, cycles)
}

/// RAM after the first `n` bytes of a program were loaded, wrapping round at the
/// top of memory.
pub open spec fn loaded(ram: Seq<u8>, load: int, data: Seq<u8>, n: int) -> Seq<u8>
    decreases n,
{
    if n <= 0 {
        ram
    } else {
        loaded(ram, load, data, n - 1).update((load + n - 1) % 0x1_0000, data[n - 1])
    }
}

/// RAM after BASIC's pointers to the end of the program (VARTAB, ARYTAB and
/// STREND) were set.
pub open spec fn basic_end_set(ram: Seq<u8>, end: int) -> Seq<u8> {
    let lo = (end % 256) as u8;
    let hi = (end / 256) as u8;
    ram.update(0x2D, lo).update(0x2E, hi).update(0x2F, lo).update(0x30, hi)
        .update(0x31, lo).update(0x32, hi)
}

/// The load address of a program image.
pub open spec fn load_address(prg: Seq<u8>) -> int {
    prg[0] + 256 * prg[1]
}

/// RAM after a program image was loaded. One for $0801 is a BASIC program.
pub open spec fn ram_with_prg(ram: Seq<u8>, prg: Seq<u8>) -> Seq<u8> {
    let load = load_address(prg);
    let data = prg.skip(2);
    let r = loaded(ram, load, data, data.len() as int);
    if load == 0x0801 { basic_end_set(r, (load + data.len()) % 0x1_0000) } else { r }
}

/// What the VIC of a board draws from.
pub open spec fn board_scene(b: Board) -> Scene {
    render::scene(
        b.vic, b.ram@, b.chargen@, cia6526::port_level(b.cia2.pra, b.cia2.ddra, b.cia2.pa_in))
}

/// A machine and the frame buffer it draws into.
pub struct Showing {
    pub m: C64,
    pub fb: Seq<u32>,
    /// The lines drawn so far.
    pub drawn: Seq<bool>,
}

/// Display line `y` drawn with the board as it is now.
pub open spec fn drawn_line(s: Showing, y: int) -> Showing {
    let scene = board_scene(s.m.board);
    let vic = picture::collisions_noted(
        s.m.board.vic, picture::sprite_hits(scene, y), picture::background_hits(scene, y));
    Showing {
        m: C64 { board: Board { vic, ..s.m.board }, ..s.m },
        fb: picture::line_drawn(s.fb, scene, y),
        drawn: s.drawn.update(y, true),
    }
}

/// Lines up to `n` drawn, those already drawn left alone.
pub open spec fn lines_filled(s: Showing, n: int) -> Showing
    decreases n,
{
    if n <= 0 {
        s
    } else {
        let p = lines_filled(s, n - 1);
        if s.drawn[n - 1] { p } else { drawn_line(p, n - 1) }
    }
}

/// One beat of a frame: the line under the beam is drawn when the beam first
/// gets there, then the machine steps.
#[verifier::opaque]
pub open spec fn beat(s: Showing) -> Showing {
    let line = s.m.board.vic.raster as int;
    let p = if line < vic2::HEIGHT && !s.drawn[line] { drawn_line(s, line) } else { s };
    Showing { m: stepped(p.m).0, ..p }
}

/// `n` beats of a frame.
pub open spec fn beats(s: Showing, n: nat) -> Showing
    decreases n,
{
    if n == 0 { s } else { beat(beats(s, (n - 1) as nat)) }
}

/// The first `n` beats all start before `deadline`.
pub open spec fn beats_before(s: Showing, deadline: u64, n: nat) -> bool {
    forall|k: nat| k < n ==> #[trigger] beats(s, k).m.cpu.cycles < deadline
}

/// The start of a frame: nothing drawn yet.
pub open spec fn frame_start(m: C64, fb: Seq<u32>) -> Showing {
    Showing { m, fb, drawn: Seq::new(vic2::HEIGHT as nat, |k: int| false) }
}

// ---- soundness and time ----

/// No bus access breaks a board.
pub proof fn lemma_accesses_keep_board()
    ensures
        crate::mos6502::laws::kept_by_accesses(|b: Board| c64::board_sound(b)),
{
    let p = |b: Board| c64::board_sound(b);
    assert forall|b: Board, at: u16, val: u8| p(b) implies
        #[trigger] p(crate::mos6502::Bus::after_write(b, at, val)) by {
        lemma_sid_write_sound(b.sid, (at % 32) as u8, val);
        assert(vic2::vic_sound(vic2::after_write(b.vic, (at % 64) as u8, val)));
    }
    assert forall|b: Board, at: u16| p(b) implies
        #[trigger] p(crate::mos6502::Bus::after_read(b, at)) by {}
}

proof fn lemma_sid_write_sound(s: sid::Sid, reg: u8, val: u8)
    requires
        sid::sid_sound(s),
    ensures
        sid::sid_sound(sid::after_write(s, reg, val)),
{
    let r = reg as int % 32;
    if r < 21 {
        assert(sid::voice_sound(sid::voice_written(s.voices[r / 7], r % 7, val)));
    }
}

/// A step keeps the board sound and moves the cycle counter on by at least two
/// and at most [`MAX_STEP`].
pub proof fn law_step_moves_time(m: C64)
    requires
        m.cpu.cycles + MAX_STEP <= u64::MAX,
    ensures
        m.cpu.cycles + 2 <= stepped(m).0.cpu.cycles <= m.cpu.cycles + MAX_STEP,
{
    let s0 = Core { cpu: m.cpu, bus: m.board };
    crate::mos6502::laws::law_cycles_bounded(s0);
    let (s, cycles) = cpu::after_step(s0);
    let t0 = Core { bus: chips_ticked(s.bus, cycles as nat), ..s };
    assert(cpu::hardware_interrupt(t0, cpu::VEC_IRQ).cpu.cycles == t0.cpu.cycles.wrapping_add(7));
    let t = irq_served(t0);
    assert(cpu::hardware_interrupt(t, cpu::VEC_NMI).cpu.cycles == t.cpu.cycles.wrapping_add(7));
}

impl C64 {
    /// Build and reset a fresh C64 from its ROM images.
    pub fn new(kernal: &[u8], basic: &[u8], chargen: &[u8]) -> (m: Self)
        requires
            kernal.len() >= 0x2000,
            basic.len() >= 0x2000,
            chargen.len() >= 0x1000,
        ensures
            c64::factory(m.board, kernal@, basic@, chargen@),
            c64::board_sound(m.board),
            m.cpu == (Cpu {
                pc: cpu::word_of(kernal@[0x1FFC], kernal@[0x1FFD]),
                cycles: 7,
                ..cpu::power_on()
            }),
            !m.prev_nmi,
    {
        let mut m = C64 {
            cpu: Cpu::new(),
            board: Board::new(kernal, basic, chargen),
            prev_nmi: false,
        };
        proof {
            lemma_reset_banking(m.board);
        }
        m.cpu.reset(&mut m.board);
        m
    }

    /// Execute one instruction, advance the chips by the cycles it took, and
    /// service interrupts (CIA1 -> IRQ, CIA2 -> NMI on its rising edge).
    pub fn step(&mut self) -> (cycles: u8)
        requires
            c64::board_sound(old(self).board),
        ensures
            (*final(self), cycles) == stepped(*old(self)),
            c64::board_sound(final(self).board),
    {
        proof {
            lemma_accesses_keep_board();
            let p = |b: Board| c64::board_sound(b);
            let s0 = Core { cpu: self.cpu, bus: self.board };
            assert(p(s0.bus));
            crate::mos6502::laws::law_bus_invariant_kept(s0, 0, p);
            crate::mos6502::laws::law_cycles_bounded(s0);
        }
        let cycles = self.cpu.step(&mut self.board);
        let c = cycles as u32;
        self.board.cia1.tick(c);
        self.board.cia2.tick(c);
        self.board.vic.tick(c);
        self.board.sid.clock(c);
        proof {
            let p = |b: Board| c64::board_sound(b);
            let t0 = Core { cpu: self.cpu, bus: self.board };
            assert(p(t0.bus));
            crate::mos6502::laws::law_bus_invariant_kept(t0, cpu::VEC_IRQ, p);
            let t = irq_served(t0);
            assert(p(t.bus));
            crate::mos6502::laws::law_bus_invariant_kept(t, cpu::VEC_NMI, p);
        }

        if self.board.cia1.irq_asserted() || self.board.vic.irq_asserted() {
            self.cpu.irq(&mut self.board);
        }
        let nmi = self.board.cia2.irq_asserted();
        if nmi && !self.prev_nmi {
            self.cpu.nmi(&mut self.board);
        }
        self.prev_nmi = nmi;

        cycles
    }

    /// Load a `.prg` image (first two bytes = little-endian load address, rest =
    /// data) straight into RAM. If it's a BASIC program (load address $0801),
    /// also fix the BASIC end-of-program pointers so `RUN`/`LIST` see it.
    /// Returns the load address, 0 for an image too short to have one. Do this
    /// once the machine has booted to READY.
    pub fn load_prg(&mut self, prg: &[u8]) -> (load: u16)
        ensures
            prg.len() < 2 ==> load == 0 && *final(self) == *old(self),
            prg.len() >= 2 ==> {
                &&& load == load_address(prg@)
                &&& final(self).board.ram@ == ram_with_prg(old(self).board.ram@, prg@)
                &&& *final(self) == (C64 {
                    board: Board { ram: final(self).board.ram, ..old(self).board },
                    ..*old(self)
                })
            },
    {
        if prg.len() < 2 {
            return 0;
        }
        let load: u16 = prg[0] as u16 + 256 * (prg[1] as u16);
        let n = prg.len() - 2;
        let ghost data = prg@.skip(2);
        let mut i: usize = 0;
        while i < n
            invariant
                i <= n,
                n == prg.len() - 2,
                data == prg@.skip(2),
                self.board.ram@ == loaded(old(self).board.ram@, load as int, data, i as int),
                *self == (C64 {
                    board: Board { ram: self.board.ram, ..old(self).board }, ..*old(self)
                }),
            decreases n - i,
        {
            let at = (load as usize + i % 0x1_0000) % 0x1_0000;
            assert(at == (load + i) % 0x1_0000);
            self.board.ram[at] = prg[i + 2];
            i += 1;
        }
        if load == 0x0801 {
            let end: usize = (load as usize + n % 0x1_0000) % 0x1_0000;
            assert(end == (load + n) % 0x1_0000);
            let lo = (end % 256) as u8;
            let hi = (end / 256) as u8;
            // VARTAB / ARYTAB / STREND all point just past the program.
            self.board.ram[0x2D] = lo;
            self.board.ram[0x2E] = hi;
            self.board.ram[0x2F] = lo;
            self.board.ram[0x30] = hi;
            self.board.ram[0x31] = lo;
            self.board.ram[0x32] = hi;
        }
        load
    }

    /// Plug a cartridge in and reset, so the KERNAL's reset finds it.
    ///
    /// The order matters: a cartridge is only *started* by the check at `$FD02`
    /// during reset, so plugging one into a running machine changes what memory
    /// looks like but does not hand control over.
    pub fn insert_cartridge(&mut self, cart: Cartridge)
        ensures
            ({
                let plugged = Core {
                    cpu: old(self).cpu,
                    bus: Board { cart: Some(cart), ..old(self).board },
                };
                let (after, pc) = cpu::read_word(plugged, cpu::VEC_RESET);
                *final(self) == (C64 {
                    board: after.bus,
                    cpu: Cpu {
                        pc,
                        sp: 0xFD,
                        i: true,
                        cycles: old(self).cpu.cycles.wrapping_add(7),
                        ..old(self).cpu
                    },
                    ..*old(self)
                })
            }),
            c64::board_sound(old(self).board) ==> c64::board_sound(final(self).board),
    {
        self.board.set_cartridge(Some(cart));
        proof {
            if c64::board_sound(self.board) {
                lemma_accesses_keep_board();
                let p = |b: Board| c64::board_sound(b);
                assert(p(self.board));
                crate::mos6502::laws::law_bus_invariant_kept(
                    Core { cpu: self.cpu, bus: self.board }, cpu::VEC_RESET, p);
            }
        }
        self.cpu.reset(&mut self.board);
    }

    /// Trigger an NMI: the C64's RESTORE key is wired to the CPU's NMI line, so
    /// this is how a host binds it. (RUN/STOP held + RESTORE = warm reset, which
    /// the KERNAL's NMI handler does on its own.)
    pub fn nmi(&mut self)
        ensures
            ({
                let s = cpu::hardware_interrupt(
                    Core { cpu: old(self).cpu, bus: old(self).board }, cpu::VEC_NMI);
                *final(self) == (C64 { cpu: s.cpu, board: s.bus, ..*old(self) })
            }),
            c64::board_sound(old(self).board) ==> c64::board_sound(final(self).board),
    {
        proof {
            if c64::board_sound(self.board) {
                lemma_accesses_keep_board();
                let p = |b: Board| c64::board_sound(b);
                assert(p(self.board));
                crate::mos6502::laws::law_bus_invariant_kept(
                    Core { cpu: self.cpu, bus: self.board }, cpu::VEC_NMI, p);
            }
        }
        self.cpu.nmi(&mut self.board);
    }

    /// Set a joystick's state. `port` is 1 or 2 (any other is ignored); `mask`
    /// is active-low with bits 0-4 = up/down/left/right/fire (a clear bit =
    /// pressed), so `$FF` is centered and not firing. Build it from the
    /// [`crate::c64::joystick`] constants.
    pub fn set_joystick(&mut self, port: u8, mask: u8)
        ensures
            *final(self) == (C64 {
                board: Board {
                    joy1: if port == 1 { mask } else { old(self).board.joy1 },
                    joy2: if port == 2 { mask } else { old(self).board.joy2 },
                    ..old(self).board
                },
                ..*old(self)
            }),
    {
        match port {
            1 => self.board.joy1 = mask,
            2 => self.board.joy2 = mask,
            _ => {},
        }
    }

    /// Draw display line `y` with the board as it is now.
    pub(crate) fn draw_line(&mut self, y: usize, fb: &mut [u32], Ghost(drawn): Ghost<Seq<bool>>)
        requires
            y < vic2::HEIGHT,
            old(fb).len() >= 64000,
        ensures
            (Showing { m: *final(self), fb: final(fb)@, drawn: drawn.update(y as int, true) })
                == drawn_line(Showing { m: *old(self), fb: old(fb)@, drawn }, y as int),
            c64::board_sound(old(self).board) ==> c64::board_sound(final(self).board),
            final(fb)@.len() == old(fb)@.len(),
            final(self).cpu == old(self).cpu,
    {
        let cia2 = self.board.cia2_pra();
        self.board.vic.render_line(
            y, self.board.ram.as_slice(), self.board.chargen.as_slice(), cia2, fb);
    }

    /// Render the whole display in one shot with the current VIC state
    /// (no mid-frame raster effects). Handy for tests and simple use.
    ///
    /// `&mut self` because rendering is when the VIC detects sprite collisions.
    pub fn render(&mut self, fb: &mut [u32])
        requires
            old(fb).len() >= 64000,
        ensures
            ({
                let r = lines_filled(frame_start(*old(self), old(fb)@), vic2::HEIGHT as int);
                *final(self) == r.m && final(fb)@ == r.fb
            }),
            c64::board_sound(old(self).board) ==> c64::board_sound(final(self).board),
    {
        let ghost start = frame_start(*self, fb@);
        let ghost mut drawn: Seq<bool> = start.drawn;
        let mut y: usize = 0;
        while y < vic2::HEIGHT
            invariant
                y <= vic2::HEIGHT,
                old(fb).len() >= 64000,
                fb@.len() == old(fb)@.len(),
                start == frame_start(*old(self), old(fb)@),
                (Showing { m: *self, fb: fb@, drawn }) == lines_filled(start, y as int),
                c64::board_sound(old(self).board) ==> c64::board_sound(self.board),
            decreases vic2::HEIGHT - y,
        {
            self.draw_line(y, fb, Ghost(drawn));
            proof {
                drawn = drawn.update(y as int, true);
            }
            y += 1;
        }
    }

    /// Draw the line under the beam unless it is drawn already, then step.
    fn frame_beat(&mut self, fb: &mut [u32], rendered: &mut [bool; vic2::HEIGHT])
        requires
            c64::board_sound(old(self).board),
            old(fb).len() >= 64000,
            old(self).cpu.cycles + MAX_STEP <= u64::MAX,
        ensures
            (Showing { m: *final(self), fb: final(fb)@, drawn: final(rendered)@ })
                == beat(Showing { m: *old(self), fb: old(fb)@, drawn: old(rendered)@ }),
            c64::board_sound(final(self).board),
            final(fb)@.len() == old(fb)@.len(),
            old(self).cpu.cycles < final(self).cpu.cycles,
    {
        reveal(beat);
        let line = self.board.vic.raster() as usize;
        if line < vic2::HEIGHT && !rendered[line] {
            self.draw_line(line, fb, Ghost(rendered@));
            rendered[line] = true;
        }
        proof {
            law_step_moves_time(*self);
        }
        self.step();
    }

    /// Run one video frame, rendering each scanline as the raster reaches it so
    /// a raster-interrupt handler that reprograms the VIC mid-frame produces the
    /// correct split. Lines that the raster did not visit are drawn at the end
    /// with the final state.
    pub fn run_frame(&mut self, fb: &mut [u32])
        requires
            c64::board_sound(old(self).board),
            old(fb).len() >= 64000,
            old(self).cpu.cycles + FRAME_CYCLES + MAX_STEP <= u64::MAX
                || old(self).cpu.cycles + FRAME_CYCLES > u64::MAX,
        ensures
            exists|n: nat| #![trigger beats(frame_start(*old(self), old(fb)@), n)] {
                let start = frame_start(*old(self), old(fb)@);
                let deadline = old(self).cpu.cycles.wrapping_add(FRAME_CYCLES);
                let r = lines_filled(beats(start, n), vic2::HEIGHT as int);
                &&& beats_before(start, deadline, n)
                &&& beats(start, n).m.cpu.cycles >= deadline
                &&& *final(self) == r.m
                &&& final(fb)@ == r.fb
            },
            c64::board_sound(final(self).board),
    {
        let deadline = self.cpu.cycles.wrapping_add(FRAME_CYCLES);
        let mut rendered: [bool; vic2::HEIGHT] = [false; vic2::HEIGHT];
        let ghost start = frame_start(*self, fb@);
        let ghost mut n: nat = 0;
        assert(rendered@ =~= start.drawn);
        while self.cpu.cycles < deadline
            invariant
                old(fb).len() >= 64000,
                fb@.len() == old(fb)@.len(),
                deadline == old(self).cpu.cycles.wrapping_add(FRAME_CYCLES),
                old(self).cpu.cycles + FRAME_CYCLES + MAX_STEP <= u64::MAX
                    || old(self).cpu.cycles + FRAME_CYCLES > u64::MAX,
                old(self).cpu.cycles <= self.cpu.cycles,
                c64::board_sound(self.board),
                start == frame_start(*old(self), old(fb)@),
                (Showing { m: *self, fb: fb@, drawn: rendered@ }) == beats(start, n),
                beats_before(start, deadline, n),
            decreases u64::MAX - self.cpu.cycles,
        {
            self.frame_beat(fb, &mut rendered);
            proof {
                n = n + 1;
            }
        }
        // Fill any lines the raster didn't visit this pass with the final state.
        let ghost end = Showing { m: *self, fb: fb@, drawn: rendered@ };
        let ghost mut drawn: Seq<bool> = rendered@;
        let mut y: usize = 0;
        while y < vic2::HEIGHT
            invariant
                y <= vic2::HEIGHT,
                old(fb).len() >= 64000,
                fb@.len() == old(fb)@.len(),
                end.drawn == rendered@,
                (Showing { m: *self, fb: fb@, drawn }) == lines_filled(end, y as int),
                c64::board_sound(self.board),
            decreases vic2::HEIGHT - y,
        {
            if !rendered[y] {
                self.draw_line(y, fb, Ghost(drawn));
                proof {
                    drawn = drawn.update(y as int, true);
                }
            }
            y += 1;
        }
        assert(end == beats(start, n));
    }
}

/// At power-on the KERNAL is visible, so the reset vector comes from it.
proof fn lemma_reset_banking(b: Board)
    requires
        b.port_ddr == 0,
        b.port_data == 0,
    ensures
        c64::hiram_high(b),
{
    assert((0u8 | !0u8) & 0x07 & 0x02 != 0) by (bit_vector);
}

} // verus!
