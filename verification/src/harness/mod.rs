//! A headless C64 you can drive from a test.
//!
//! Boot it, type at it, wait for something to appear on screen, read the screen
//! back. Optionally hang a disk drive off its serial bus. No window, no audio,
//! no real time: frames are advanced explicitly, so a test runs as fast as the
//! CPU emulation allows and is deterministic.
//!
//! # Why this exists
//!
//! The interesting bugs in this project are not in one chip, they are in the
//! *seams*: the KERNAL talking to a drive over three wires, a keystroke
//! becoming a matrix scan becoming a BASIC token. Those are only observable
//! from outside the whole machine, and a test that can only inspect registers
//! cannot see them. So: drive the ROMs and read the screen, exactly as a person
//! would.
//!
//! A machine is built around the ROM images it is given.

use std::collections::VecDeque;
use vstd::prelude::*;
use crate::c1541::Machine;
use crate::c64::machine::C64;
use crate::c64::{machine, Board};
use crate::d64::drive::{DiskDrive, DriveModel};
use crate::harness::keyboard::{KeyMap, Typing, Typist};
use crate::iec::device::{Device, Link};
use crate::{c1541, c64, d64, iec, text};

pub mod keyboard;
pub mod laws;
pub mod running;
pub mod screen;

verus! {

/// PAL C64: ~985 kHz / 50 Hz, about 19700 CPU cycles per frame.
pub const CYCLES_PER_FRAME: u32 = 19_700;

/// Frames to allow for a cold boot before giving up. A real C64 reaches
/// `READY.` in about two seconds; this is far more than that.
pub const BOOT_FRAMES: u32 = 400;

/// Where on the bus a drive sits.
pub const DRIVE_SLOT: usize = 1;

// ---- drives ----

/// A disk drive attached to the serial bus: the protocol state machine plus the
/// disk image behind it.
pub struct Drive {
    pub device: Device,
    pub disk: DiskDrive,
}

/// What a [`Drive`] holds.
pub struct DriveState {
    pub device: Device,
    pub store: DriveModel,
}

impl View for Drive {
    type V = DriveState;

    open spec fn view(&self) -> DriveState {
        DriveState { device: self.device, store: self.disk@ }
    }
}

/// Can the drive go on?
pub open spec fn drive_ready(d: DriveState) -> bool {
    iec::device::device_sound(d.device) && d64::drive::drive_usable(d.store)
}

/// The drive and the bus after some cycles.
pub open spec fn drive_clocked(d: DriveState, bus: iec::Bus, cycles: nat) -> (DriveState, iec::Bus) {
    let l = iec::device::ticked::<DiskDrive>(
        Link { dev: d.device, bus, store: d.store }, cycles);
    (DriveState { device: l.dev, store: l.store }, l.bus)
}

/// Whatever the drive opens in the next cycles can be read off its disk.
pub open spec fn drive_may_run(d: DriveState, bus: iec::Bus, cycles: nat) -> bool {
    iec::device::may_run::<DiskDrive>(Link { dev: d.device, bus, store: d.store }, cycles)
}

impl Drive {
    /// A drive at the default address (8) with `disk` in it.
    pub fn new(disk: d64::Disk) -> (d: Self)
        ensures
            iec::device::fresh(d.device, iec::device::DEFAULT_ADDRESS, DRIVE_SLOT),
            d@.store == d64::drive::fresh_drive(Some(disk@)),
            drive_ready(d@),
    {
        Drive {
            device: Device::new(iec::device::DEFAULT_ADDRESS, DRIVE_SLOT),
            disk: DiskDrive::new(disk),
        }
    }

    /// Clock the drive by `cycles`, on the bus it shares with the C64.
    pub fn tick(&mut self, bus: &mut iec::Bus, cycles: u32)
        requires
            drive_ready(old(self)@),
            drive_may_run(old(self)@, *old(bus), cycles as nat),
        ensures
            (final(self)@, *final(bus)) == drive_clocked(old(self)@, *old(bus), cycles as nat),
            drive_ready(final(self)@),
    {
        self.device.tick(bus, &mut self.disk, cycles);
    }
}

/// A whole 1541 on the serial bus: its own CPU running its own DOS, on a clock
/// of its own.
pub struct RealDrive {
    pub machine: Machine,
    /// Cycles the drive has run ahead of the computer: its last instruction
    /// rarely ends just where the computer's does.
    pub ahead: u32,
}

/// The drive and the bus after it ran for at least `left` cycles, with how far
/// it went beyond them.
pub open spec fn caught_up(m: Machine, bus: iec::Bus, left: nat) -> (Machine, iec::Bus, nat)
    decreases left,
{
    if left == 0 {
        (m, bus, 0)
    } else {
        let (n, b, spent) = c1541::machine::drive_stepped_on_bus(m, bus, DRIVE_SLOT as int);
        if spent >= left || spent == 0 {
            (n, b, (spent - left) as nat)
        } else {
            caught_up(n, b, (left - spent) as nat)
        }
    }
}

/// The drive and the bus after the computer ran for some cycles.
pub open spec fn real_clocked(d: RealDrive, bus: iec::Bus, cycles: u32) -> (RealDrive, iec::Bus) {
    if d.ahead >= cycles {
        (RealDrive { ahead: (d.ahead - cycles) as u32, ..d }, bus)
    } else {
        let (machine, b, ahead) = caught_up(d.machine, bus, (cycles - d.ahead) as nat);
        (RealDrive { machine, ahead: ahead as u32 }, b)
    }
}

impl RealDrive {
    /// A drive built around a DOS ROM, with `disk` in it.
    pub fn new(rom: &[u8; 0x4000], disk: &d64::Disk) -> (d: Self)
        requires
            d64::is_image(disk@),
        ensures
            d.ahead == 0,
            d.machine.cpu == (crate::mos6502::Cpu {
                pc: crate::mos6502::cpu::word_of(rom[0x3FFC], rom[0x3FFD]),
                cycles: 7,
                ..crate::mos6502::cpu::power_on()
            }),
            d.machine.board.disk.disk matches Some(media) && forall|t: u8| 1 <= t <= 35 ==>
                (#[trigger] media.tracks@[t - 1])@ == c1541::disk::track_bits(disk@, t),
            c1541::machine::drive_sound(d.machine),
    {
        let mut machine = Machine::new(rom);
        machine.insert_disk(c1541::disk::Disk::from_d64(disk));
        RealDrive { machine, ahead: 0 }
    }

    /// The track the head is over.
    pub fn track(&self) -> (t: u8)
        requires
            c1541::machine::drive_sound(self.machine),
        ensures
            t == c1541::disk::head_track(self.machine.board.disk),
            1 <= t <= 35,
    {
        self.machine.board.disk.track()
    }

    /// Let the drive run for `cycles`, on the bus it shares with the C64.
    pub fn tick(&mut self, bus: &mut iec::Bus, cycles: u32)
        requires
            c1541::machine::drive_sound(old(self).machine),
        ensures
            (*final(self), *final(bus)) == real_clocked(*old(self), *old(bus), cycles),
            c1541::machine::drive_sound(final(self).machine),
    {
        if self.ahead >= cycles {
            self.ahead -= cycles;
            return;
        }
        let mut left: u32 = cycles - self.ahead;
        self.ahead = 0;
        let ghost goal = caught_up(old(self).machine, *old(bus), left as nat);
        while left > 0
            invariant
                c1541::machine::drive_sound(self.machine),
                ({
                    let (n, b, a) = caught_up(self.machine, *bus, left as nat);
                    goal == (n, b, if left == 0 { self.ahead as nat } else { a })
                }),
                left > 0 ==> self.ahead == 0,
            decreases left,
        {
            proof {
                crate::mos6502::laws::law_cycles_bounded(crate::mos6502::cpu::sys(
                    self.machine.cpu,
                    c1541::machine::Board {
                        via1: c1541::machine::bus_sampled(self.machine.board.via1, *bus),
                        ..self.machine.board
                    },
                ));
            }
            let spent = self.machine.step_on_bus(bus, DRIVE_SLOT) as u32;
            if spent >= left {
                self.ahead = spent - left;
                left = 0;
            } else {
                left -= spent;
            }
        }
    }
}

// ---- the whole rig ----

/// A C64, plus everything needed to drive it from a test.
pub struct Harness {
    pub c64: Box<C64>,
    pub drive: Option<Drive>,
    /// A drive running its own firmware, instead of or beside the other.
    pub real_drive: Option<RealDrive>,
    pub typist: Typist,
    pub queue: VecDeque<char>,
    pub char_map: KeyMap,
    /// Frames advanced so far, for diagnostics.
    pub frames: u32,
}

/// What a [`Harness`] holds.
#[verifier::ext_equal]
pub struct Rig {
    pub c64: C64,
    pub drive: Option<DriveState>,
    pub real_drive: Option<RealDrive>,
    pub typing: Typing,
    pub queue: Seq<char>,
    pub keys: Map<u32, (u8, bool)>,
    pub frames: u32,
}

impl View for Harness {
    type V = Rig;

    open spec fn view(&self) -> Rig {
        Rig {
            c64: *self.c64,
            drive: match self.drive {
                Some(d) => Some(d@),
                None => None,
            },
            real_drive: self.real_drive,
            typing: self.typist@,
            queue: self.queue@,
            keys: self.char_map@,
            frames: self.frames,
        }
    }
}

/// Can the rig go on?
pub open spec fn rig_ready(r: Rig) -> bool {
    &&& c64::board_sound(r.c64.board)
    &&& r.drive matches Some(d) ==> drive_ready(d)
    &&& r.real_drive matches Some(d) ==> c1541::machine::drive_sound(d.machine)
}

/// A machine with another bus.
pub open spec fn on_bus(m: C64, bus: iec::Bus) -> C64 {
    C64 { board: Board { iec: bus, ..m.board }, ..m }
}

/// The rig after the drives caught up with the computer.
pub open spec fn drives_clocked(r: Rig, cycles: u8) -> Rig {
    let (drive, bus) = match r.drive {
        Some(d) => {
            let (e, b) = drive_clocked(d, r.c64.board.iec, cycles as nat);
            (Some(e), b)
        },
        None => (None, r.c64.board.iec),
    };
    let (real_drive, bus) = match r.real_drive {
        Some(d) => {
            let (e, b) = real_clocked(d, bus, cycles as u32);
            (Some(e), b)
        },
        None => (None, bus),
    };
    Rig { c64: on_bus(r.c64, bus), drive, real_drive, ..r }
}

/// The rig after one instruction of the computer.
#[verifier::opaque]
pub open spec fn rig_stepped(r: Rig) -> Rig {
    let (m, cycles) = machine::stepped(r.c64);
    drives_clocked(Rig { c64: m, ..r }, cycles)
}

/// Whatever the drive opens while the computer's next instruction runs can be
/// read off its disk.
#[verifier::opaque]
pub open spec fn may_step(r: Rig) -> bool {
    let (m, cycles) = machine::stepped(r.c64);
    r.drive matches Some(d) ==> drive_may_run(d, m.board.iec, cycles as nat)
}

/// Whatever the drive opens before a deadline can be read off its disk.
pub open spec fn may_run_to(r: Rig, deadline: u64) -> bool
    decreases u64::MAX - r.c64.cpu.cycles,
{
    r.c64.cpu.cycles < deadline && r.c64.cpu.cycles < rig_stepped(r).c64.cpu.cycles ==> {
        &&& may_step(r)
        &&& may_run_to(rig_stepped(r), deadline)
    }
}

/// The rig after the computer ran up to a deadline.
pub open spec fn run_to(r: Rig, deadline: u64) -> Rig
    decreases u64::MAX - r.c64.cpu.cycles,
{
    if r.c64.cpu.cycles < deadline && r.c64.cpu.cycles < rig_stepped(r).c64.cpu.cycles {
        run_to(rig_stepped(r), deadline)
    } else {
        r
    }
}

/// The rig with the keyboard released, and then a keystroke typed if one is due.
pub open spec fn keystroke_typed(r: Rig) -> Rig {
    let b = Board {
        key_matrix: vstd::array::spec_array_fill_for_copy_type::<u8, 8>(0), ..r.c64.board
    };
    let (typing, queue) = keyboard::typed(r.typing, r.queue, r.keys);
    Rig {
        c64: C64 { board: keyboard::board_typed(b, r.typing, r.queue, r.keys), ..r.c64 },
        typing,
        queue,
        ..r
    }
}

/// When the frame that starts now is over.
pub open spec fn frame_end(r: Rig) -> u64 {
    r.c64.cpu.cycles.wrapping_add(CYCLES_PER_FRAME as u64)
}

/// The rig after one frame.
pub open spec fn frame_run(r: Rig) -> Rig {
    let t = run_to(keystroke_typed(r), frame_end(r));
    Rig { frames: (r.frames + 1) as u32, ..t }
}

/// The rig after `n` frames.
pub open spec fn frames_run(r: Rig, n: nat) -> Rig
    decreases n,
{
    if n == 0 { r } else { frame_run(frames_run(r, (n - 1) as nat)) }
}

/// Whatever the drive opens in the next frame can be read off its disk.
pub open spec fn may_run_frame(r: Rig) -> bool {
    may_run_to(keystroke_typed(r), frame_end(r))
}

/// Whatever the drive opens in the next `n` frames can be read off its disk.
pub open spec fn may_run_frames(r: Rig, n: nat) -> bool {
    forall|k: nat| k < n ==> may_run_frame(#[trigger] frames_run(r, k))
}

/// There is room in the counters for `n` more frames.
pub open spec fn has_time(r: Rig, n: int) -> bool {
    &&& r.c64.cpu.cycles + n * (CYCLES_PER_FRAME + machine::MAX_STEP) <= u64::MAX
    &&& r.frames + n <= u32::MAX
}

/// A step keeps the rig ready and moves its clock.
proof fn lemma_step(r: Rig)
    requires
        r.c64.cpu.cycles + machine::MAX_STEP <= u64::MAX,
    ensures
        r.c64.cpu.cycles < rig_stepped(r).c64.cpu.cycles <= r.c64.cpu.cycles + machine::MAX_STEP,
        rig_stepped(r).frames == r.frames,
        rig_stepped(r).keys == r.keys,
{
    reveal(rig_stepped);
    machine::law_step_moves_time(r.c64);
}

/// Running to a deadline ends within one step behind it.
proof fn lemma_run_to(r: Rig, deadline: u64)
    requires
        deadline + machine::MAX_STEP <= u64::MAX,
        r.c64.cpu.cycles <= deadline,
    ensures
        deadline <= run_to(r, deadline).c64.cpu.cycles <= deadline + machine::MAX_STEP,
        run_to(r, deadline).frames == r.frames,
        run_to(r, deadline).keys == r.keys,
    decreases u64::MAX - r.c64.cpu.cycles,
{
    if r.c64.cpu.cycles < deadline {
        lemma_step(r);
        let s = rig_stepped(r);
        if s.c64.cpu.cycles <= deadline {
            lemma_run_to(s, deadline);
        } else {
            assert(run_to(s, deadline) == s);
        }
    }
}

/// A frame takes as long as a frame does, give or take an instruction.
pub proof fn law_frame_takes_its_time(r: Rig)
    requires
        has_time(r, 1),
    ensures
        ({
            let t = frame_run(r);
            &&& r.c64.cpu.cycles + CYCLES_PER_FRAME <= t.c64.cpu.cycles
            &&& t.c64.cpu.cycles <= r.c64.cpu.cycles + CYCLES_PER_FRAME + machine::MAX_STEP
            &&& t.frames == r.frames + 1
            &&& t.keys == r.keys
        }),
{
    lemma_run_to(keystroke_typed(r), frame_end(r));
}

/// Frames add up.
pub proof fn law_frames_add(r: Rig, a: nat, b: nat)
    ensures
        frames_run(frames_run(r, a), b) == frames_run(r, a + b),
    decreases b,
{
    if b > 0 {
        law_frames_add(r, a, (b - 1) as nat);
    }
}

/// Room for `n` frames leaves room for the rest after some of them.
proof fn lemma_time_left(r: Rig, k: nat, n: nat)
    requires
        k <= n,
        has_time(r, n as int),
    ensures
        has_time(frames_run(r, k), n - k),
        frames_run(r, k).keys == r.keys,
    decreases k,
{
    let unit = CYCLES_PER_FRAME + machine::MAX_STEP;
    if k > 0 {
        let p = frames_run(r, (k - 1) as nat);
        lemma_time_left(r, (k - 1) as nat, n);
        assert((n - (k - 1)) * unit == (n - k) * unit + unit) by (nonlinear_arith);
        assert((n - k) * unit >= 0) by (nonlinear_arith)
            requires
                n >= k,
                unit >= 0,
        ;
        assert(has_time(p, 1));
        law_frame_takes_its_time(p);
    }
}

impl Harness {
    /// Build a machine from its ROM images.
    pub fn new(kernal: &[u8], basic: &[u8], chargen: &[u8]) -> (h: Self)
        requires
            kernal.len() >= 0x2000,
            basic.len() >= 0x2000,
            chargen.len() >= 0x1000,
        ensures
            switched_on(h@, kernal@, basic@, chargen@),
            h@.drive is None,
            h@.real_drive is None,
            rig_ready(h@),
    {
        Harness {
            c64: Box::new(C64::new(kernal, basic, chargen)),
            drive: None,
            real_drive: None,
            typist: Typist::default(),
            queue: VecDeque::new(),
            char_map: keyboard::char_map(),
            frames: 0,
        }
    }

    /// Build a machine with a disk already in a drive on the serial bus.
    pub fn with_disk(kernal: &[u8], basic: &[u8], chargen: &[u8], disk: d64::Disk) -> (h: Self)
        requires
            kernal.len() >= 0x2000,
            basic.len() >= 0x2000,
            chargen.len() >= 0x1000,
        ensures
            switched_on(h@, kernal@, basic@, chargen@),
            h@.drive matches Some(d) && new_drive(d, disk@),
            h@.real_drive is None,
            rig_ready(h@),
    {
        let mut h = Self::new(kernal, basic, chargen);
        h.drive = Some(Drive::new(disk));
        h
    }

    /// Build a machine with a disk in a whole 1541, which runs its own DOS.
    pub fn with_real_drive(
        kernal: &[u8], basic: &[u8], chargen: &[u8], dos: &[u8; 0x4000], disk: &d64::Disk,
    ) -> (h: Self)
        requires
            kernal.len() >= 0x2000,
            basic.len() >= 0x2000,
            chargen.len() >= 0x1000,
            d64::is_image(disk@),
        ensures
            switched_on(h@, kernal@, basic@, chargen@),
            h@.drive is None,
            h@.real_drive matches Some(d) && d.ahead == 0
                && d.machine.cpu.pc == crate::mos6502::cpu::word_of(dos[0x3FFC], dos[0x3FFD]),
            h@.real_drive matches Some(d) && (
                d.machine.board.disk.disk matches Some(media) && forall|t: u8| 1 <= t <= 35 ==>
                    (#[trigger] media.tracks@[t - 1])@ == c1541::disk::track_bits(disk@, t)),
            rig_ready(h@),
    {
        let mut h = Self::new(kernal, basic, chargen);
        h.real_drive = Some(RealDrive::new(dos, disk));
        h
    }

    /// Attach a drive (replacing any already there).
    pub fn attach(&mut self, disk: d64::Disk)
        ensures
            final(self)@ == (Rig { drive: final(self)@.drive, ..old(self)@ }),
            final(self)@.drive matches Some(d) && new_drive(d, disk@),
            rig_ready(old(self)@) ==> rig_ready(final(self)@),
    {
        self.drive = Some(Drive::new(disk));
    }

    /// Queue text to be typed, one keystroke per few frames. Use `\r` for
    /// RETURN. Queued text is typed by [`Harness::run_frames`] and friends.
    pub fn type_text(&mut self, text: &str)
        ensures
            final(self)@ == (Rig { queue: old(self)@.queue + text@, ..old(self)@ }),
    {
        let n = text.unicode_len();
        let mut k: usize = 0;
        assert(self@ =~= (Rig { queue: old(self)@.queue + text@.take(0), ..old(self)@ }));
        while k < n
            invariant
                k <= n,
                n == text@.len(),
                self@ == (Rig { queue: old(self)@.queue + text@.take(k as int), ..old(self)@ }),
            decreases n - k,
        {
            self.queue.push_back(text.get_char(k));
            assert(self@ =~= (Rig { queue: old(self)@.queue + text@.take(k + 1), ..old(self)@ }));
            k += 1;
        }
        assert(text@.take(n as int) =~= text@);
    }

    /// Execute one instruction of the computer with the drives clocked alongside.
    fn step(&mut self)
        requires
            rig_ready(old(self)@),
            may_step(old(self)@),
        ensures
            final(self)@ == rig_stepped(old(self)@),
            rig_ready(final(self)@),
    {
        reveal(rig_stepped);
        reveal(may_step);
        let cycles = self.c64.step();
        assert(self@ =~= (Rig { c64: machine::stepped(old(self)@.c64).0, ..old(self)@ }));
        self.clock_drives(cycles);
    }

    /// Let the drives catch up with an instruction of the computer.
    fn clock_drives(&mut self, cycles: u8)
        requires
            rig_ready(old(self)@),
            old(self)@.drive matches Some(d)
                ==> drive_may_run(d, old(self)@.c64.board.iec, cycles as nat),
        ensures
            final(self)@ == drives_clocked(old(self)@, cycles),
            rig_ready(final(self)@),
    {
        if let Some(d) = self.drive.as_mut() {
            d.tick(&mut self.c64.board.iec, cycles as u32);
        }
        if let Some(d) = self.real_drive.as_mut() {
            d.tick(&mut self.c64.board.iec, cycles as u32);
        }
        assert(self@ =~= drives_clocked(old(self)@, cycles));
    }
}

/// A machine just switched on, around its ROMs.
pub open spec fn switched_on(r: Rig, kernal: Seq<u8>, basic: Seq<u8>, chargen: Seq<u8>) -> bool {
    &&& c64::factory(r.c64.board, kernal, basic, chargen)
    &&& r.c64.cpu == (crate::mos6502::Cpu {
        pc: crate::mos6502::cpu::word_of(kernal[0x1FFC], kernal[0x1FFD]),
        cycles: 7,
        ..crate::mos6502::cpu::power_on()
    })
    &&& !r.c64.prev_nmi
    &&& r.typing == keyboard::typing_idle()
    &&& r.queue == Seq::<char>::empty()
    &&& r.keys == keyboard::all_keys()
    &&& r.frames == 0
}

/// A drive at address 8, just switched on, with a disk in it.
pub open spec fn new_drive(d: DriveState, img: Seq<u8>) -> bool {
    &&& iec::device::fresh(d.device, iec::device::DEFAULT_ADDRESS, DRIVE_SLOT)
    &&& d.store == d64::drive::fresh_drive(Some(img))
}

// ---- running ----

/// The rig after `n` instructions of the computer.
pub open spec fn steps_run(r: Rig, n: nat) -> Rig
    decreases n,
{
    if n == 0 { r } else { rig_stepped(steps_run(r, (n - 1) as nat)) }
}

/// The first `n` instructions all start before a deadline.
pub open spec fn steps_before(r: Rig, deadline: u64, n: nat) -> bool {
    forall|k: nat| k < n ==> (#[trigger] steps_run(r, k)).c64.cpu.cycles < deadline
}

/// What is watched for does not come up after any of the first `n` instructions
/// of a frame.
pub open spec fn unseen_steps<F: FnMut(&C64) -> bool>(watch: F, start: Rig, n: nat) -> bool {
    forall|k: nat| 1 <= k <= n ==>
        call_ensures(watch, (&(#[trigger] steps_run(start, k)).c64,), false)
}

/// What is watched for does not come up in a frame.
pub open spec fn unseen_frame<F: FnMut(&C64) -> bool>(watch: F, r: Rig) -> bool {
    exists|n: nat| {
        &&& #[trigger] steps_run(keystroke_typed(r), n) == run_to(keystroke_typed(r), frame_end(r))
        &&& unseen_steps(watch, keystroke_typed(r), n)
    }
}

/// What is watched for does not come up in the first `n` frames.
pub open spec fn unseen_frames<F: FnMut(&C64) -> bool>(watch: F, r: Rig, n: nat) -> bool {
    forall|k: nat| k < n ==> unseen_frame(watch, #[trigger] frames_run(r, k))
}

/// Until what is watched for comes up, and for `budget` frames at most, whatever
/// the drive opens can be read off its disk.
#[verifier::opaque]
pub open spec fn may_watch<F: FnMut(&C64) -> bool>(watch: F, r: Rig, budget: nat) -> bool {
    forall|f: nat, n: nat| {
        let at = frames_run(r, f);
        &&& f < budget
        &&& unseen_frames(watch, r, f)
        &&& steps_before(keystroke_typed(at), frame_end(at), n + 1)
        &&& unseen_steps(watch, keystroke_typed(at), n)
    } ==> may_step(#[trigger] steps_run(keystroke_typed(frames_run(r, f)), n))
}

/// What is asked for does not hold before any of the first `n` frames.
pub open spec fn not_yet<F: FnMut(&C64) -> bool>(done: F, r: Rig, n: nat) -> bool {
    forall|k: nat| k < n ==> call_ensures(done, (&(#[trigger] frames_run(r, k)).c64,), false)
}

impl Harness {
    /// Release the keyboard, then type a keystroke if one is due.
    fn keystroke(&mut self)
        requires
            rig_ready(old(self)@),
        ensures
            final(self)@ == keystroke_typed(old(self)@),
            rig_ready(final(self)@),
    {
        self.c64.board.key_matrix = [0; 8];
        self.typist.frame(&mut self.c64, &mut self.queue, &self.char_map);
        assert(self@ =~= keystroke_typed(old(self)@));
    }

    /// Advance exactly one frame: type a keystroke if one is due, then run a
    /// frame's worth of cycles with the drive clocked alongside.
    pub fn frame(&mut self)
        requires
            rig_ready(old(self)@),
            has_time(old(self)@, 1),
            may_run_frame(old(self)@),
        ensures
            final(self)@ == frame_run(old(self)@),
            rig_ready(final(self)@),
    {
        let deadline = self.c64.cpu.cycles.wrapping_add(CYCLES_PER_FRAME as u64);
        self.keystroke();
        let ghost goal = run_to(self@, deadline);
        proof {
            law_frame_takes_its_time(old(self)@);
        }
        while self.c64.cpu.cycles < deadline
            invariant
                deadline == frame_end(old(self)@),
                deadline + machine::MAX_STEP <= u64::MAX,
                rig_ready(self@),
                may_run_to(self@, deadline),
                run_to(self@, deadline) == goal,
                self@.frames == old(self)@.frames,
            decreases u64::MAX - self.c64.cpu.cycles,
        {
            proof {
                lemma_step(self@);
            }
            self.step();
        }
        self.frames += 1;
        assert(self@ =~= frame_run(old(self)@));
    }

    /// Advance `n` frames.
    pub fn run_frames(&mut self, n: u32)
        requires
            rig_ready(old(self)@),
            has_time(old(self)@, n as int),
            may_run_frames(old(self)@, n as nat),
        ensures
            final(self)@ == frames_run(old(self)@, n as nat),
            rig_ready(final(self)@),
    {
        let mut k: u32 = 0;
        while k < n
            invariant
                k <= n,
                rig_ready(self@),
                has_time(old(self)@, n as int),
                may_run_frames(old(self)@, n as nat),
                self@ == frames_run(old(self)@, k as nat),
            decreases n - k,
        {
            proof {
                lemma_time_for_one(old(self)@, k as nat, n as nat);
            }
            self.frame();
            k += 1;
        }
    }

    /// Advance until `done` holds, up to `budget` frames. Returns whether it did.
    ///
    /// The predicate is checked between frames *and* is given the machine, so it
    /// can look at RAM as well as the screen: some things (a file's bytes
    /// landing) are only true briefly and are gone by the next frame.
    pub fn run_until<F>(&mut self, budget: u32, mut done: F) -> (b: bool)
    where
        F: FnMut(&C64) -> bool,
        requires
            rig_ready(old(self)@),
            has_time(old(self)@, budget as int),
            forall|k: nat| k < budget && not_yet(done, old(self)@, k + 1)
                ==> may_run_frame(#[trigger] frames_run(old(self)@, k)),
            forall|c: &C64| call_requires(done, (c,)),
        ensures
            exists|n: nat| {
                &&& n <= budget
                &&& final(self)@ == #[trigger] frames_run(old(self)@, n)
                &&& not_yet(done, old(self)@, n)
                &&& call_ensures(done, (&final(self)@.c64,), b)
                &&& !b ==> n == budget
            },
            rig_ready(final(self)@),
    {
        let ghost asked = done;
        let mut hit = done(&*self.c64);
        let mut k: u32 = 0;
        while !hit && k < budget
            invariant
                k <= budget,
                rig_ready(self@),
                has_time(old(self)@, budget as int),
                done == asked,
                forall|k: nat| k < budget && not_yet(asked, old(self)@, k + 1)
                    ==> may_run_frame(#[trigger] frames_run(old(self)@, k)),
                forall|c: &C64| call_requires(done, (c,)),
                self@ == frames_run(old(self)@, k as nat),
                not_yet(done, old(self)@, k as nat),
                call_ensures(done, (&self@.c64,), hit),
            decreases budget - k,
        {
            proof {
                lemma_time_for_one(old(self)@, k as nat, budget as nat);
                assert(not_yet(done, old(self)@, k as nat + 1));
            }
            self.frame();
            k += 1;
            hit = done(&*self.c64);
        }
        hit
    }
}

/// What is watched for has not come up so far: one more instruction may run.
proof fn lemma_may_watch_on<F: FnMut(&C64) -> bool>(
    watch: F, r: Rig, budget: nat, f: nat, n: nat,
)
    requires
        may_watch(watch, r, budget),
        f < budget,
        unseen_frames(watch, r, f),
        ({
            let at = frames_run(r, f);
            &&& steps_before(keystroke_typed(at), frame_end(at), n)
            &&& steps_run(keystroke_typed(at), n).c64.cpu.cycles < frame_end(at)
            &&& unseen_steps(watch, keystroke_typed(at), n)
        }),
    ensures
        may_step(steps_run(keystroke_typed(frames_run(r, f)), n)),
{
    reveal(may_watch);
    let at = frames_run(r, f);
    assert(steps_before(keystroke_typed(at), frame_end(at), n + 1));
}

proof fn lemma_time_for_one(r: Rig, k: nat, n: nat)
    requires
        k < n,
        has_time(r, n as int),
    ensures
        has_time(frames_run(r, k), 1),
{
    lemma_time_left(r, k, n);
    let unit = CYCLES_PER_FRAME + machine::MAX_STEP;
    assert((n - k) * unit >= unit) by (nonlinear_arith)
        requires
            n > k,
            unit >= 0,
    ;
}

impl Harness {
    /// Advance up to `budget` frames, checking `watch` after **every CPU
    /// instruction** instead of once per frame, and stopping when it holds.
    ///
    /// Use this for anything on the serial bus. A handshake lasts microseconds
    /// (the KERNAL's ATN assertion is over in a few dozen cycles) and
    /// [`run_until`](Self::run_until) samples once per 19,700-cycle frame, so it
    /// will miss the pulse entirely and report that it never happened. That is a
    /// mistake worth only making once.
    pub fn run_until_step<F>(&mut self, budget: u32, mut watch: F) -> (b: bool)
    where
        F: FnMut(&C64) -> bool,
        requires
            rig_ready(old(self)@),
            has_time(old(self)@, budget as int),
            may_watch(watch, old(self)@, budget as nat),
            forall|c: &C64| call_requires(watch, (c,)),
        ensures
            !b ==> final(self)@ == frames_run(old(self)@, budget as nat)
                && unseen_frames(watch, old(self)@, budget as nat),
            b ==> exists|f: nat, n: nat| {
                let r = frames_run(old(self)@, f);
                &&& f < budget
                &&& 1 <= n
                &&& unseen_frames(watch, old(self)@, f)
                &&& steps_before(keystroke_typed(r), frame_end(r), n)
                &&& unseen_steps(watch, keystroke_typed(r), (n - 1) as nat)
                &&& call_ensures(watch, (&final(self)@.c64,), true)
                &&& final(self)@ == (Rig {
                    frames: (r.frames + 1) as u32,
                    ..#[trigger] steps_run(keystroke_typed(frames_run(old(self)@, f)), n)
                })
            },
            rig_ready(final(self)@),
    {
        let ghost asked = watch;
        let mut seen = false;
        let mut k: u32 = 0;
        let ghost mut at: nat = 0;
        while !seen && k < budget
            invariant
                k <= budget,
                rig_ready(self@),
                has_time(old(self)@, budget as int),
                watch == asked,
                may_watch(asked, old(self)@, budget as nat),
                forall|c: &C64| call_requires(watch, (c,)),
                !seen ==> self@ == frames_run(old(self)@, k as nat),
                !seen ==> unseen_frames(watch, old(self)@, k as nat),
                seen ==> 1 <= k && seen_in(watch, old(self)@, (k - 1) as nat, at, self@),
            decreases budget - k,
        {
            proof {
                lemma_time_for_one(old(self)@, k as nat, budget as nat);
            }
            let ghost r = self@;
            let deadline = self.c64.cpu.cycles.wrapping_add(CYCLES_PER_FRAME as u64);
            self.keystroke();
            let ghost start = self@;
            let ghost mut n: nat = 0;
            while !seen && self.c64.cpu.cycles < deadline
                invariant
                    deadline == frame_end(r),
                    deadline + machine::MAX_STEP <= u64::MAX,
                    rig_ready(self@),
                    watch == asked,
                    forall|c: &C64| call_requires(watch, (c,)),
                    self@ == steps_run(start, n),
                    self@.frames == r.frames,
                    steps_before(start, deadline, n),
                    k < budget,
                    may_watch(asked, old(self)@, budget as nat),
                    r == frames_run(old(self)@, k as nat),
                    start == keystroke_typed(r),
                    unseen_frames(asked, old(self)@, k as nat),
                    !seen ==> run_to(self@, deadline) == run_to(start, deadline),
                    !seen ==> unseen_steps(watch, start, n),
                    seen ==> 1 <= n && unseen_steps(watch, start, (n - 1) as nat)
                        && call_ensures(watch, (&self@.c64,), true),
                decreases u64::MAX - self.c64.cpu.cycles,
            {
                proof {
                    lemma_step(self@);
                    lemma_may_watch_on(asked, old(self)@, budget as nat, k as nat, n);
                }
                self.step();
                proof {
                    n = n + 1;
                }
                seen = watch(&*self.c64);
            }
            self.frames += 1;
            proof {
                at = n;
                if !seen {
                    assert(steps_run(start, n) == run_to(start, deadline));
                    assert(self@ =~= frame_run(r));
                    assert(unseen_frame(watch, r));
                }
            }
            k += 1;
        }
        seen
    }
}

/// What is watched for came up after `n` instructions of frame `f`, for the
/// first time.
spec fn seen_in<F: FnMut(&C64) -> bool>(watch: F, r0: Rig, f: nat, n: nat, end: Rig) -> bool {
    let r = frames_run(r0, f);
    &&& 1 <= n
    &&& unseen_frames(watch, r0, f)
    &&& steps_before(keystroke_typed(r), frame_end(r), n)
    &&& unseen_steps(watch, keystroke_typed(r), (n - 1) as nat)
    &&& call_ensures(watch, (&end.c64,), true)
    &&& end == (Rig { frames: (r.frames + 1) as u32, ..steps_run(keystroke_typed(r), n) })
}

/// Does the screen of a rig show some text?
pub open spec fn on_screen(r: Rig, t: Seq<char>) -> bool {
    screen::shows(r.c64.board.ram@, t)
}

/// The text is not on the screen before any of the first `n` frames.
pub open spec fn not_on_screen(r: Rig, t: Seq<char>, n: nat) -> bool {
    forall|k: nat| k < n ==> !on_screen(#[trigger] frames_run(r, k), t)
}

/// Has everything been typed, and read by the editor?
pub open spec fn all_typed(r: Rig) -> bool {
    r.queue.len() == 0 && !keyboard::is_busy(r.typing) && r.c64.board.ram[0x00C6] == 0
}

/// Something is left to be typed before each of the first `n` frames.
pub open spec fn still_typing(r: Rig, n: nat) -> bool {
    forall|k: nat| k < n ==> !all_typed(#[trigger] frames_run(r, k))
}

/// The prompt that a booted machine shows.
pub open spec fn prompt() -> Seq<char> {
    "READY."@
}

/// The machine shows its prompt within the time allowed for a cold boot.
pub open spec fn boots(r: Rig) -> bool {
    !not_on_screen(r, prompt(), BOOT_FRAMES as nat + 1)
}

impl Harness {
    /// Advance until `text` appears on screen, up to `budget` frames.
    pub fn wait_for(&mut self, text: &str, budget: u32) -> (b: bool)
        requires
            rig_ready(old(self)@),
            has_time(old(self)@, budget as int),
            forall|k: nat| k < budget && not_on_screen(old(self)@, text@, k + 1)
                ==> may_run_frame(#[trigger] frames_run(old(self)@, k)),
        ensures
            exists|n: nat| {
                &&& n <= budget
                &&& final(self)@ == #[trigger] frames_run(old(self)@, n)
                &&& not_on_screen(old(self)@, text@, n)
                &&& !b ==> n == budget
            },
            b == on_screen(final(self)@, text@),
            rig_ready(final(self)@),
    {
        let done = |c: &C64| -> (r: bool)
            ensures
                r == screen::shows(c.board.ram@, text@),
            { screen::contains(c.board.ram.as_slice(), text) };
        proof {
            assert forall|k: nat| k < budget && not_yet(done, old(self)@, k + 1)
                implies may_run_frame(#[trigger] frames_run(old(self)@, k)) by {
                assert forall|j: nat| j < k + 1 implies
                    !on_screen(#[trigger] frames_run(old(self)@, j), text@) by {
                    assert(call_ensures(done, (&frames_run(old(self)@, j).c64,), false));
                }
                assert(not_on_screen(old(self)@, text@, k + 1));
            }
        }
        let b = self.run_until(budget, done);
        proof {
            let n = choose|n: nat| {
                &&& n <= budget
                &&& self@ == #[trigger] frames_run(old(self)@, n)
                &&& not_yet(done, old(self)@, n)
                &&& call_ensures(done, (&self@.c64,), b)
                &&& !b ==> n == budget
            };
            assert forall|k: nat| k < n implies
                !on_screen(#[trigger] frames_run(old(self)@, k), text@) by {
                assert(call_ensures(done, (&frames_run(old(self)@, k).c64,), false));
            }
            assert(not_on_screen(old(self)@, text@, n));
        }
        b
    }

    /// Run the cold boot through to the `READY.` prompt.
    ///
    /// A machine that won't boot makes every later observation meaningless, so
    /// this is for one that does. For a machine that may not, wait for `READY.`
    /// with [`Harness::wait_for`] and look at the answer, and at the screen.
    pub fn boot(&mut self)
        requires
            rig_ready(old(self)@),
            has_time(old(self)@, BOOT_FRAMES as int),
            boots(old(self)@),
            forall|k: nat| k < BOOT_FRAMES && not_on_screen(old(self)@, prompt(), k + 1)
                ==> may_run_frame(#[trigger] frames_run(old(self)@, k)),
        ensures
            exists|n: nat| {
                &&& n <= BOOT_FRAMES
                &&& final(self)@ == #[trigger] frames_run(old(self)@, n)
                &&& not_on_screen(old(self)@, prompt(), n)
            },
            on_screen(final(self)@, prompt()),
            rig_ready(final(self)@),
    {
        let reached = self.wait_for("READY.", BOOT_FRAMES);
        assert(reached) by {
            if !reached {
                assert(self@ == frames_run(old(self)@, BOOT_FRAMES as nat));
                assert(not_on_screen(old(self)@, prompt(), BOOT_FRAMES as nat + 1));
            }
        }
    }

    fn is_all_typed(&self) -> (b: bool)
        ensures
            b == all_typed(self@),
    {
        self.queue.len() == 0 && !self.typist.busy() && self.c64.board.ram[0x00C6] == 0
    }

    /// Wait for everything queued to have been typed and consumed by the editor.
    ///
    /// "Consumed" means the KERNAL's keyboard buffer (`$00C6`) is empty as well:
    /// the characters have not just been pressed, they have been read.
    pub fn wait_until_typed(&mut self, budget: u32) -> (b: bool)
        requires
            rig_ready(old(self)@),
            has_time(old(self)@, budget as int),
            forall|k: nat| k < budget && still_typing(old(self)@, k + 1)
                ==> may_run_frame(#[trigger] frames_run(old(self)@, k)),
        ensures
            exists|n: nat| {
                &&& n <= budget
                &&& final(self)@ == #[trigger] frames_run(old(self)@, n)
                &&& still_typing(old(self)@, n)
                &&& b == (n < budget)
                &&& b ==> all_typed(final(self)@)
            },
            rig_ready(final(self)@),
    {
        let mut k: u32 = 0;
        while k < budget && !self.is_all_typed()
            invariant
                k <= budget,
                rig_ready(self@),
                has_time(old(self)@, budget as int),
                self@ == frames_run(old(self)@, k as nat),
                still_typing(old(self)@, k as nat),
                forall|k: nat| k < budget && still_typing(old(self)@, k + 1)
                    ==> may_run_frame(#[trigger] frames_run(old(self)@, k)),
            decreases budget - k,
        {
            proof {
                lemma_time_for_one(old(self)@, k as nat, budget as nat);
                assert(still_typing(old(self)@, k as nat + 1));
            }
            self.frame();
            k += 1;
        }
        k < budget
    }

    /// The screen as text.
    pub fn screen(&self) -> (s: String)
        ensures
            s@ == screen::rows_text(self@.c64.board.ram@, screen::ROWS as int),
    {
        screen::text(self.c64.board.ram.as_slice())
    }

    /// Does the screen show `text`?
    pub fn screen_contains(&self, text: &str) -> (b: bool)
        ensures
            b == on_screen(self@, text@),
    {
        screen::contains(self.c64.board.ram.as_slice(), text)
    }

    /// Characters that had no C64 key and were skipped while typing.
    pub fn dropped_keys(&self) -> (d: &[char])
        ensures
            d@ == self@.typing.dropped,
    {
        self.typist.dropped()
    }

    /// Frames advanced so far.
    pub fn frames(&self) -> (n: u32)
        ensures
            n == self@.frames,
    {
        self.frames
    }

    /// The KERNAL's I/O status byte (`$90`): bit 6 is EOI, bit 7 device-not-present.
    pub fn io_status(&self) -> (st: u8)
        ensures
            st == self@.c64.board.ram[0x90],
    {
        self.c64.board.ram[0x90]
    }
}

} // verus!
