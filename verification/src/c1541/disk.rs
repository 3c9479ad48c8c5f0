//! The rotating disk under the 1541's read/write head.
//!
//! VIA2 (`$1C00`) is the drive's read/write channel, but the VIA only sees pins;
//! it has no idea a disk is spinning. This module is the mechanism the VIA's
//! pins are wired to: a stack of GCR track images (the [`Disk`]), and the moving
//! parts (the [`Controller`]: head position, motor, stepper, and the byte that
//! is currently under the head).
//!
//! Each step of the drive CPU, [`Controller::tick`] reads the motor and stepper
//! controls the DOS wrote to VIA2 port B, rotates the disk a little, and presents
//! the byte now under the head on port A, plus the two status lines the DOS
//! polls: **SYNC** on PB7 (low while over a sync mark) and **write-protect** on
//! PB4. When a fresh *data* byte arrives it returns `true`: that is the drive's
//! BYTE-READY line, which the real hardware wires to the CPU's SO (set-overflow)
//! pin, so the DOS's tight `BVC` / `CLV` / `LDA $1C01` loop reads exactly one
//! byte per rotation.

use vstd::prelude::*;
use crate::via6522::Via;
use crate::{d64, gcr, via6522};

verus! {

/// Physical tracks on a 1541 disk (1..=35).
pub const TRACKS: u8 = 35;

/// CPU cycles between bytes under the head, by speed zone.
///
/// The drive spins at a constant 300 rpm, so the outer (lower-numbered) tracks
/// carry more data past the head per second and clock bytes in faster. These are
/// floors, enough for the DOS to read, not to satisfy a fast loader counting
/// cycles.
pub open spec fn byte_time(track: u8) -> u32 {
    if 1 <= track <= 17 { 26 } else if 18 <= track <= 24 { 28 } else if 25 <= track <= 30 { 30 } else { 32 }
}

fn cycles_per_byte(track: u8) -> (n: u32)
    ensures
        n == byte_time(track),
{
    if 1 <= track && track <= 17 {
        26
    } else if 18 <= track && track <= 24 {
        28
    } else if 25 <= track && track <= 30 {
        30
    } else {
        32
    }
}

// ---- the media ----

/// The media: one byte-aligned GCR bitstream per track, synthesised from a
/// decoded `.d64`.
pub struct Disk {
    /// GCR bitstream per track; index 0 is track 1.
    pub tracks: Vec<Vec<u8>>,
    pub write_protected: bool,
}

/// A disk has 35 tracks, and there is something on each of them.
pub open spec fn media_sound(d: Disk) -> bool {
    &&& d.tracks@.len() == TRACKS
    &&& forall|k: int| 0 <= k < TRACKS ==> (#[trigger] d.tracks@[k])@.len() > 0
}

/// The sectors of a track of an image.
pub open spec fn track_sectors(img: Seq<u8>, track: u8) -> Seq<Seq<u8>> {
    Seq::new(gcr::zone_sectors(track) as nat, |s: int| d64::sector_of(img, track, s as u8))
}

/// A track of an image as the head sees it.
pub open spec fn track_bits(img: Seq<u8>, track: u8) -> Seq<u8> {
    gcr::track_stream(
        track_sectors(img, track),
        track,
        seq![d64::bam(img, 0xA2), d64::bam(img, 0xA3)],
        gcr::zone_sectors(track) as nat,
    )
}

impl Disk {
    /// Encode every track of a mounted `.d64` into its GCR bitstream, the form
    /// the read head actually sees.
    pub fn from_d64(disk: &d64::Disk) -> (r: Disk)
        requires
            d64::is_image(disk@),
        ensures
            media_sound(r),
            forall|t: u8| 1 <= t <= TRACKS ==> (#[trigger] r.tracks@[t - 1])@ == track_bits(disk@, t),
            !r.write_protected,
    {
        let id = disk.id();
        let mut tracks: Vec<Vec<u8>> = Vec::with_capacity(35);
        let mut track: u8 = 1;
        while track <= TRACKS
            invariant
                1 <= track <= TRACKS + 1,
                d64::is_image(disk@),
                id@ == seq![d64::bam(disk@, 0xA2), d64::bam(disk@, 0xA3)],
                tracks@.len() == track - 1,
                forall|k: int| 0 <= k < tracks@.len() ==>
                    (#[trigger] tracks@[k])@ == track_bits(disk@, (k + 1) as u8),
                forall|k: int| 0 <= k < tracks@.len() ==> (#[trigger] tracks@[k])@.len() > 0,
            decreases TRACKS + 1 - track,
        {
            let stream = Self::encode(disk, track, id);
            tracks.push(stream);
            track += 1;
        }
        Disk { tracks, write_protected: false }
    }

    /// One track of an image in GCR.
    fn encode(disk: &d64::Disk, track: u8, id: [u8; 2]) -> (stream: Vec<u8>)
        requires
            1 <= track <= TRACKS,
            d64::is_image(disk@),
            id@ == seq![d64::bam(disk@, 0xA2), d64::bam(disk@, 0xA3)],
        ensures
            stream@ == track_bits(disk@, track),
            stream@.len() > 0,
    {
        let n = disk.sectors_on_track(track);
        let mut sectors: Vec<[u8; 256]> = Vec::with_capacity(n as usize);
        let mut s: u8 = 0;
        while s < n
            invariant
                s <= n,
                n == gcr::zone_sectors(track),
                1 <= track <= TRACKS,
                d64::is_image(disk@),
                sectors@.len() == s,
                forall|k: int| 0 <= k < s ==>
                    (#[trigger] sectors@[k])@ == d64::sector_of(disk@, track, k as u8),
            decreases n - s,
        {
            if let Some(bytes) = disk.sector_bytes(track, s) {
                sectors.push(bytes);
            }
            s += 1;
        }
        assert(gcr::contents(sectors@) =~= track_sectors(disk@, track));
        proof {
            gcr::law_track_length(track_sectors(disk@, track), track, id@, n as nat);
        }
        gcr::encode_track(sectors.as_slice(), track, id)
    }

    /// Mark the disk as write-protected (the notch is covered). The DOS senses
    /// this on VIA2 PB4 and refuses to write.
    pub fn set_write_protected(&mut self, protected: bool)
        ensures
            *final(self) == (Disk { write_protected: protected, ..*old(self) }),
    {
        self.write_protected = protected;
    }
}

// ---- the mechanism ----

/// The head, motor and stepper: the parts VIA2's port B drives. Holds the
/// inserted disk (there is nothing to read with an empty drive).
///
/// The default is a powered-on drive with no disk, head parked at track 1
/// (`half_track` 0), stepper phase 0.
pub struct Controller {
    pub disk: Option<Disk>,
    /// Head position in half-tracks: `track = half_track / 2 + 1`. The stepper
    /// moves in half-tracks; real disks only store data on the whole ones.
    pub half_track: u8,
    /// Byte index of the head within the current track's GCR stream.
    pub pos: usize,
    /// The byte last seen under the head, for detecting a run of sync (`$FF`).
    pub prev_byte: u8,
    /// True while the head sits over a sync mark (drives PB7 low).
    pub sync: bool,
    /// CPU cycles banked toward the next byte arriving under the head.
    pub acc: u32,
    /// The stepper phase (PB0-1) last seen, for detecting a step.
    pub last_phase: u8,
}

/// The track under the head.
pub open spec fn head_track(c: Controller) -> int {
    c.half_track as int / 2 + 1
}

/// The bits under the head.
pub open spec fn head_stream(c: Controller) -> Seq<u8> {
    c.disk->0.tracks@[head_track(c) - 1]@
}

/// What every reachable mechanism keeps: the head stays on the disk, and less
/// than a byte's time is banked.
pub open spec fn mechanism_sound(c: Controller) -> bool {
    &&& c.half_track <= 68
    &&& c.last_phase < 4
    &&& c.acc < byte_time(head_track(c) as u8)
    &&& c.disk is Some ==> media_sound(c.disk->0) && c.pos < head_stream(c).len()
}

/// The mechanism at power-on.
pub open spec fn mechanism_idle() -> Controller {
    Controller {
        disk: None, half_track: 0, pos: 0, prev_byte: 0, sync: false, acc: 0, last_phase: 0,
    }
}

/// The mechanism after the stepper phase was set. One phase up moves the head a
/// half-track inward, one down outward, within the stops; any change of phase
/// restarts the reading.
pub open spec fn phase_set(c: Controller, phase: u8) -> Controller {
    if phase == c.last_phase {
        c
    } else {
        Controller {
            half_track: if phase as int == (c.last_phase + 1) % 4 {
                if c.half_track < 68 { (c.half_track + 1) as u8 } else { c.half_track }
            } else if phase as int == (c.last_phase + 3) % 4 && c.half_track > 0 {
                (c.half_track - 1) as u8
            } else {
                c.half_track
            },
            last_phase: phase,
            pos: 0,
            prev_byte: 0,
            sync: false,
            acc: 0,
            ..c
        }
    }
}

/// What the head sees as bytes pass by.
pub struct Head {
    pub pos: int,
    pub prev_byte: u8,
    pub sync: bool,
    /// The byte on port A.
    pub byte: u8,
    /// Has a data byte arrived?
    pub ready: bool,
}

/// One byte passes under the head. Two all-ones bytes in a row are a sync mark,
/// over which no byte is ready.
pub open spec fn byte_passed(h: Head, stream: Seq<u8>) -> Head {
    let pos = if h.pos + 1 >= stream.len() { 0 } else { h.pos + 1 };
    let byte = stream[pos];
    let sync = byte == 0xFF && h.prev_byte == 0xFF;
    Head { pos, prev_byte: byte, sync, byte, ready: h.ready || !sync }
}

/// `n` bytes pass under the head.
pub open spec fn bytes_passed(h: Head, stream: Seq<u8>, n: nat) -> Head
    decreases n,
{
    if n == 0 { h } else { byte_passed(bytes_passed(h, stream, (n - 1) as nat), stream) }
}

/// Does VIA2 run the motor?
pub open spec fn motor_on(pb: u8) -> bool {
    pb & 0x04 != 0
}

/// The head before a rotation.
pub open spec fn head_of(c: Controller, via2: Via) -> Head {
    Head {
        pos: c.pos as int, prev_byte: c.prev_byte, sync: c.sync, byte: via2.pa_in, ready: false,
    }
}

/// The head after `cycles` of rotation.
pub open spec fn rotated(c: Controller, via2: Via, cycles: u32) -> Head {
    bytes_passed(
        head_of(c, via2),
        head_stream(c),
        ((c.acc + cycles) / (byte_time(head_track(c) as u8) as int)) as nat,
    )
}

/// The mechanism after `cycles` of turning, or of standing still without a disk
/// or with the motor off.
pub open spec fn turned(c: Controller, via2: Via, pb: u8, cycles: u32) -> Controller {
    if motor_on(pb) && c.disk is Some {
        let h = rotated(c, via2, cycles);
        Controller {
            pos: h.pos as usize,
            prev_byte: h.prev_byte,
            sync: h.sync,
            acc: ((c.acc + cycles) % (byte_time(head_track(c) as u8) as int)) as u32,
            ..c
        }
    } else {
        Controller { sync: false, acc: 0, ..c }
    }
}

/// The status lines on port B: PB7 low over a sync mark, PB4 low for a
/// write-protected disk.
pub open spec fn status_pins(sync: bool, protected: bool) -> u8 {
    (255 - (if sync { 0x80int } else { 0 }) - (if protected { 0x10int } else { 0 })) as u8
}

/// The mechanism, VIA2 and the BYTE-READY line after `cycles` CPU clocks.
pub open spec fn mechanism_ticked(c: Controller, via2: Via, cycles: u32) -> (Controller, Via, bool) {
    let pb = via6522::port_level(via2.orb, via2.ddrb, via2.pb_in);
    let s = phase_set(c, pb % 4);
    let t = turned(s, via2, pb, cycles);
    let spinning = motor_on(pb) && c.disk is Some;
    let protected = c.disk is Some && c.disk->0.write_protected;
    (
        t,
        Via {
            pa_in: if spinning { rotated(s, via2, cycles).byte } else { via2.pa_in },
            pb_in: status_pins(t.sync, protected),
            ..via2
        },
        spinning && rotated(s, via2, cycles).ready,
    )
}

impl Default for Controller {
    fn default() -> (c: Self)
        ensures
            c == mechanism_idle(),
    {
        Controller {
            disk: None, half_track: 0, pos: 0, prev_byte: 0, sync: false, acc: 0, last_phase: 0,
        }
    }
}

impl Controller {
    /// Load a disk into the drive.
    pub fn insert(&mut self, disk: Disk)
        ensures
            *final(self) == (Controller {
                disk: Some(disk), pos: 0, prev_byte: 0, sync: false, ..*old(self)
            }),
            mechanism_sound(*old(self)) && media_sound(disk) ==> mechanism_sound(*final(self)),
    {
        self.disk = Some(disk);
        self.pos = 0;
        self.prev_byte = 0;
        self.sync = false;
    }

    /// Remove the disk, if any.
    pub fn eject(&mut self) -> (d: Option<Disk>)
        ensures
            d == old(self).disk,
            *final(self) == (Controller { disk: None, ..*old(self) }),
            mechanism_sound(*old(self)) ==> mechanism_sound(*final(self)),
    {
        self.disk.take()
    }

    /// Whether a disk is loaded.
    pub fn has_disk(&self) -> (b: bool)
        ensures
            b == (self.disk is Some),
    {
        self.disk.is_some()
    }

    /// The whole track the head is currently over (1..=35).
    pub fn track(&self) -> (t: u8)
        ensures
            t == head_track(*self),
            mechanism_sound(*self) ==> 1 <= t <= TRACKS,
    {
        self.half_track / 2 + 1
    }

    /// True while the head sits over a sync mark (what drives VIA2 PB7 low).
    pub fn syncing(&self) -> (b: bool)
        ensures
            b == self.sync,
    {
        self.sync
    }

    /// Byte index of the head within the current track: a rotation counter,
    /// useful only for showing that the disk is actually turning.
    pub fn head_pos(&self) -> (p: usize)
        ensures
            p == self.pos,
    {
        self.pos
    }

    /// Force the head onto a whole track, bypassing a stepper seek. For tests
    /// and for tools that want to read a known track without waiting for the DOS
    /// to bump and seek.
    pub fn seek(&mut self, track: u8)
        ensures
            *final(self) == (Controller {
                half_track: (if track < 1 { 0int } else if track > 35 { 68 } else { 2 * (track - 1) }) as u8,
                pos: 0,
                prev_byte: 0,
                sync: false,
                acc: 0,
                ..*old(self)
            }),
            mechanism_sound(*old(self)) ==> mechanism_sound(*final(self)),
    {
        let track = if track < 1 { 1 } else if track > TRACKS { TRACKS } else { track };
        self.half_track = (track - 1) * 2;
        self.pos = 0;
        self.prev_byte = 0;
        self.sync = false;
        self.acc = 0;
    }

    /// Advance the mechanism by `cycles` CPU clocks.
    ///
    /// Reads the motor (PB2) and stepper (PB0-1) the DOS drives on VIA2 port B,
    /// rotates the disk, and writes the byte under the head to port A along with
    /// SYNC (PB7) and write-protect (PB4) on the port B input pins. Returns
    /// `true` if a fresh data byte became ready: the BYTE-READY pulse the caller
    /// forwards to the CPU's SO pin (V flag).
    pub fn tick(&mut self, via2: &mut Via, cycles: u32) -> (ready: bool)
        requires
            mechanism_sound(*old(self)),
            old(self).acc + cycles <= u32::MAX,
        ensures
            (*final(self), *final(via2), ready) == mechanism_ticked(*old(self), *old(via2), cycles),
            mechanism_sound(*final(self)),
    {
        let pb = via2.port_b();
        // Stepper: rotating the two phase bits by one moves the head a half-track.
        // Which way round is decided by the DOS: `$F326` computes the seek
        // distance as `current_track - wanted_track`, complements it into `$4A`
        // as a signed half-track count, and `$FA2E` *increments* the phase when
        // that is positive. So phase + 1 is inward, toward higher track numbers.
        self.set_phase(pb % 4);

        let mut ready = false;
        if pb & 0x04 != 0 && self.disk.is_some() {
            ready = self.rotate(via2, cycles);
        } else {
            self.sync = false;
            self.acc = 0;
        }

        // Present the status lines the DOS polls on port B's input pins.
        let protected = match &self.disk {
            Some(d) => d.write_protected,
            None => false,
        };
        let sync: u8 = if self.sync { 0x80 } else { 0 }; // PB7 low = SYNC detected
        let notch: u8 = if protected { 0x10 } else { 0 }; // PB4 low = write-protected
        via2.pb_in = 0xFF - sync - notch;
        ready
    }

    fn set_phase(&mut self, phase: u8)
        requires
            phase < 4,
            mechanism_sound(*old(self)),
        ensures
            *final(self) == phase_set(*old(self), phase),
            mechanism_sound(*final(self)),
            final(self).acc <= old(self).acc,
            final(self).disk == old(self).disk,
    {
        if phase != self.last_phase {
            if phase == (self.last_phase + 1) % 4 {
                if self.half_track < (TRACKS - 1) * 2 {
                    self.half_track += 1;
                }
            } else if phase == (self.last_phase + 3) % 4 && self.half_track > 0 {
                self.half_track -= 1;
            }
            self.last_phase = phase;
            // Landed on a new track: restart at the top of its stream. The DOS
            // re-hunts for a sync mark anyway, so any rotational start is fine.
            self.pos = 0;
            self.prev_byte = 0;
            self.sync = false;
            self.acc = 0;
        }
    }

    /// Turn the disk by `cycles`.
    fn rotate(&mut self, via2: &mut Via, cycles: u32) -> (ready: bool)
        requires
            mechanism_sound(*old(self)),
            old(self).disk is Some,
            old(self).acc + cycles <= u32::MAX,
        ensures
            ({
                let h = rotated(*old(self), *old(via2), cycles);
                &&& *final(self) == (Controller {
                    pos: h.pos as usize,
                    prev_byte: h.prev_byte,
                    sync: h.sync,
                    acc: ((old(self).acc + cycles)
                        % (byte_time(head_track(*old(self)) as u8) as int)) as u32,
                    ..*old(self)
                })
                &&& *final(via2) == (Via { pa_in: h.byte, ..*old(via2) })
                &&& ready == h.ready
            }),
            mechanism_sound(*final(self)),
    {
        let track = self.track();
        let period = cycles_per_byte(track);
        let mut ready = false;
        self.acc += cycles;
        let ghost total = self.acc as int;
        let ghost start = head_of(*old(self), *old(via2));
        let ghost stream = head_stream(*old(self));
        let ghost mut n: nat = 0;
        while self.acc >= period
            invariant
                period == byte_time(head_track(*old(self)) as u8),
                track == head_track(*old(self)),
                mechanism_sound(*old(self)),
                old(self).disk is Some,
                stream == head_stream(*old(self)),
                total == self.acc + period * n,
                total == old(self).acc + cycles,
                self.pos < stream.len(),
                ({
                    let h = bytes_passed(start, stream, n);
                    &&& *self == (Controller {
                        pos: h.pos as usize, prev_byte: h.prev_byte, sync: h.sync, acc: self.acc,
                        ..*old(self)
                    })
                    &&& h.pos == self.pos
                    &&& *via2 == (Via { pa_in: h.byte, ..*old(via2) })
                    &&& ready == h.ready
                }),
            decreases self.acc,
        {
            self.acc -= period;
            assert(period * (n + 1) == period * n + period) by (nonlinear_arith);
            let (at, byte) = self.next_byte(track);
            self.pos = at;
            via2.pa_in = byte;
            // A sync mark is a run of one-bits; two `$FF` bytes in a row is
            // well past the ten ones the drive's detector needs, and GCR data
            // can never produce it. BYTE-READY is suppressed while syncing:
            // that is what byte-aligns the first data byte after the mark.
            self.sync = byte == 0xFF && self.prev_byte == 0xFF;
            if !self.sync {
                ready = true;
            }
            self.prev_byte = byte;
            proof {
                n = n + 1;
            }
        }
        assert(n == total / (period as int) && self.acc == total % (period as int)) by (nonlinear_arith)
            requires
                total == self.acc + period * n,
                0 <= self.acc < period,
        ;
        ready
    }

    /// The place and the byte that come under the head next.
    fn next_byte(&self, track: u8) -> (r: (usize, u8))
        requires
            self.disk is Some,
            media_sound(self.disk->0),
            1 <= track <= TRACKS,
            self.pos < self.disk->0.tracks@[track - 1]@.len(),
        ensures
            ({
                let stream = self.disk->0.tracks@[track - 1]@;
                &&& r.0 == (if self.pos + 1 >= stream.len() { 0 } else { self.pos + 1 })
                &&& r.0 < stream.len()
                &&& r.1 == stream[r.0 as int]
            }),
    {
        match &self.disk {
            Some(disk) => {
                let stream = &disk.tracks[(track - 1) as usize];
                let at: usize = if self.pos >= stream.len() - 1 { 0 } else { self.pos + 1 };
                (at, stream[at])
            },
            None => (0, 0),
        }
    }
}

// ---- what holds of the mechanism ----

/// With the motor off, or without a disk, no byte arrives and the head sees no
/// sync.
pub proof fn law_stationary_disk_is_silent(c: Controller, via2: Via, cycles: u32)
    requires
        !motor_on(via6522::port_level(via2.orb, via2.ddrb, via2.pb_in)) || c.disk is None,
    ensures
        !mechanism_ticked(c, via2, cycles).2,
        !mechanism_ticked(c, via2, cycles).0.sync,
        mechanism_ticked(c, via2, cycles).1.pa_in == via2.pa_in,
{
}

/// BYTE-READY is never up over a sync mark, as long as a tick is no longer than
/// the time between two bytes of the track that the head is on by then.
pub proof fn law_no_byte_ready_over_sync(c: Controller, via2: Via, cycles: u32)
    requires
        mechanism_sound(c),
        cycles <= byte_time(head_track(phase_set(
            c, (via6522::port_level(via2.orb, via2.ddrb, via2.pb_in) % 4) as u8)) as u8),
    ensures
        !(mechanism_ticked(c, via2, cycles).2 && mechanism_ticked(c, via2, cycles).0.sync),
{
    let pb = via6522::port_level(via2.orb, via2.ddrb, via2.pb_in);
    let s = phase_set(c, pb % 4);
    let t = byte_time(head_track(s) as u8) as int;
    assert((s.acc + cycles) / t <= 1) by (nonlinear_arith)
        requires
            26 <= t,
            0 <= s.acc + cycles < 2 * t,
    ;
    assert((s.acc + cycles) / t >= 0) by (nonlinear_arith)
        requires
            26 <= t,
            0 <= s.acc + cycles,
    ;
    reveal_with_fuel(bytes_passed, 2);
}

/// The head reads the track as it comes round: after `n` bytes it is `n` places
/// on, modulo the track.
pub proof fn law_head_follows_the_track(h: Head, stream: Seq<u8>, n: nat)
    requires
        stream.len() > 0,
        0 <= h.pos < stream.len(),
    ensures
        bytes_passed(h, stream, n).pos == (h.pos + n) % (stream.len() as int),
        n > 0 ==> bytes_passed(h, stream, n).byte == stream[(h.pos + n) % (stream.len() as int)],
    decreases n,
{
    if n == 0 {
        assert(h.pos % (stream.len() as int) == h.pos) by (nonlinear_arith)
            requires 0 <= h.pos < stream.len();
    } else {
        law_head_follows_the_track(h, stream, (n - 1) as nat);
        let len = stream.len() as int;
        let p = (h.pos + n - 1) % len;
        vstd::arithmetic::div_mod::lemma_add_mod_noop(h.pos + n - 1, 1, len);
        if p + 1 >= len {
            assert(p + 1 == len);
            if len > 1 {
                assert(1int % len == 1) by (nonlinear_arith) requires len > 1;
            } else {
                assert(1int % len == 0) by (nonlinear_arith) requires len == 1;
            }
            assert((p + 1int % len) % len == 0) by (nonlinear_arith)
                requires
                    p + 1 == len,
                    len >= 1,
                    1int % len == (if len > 1 { 1int } else { 0 }),
            ;
        } else {
            assert(1int % len == 1) by (nonlinear_arith) requires len > 1;
            assert((p + 1) % len == p + 1) by (nonlinear_arith)
                requires 0 <= p, p + 1 < len;
        }
    }
}

/// Phase up is inward, phase down is outward, a half-track each, and the head
/// stays on the disk.
pub proof fn law_stepper(c: Controller)
    requires
        mechanism_sound(c),
    ensures
        c.half_track < 68 ==> phase_set(c, ((c.last_phase + 1) % 4) as u8).half_track == c.half_track + 1,
        c.half_track > 0 ==> phase_set(c, ((c.last_phase + 3) % 4) as u8).half_track == c.half_track - 1,
        c.half_track == 68 ==> phase_set(c, ((c.last_phase + 1) % 4) as u8).half_track == 68,
        c.half_track == 0 ==> phase_set(c, ((c.last_phase + 3) % 4) as u8).half_track == 0,
        1 <= head_track(c) <= 35,
{
}

/// Away from the stops, a step in and a step out bring the head back.
pub proof fn law_steps_cancel(c: Controller)
    requires
        mechanism_sound(c),
        c.half_track < 68,
    ensures
        ({
            let inward = phase_set(c, ((c.last_phase + 1) % 4) as u8);
            let back = phase_set(inward, ((inward.last_phase + 3) % 4) as u8);
            back.half_track == c.half_track && back.last_phase == c.last_phase
        }),
{
}

} // verus!
