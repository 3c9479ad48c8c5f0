//! One video frame of a windowed emulator: the picture drawn line by line under
//! the beam, the drive clocked alongside, and the sound as it went.

use vstd::prelude::*;
use crate::c64;
use crate::c64::machine;
use crate::c64::machine::{Showing, C64};
use crate::emu;
use crate::emu::Setup;
use crate::harness;
use crate::harness::Drive;
use crate::{sid, vic2};

verus! {

/// A frame on its way.
#[verifier::ext_equal]
pub struct Film {
    pub setup: Setup,
    pub fb: Seq<u32>,
    /// The lines drawn so far.
    pub drawn: Seq<bool>,
    /// For each instruction, the cycles it took and the sound behind it.
    pub sound: Seq<(u8, i32)>,
}

/// The machine of a film and what it shows.
pub open spec fn showing(f: Film) -> Showing {
    Showing { m: f.setup.c64, fb: f.fb, drawn: f.drawn }
}

/// The line under the beam drawn, unless it is drawn already.
pub open spec fn lined(s: Showing) -> Showing {
    let line = s.m.board.vic.raster as int;
    if line < vic2::HEIGHT && !s.drawn[line] { machine::drawn_line(s, line) } else { s }
}

/// The cycles of the instruction that a machine is about to execute, and the
/// sound it leaves behind.
#[verifier::opaque]
pub open spec fn heard(before: C64, after: C64) -> (u8, i32) {
    let sid = after.board.sid;
    (machine::stepped(before).1, (sid::mixed(sid) * sid.volume) as i32)
}

/// One beat: the line under the beam is drawn when the beam first gets there,
/// then the machine and its drive step, and the sound is noted.
#[verifier::opaque]
pub open spec fn beat(f: Film) -> Film {
    let p = lined(showing(f));
    let s = emu::setup_stepped(Setup { c64: p.m, drive: f.setup.drive });
    Film { setup: s, fb: p.fb, drawn: p.drawn, sound: f.sound.push(heard(p.m, s.c64)) }
}

/// Whatever the drive opens in the next beat can be read off its disk.
#[verifier::opaque]
pub open spec fn may_beat(f: Film) -> bool {
    emu::setup_may_step(Setup { c64: lined(showing(f)).m, drive: f.setup.drive })
}

/// Whatever the drive opens before a deadline can be read off its disk.
pub open spec fn may_run_to(f: Film, deadline: u64) -> bool
    decreases u64::MAX - f.setup.c64.cpu.cycles,
{
    f.setup.c64.cpu.cycles < deadline && f.setup.c64.cpu.cycles < beat(f).setup.c64.cpu.cycles
        ==> may_beat(f) && may_run_to(beat(f), deadline)
}

/// The film once the machine's clock has reached `deadline`.
pub open spec fn run_to(f: Film, deadline: u64) -> Film
    decreases u64::MAX - f.setup.c64.cpu.cycles,
{
    let g = beat(f);
    if f.setup.c64.cpu.cycles >= deadline || g.setup.c64.cpu.cycles <= f.setup.c64.cpu.cycles {
        f
    } else {
        run_to(g, deadline)
    }
}

/// The start of a frame: nothing drawn, nothing heard.
pub open spec fn start(s: Setup, fb: Seq<u32>) -> Film {
    Film {
        setup: s,
        fb,
        drawn: Seq::new(vic2::HEIGHT as nat, |k: int| false),
        sound: Seq::empty(),
    }
}

/// Whatever the drive opens in the next frame can be read off its disk.
pub open spec fn may_film(s: Setup, fb: Seq<u32>) -> bool {
    may_run_to(start(s, fb), (s.c64.cpu.cycles + harness::CYCLES_PER_FRAME) as u64)
}

/// A whole frame: run for a frame's time, then draw the lines the beam did not
/// reach.
pub open spec fn filmed(s: Setup, fb: Seq<u32>) -> Film {
    let f = run_to(start(s, fb), (s.c64.cpu.cycles + harness::CYCLES_PER_FRAME) as u64);
    let r = machine::lines_filled(showing(f), vic2::HEIGHT as int);
    Film { setup: Setup { c64: r.m, ..f.setup }, fb: r.fb, drawn: r.drawn, ..f }
}

/// A beat moves the clock on.
proof fn lemma_beat_moves_time(f: Film)
    requires
        f.setup.c64.cpu.cycles + machine::MAX_STEP <= u64::MAX,
    ensures
        f.setup.c64.cpu.cycles < beat(f).setup.c64.cpu.cycles,
        beat(f).setup.c64.cpu.cycles <= f.setup.c64.cpu.cycles + machine::MAX_STEP,
{
    reveal(beat);
    reveal(emu::setup_stepped);
    machine::law_step_moves_time(lined(showing(f)).m);
}

/// Draw the line under the beam unless it is drawn already, step, and note the
/// sound.
fn film_beat(
    c64: &mut C64,
    drive: &mut Option<Drive>,
    fb: &mut [u32],
    rendered: &mut [bool; vic2::HEIGHT],
    sound: &mut Vec<(u8, i32)>,
)
    requires
        c64::board_sound(old(c64).board),
        *old(drive) matches Some(d) ==> harness::drive_ready(d@),
        old(fb).len() >= 64000,
        may_beat(Film {
            setup: emu::setup(*old(c64), *old(drive)),
            fb: old(fb)@,
            drawn: old(rendered)@,
            sound: old(sound)@,
        }),
    ensures
        (Film {
            setup: emu::setup(*final(c64), *final(drive)),
            fb: final(fb)@,
            drawn: final(rendered)@,
            sound: final(sound)@,
        }) == beat(Film {
            setup: emu::setup(*old(c64), *old(drive)),
            fb: old(fb)@,
            drawn: old(rendered)@,
            sound: old(sound)@,
        }),
        c64::board_sound(final(c64).board),
        *final(drive) matches Some(d) ==> harness::drive_ready(d@),
        final(fb)@.len() == old(fb)@.len(),
{
    reveal(beat);
    reveal(may_beat);
    reveal(heard);
    let line = c64.board.vic.raster() as usize;
    if line < vic2::HEIGHT && !rendered[line] {
        c64.draw_line(line, fb, Ghost(rendered@));
        rendered[line] = true;
    }
    let cycles = emu::step_setup(c64, drive);
    sound.push((cycles, c64.board.sid.output()));
}

/// Run one video frame: render each scanline as the raster reaches it, so that
/// raster-interrupt splits appear, clock the drive alongside, and note after
/// each instruction how long it took and what the SID puts out. Lines that the
/// raster did not reach are drawn at the end with the final state.
pub fn run_frame(c64: &mut C64, drive: &mut Option<Drive>, fb: &mut [u32]) -> (sound: Vec<(u8, i32)>)
    requires
        c64::board_sound(old(c64).board),
        *old(drive) matches Some(d) ==> harness::drive_ready(d@),
        old(fb).len() >= 64000,
        old(c64).cpu.cycles + harness::CYCLES_PER_FRAME + machine::MAX_STEP <= u64::MAX,
        may_film(emu::setup(*old(c64), *old(drive)), old(fb)@),
    ensures
        ({
            let f = filmed(emu::setup(*old(c64), *old(drive)), old(fb)@);
            &&& emu::setup(*final(c64), *final(drive)) == f.setup
            &&& final(fb)@ == f.fb
            &&& sound@ == f.sound
        }),
        c64::board_sound(final(c64).board),
        *final(drive) matches Some(d) ==> harness::drive_ready(d@),
{
    let deadline = c64.cpu.cycles + harness::CYCLES_PER_FRAME as u64;
    let mut rendered: [bool; vic2::HEIGHT] = [false; vic2::HEIGHT];
    let mut sound: Vec<(u8, i32)> = Vec::new();
    let ghost first = start(emu::setup(*c64, *drive), fb@);
    assert(rendered@ =~= first.drawn);
    while c64.cpu.cycles < deadline
        invariant
            deadline + machine::MAX_STEP <= u64::MAX,
            old(fb).len() >= 64000,
            fb@.len() == old(fb)@.len(),
            c64::board_sound(c64.board),
            *drive matches Some(d) ==> harness::drive_ready(d@),
            run_to(
                Film {
                    setup: emu::setup(*c64, *drive), fb: fb@, drawn: rendered@, sound: sound@,
                },
                deadline,
            ) == run_to(first, deadline),
            may_run_to(
                Film {
                    setup: emu::setup(*c64, *drive), fb: fb@, drawn: rendered@, sound: sound@,
                },
                deadline,
            ),
        decreases u64::MAX - c64.cpu.cycles,
    {
        proof {
            lemma_beat_moves_time(Film {
                setup: emu::setup(*c64, *drive), fb: fb@, drawn: rendered@, sound: sound@,
            });
        }
        film_beat(c64, drive, fb, &mut rendered, &mut sound);
    }
    let ghost end = Film {
        setup: emu::setup(*c64, *drive), fb: fb@, drawn: rendered@, sound: sound@,
    };
    assert(run_to(first, deadline) == end);
    let ghost mut drawn: Seq<bool> = rendered@;
    let mut y: usize = 0;
    while y < vic2::HEIGHT
        invariant
            y <= vic2::HEIGHT,
            old(fb).len() >= 64000,
            fb@.len() == old(fb)@.len(),
            end.drawn == rendered@,
            (Showing { m: *c64, fb: fb@, drawn }) == machine::lines_filled(showing(end), y as int),
            c64::board_sound(c64.board),
        decreases vic2::HEIGHT - y,
    {
        if !rendered[y] {
            c64.draw_line(y, fb, Ghost(drawn));
            proof {
                drawn = drawn.update(y as int, true);
            }
        }
        y += 1;
    }
    sound
}

// ---- what holds of a frame ----

proof fn lemma_run_ends(f: Film, deadline: u64)
    requires
        deadline + machine::MAX_STEP <= u64::MAX,
        f.setup.c64.cpu.cycles < deadline + machine::MAX_STEP,
    ensures
        deadline <= run_to(f, deadline).setup.c64.cpu.cycles < deadline + machine::MAX_STEP,
    decreases u64::MAX - f.setup.c64.cpu.cycles,
{
    if f.setup.c64.cpu.cycles < deadline {
        lemma_beat_moves_time(f);
        lemma_run_ends(beat(f), deadline);
    }
}

/// Drawing a line takes no time and marks it.
proof fn lemma_line(s: Showing, y: int)
    ensures
        machine::drawn_line(s, y).m.cpu == s.m.cpu,
        machine::drawn_line(s, y).drawn == s.drawn.update(y, true),
{
}

proof fn lemma_lines_filled(s: Showing, n: int, y: int)
    requires
        n <= s.drawn.len(),
        0 <= y < s.drawn.len(),
    ensures
        machine::lines_filled(s, n).m.cpu == s.m.cpu,
        machine::lines_filled(s, n).drawn.len() == s.drawn.len(),
        machine::lines_filled(s, n).drawn[y] == (y < n || s.drawn[y]),
    decreases n,
{
    if n > 0 {
        lemma_lines_filled(s, n - 1, y);
        lemma_line(machine::lines_filled(s, n - 1), n - 1);
    }
}

proof fn lemma_beat_keeps_lines(f: Film)
    requires
        f.drawn.len() == vic2::HEIGHT,
    ensures
        beat(f).drawn.len() == vic2::HEIGHT,
{
    reveal(beat);
    lemma_line(showing(f), f.setup.c64.board.vic.raster as int);
}

proof fn lemma_run_keeps_lines(f: Film, deadline: u64)
    requires
        f.drawn.len() == vic2::HEIGHT,
    ensures
        run_to(f, deadline).drawn.len() == vic2::HEIGHT,
    decreases u64::MAX - f.setup.c64.cpu.cycles,
{
    let g = beat(f);
    lemma_beat_keeps_lines(f);
    if f.setup.c64.cpu.cycles < deadline && g.setup.c64.cpu.cycles > f.setup.c64.cpu.cycles {
        lemma_run_keeps_lines(g, deadline);
    }
}

/// A frame takes as long as a frame does, give or take an instruction, and at
/// its end every line has been drawn.
pub proof fn law_frame_is_complete(s: Setup, fb: Seq<u32>, y: int)
    requires
        s.c64.cpu.cycles + harness::CYCLES_PER_FRAME + machine::MAX_STEP <= u64::MAX,
        0 <= y < vic2::HEIGHT,
    ensures
        s.c64.cpu.cycles + harness::CYCLES_PER_FRAME <= filmed(s, fb).setup.c64.cpu.cycles,
        filmed(s, fb).setup.c64.cpu.cycles
            < s.c64.cpu.cycles + harness::CYCLES_PER_FRAME + machine::MAX_STEP,
        filmed(s, fb).drawn[y],
{
    let deadline = (s.c64.cpu.cycles + harness::CYCLES_PER_FRAME) as u64;
    let f = run_to(start(s, fb), deadline);
    lemma_run_ends(start(s, fb), deadline);
    lemma_run_keeps_lines(start(s, fb), deadline);
    lemma_lines_filled(showing(f), vic2::HEIGHT as int, y);
}

proof fn lemma_readable_may_run_to(f: Film, deadline: u64)
    requires
        emu::setup_readable(f.setup),
    ensures
        may_run_to(f, deadline),
    decreases u64::MAX - f.setup.c64.cpu.cycles,
{
    reveal(may_beat);
    reveal(beat);
    let s = Setup { c64: lined(showing(f)).m, drive: f.setup.drive };
    emu::law_readable_setup_may_step(s);
    if f.setup.c64.cpu.cycles < deadline
        && f.setup.c64.cpu.cycles < beat(f).setup.c64.cpu.cycles {
        lemma_readable_may_run_to(beat(f), deadline);
    }
}

/// Any frame of a setup without a drive, or with a disk that can be read, may be
/// filmed.
pub proof fn law_readable_setup_may_be_filmed(s: Setup, fb: Seq<u32>)
    requires
        emu::setup_readable(s),
    ensures
        may_film(s, fb),
{
    lemma_readable_may_run_to(
        start(s, fb), (s.c64.cpu.cycles + harness::CYCLES_PER_FRAME) as u64);
}

} // verus!
