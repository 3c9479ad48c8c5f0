//! What a windowed emulator decides between its frames.
//!
//! - [`frame`]: a video frame with its picture and its sound.
//! - [`keys`]: which C64 keys the host's keys stand for.
//! - [`status`]: the system monitor, drawn once per frame.
//! - [`debug`]: a small live debugger that answers commands.

use vstd::prelude::*;
use crate::c64;
use crate::c64::machine;
use crate::c64::machine::C64;
use crate::d64;
use crate::harness;
use crate::harness::{Drive, DriveState};
use crate::text;

pub mod debug;
pub mod frame;
pub mod keys;
pub mod monitoring;
pub mod status;

verus! {

// ---- command lines ----

/// Text with `\r`, `\n` and `\\` taken as escapes. Any other escape stays as it
/// stands.
pub open spec fn unescaped(s: Seq<char>) -> Seq<char>
    decreases s.len(),
{
    if s.len() == 0 {
        Seq::empty()
    } else if s[0] != '\\' {
        seq![s[0]] + unescaped(s.skip(1))
    } else if s.len() == 1 {
        seq!['\\']
    } else if s[1] == 'r' {
        seq!['\r'] + unescaped(s.skip(2))
    } else if s[1] == 'n' {
        seq!['\n'] + unescaped(s.skip(2))
    } else if s[1] == '\\' {
        seq!['\\'] + unescaped(s.skip(2))
    } else {
        seq!['\\', s[1]] + unescaped(s.skip(2))
    }
}

/// Turn `\r` / `\n` / `\\` in a command-line string into real characters, so a
/// shell can ask for a RETURN.
pub fn unescape(text: &str) -> (out: String)
    ensures
        out@ == unescaped(text@),
{
    let chars = text::chars_of(text);
    let mut out = String::new();
    let mut k: usize = 0;
    assert(text@.skip(0) =~= text@);
    assert(out@ + unescaped(text@.skip(0)) =~= unescaped(text@));
    while k < chars.len()
        invariant
            k <= chars.len(),
            chars@ == text@,
            out@ + unescaped(text@.skip(k as int)) == unescaped(text@),
        decreases chars.len() - k,
    {
        let ghost before = out@;
        let ghost rest = text@.skip(k as int);
        let c = chars[k];
        assert(rest[0] == c);
        assert(rest.skip(1) =~= text@.skip(k + 1));
        if c != '\\' {
            out.push(c);
            assert(before + unescaped(rest) =~= out@ + unescaped(text@.skip(k + 1)));
            k += 1;
        } else if k + 1 == chars.len() {
            out.push('\\');
            assert(text@.skip(k + 1) =~= Seq::empty());
            assert(before + unescaped(rest) =~= out@ + unescaped(text@.skip(k + 1)));
            k += 1;
        } else {
            let next = chars[k + 1];
            assert(rest[1] == next);
            assert(rest.skip(2) =~= text@.skip(k + 2));
            if next == 'r' {
                out.push('\r');
            } else if next == 'n' {
                out.push('\n');
            } else if next == '\\' {
                out.push('\\');
            } else {
                out.push('\\');
                out.push(next);
            }
            assert(before + unescaped(rest) =~= out@ + unescaped(text@.skip(k + 2)));
            k += 2;
        }
    }
    assert(text@.skip(k as int) =~= Seq::empty());
    assert(out@ + unescaped(text@.skip(k as int)) =~= out@);
    out
}

/// Text without a backslash comes through as it is.
pub proof fn law_plain_text_is_untouched(s: Seq<char>)
    requires
        forall|k: int| 0 <= k < s.len() ==> #[trigger] s[k] != '\\',
    ensures
        unescaped(s) == s,
    decreases s.len(),
{
    if s.len() > 0 {
        law_plain_text_is_untouched(s.skip(1));
        assert(seq![s[0]] + s.skip(1) =~= s);
    } else {
        assert(unescaped(s) =~= s);
    }
}

/// Escapes are read one by one: `\\r` and `\\n` are line ends, `\\\\` is a backslash, and
/// a backslash before anything else, or at the end, is itself.
pub proof fn law_escapes(c: char, rest: Seq<char>)
    ensures
        unescaped(seq!['\\', c] + rest) == (if c == 'r' { seq!['\r'] } else if c == 'n' { seq!['\n'] }
            else if c == '\\' { seq!['\\'] } else { seq!['\\', c] }) + unescaped(rest),
        c != '\\' ==> unescaped(seq![c] + rest) == seq![c] + unescaped(rest),
        unescaped(seq!['\\']) == seq!['\\'],
{
    let s = seq!['\\', c] + rest;
    assert(s.skip(2) =~= rest);
    assert((seq![c] + rest).skip(1) =~= rest);
}

// ---- program files ----

/// Why a file gives no program.
#[derive(Debug, Clone, Copy, PartialEq, Eq, Structural)]
pub enum ProgramError {
    /// Not a valid `.d64` image.
    NotADisk,
    /// No program of that name on the disk.
    NoSuchProgram,
}

/// The program asked for on a disk: any, if no name is given.
pub open spec fn program_named(name: Option<&str>) -> Seq<char> {
    match name {
        Some(n) => n@,
        None => "*"@,
    }
}

/// The program in a file: a raw `.prg` as it is, or a named PRG extracted from
/// a disk image (`name` defaults to the first PRG on the disk).
pub fn program_in(bytes: Vec<u8>, is_disk: bool, name: Option<&str>) -> (r: Result<
    Vec<u8>,
    ProgramError,
>)
    requires
        is_disk && d64::is_image(bytes@) ==> d64::prg_inside(bytes@, program_named(name)),
    ensures
        !is_disk ==> r is Ok && r->Ok_0@ == bytes@,
        is_disk && !d64::is_image(bytes@) ==> r == Err::<Vec<u8>, _>(ProgramError::NotADisk),
        is_disk && d64::is_image(bytes@) ==> match d64::first_prg(
            d64::directory(bytes@),
            d64::wanted(program_named(name)),
        ) {
            Some(e) => r is Ok && r->Ok_0@ == d64::file_of(bytes@, e),
            None => r == Err::<Vec<u8>, _>(ProgramError::NoSuchProgram),
        },
{
    if !is_disk {
        return Ok(bytes);
    }
    match d64::Disk::new(bytes) {
        None => Err(ProgramError::NotADisk),
        Some(disk) => {
            let want = match name {
                Some(n) => n,
                None => "*",
            };
            match disk.read_prg(want) {
                Some(prg) => Ok(prg),
                None => Err(ProgramError::NoSuchProgram),
            }
        },
    }
}

// ---- booting ----

/// `READY` in screen codes.
pub const READY: [u8; 5] = [0x12, 0x05, 0x01, 0x04, 0x19];

/// The most instructions a boot may take, so a bad ROM can't hang forever.
pub const BOOT_STEPS: u64 = 40_000_000;

/// How many instructions pass between looks at the screen.
pub const LOOK_EVERY: u64 = 100_000;

/// Do the codes of `READY` stand at a cell?
pub open spec fn ready_at(ram: Seq<u8>, at: int) -> bool {
    forall|k: int| 0 <= k < 5 ==> ram[0x0400 + at + k] == #[trigger] READY[k]
}

/// Does the screen say READY?
pub open spec fn is_ready(ram: Seq<u8>) -> bool {
    exists|at: int| 0 <= at <= 995 && #[trigger] ready_at(ram, at)
}

/// A machine, and the drive on its bus if it has one.
pub struct Setup {
    pub c64: C64,
    pub drive: Option<DriveState>,
}

/// The setup after one instruction, with the drive clocked alongside.
#[verifier::opaque]
pub open spec fn setup_stepped(s: Setup) -> Setup {
    let (m, cycles) = machine::stepped(s.c64);
    match s.drive {
        Some(d) => {
            let (e, bus) = harness::drive_clocked(d, m.board.iec, cycles as nat);
            Setup { c64: harness::on_bus(m, bus), drive: Some(e) }
        },
        None => Setup { c64: m, drive: None },
    }
}

/// Whatever the drive opens while the machine's next instruction runs can be
/// read off its disk.
#[verifier::opaque]
pub open spec fn setup_may_step(s: Setup) -> bool {
    let (m, cycles) = machine::stepped(s.c64);
    s.drive matches Some(d) ==> harness::drive_may_run(d, m.board.iec, cycles as nat)
}

/// The setup after `n` instructions.
pub open spec fn setup_steps(s: Setup, n: nat) -> Setup
    decreases n,
{
    if n == 0 { s } else { setup_stepped(setup_steps(s, (n - 1) as nat)) }
}

/// READY has not been seen after any of the first `n` instructions.
pub open spec fn not_ready_yet(s: Setup, n: nat) -> bool {
    forall|k: nat| k <= n ==> !#[trigger] found_ready(s, k)
}

/// Is the screen looked at after `n` instructions, and does it say READY?
pub open spec fn found_ready(s: Setup, n: nat) -> bool {
    n > 0 && (n - 1) % (LOOK_EVERY as int) == 0 && is_ready(setup_steps(s, n).c64.board.ram@)
}

/// A machine and its drive as one value.
pub open spec fn setup(c64: C64, drive: Option<Drive>) -> Setup {
    Setup {
        c64,
        drive: match drive {
            Some(d) => Some(d@),
            None => None,
        },
    }
}

/// Look for READY on the screen.
fn screen_is_ready(ram: &[u8; 0x1_0000]) -> (b: bool)
    ensures
        b == is_ready(ram@),
{
    let mut at: usize = 0;
    while at <= 995
        invariant
            at <= 996,
            forall|a: int| 0 <= a < at ==> !#[trigger] ready_at(ram@, a),
        decreases 996 - at,
    {
        let cell = 0x0400 + at;
        if ram[cell] == READY[0] && ram[cell + 1] == READY[1] && ram[cell + 2] == READY[2]
            && ram[cell + 3] == READY[3] && ram[cell + 4] == READY[4] {
            assert(ready_at(ram@, at as int)) by {
                assert forall|k: int| 0 <= k < 5 implies ram@[0x0400 + at + k] == #[trigger] READY[k] by {
                    assert(k == 0 || k == 1 || k == 2 || k == 3 || k == 4);
                }
            }
            return true;
        }
        assert(!ready_at(ram@, at as int)) by {
            if ready_at(ram@, at as int) {
                assert(ram@[0x0400 + at + 0] == READY[0] && ram@[0x0400 + at + 1] == READY[1]
                    && ram@[0x0400 + at + 2] == READY[2] && ram@[0x0400 + at + 3] == READY[3]
                    && ram@[0x0400 + at + 4] == READY[4]);
            }
        }
        at += 1;
    }
    false
}

/// Execute one instruction with the drive clocked alongside.
pub(crate) fn step_setup(c64: &mut C64, drive: &mut Option<Drive>) -> (cycles: u8)
    requires
        c64::board_sound(old(c64).board),
        *old(drive) matches Some(d) ==> harness::drive_ready(d@),
        setup_may_step(setup(*old(c64), *old(drive))),
    ensures
        setup(*final(c64), *final(drive)) == setup_stepped(setup(*old(c64), *old(drive))),
        cycles == machine::stepped(*old(c64)).1,
        c64::board_sound(final(c64).board),
        *final(drive) matches Some(d) ==> harness::drive_ready(d@),
{
    reveal(setup_stepped);
    reveal(setup_may_step);
    let cycles = c64.step();
    if let Some(d) = drive.as_mut() {
        d.tick(&mut c64.board.iec, cycles as u32);
    }
    cycles
}

/// Step the machine until the KERNAL prints READY. (so an injected program lands
/// at the BASIC prompt). Bounded so a bad ROM can't hang forever.
pub fn run_until_ready(c64: &mut C64, drive: &mut Option<Drive>)
    requires
        c64::board_sound(old(c64).board),
        *old(drive) matches Some(d) ==> harness::drive_ready(d@),
        forall|n: nat| n < BOOT_STEPS && not_ready_yet(setup(*old(c64), *old(drive)), n)
            ==> setup_may_step(#[trigger] setup_steps(setup(*old(c64), *old(drive)), n)),
    ensures
        exists|n: nat| #![trigger setup_steps(setup(*old(c64), *old(drive)), n)] {
            let s = setup(*old(c64), *old(drive));
            &&& setup(*final(c64), *final(drive)) == setup_steps(s, n)
            &&& n == BOOT_STEPS || (n < BOOT_STEPS && found_ready(s, n))
            &&& forall|k: nat| k < n ==> !#[trigger] found_ready(s, k)
        },
        c64::board_sound(final(c64).board),
        *final(drive) matches Some(d) ==> harness::drive_ready(d@),
{
    let ghost s = setup(*c64, *drive);
    let mut ready = false;
    let mut n: u64 = 0;
    while !ready && n < BOOT_STEPS
        invariant
            n <= BOOT_STEPS,
            c64::board_sound(c64.board),
            *drive matches Some(d) ==> harness::drive_ready(d@),
            setup(*c64, *drive) == setup_steps(s, n as nat),
            ready == found_ready(s, n as nat),
            forall|k: nat| k < n ==> !#[trigger] found_ready(s, k),
            forall|n: nat| n < BOOT_STEPS && not_ready_yet(s, n)
                ==> setup_may_step(#[trigger] setup_steps(s, n)),
        decreases BOOT_STEPS - n,
    {
        assert(not_ready_yet(s, n as nat));
        step_setup(c64, drive);
        ready = n % LOOK_EVERY == 0 && screen_is_ready(&c64.board.ram);
        n += 1;
    }
}

// ---- what holds of a setup ----

/// The disk in the setup's drive, if it has either, can be read.
pub open spec fn setup_readable(s: Setup) -> bool {
    s.drive matches Some(d) ==> harness::laws::disk_readable(d.store)
}

/// A setup without a drive, or with a disk that can be read, may step, and stays
/// as it is in that.
pub proof fn law_readable_setup_may_step(s: Setup)
    requires
        setup_readable(s),
    ensures
        setup_may_step(s),
        setup_readable(setup_stepped(s)),
{
    reveal(setup_may_step);
    reveal(setup_stepped);
    let (m, cycles) = machine::stepped(s.c64);
    if let Some(d) = s.drive {
        harness::laws::law_readable_disk_may_run(d, m.board.iec, cycles as nat);
        harness::laws::law_disk_stays(d, m.board.iec, cycles as nat);
    }
}

/// A setup without a drive, or with a disk that can be read, may step any number
/// of times.
pub proof fn law_readable_setup_may_run(s: Setup, n: nat)
    requires
        setup_readable(s),
    ensures
        setup_may_step(setup_steps(s, n)),
        setup_readable(setup_steps(s, n)),
    decreases n,
{
    if n > 0 {
        law_readable_setup_may_run(s, (n - 1) as nat);
        law_readable_setup_may_step(setup_steps(s, (n - 1) as nat));
    }
    law_readable_setup_may_step(setup_steps(s, n));
}

/// READY is looked for on the screen by the places of its letters in the alphabet.
pub proof fn law_ready_is_spelt(ram: Seq<u8>, at: int)
    ensures
        ready_at(ram, at) == (ram[0x0400 + at] == 18 && ram[0x0401 + at] == 5
            && ram[0x0402 + at] == 1 && ram[0x0403 + at] == 4 && ram[0x0404 + at] == 25),
{
    if ready_at(ram, at) {
        assert(ram[0x0400 + at + 0] == READY[0] && ram[0x0400 + at + 1] == READY[1]
            && ram[0x0400 + at + 2] == READY[2] && ram[0x0400 + at + 3] == READY[3]
            && ram[0x0400 + at + 4] == READY[4]);
    }
}

/// A step of the setup: the computer's instruction, then the drive for just as long.
pub proof fn law_setup_step(s: Setup)
    ensures
        ({
            let (m, n) = machine::stepped(s.c64);
            let t = setup_stepped(s);
            &&& s.drive is None ==> t.c64 == m && t.drive is None
            &&& s.drive is Some ==> {
                let (d, bus) = harness::drive_clocked(s.drive->0, m.board.iec, n as nat);
                t.drive == Some(d) && t.c64 == harness::on_bus(m, bus)
            }
        }),
{
    reveal(setup_stepped);
}

} // verus!
