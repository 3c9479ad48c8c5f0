//! What holds of a rig's drive over any run.

use vstd::prelude::*;

use crate::c64::machine::C64;
use crate::d64;
use crate::d64::drive::{DiskDrive, DriveModel};
use crate::harness;
use crate::harness::{DriveState, Rig};
use crate::iec;
use crate::iec::device::Link;

verus! {

/// Everything on the disk in the drive, if there is one, can be read.
pub open spec fn disk_readable(m: DriveModel) -> bool {
    m.disk matches Some(img) ==> d64::readable(img)
}

/// The disk in the rig's drive, if it has either, can be read.
pub open spec fn rig_readable(r: Rig) -> bool {
    r.drive matches Some(d) ==> disk_readable(d.store)
}

proof fn lemma_match_is_listed(entries: Seq<d64::Entry>, pattern: Seq<char>)
    ensures
        d64::drive::first_match(entries, pattern) matches Some(e) ==> {
            &&& d64::is_prg_entry(e)
            &&& entries.contains(e)
        },
    decreases entries.len(),
{
    if entries.len() > 0 {
        if d64::drive::entry_matches(pattern, entries[0]) {
            assert(entries[0] == d64::drive::first_match(entries, pattern)->0);
        } else {
            let rest = entries.skip(1);
            lemma_match_is_listed(rest, pattern);
            if let Some(e) = d64::drive::first_match(rest, pattern) {
                let k = choose|k: int| 0 <= k < rest.len() && rest[k] == e;
                assert(entries[k + 1] == e);
            }
        }
    }
}

/// On a disk that can be read, every name can be opened on every channel.
pub proof fn law_readable_disk_opens(m: DriveModel, channel: u8, name: Seq<u8>)
    requires
        disk_readable(m),
    ensures
        d64::drive::drive_openable(m, channel, name),
{
    if let Some(img) = m.disk {
        lemma_match_is_listed(d64::directory(img), d64::drive::pattern_of(name));
    }
}

proof fn lemma_edge_keeps_disk(l: Link<DriveModel>, atn: bool)
    ensures
        iec::device::after_atn_edge::<DiskDrive>(l, atn).store.disk == l.store.disk,
{
}

proof fn lemma_byte_keeps_disk(l: Link<DriveModel>, byte: u8)
    ensures
        iec::device::after_byte::<DiskDrive>(l, byte).store.disk == l.store.disk,
{
}

proof fn lemma_receiving_keeps_disk(l: Link<DriveModel>, clk: bool, data: bool)
    ensures
        iec::device::receiving::<DiskDrive>(l, clk, data).store.disk == l.store.disk,
{
    lemma_byte_keeps_disk(iec::device::byte_taken(l), l.dev.shift);
}

proof fn lemma_sending_keeps_disk(l: Link<DriveModel>, clk: bool, data: bool)
    ensures
        iec::device::sending::<DiskDrive>(l, clk, data).store.disk == l.store.disk,
{
}

proof fn lemma_tick_keeps_disk(l: Link<DriveModel>)
    ensures
        iec::device::ticked_once::<DiskDrive>(l).store.disk == l.store.disk,
{
    let atn = iec::line_high(l.bus, iec::Line::Atn);
    let clk = iec::line_high(l.bus, iec::Line::Clk);
    let data = iec::line_high(l.bus, iec::Line::Data);
    let e = iec::device::after_atn_edge::<DiskDrive>(l, atn);
    let t = Link {
        dev: iec::device::Device {
            prev_atn: atn, timer: e.dev.timer.saturating_add(1), ..e.dev
        },
        ..e
    };
    let g = iec::device::receiving::<DiskDrive>(t, clk, data);
    let s = iec::device::sending::<DiskDrive>(g, clk, data);
    assert(e.store.disk == l.store.disk) by {
        lemma_edge_keeps_disk(l, atn);
    }
    assert(g.store.disk == t.store.disk) by {
        lemma_receiving_keeps_disk(t, clk, data);
    }
    assert(s.store.disk == g.store.disk) by {
        lemma_sending_keeps_disk(g, clk, data);
    }
    assert(iec::device::let_go_when_done(s).store == s.store);
    assert(iec::device::ticked_once::<DiskDrive>(l) == iec::device::let_go_when_done(s));
}

proof fn lemma_ticks_keep_disk(l: Link<DriveModel>, n: nat)
    ensures
        iec::device::ticked::<DiskDrive>(l, n).store.disk == l.store.disk,
    decreases n,
{
    if n > 0 {
        lemma_ticks_keep_disk(l, (n - 1) as nat);
        lemma_tick_keeps_disk(iec::device::ticked::<DiskDrive>(l, (n - 1) as nat));
    }
}

/// Nothing that comes over the bus changes the disk in the drive.
pub proof fn law_disk_stays(d: DriveState, bus: iec::Bus, cycles: nat)
    ensures
        harness::drive_clocked(d, bus, cycles).0.store.disk == d.store.disk,
{
    lemma_ticks_keep_disk(Link { dev: d.device, bus, store: d.store }, cycles);
}

/// A drive whose disk can be read may run for any time.
pub proof fn law_readable_disk_may_run(d: DriveState, bus: iec::Bus, cycles: nat)
    requires
        disk_readable(d.store),
    ensures
        harness::drive_may_run(d, bus, cycles),
{
    let l = Link { dev: d.device, bus, store: d.store };
    assert forall|k: nat| k < cycles implies
        iec::device::may_tick::<DiskDrive>(#[trigger] iec::device::ticked::<DiskDrive>(l, k)) by {
        lemma_ticks_keep_disk(l, k);
        let t = iec::device::ticked::<DiskDrive>(l, k);
        if let Some(ch) = iec::device::opening_now(t) {
            law_readable_disk_opens(t.store, ch, iec::device::collected_name(t.dev));
        }
    }
}

proof fn lemma_step_stays_readable(r: Rig)
    requires
        rig_readable(r),
    ensures
        harness::may_step(r),
        rig_readable(harness::rig_stepped(r)),
{
    reveal(harness::may_step);
    reveal(harness::rig_stepped);
    let (m, cycles) = crate::c64::machine::stepped(r.c64);
    if let Some(d) = r.drive {
        law_readable_disk_may_run(d, m.board.iec, cycles as nat);
        law_disk_stays(d, m.board.iec, cycles as nat);
    }
}

proof fn lemma_run_stays_readable(r: Rig, deadline: u64)
    requires
        rig_readable(r),
    ensures
        harness::may_run_to(r, deadline),
        rig_readable(harness::run_to(r, deadline)),
    decreases u64::MAX - r.c64.cpu.cycles,
{
    if r.c64.cpu.cycles < deadline
        && r.c64.cpu.cycles < harness::rig_stepped(r).c64.cpu.cycles {
        lemma_step_stays_readable(r);
        lemma_run_stays_readable(harness::rig_stepped(r), deadline);
    }
}

proof fn lemma_frames_stay_readable(r: Rig, n: nat)
    requires
        rig_readable(r),
    ensures
        rig_readable(harness::frames_run(r, n)),
        harness::may_run_frame(harness::frames_run(r, n)),
    decreases n,
{
    if n > 0 {
        lemma_frames_stay_readable(r, (n - 1) as nat);
        let p = harness::frames_run(r, (n - 1) as nat);
        lemma_run_stays_readable(harness::keystroke_typed(p), harness::frame_end(p));
    }
    let t = harness::frames_run(r, n);
    lemma_run_stays_readable(harness::keystroke_typed(t), harness::frame_end(t));
}

proof fn lemma_steps_stay_readable(r: Rig, n: nat)
    requires
        rig_readable(r),
    ensures
        rig_readable(harness::steps_run(r, n)),
        harness::may_step(harness::steps_run(r, n)),
    decreases n,
{
    if n > 0 {
        lemma_steps_stay_readable(r, (n - 1) as nat);
        lemma_step_stays_readable(harness::steps_run(r, (n - 1) as nat));
    }
    lemma_step_stays_readable(harness::steps_run(r, n));
}

/// Anything may be watched for on a rig without a drive, or with a disk that can
/// be read.
pub proof fn law_readable_rig_may_be_watched<F: FnMut(&C64) -> bool>(
    watch: F, r: Rig, budget: nat,
)
    requires
        rig_readable(r),
    ensures
        harness::may_watch(watch, r, budget),
{
    reveal(harness::may_watch);
    assert forall|f: nat, n: nat| harness::may_step(
        #[trigger] harness::steps_run(harness::keystroke_typed(harness::frames_run(r, f)), n)) by {
        lemma_frames_stay_readable(r, f);
        lemma_steps_stay_readable(harness::keystroke_typed(harness::frames_run(r, f)), n);
    }
}

/// A rig without a drive, or with a disk that can be read, may run for any number
/// of frames.
pub proof fn law_readable_rig_may_run(r: Rig, n: nat)
    requires
        rig_readable(r),
    ensures
        harness::may_run_frames(r, n),
{
    assert forall|k: nat| k < n implies
        harness::may_run_frame(#[trigger] harness::frames_run(r, k)) by {
        lemma_frames_stay_readable(r, k);
    }
}

} // verus!
