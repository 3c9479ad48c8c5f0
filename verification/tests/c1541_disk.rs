//! The disk turning under the head.

use c64research::c1541::disk::{Controller, Disk};
use c64research::d64;
use c64research::via6522::Via;

/// Build a controller over a synthetic one-file disk, positioned at the
/// directory track.
fn drive_on_track(track: u8) -> (Controller, Via) {
    let d = d64::Disk::new(d64::fixtures::synthetic_image()).unwrap();
    let mut ctrl = Controller::default();
    ctrl.insert(Disk::from_d64(&d));
    ctrl.seek(track);
    let mut via2 = Via::new();
    // Real 1541 VIA2 DDRB: PB4 (write-protect) and PB7 (SYNC) are inputs,
    // the rest outputs: so port_b() returns our stepper/motor bits but lets
    // the mechanism drive SYNC and write-protect back in.
    via2.write(0x02, 0x6F); // DDRB
    via2.write(0x00, 0x04); // ORB: motor on
    (ctrl, via2)
}

#[test]
fn stationary_disk_produces_no_bytes() {
    let d = d64::Disk::new(d64::fixtures::synthetic_image()).unwrap();
    let mut ctrl = Controller::default();
    ctrl.insert(Disk::from_d64(&d));
    let mut via2 = Via::new();
    via2.write(0x02, 0x6F);
    via2.write(0x00, 0x00); // motor OFF
    let mut readies = 0;
    for _ in 0..10_000 {
        if ctrl.tick(&mut via2, 4) {
            readies += 1;
        }
    }
    assert_eq!(readies, 0, "a stopped motor must not clock any bytes");
}

#[test]
fn spinning_disk_shows_sync_and_clocks_bytes() {
    let (mut ctrl, mut via2) = drive_on_track(18);
    let mut saw_sync = false;
    let mut readies = 0u32;
    for _ in 0..200_000 {
        let ready = ctrl.tick(&mut via2, 4);
        if ready {
            readies += 1;
        }
        if via2.port_b() & 0x80 == 0 {
            saw_sync = true;
        }
    }
    assert!(saw_sync, "the head should pass over sync marks (PB7 goes low)");
    assert!(readies > 0, "a spinning disk should clock data bytes");
}

#[test]
fn byte_ready_is_suppressed_over_a_sync_mark() {
    // Whenever PB7 reads low (sync), tick must not report a byte ready.
    let (mut ctrl, mut via2) = drive_on_track(18);
    for _ in 0..200_000 {
        let ready = ctrl.tick(&mut via2, 4);
        let syncing = via2.port_b() & 0x80 == 0;
        assert!(!(ready && syncing), "BYTE-READY must be off inside a sync mark");
    }
}

#[test]
fn stepper_moves_the_head_a_half_track_per_phase() {
    let (mut ctrl, mut via2) = drive_on_track(1);
    assert_eq!(ctrl.track(), 1);
    // Inward (toward higher tracks) is a phase *increment*: the direction
    // the DOS's own seek arithmetic implies; see `tick`. Four half-steps in
    // is two whole tracks.
    for phase in [1u8, 2, 3, 0] {
        via2.write(0x00, 0x04 | phase); // keep motor on, set stepper phase
        ctrl.tick(&mut via2, 4);
    }
    assert_eq!(ctrl.track(), 3, "four half-steps in should reach track 3");
    // And back out toward the rim by decrementing it.
    for phase in [3u8, 2, 1, 0] {
        via2.write(0x00, 0x04 | phase);
        ctrl.tick(&mut via2, 4);
    }
    assert_eq!(ctrl.track(), 1, "four half-steps out should return to track 1");
}

/// However long the ticks are, up to the shortest time between two bytes.
#[test]
fn byte_ready_is_suppressed_for_every_length_of_tick() {
    for cycles in [1u32, 7, 25, 26] {
        for track in [1u8, 18, 25, 35] {
            let (mut ctrl, mut via2) = drive_on_track(track);
            let mut syncs = 0u32;
            for _ in 0..10_000 {
                let ready = ctrl.tick(&mut via2, cycles);
                assert!(!(ready && ctrl.syncing()));
                syncs += ctrl.syncing() as u32;
            }
            assert!(syncs > 0 || cycles == 1);
        }
    }
}
