//! What holds of the chips, on concrete values.

use c64research::cia6526::{self, Cia};
use c64research::gcr;
use c64research::sid::{Sid, FULL_SCALE};
use c64research::via6522::{self, Via};
use c64research::vic2::{Vic, CYCLES_PER_LINE};

/// A CIA counts the same whether its cycles come at once or one by one.
#[test]
fn cia_ticks_add_up() {
    let armed = || {
        let mut c = Cia::new();
        c.write(cia6526::TA_LO, 0x10);
        c.write(cia6526::TA_HI, 0x00);
        c.write(cia6526::ICR, 0x81);
        c.write(cia6526::CRA, 0x01);
        c
    };
    let (mut a, mut b) = (armed(), armed());
    a.tick(100);
    for _ in 0..100 {
        b.tick(1);
    }
    assert_eq!(a.read(cia6526::TA_LO), b.read(cia6526::TA_LO));
    assert_eq!(a.read(cia6526::ICR), b.read(cia6526::ICR));
}

/// Reading the interrupt register acknowledges it.
#[test]
fn reading_icr_acknowledges() {
    let mut c = Cia::new();
    c.write(cia6526::TA_LO, 0x02);
    c.write(cia6526::TA_HI, 0x00);
    c.write(cia6526::ICR, 0x81);
    c.write(cia6526::CRA, 0x19); // load, one-shot, start
    c.tick(10);
    assert!(c.irq_asserted());
    assert_eq!(c.read(cia6526::ICR) & 0x81, 0x81);
    assert!(!c.irq_asserted());
    assert_eq!(c.read(cia6526::ICR), 0);
}

#[test]
fn via_ticks_add_up() {
    let armed = || {
        let mut v = Via::new();
        v.write(via6522::ACR, 0x40);
        v.write(via6522::T1CL, 0x21);
        v.write(via6522::T1CH, 0x00);
        v
    };
    let (mut a, mut b) = (armed(), armed());
    a.tick(500);
    for _ in 0..50 {
        b.tick(10);
    }
    assert_eq!(a.read(via6522::T1CL), b.read(via6522::T1CL));
    assert_eq!(a.read(via6522::IFR), b.read(via6522::IFR));
}

/// A disabled interrupt is latched but stays silent.
#[test]
fn via_interrupts_wait_for_their_enable() {
    let mut v = Via::new();
    v.write(via6522::T1CL, 0x05);
    v.write(via6522::T1CH, 0x00);
    v.tick(20);
    assert_eq!(v.read(via6522::IFR) & via6522::FLAG_T1, via6522::FLAG_T1);
    assert!(!v.irq_asserted());
    v.write(via6522::IER, 0x80 | via6522::FLAG_T1);
    assert!(v.irq_asserted());
    v.read(via6522::T1CL);
    assert!(!v.irq_asserted(), "reading the counter acknowledges");
}

/// CA1 latches on the edge its control bit asks for, and not on the other.
#[test]
fn ca1_latches_on_its_edge() {
    let mut v = Via::new();
    v.write(0x0C, 0x01); // positive edge
    v.set_ca1(false);
    v.read(0x01);
    assert_eq!(v.read(via6522::IFR) & 0x02, 0);
    v.set_ca1(true);
    assert_eq!(v.read(via6522::IFR) & 0x02, 0x02);
    v.read(0x01);
    assert_eq!(v.read(via6522::IFR) & 0x02, 0, "reading the port acknowledges");
    v.set_ca1(false);
    assert_eq!(v.read(via6522::IFR) & 0x02, 0);
}

/// The raster is back where it was after a whole frame of 312 lines.
#[test]
fn a_video_frame_is_periodic() {
    let mut v = Vic::new();
    v.tick(1000);
    let line = v.raster();
    v.tick(312 * CYCLES_PER_LINE);
    assert_eq!(v.raster(), line);
}

/// Writing a one to the latch acknowledges the raster interrupt.
#[test]
fn raster_interrupt_is_acknowledged_by_writing_its_bit() {
    let mut v = Vic::new();
    v.write(0x12, 10);
    v.write(0x1A, 0x01);
    v.tick(11 * CYCLES_PER_LINE);
    assert!(v.irq_asserted());
    v.write(0x19, 0x01);
    assert!(!v.irq_asserted());
}

/// Nothing the SID plays leaves its scale, and a voice at rest is silent.
#[test]
fn sound_stays_on_its_scale() {
    let mut s = Sid::new();
    s.write(0x18, 0x0F);
    assert_eq!(s.output(), 0);
    for voice in 0..3u8 {
        s.write(voice * 7, 0x34);
        s.write(voice * 7 + 1, 0x12);
        s.write(voice * 7 + 5, 0x00);
        s.write(voice * 7 + 6, 0xF0);
        s.write(voice * 7 + 4, 0x21); // sawtooth, gate on
    }
    let mut loudest = 0;
    for _ in 0..5000 {
        s.clock(20);
        let r = s.output();
        assert!((-FULL_SCALE..=FULL_SCALE).contains(&r));
        loudest = loudest.max(r.abs());
    }
    assert!(loudest > FULL_SCALE / 4);
}

/// A full track: every sector is a sync, a header, a gap, a sync, a block.
#[test]
fn tracks_are_as_long_as_their_sectors() {
    let one = [[0u8; 256]; 17];
    let t17 = gcr::encode_track(&one, 35, [0x30, 0x31]);
    let t0 = gcr::encode_track(&one[..1], 35, [0x30, 0x31]);
    assert_eq!(t17.len(), 17 * t0.len());
    assert_eq!(t0[..gcr::SYNC_LEN], [0xFF; gcr::SYNC_LEN][..]);
}

/// Fewer sectors fit on the shorter inner tracks.
#[test]
fn zones_have_their_sector_counts() {
    let counts: Vec<u8> = [1u8, 17, 18, 24, 25, 30, 31, 35, 0, 36]
        .iter()
        .map(|&t| gcr::sectors_per_track(t))
        .collect();
    assert_eq!(counts[..8], [21, 21, 19, 19, 18, 18, 17, 17]);
    let total: u32 = (1..=35u8).map(|t| gcr::sectors_per_track(t) as u32).sum();
    assert_eq!(total, 683);
}

/// Damage to a group is noticed: a code outside the table does not decode.
#[test]
fn an_invalid_group_does_not_decode() {
    let mut out = [0u8; 4];
    assert!(!gcr::decode_group(&[0x00; 5], &mut out));
    let mut group = [0u8; 5];
    gcr::encode_group(&[0x08, 0xA5, 0x00, 0xFF], &mut group);
    assert!(gcr::decode_group(&group, &mut out));
    assert_eq!(out, [0x08, 0xA5, 0x00, 0xFF]);
}
