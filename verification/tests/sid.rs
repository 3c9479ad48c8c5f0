//! The SID's envelopes and its mix.

use c64research::sid::{Sid, FULL_SCALE};

/// The output as a fraction of full scale.
fn level(sid: &Sid) -> f32 {
    sid.output() as f32 / FULL_SCALE as f32
}

// Voice 3's registers ($D40E-$D414): its envelope is read back at $D41C.
const V3_AD: u8 = 0x13;
const V3_SR: u8 = 0x14;
const V3_CTRL: u8 = 0x12;

#[test]
fn gate_runs_attack_up_to_peak() {
    let mut sid = Sid::new();
    sid.write(V3_AD, 0x00); // attack=0 (fastest), decay=0
    sid.write(V3_SR, 0xF0); // sustain=15 (full), release=0
    sid.write(V3_CTRL, 0x11); // pulse waveform + gate on
    sid.clock(5000); // let the attack run
    assert!(sid.read(0x1C) > 200, "envelope should have risen, got {}", sid.read(0x1C));
}

#[test]
fn gate_off_releases_toward_zero() {
    let mut sid = Sid::new();
    sid.write(V3_AD, 0x00);
    sid.write(V3_SR, 0xF0);
    sid.write(V3_CTRL, 0x11); // gate on
    sid.clock(5000);
    sid.write(V3_CTRL, 0x10); // gate off -> release
    sid.clock(200_000);
    assert_eq!(sid.read(0x1C), 0);
}

#[test]
fn silent_at_zero_volume() {
    let mut sid = Sid::new();
    sid.write(0x00, 0x00);
    sid.write(0x01, 0x10); // some frequency
    sid.write(0x04, 0x21); // sawtooth + gate
    sid.write(0x05, 0x00);
    sid.write(0x06, 0xF0);
    sid.clock(5000);
    // Master volume defaults to 0 (as IOINIT leaves it): silence.
    assert_eq!(level(&sid), 0.0);
}

#[test]
fn produces_signal_when_playing() {
    let mut sid = Sid::new();
    sid.write(0x18, 0x0F); // master volume max
    sid.write(0x00, 0x00);
    sid.write(0x01, 0x20); // frequency
    sid.write(0x04, 0x21); // sawtooth + gate
    sid.write(0x05, 0x00);
    sid.write(0x06, 0xF0);
    sid.clock(5000);
    // Sample a bunch and confirm the output actually swings.
    let mut min = f32::MAX;
    let mut max = f32::MIN;
    for _ in 0..2000 {
        sid.clock(20);
        let s = level(&sid);
        min = min.min(s);
        max = max.max(s);
    }
    assert!(max - min > 0.05, "expected an audible swing, got {}", max - min);
}

/// The fastest attack takes a step every nine clocks, 255 of them to the peak.
#[test]
fn the_attack_takes_its_time() {
    let mut sid = Sid::new();
    sid.write(V3_AD, 0x00);
    sid.write(V3_SR, 0xF0);
    sid.write(V3_CTRL, 0x11);
    for step in 1..=255u32 {
        sid.clock(9);
        assert_eq!(sid.read(0x1C) as u32, step);
    }
    sid.clock(1000);
    assert_eq!(sid.read(0x1C), 255, "full sustain stays at the peak");
}
