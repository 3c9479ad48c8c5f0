//! GCR groups and tracks.

use c64research::gcr::{decode_group, encode_group, encode_track, sectors_per_track, SYNC_LEN};

#[test]
fn group_round_trips() {
    let inp = [0xDE, 0xAD, 0xBE, 0xEF];
    let mut g = [0u8; 5];
    encode_group(&inp, &mut g);
    let mut back = [0u8; 4];
    assert!(decode_group(&g, &mut back));
    assert_eq!(back, inp);
}

#[test]
fn every_byte_pair_round_trips() {
    // Exhaustively check the 4-bit tables via all 65536 four-byte values'
    // low/high halves would be overkill; cover all 256 byte values in each
    // position paired with a rolling partner.
    for a in 0u16..=255 {
        let inp = [a as u8, (a ^ 0x5A) as u8, (a.wrapping_mul(3)) as u8, !a as u8];
        let mut g = [0u8; 5];
        encode_group(&inp, &mut g);
        let mut back = [0u8; 4];
        assert!(decode_group(&g, &mut back));
        assert_eq!(back, inp, "failed for {inp:?}");
    }
}

#[test]
fn gcr_codes_never_have_three_zero_bits_in_a_row() {
    // The whole point of GCR: pack every group and confirm the bitstream
    // never has three consecutive zeros (which would break clock recovery).
    for hi in 0u8..16 {
        for lo in 0u8..16 {
            let inp = [(hi << 4) | lo, (lo << 4) | hi, 0x00, 0xFF];
            let mut g = [0u8; 5];
            encode_group(&inp, &mut g);
            // Walk the 40 bits with wrap and count zero runs.
            let mut bits: u64 = 0;
            for &b in &g {
                bits = (bits << 8) | b as u64;
            }
            let mut zeros = 0;
            for i in (0..40).rev() {
                if (bits >> i) & 1 == 0 {
                    zeros += 1;
                    assert!(zeros <= 2, "three zero bits in a row for {inp:?}");
                } else {
                    zeros = 0;
                }
            }
        }
    }
}

#[test]
fn track_has_a_sector_for_every_slot_and_decodes() {
    // Encode a track of distinct sectors, then find each data block by its
    // sync + GCR(07 ...) and decode it back.
    let track = 18u8;
    let n = sectors_per_track(track) as usize;
    let sectors: Vec<[u8; 256]> = (0..n).map(|s| [s as u8; 256]).collect();
    let stream = encode_track(&sectors, track, [0x41, 0x42]);

    // The track should contain 2 sync groups per sector (header + data).
    // Count runs of >=5 consecutive $FF.
    let mut syncs = 0;
    let mut run = 0;
    for &b in &stream {
        if b == 0xFF {
            run += 1;
        } else {
            if run >= SYNC_LEN {
                syncs += 1;
            }
            run = 0;
        }
    }
    if run >= SYNC_LEN {
        syncs += 1;
    }
    assert_eq!(syncs, n * 2, "expected a header+data sync for every sector");
}

/// Whatever decodes is the encoding of what it decodes to.
#[test]
fn decoded_groups_encode_back() {
    const CODES: [u64; 16] = [
        0x0A, 0x0B, 0x12, 0x13, 0x0E, 0x0F, 0x16, 0x17, 0x09, 0x19, 0x1A, 0x1B, 0x0D, 0x1D, 0x1E,
        0x15,
    ];
    for k in 0..256usize {
        let mut w = 0u64;
        for j in 0..8 {
            w = w << 5 | CODES[(k * (2 * j + 1) + j * 7) % 16];
        }
        let bytes = w.to_be_bytes();
        let g = [bytes[3], bytes[4], bytes[5], bytes[6], bytes[7]];
        let mut data = [0u8; 4];
        assert!(decode_group(&g, &mut data));
        let mut again = [0u8; 5];
        encode_group(&data, &mut again);
        assert_eq!(again, g);
    }
}

/// Nor are there three zero bits in a row where two groups meet.
#[test]
fn groups_meet_without_three_zero_bits() {
    for a in 0..=255u8 {
        for b in 0..=255u8 {
            let (mut g, mut h) = ([0u8; 5], [0u8; 5]);
            encode_group(&[0, 0, 0, a], &mut g);
            encode_group(&[b, 0, 0, 0], &mut h);
            let seam = (g[4] as u16) << 8 | h[0] as u16;
            for k in 0..=13 {
                assert_ne!((seam >> k) & 7, 0, "{a:02X} {b:02X}");
            }
        }
    }
}

/// Nor on a whole track, all the way round.
#[test]
fn a_track_has_no_three_zero_bits() {
    let sectors: Vec<[u8; 256]> =
        (0..19u8).map(|s| std::array::from_fn(|k| (k as u8).wrapping_mul(s) ^ s)).collect();
    let mut stream = encode_track(&sectors, 18, [0x00, 0xA0]);
    stream.push(stream[0]);
    for pair in stream.windows(2) {
        let bits = (pair[0] as u16) << 8 | pair[1] as u16;
        for k in 0..=13 {
            assert_ne!((bits >> k) & 7, 0);
        }
    }
}

/// Every sector stands at its place on the track, header and data, and decodes.
#[test]
fn a_track_decodes_to_its_sectors() {
    let sectors: Vec<[u8; 256]> =
        (0..17u8).map(|s| std::array::from_fn(|k| (k as u8).wrapping_add(s * 7))).collect();
    let stream = encode_track(&sectors, 33, [0x30, 0x31]);
    assert_eq!(stream.len(), 362 * 17);
    let decoded = |at: usize, groups: usize| {
        let mut out = Vec::new();
        for g in 0..groups {
            let from = at + 5 * g;
            let five: [u8; 5] = stream[from..from + 5].try_into().unwrap();
            let mut four = [0u8; 4];
            assert!(decode_group(&five, &mut four));
            out.extend_from_slice(&four);
        }
        out
    };
    for (k, data) in sectors.iter().enumerate() {
        let at = 362 * k;
        assert_eq!(&stream[at..at + SYNC_LEN], [0xFF; SYNC_LEN]);
        let header = decoded(at + 5, 2);
        let sum = k as u8 ^ 33 ^ 0x30 ^ 0x31;
        assert_eq!(header, [0x08, sum, k as u8, 33, 0x31, 0x30, 0x0F, 0x0F]);
        assert_eq!(&stream[at + 24..at + 24 + SYNC_LEN], [0xFF; SYNC_LEN]);
        let block = decoded(at + 29, 65);
        assert_eq!(block[0], 0x07);
        assert_eq!(&block[1..257], data);
        assert_eq!(block[257], data.iter().fold(0, |a, b| a ^ b));
    }
}
