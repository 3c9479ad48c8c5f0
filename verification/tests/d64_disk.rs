//! Reading a disk image.

use c64research::d64::fixtures::{synthetic_disk, synthetic_image, DIR_AT};
use c64research::d64::{Disk, IMAGE_SIZE};

#[test]
fn lists_the_directory() {
    let disk = synthetic_disk();
    let dir = disk.dir();
    assert_eq!(dir.len(), 1);
    assert_eq!(dir[0].name, "HELLO");
    assert!(dir[0].is_prg());
    assert_eq!(dir[0].size_sectors, 1);
}

#[test]
fn extracts_the_prg_across_sectors() {
    let disk = synthetic_disk();
    let prg = disk.read_prg("hello").unwrap();
    // Load address $0801, then $AA (sector 0) + $BB,$CC (sector 1).
    assert_eq!(prg, vec![0x01, 0x08, 0xAA, 0xBB, 0xCC]);
}

#[test]
fn wildcard_matches_first_prg() {
    let disk = synthetic_disk();
    assert!(disk.read_prg("*").is_some());
}

#[test]
fn an_image_holds_all_of_its_tracks() {
    assert_eq!(IMAGE_SIZE, 174_848);
    assert!(Disk::new(vec![0; 174_847]).is_none());
    assert!(Disk::new(vec![0; 174_848]).is_some());
    assert!(Disk::new(vec![0; 175_531]).is_some(), "error bytes may follow");
}

/// A slot is listed once its file is closed (bit 7 of the type) and has a name.
#[test]
fn unclosed_and_nameless_slots_are_not_listed() {
    let mut img = synthetic_image();
    let first = img[DIR_AT..DIR_AT + 32].to_vec();
    for slot in 1..4 {
        let at = DIR_AT + 32 * slot;
        img[at + 2..at + 32].copy_from_slice(&first[2..32]);
    }
    img[DIR_AT + 32 + 2] = 0x02; // never closed
    img[DIR_AT + 64 + 5..DIR_AT + 64 + 21].fill(0xA0); // no name
    img[DIR_AT + 96 + 5] = b'J';
    let names: Vec<String> =
        Disk::new(img).unwrap().dir().iter().map(|e| e.name.clone()).collect();
    assert_eq!(names, ["HELLO", "JELLO"]);
}
