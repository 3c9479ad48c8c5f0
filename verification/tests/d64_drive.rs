//! A drive with a disk in it: files, directory and command channel.

use c64research::d64::drive::{DiskDrive, DosStatus, COMMAND_CHANNEL};
use c64research::d64::fixtures;
use c64research::iec::Storage;

fn drive() -> DiskDrive {
    DiskDrive::new(fixtures::synthetic_disk())
}

#[test]
fn matches_cbm_patterns() {
    assert!(DiskDrive::matches("*", "ANYTHING"));
    assert!(DiskDrive::matches("HELLO", "HELLO"));
    assert!(DiskDrive::matches("HEL*", "HELLO"));
    assert!(DiskDrive::matches("H?LLO", "HELLO"));
    assert!(!DiskDrive::matches("HELL", "HELLO"), "no implicit prefix match");
    assert!(!DiskDrive::matches("XELLO", "HELLO"));
}

#[test]
fn strips_options_and_uppercases_the_name() {
    assert_eq!(DiskDrive::parse_name(b"hello,p,r"), "HELLO");
    assert_eq!(DiskDrive::parse_name(b"  test  "), "TEST");
}

#[test]
fn opens_a_prg_and_streams_it() {
    let mut d = drive();
    assert!(d.open(0, b"HELLO"));
    let mut got = Vec::new();
    while let Some(b) = d.read(0) {
        got.push(b);
    }
    assert_eq!(got, vec![0x01, 0x08, 0xAA, 0xBB, 0xCC]);
}

#[test]
fn wildcard_opens_the_first_prg() {
    let mut d = drive();
    assert!(d.open(1, b"*"));
    assert_eq!(d.read(1), Some(0x01));
    assert_eq!(d.last_open(), ("*", true));
}

#[test]
fn a_missing_file_fails_to_open_and_streams_nothing() {
    let mut d = drive();
    assert!(!d.open(0, b"NOPE"));
    assert_eq!(d.read(0), None);
}

#[test]
fn an_empty_drive_opens_nothing() {
    let mut d = DiskDrive::empty();
    assert!(!d.open(0, b"$"));
    assert!(!d.open(0, b"*"));
}

/// The `$` listing has to be a well-formed BASIC program: right load
/// address, nonzero line links, and a `$0000` terminator.
#[test]
fn directory_is_a_valid_basic_program() {
    let mut d = drive();
    assert!(d.open(0, b"$"));
    let mut img = Vec::new();
    while let Some(b) = d.read(0) {
        img.push(b);
    }

    assert_eq!(&img[..2], &[0x01, 0x04], "loads at $0401");
    assert_eq!(&img[img.len() - 2..], &[0x00, 0x00], "ends with a null link");
    assert_eq!(&img[2..4], &[0x01, 0x01], "first line has a nonzero link");
    assert_eq!(img[6], 0x12, "header line starts with RVS ON");

    // The filename and its type should both appear in the rendered text.
    let text = String::from_utf8_lossy(&img).to_ascii_uppercase();
    assert!(text.contains("HELLO"), "listing should name the file: {text}");
    assert!(text.contains("PRG"), "listing should show the type");
    assert!(text.contains("BLOCKS FREE."), "listing should end with the free count");
}

#[test]
fn closing_a_channel_forgets_it() {
    let mut d = drive();
    assert!(d.open(2, b"HELLO"));
    assert!(d.read(2).is_some());
    d.close(2);
    assert_eq!(d.read(2), None);
}

fn read_all(d: &mut DiskDrive, channel: u8) -> String {
    let mut s = String::new();
    while let Some(b) = d.read(channel) {
        s.push(b as char);
    }
    s
}

#[test]
fn status_line_has_the_shape_input_expects() {
    assert_eq!(
        String::from_utf8(DosStatus::file_not_found().to_line()).unwrap(),
        "62,FILE NOT FOUND,00,00\r"
    );
    assert_eq!(String::from_utf8(DosStatus::ok().to_line()).unwrap(), "00,OK,00,00\r");
}

/// A drive nobody has spoken to reports its DOS banner, not `00, OK`.
#[test]
fn a_fresh_drive_reports_its_dos_version() {
    let mut d = drive();
    assert_eq!(read_all(&mut d, COMMAND_CHANNEL), "73,CBM DOS V2.6 1541,00,00\r");
}

/// Reading the error channel clears it: that is how a program distinguishes
/// a new error from one it has already seen.
#[test]
fn reading_the_status_clears_it() {
    let mut d = drive();
    let _ = read_all(&mut d, COMMAND_CHANNEL);
    assert_eq!(read_all(&mut d, COMMAND_CHANNEL), "00,OK,00,00\r");
}

#[test]
fn a_failed_open_is_reported_on_the_error_channel() {
    let mut d = drive();
    assert!(!d.open(0, b"NOPE"));
    assert_eq!(d.status(), DosStatus::file_not_found());
    assert_eq!(read_all(&mut d, COMMAND_CHANNEL), "62,FILE NOT FOUND,00,00\r");
    // ...and is cleared once read.
    assert_eq!(d.status(), DosStatus::ok());
}

#[test]
fn a_successful_open_leaves_the_status_alone() {
    let mut d = drive();
    let _ = read_all(&mut d, COMMAND_CHANNEL); // clear the power-on banner
    assert!(d.open(0, b"HELLO"));
    assert_eq!(d.status(), DosStatus::ok());
}

#[test]
fn initialize_clears_an_error() {
    let mut d = drive();
    assert!(!d.open(0, b"NOPE"));
    d.open(COMMAND_CHANNEL, b"I0");
    assert_eq!(d.status(), DosStatus::ok());
}

/// Commands arrive a byte at a time from `PRINT#15` and end at the CR.
#[test]
fn a_command_written_byte_by_byte_runs_at_the_carriage_return() {
    let mut d = drive();
    assert!(!d.open(0, b"NOPE"));
    for &b in b"I0" {
        d.write(COMMAND_CHANNEL, b);
    }
    assert_eq!(d.status(), DosStatus::file_not_found(), "not run until the CR");
    d.write(COMMAND_CHANNEL, b'\r');
    assert_eq!(d.status(), DosStatus::ok());
}

/// Read-only means read-only, and says so.
#[test]
fn write_commands_are_refused_honestly() {
    let mut d = drive();
    for cmd in [b"N:BLANK,01".as_slice(), b"S:HELLO", b"R:A=B", b"C:A=B"] {
        d.open(COMMAND_CHANNEL, cmd);
        assert_eq!(
            d.status(),
            DosStatus::write_protect(),
            "{:?} should be refused, not silently ignored",
            std::str::from_utf8(cmd).unwrap()
        );
    }
}

#[test]
fn nonsense_is_a_syntax_error() {
    let mut d = drive();
    d.open(COMMAND_CHANNEL, b"WOBBLE");
    assert_eq!(d.status(), DosStatus::syntax_error());
}

#[test]
fn an_empty_drive_says_it_is_not_ready() {
    let mut d = DiskDrive::empty();
    d.open(COMMAND_CHANNEL, b"I0");
    assert_eq!(d.status(), DosStatus::not_ready());
    assert!(!d.open(0, b"HELLO"));
    assert_eq!(d.status(), DosStatus::not_ready());
}

/// File writes are dropped, but must not be mistaken for commands.
#[test]
fn writing_to_a_file_channel_does_not_run_commands() {
    let mut d = drive();
    let before = d.status();
    for &b in b"N:WIPE\r" {
        d.write(2, b);
    }
    assert_eq!(d.status(), before, "a data channel is not the command channel");
}

/// A broken chain is the business of the file that has it.
#[test]
fn a_broken_file_does_not_spoil_the_others() {
    let mut img = fixtures::synthetic_image();
    let at = fixtures::DIR_AT;
    let first = img[at..at + 32].to_vec();
    img[at + 32 + 2..at + 64].copy_from_slice(&first[2..32]);
    img[at + 32 + 5] = b'J';
    img[at + 32 + 3] = 35;
    img[at + 32 + 4] = 200; // far beyond the end of the disk
    let disk = c64research::d64::Disk::new(img).unwrap();
    assert!(!disk.is_readable());
    assert!(disk.has_directory());
    assert!(disk.can_read_prg("hello") && disk.can_read_prg("nope"));
    assert!(!disk.can_read_prg("jello"));
    assert_eq!(disk.read_prg("hello"), Some(vec![0x01, 0x08, 0xAA, 0xBB, 0xCC]));
    let mut d = DiskDrive::new(disk);
    assert!(d.open(0, b"HELLO"));
    assert_eq!(d.read(0), Some(0x01));
    assert!(d.open(1, b"$"));
    assert!(!d.open(2, b"NOPE"));
}
