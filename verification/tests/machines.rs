//! What holds of the machines, on concrete values.

use c64research::c1541::disk::{Controller, Disk};
use c64research::c1541::machine::Board as DriveBoard;
use c64research::c64::{Board, C64};
use c64research::d64::drive::COMMAND_CHANNEL;
use c64research::d64::{self, fixtures, DiskDrive};
use c64research::iec::{self, Storage};
use c64research::kernal::irq::decode_and_buffer;
use c64research::kernal::ramtas::ramtas;
use c64research::kernal::reset::reset;
use c64research::kernal::udtim::{udtim, JIFFIES_PER_DAY};
use c64research::kernal::vectors::vector;
use c64research::kernal::{test_machine_with_rom, C64Mem, TIME_HI, TIME_LO, TIME_MID};
use c64research::mos6502::Bus;
use c64research::via6522::Via;

fn board() -> Board {
    let kernal: Vec<u8> = (0..0x2000u32).map(|k| (k % 251) as u8).collect();
    let basic: Vec<u8> = (0..0x2000u32).map(|k| (k % 241) as u8).collect();
    let chargen: Vec<u8> = (0..0x1000u32).map(|k| (k % 239) as u8).collect();
    Board::new(&kernal, &basic, &chargen)
}

/// RAM lies under every ROM: a write lands there, a read sees it once the ROM is
/// banked out.
#[test]
fn ram_lies_under_the_roms() {
    let mut b = board();
    b.write(0x00, 0x2F);
    b.write(0x01, 0x37);
    for addr in [0xA000u16, 0xBFFF, 0xE000, 0xFFFF] {
        let rom = b.read(addr);
        b.write(addr, !rom);
        assert_eq!(b.read(addr), rom, "${addr:04X} is a ROM");
    }
    b.write(0x01, 0x34);
    for (addr, rom) in [(0xA000u16, 0u8), (0xE000, 0)] {
        assert_eq!(b.read(addr), !rom, "RAM under ${addr:04X}");
    }
}

/// All eight settings of the port pick what the memory map documents.
#[test]
fn the_port_banks_memory() {
    let mut b = board();
    b.write(0x00, 0x2F);
    for mode in 0..8u8 {
        b.write(0x01, 0x30 | mode);
        let (loram, hiram, charen) = (mode & 1 != 0, mode & 2 != 0, mode & 4 != 0);
        b.ram[0xA123] = 0xEE;
        b.ram[0xE123] = 0xEE;
        b.ram[0xD123] = 0xEE;
        assert_eq!(b.peek(0xA123) != 0xEE, loram && hiram, "BASIC in mode {mode}");
        assert_eq!(b.peek(0xE123) != 0xEE, hiram, "KERNAL in mode {mode}");
        let rom = (0x0123u32 % 239) as u8;
        let chars = (loram || hiram) && !charen;
        assert_eq!(b.peek(0xD123) == rom, chars, "characters in mode {mode}");
    }
}

#[test]
fn a_pressed_key_pulls_its_row_low() {
    let mut b = board();
    b.write(0xDC02, 0xFF); // port A drives the columns
    b.write(0xDC03, 0x00);
    b.set_key(10, true); // column 1, row 2
    b.write(0xDC00, 0xFD);
    assert_eq!(b.read(0xDC01), 0xFB);
    b.write(0xDC00, 0xFE);
    assert_eq!(b.read(0xDC01), 0xFF, "another column does not see it");
    b.set_key(10, false);
    b.write(0xDC00, 0x00);
    assert_eq!(b.read(0xDC01), 0xFF);
}

/// What CIA2 drives onto the serial bus, inverted, it reads back.
#[test]
fn serial_lines_read_back() {
    let mut b = board();
    b.write(0xDD02, 0x3F);
    b.write(0xDD00, 0x00);
    assert_eq!(b.read(0xDD00) & 0xC0, 0xC0, "released lines read high");
    b.write(0xDD00, 0x30); // pull CLK and DATA
    assert_eq!(b.read(0xDD00) & 0xC0, 0x00);
    assert!(!b.iec.clk() && !b.iec.data() && b.iec.atn());
}

/// A program lands at its address, wrapping at the top of memory; BASIC's
/// pointers follow one that starts at `$0801`.
#[test]
fn programs_are_loaded_where_they_say() {
    let mut m = C64::new(&vec![0; 0x2000], &vec![0; 0x2000], &vec![0; 0x1000]);
    assert_eq!(m.load_prg(&[0x01, 0x08, 1, 2, 3]), 0x0801);
    assert_eq!(m.board.ram[0x0801..0x0804], [1, 2, 3]);
    assert_eq!(m.board.ram[0x2D..0x33], [0x04, 0x08, 0x04, 0x08, 0x04, 0x08]);
    assert_eq!(m.load_prg(&[0xFF, 0xFF, 0xAA, 0xBB]), 0xFFFF);
    assert_eq!((m.board.ram[0xFFFF], m.board.ram[0x0000]), (0xAA, 0xBB));
    assert_eq!(m.load_prg(&[0x00]), 0);
}

fn read_all(d: &mut DiskDrive, channel: u8) -> Vec<u8> {
    let mut v = Vec::new();
    while let Some(b) = d.read(channel) {
        v.push(b);
    }
    v
}

/// A file written into a fixture comes back through the drive as it went in.
#[test]
fn files_round_trip_through_a_disk() {
    for len in [1usize, 2, 100, 254] {
        let prg: Vec<u8> = (0..len).map(|k| (k * 7 % 256) as u8).collect();
        let disk = d64::Disk::new(fixtures::image_with_prg(b"BIG FILE", &prg)).unwrap();
        assert!(disk.is_readable());
        assert_eq!(disk.read_prg("big file"), Some(prg.clone()), "{len} bytes");
        let mut d = DiskDrive::new(disk);
        assert!(d.open(2, b"BIG*"));
        assert_eq!(read_all(&mut d, 2), prg, "{len} bytes");
        assert_eq!(d.read(2), None);
    }
}

/// A file goes on from sector to sector.
#[test]
fn long_files_are_chained() {
    let mut img = fixtures::image_with_prg(b"LONG", &[0x11; 254]);
    // Track 1 sector 0 leads to track 1 sector 9, whose last byte is at 5.
    img[0] = 1;
    img[1] = 9;
    img[9 * 256] = 0;
    img[9 * 256 + 1] = 5;
    img[9 * 256 + 2..9 * 256 + 6].copy_from_slice(&[1, 2, 3, 4]);
    let disk = d64::Disk::new(img).unwrap();
    let mut want = vec![0x11; 254];
    want.extend([1, 2, 3, 4]);
    assert_eq!(disk.read_prg("LONG"), Some(want));
}

/// A blank disk has every block free but those of the directory track.
#[test]
fn blocks_are_counted() {
    let disk = d64::Disk::new(fixtures::image_with_prg(b"A", &[0; 2])).unwrap();
    assert_eq!(disk.blocks_free(), 663);
}

/// An image whose chains run out of it is not readable.
#[test]
fn wild_chains_are_noticed() {
    let mut img = fixtures::synthetic_image();
    assert!(d64::Disk::new(img.clone()).unwrap().is_readable());
    // The directory's first entry points to sector 200 of track 35.
    let dir = 358 * 256;
    img[dir + 3] = 35;
    img[dir + 4] = 200;
    assert!(!d64::Disk::new(img).unwrap().is_readable());
    assert!(d64::Disk::new(vec![0; 1000]).is_none());
}

#[test]
fn the_status_channel_reads_whole_lines() {
    let mut d = DiskDrive::new(fixtures::synthetic_disk());
    assert!(!d.open(0, b"MISSING"));
    assert!(d.open(COMMAND_CHANNEL, b""));
    assert_eq!(read_all(&mut d, COMMAND_CHANNEL), b"62,FILE NOT FOUND,00,00\r");
    assert!(d.open(COMMAND_CHANNEL, b""));
    assert_eq!(read_all(&mut d, COMMAND_CHANNEL), b"00,OK,00,00\r");
}

fn phase(v: &mut Via, p: u8) {
    // Motor on, stepper phase in the low two bits.
    v.write(0x00, 0x04 | p);
}

/// Steps inward and back out cancel, and the head stops at the rim.
#[test]
fn steps_cancel_and_stop_at_the_rim() {
    let mut c = Controller::default();
    c.insert(Disk::from_d64(&fixtures::synthetic_disk()));
    let mut v = Via::new();
    v.write(0x02, 0x6F);
    phase(&mut v, 0);
    c.tick(&mut v, 1);
    c.seek(10);
    let mut p = 0u8;
    for _ in 0..8 {
        p = (p + 1) % 4;
        phase(&mut v, p);
        c.tick(&mut v, 1);
    }
    assert_eq!(c.track(), 14);
    for _ in 0..8 {
        p = (p + 3) % 4;
        phase(&mut v, p);
        c.tick(&mut v, 1);
    }
    assert_eq!(c.track(), 10);
    for _ in 0..100 {
        p = (p + 3) % 4;
        phase(&mut v, p);
        c.tick(&mut v, 1);
    }
    assert_eq!(c.track(), 1);
}

/// The drive's memory map: RAM, two VIAs mirrored, ROM on top.
#[test]
fn the_drive_decodes_its_memory() {
    let mut rom = [0u8; 0x4000];
    rom[0x0000] = 0x97;
    rom[0x3FFF] = 0xFE;
    let mut b = DriveBoard::new(&rom);
    assert_eq!(b.read(0xC000), 0x97);
    assert_eq!(b.read(0xFFFF), 0xFE);
    b.write(0xC000, 0x11);
    assert_eq!(b.read(0xC000), 0x97, "ROM is read-only");
    b.write(0x0123, 0x42);
    assert_eq!(b.read(0x0123), 0x42);
    // Data direction of VIA1, and the same register sixteen bytes on.
    b.write(0x1802, 0x1A);
    assert_eq!(b.read(0x1812), 0x1A);
    b.write(0x1C02, 0x6F);
    assert_eq!(b.read(0x1C12), 0x6F);
}

/// The attention circuit pulls DATA while ATNA disagrees with ATN.
#[test]
fn attention_is_answered_without_the_cpu() {
    let mut b = DriveBoard::new(&[0u8; 0x4000]);
    b.write(0x1802, 0x1A);
    let mut bus = iec::Bus::new();
    for (atn_low, atna, pulled) in
        [(false, false, false), (true, false, true), (true, true, false), (false, true, true)]
    {
        bus.pull(iec::CONTROLLER, iec::Line::Atn, atn_low);
        b.write(0x1800, if atna { 0x10 } else { 0x00 });
        b.sync_bus_in(&bus);
        b.sync_bus_out(&mut bus, 1);
        assert_eq!(!bus.data(), pulled, "ATN low {atn_low}, ATNA {atna}");
    }
}

/// A day of jiffies comes back to midnight.
#[test]
fn the_clock_runs_through_a_day() {
    let mut m = C64Mem::new();
    let time =
        |m: &C64Mem| (m.r(TIME_HI) as u32) << 16 | (m.r(TIME_MID) as u32) << 8 | m.r(TIME_LO) as u32;
    let last = JIFFIES_PER_DAY - 1;
    m.w(TIME_HI, (last >> 16) as u8);
    m.w(TIME_MID, (last >> 8) as u8);
    m.w(TIME_LO, last as u8);
    udtim(&mut m);
    assert_eq!(time(&m), 0);
    for n in 1..=300u32 {
        udtim(&mut m);
        assert_eq!(time(&m), n);
    }
}

/// Reading the vectors and writing them back changes nothing; writing a list
/// installs it.
#[test]
fn vectors_are_copied_both_ways() {
    let mut m = C64Mem::new();
    for k in 0..32u16 {
        m.w(0x0314 + k, k as u8 + 1);
    }
    vector(&mut m, 0xC000, true);
    for k in 0..32u16 {
        assert_eq!(m.r(0xC000 + k), k as u8 + 1);
        m.w(0xC000 + k, 0x80 + k as u8);
    }
    vector(&mut m, 0xC000, false);
    for k in 0..32u16 {
        assert_eq!(m.r(0x0314 + k), 0x80 + k as u8);
    }
}

/// The RAM test finds the top and leaves what lies below it alone.
#[test]
fn the_ram_test_restores_what_it_tests() {
    let mut m = test_machine_with_rom();
    m.w(0x0800, 0x5A);
    m.w(0x9FFF, 0xA5);
    assert_eq!(ramtas(&mut m), 0xA000);
    assert_eq!((m.r(0x0800), m.r(0x9FFF)), (0x5A, 0xA5));
}

/// The keyboard buffer takes a new key at its end and never grows past its
/// limit.
#[test]
fn the_keyboard_buffer_keeps_its_limit() {
    let mut m = test_machine_with_rom();
    reset(&mut m);
    let limit = m.r(0x0289);
    assert_eq!(limit, 10);
    for round in 0..20u8 {
        // Alternate two keys, so that none counts as held.
        decode_and_buffer(&mut m, if round % 2 == 0 { 10 } else { 28 });
    }
    assert_eq!(m.r(0x00C6), limit);
    assert_eq!((m.r(0x0277), m.r(0x0278)), (b'A', b'B'));
}
