//! Whole machines running small firmware: a KERNAL that boots, looks for a
//! cartridge and loads over the serial bus, and a DOS that idles.

use c64research::c1541::Machine;
use c64research::c64::Cartridge;
use c64research::d64::{self, Disk};
use c64research::harness::{screen, Harness};
use c64research::iec;

/// Send the byte at `$95`; `$A3` negative marks it as the last one. Sets
/// bit 7 of `$90` when nobody holds DATA after attention.
const SEND: [u8; 89] = [
    0x20, 0x7E, 0xE0, 0x20, 0x59, 0xE0, 0x90, 0x0C, 0xA9, 0x80, 0x05, 0x90,
    0x85, 0x90, 0x20, 0x6C, 0xE0, 0x4C, 0x87, 0xE0, 0x20, 0x6C, 0xE0, 0x24,
    0xA3, 0x10, 0x0A, 0x20, 0x59, 0xE0, 0x90, 0xFB, 0x20, 0x59, 0xE0, 0xB0,
    0xFB, 0x20, 0x59, 0xE0, 0x90, 0xFB, 0x20, 0x63, 0xE0, 0xA9, 0x08, 0x85,
    0xA5, 0x66, 0x95, 0xB0, 0x06, 0x20, 0x75, 0xE0, 0x4C, 0x3E, 0xE0, 0x20,
    0x7E, 0xE0, 0x20, 0x6C, 0xE0, 0xEA, 0xEA, 0xEA, 0xEA, 0xAD, 0x00, 0xDD,
    0x29, 0xDF, 0x09, 0x10, 0x8D, 0x00, 0xDD, 0xC6, 0xA5, 0xD0, 0xDE, 0x20,
    0x59, 0xE0, 0xB0, 0xFB, 0x60,
];

/// Read the bus (carry DATA, minus CLK) and set each line.
const LINES: [u8; 55] = [
    0xAD, 0x00, 0xDD, 0xCD, 0x00, 0xDD, 0xD0, 0xF8, 0x0A, 0x60, 0xAD, 0x00,
    0xDD, 0x09, 0x10, 0x8D, 0x00, 0xDD, 0x60, 0xAD, 0x00, 0xDD, 0x29, 0xEF,
    0x8D, 0x00, 0xDD, 0x60, 0xAD, 0x00, 0xDD, 0x09, 0x20, 0x8D, 0x00, 0xDD,
    0x60, 0xAD, 0x00, 0xDD, 0x29, 0xDF, 0x8D, 0x00, 0xDD, 0x60, 0xAD, 0x00,
    0xDD, 0x29, 0xF7, 0x8D, 0x00, 0xDD, 0x60,
];

/// A command byte under attention, UNLISTEN and UNTALK.
const COMMAND: [u8; 61] = [
    0x85, 0x95, 0xA9, 0x00, 0x85, 0xA3, 0x20, 0x7E, 0xE0, 0xAD, 0x00, 0xDD,
    0x09, 0x08, 0x8D, 0x00, 0xDD, 0x20, 0x63, 0xE0, 0x20, 0x7E, 0xE0, 0xA2,
    0xC8, 0xCA, 0xD0, 0xFD, 0x4C, 0x00, 0xE0, 0xA9, 0x3F, 0x20, 0x90, 0xE0,
    0x4C, 0xBF, 0xE0, 0x20, 0x63, 0xE0, 0xA9, 0x5F, 0x20, 0x90, 0xE0, 0x20,
    0x87, 0xE0, 0xA2, 0x0A, 0xCA, 0xD0, 0xFD, 0x20, 0x6C, 0xE0, 0x4C, 0x7E,
    0xE0,
];

/// The next byte of a talker; bit 6 of `$90` marks the last one.
const RECEIVE: [u8; 98] = [
    0xA9, 0x00, 0x85, 0xA5, 0x20, 0x6C, 0xE0, 0x20, 0x59, 0xE0, 0x10, 0xFB,
    0xA2, 0x1E, 0x20, 0x7E, 0xE0, 0x20, 0x59, 0xE0, 0x10, 0x17, 0xCA, 0xD0,
    0xF8, 0xA5, 0xA5, 0xD0, 0x10, 0x20, 0x75, 0xE0, 0x20, 0x6C, 0xE0, 0xA9,
    0x40, 0x05, 0x90, 0x85, 0x90, 0xE6, 0xA5, 0xD0, 0xDF, 0xA9, 0x08, 0x85,
    0xA5, 0xAD, 0x00, 0xDD, 0xCD, 0x00, 0xDD, 0xD0, 0xF8, 0x0A, 0x10, 0xF5,
    0x66, 0xA4, 0xAD, 0x00, 0xDD, 0xCD, 0x00, 0xDD, 0xD0, 0xF8, 0x0A, 0x30,
    0xF5, 0xC6, 0xA5, 0xD0, 0xE4, 0x20, 0x75, 0xE0, 0x24, 0x90, 0x50, 0x0B,
    0xA2, 0x0A, 0xCA, 0xD0, 0xFD, 0x20, 0x6C, 0xE0, 0x20, 0x7E, 0xE0, 0xA5,
    0xA4, 0x60,
];

/// Load the file named at `$C101` (length at `$C100`) to its own address.
const LOAD: [u8; 132] = [
    0xA9, 0x00, 0x85, 0x90, 0xA9, 0x28, 0x20, 0x90, 0xE0, 0xA5, 0x90, 0x30,
    0x76, 0xA9, 0xF0, 0x20, 0x90, 0xE0, 0x20, 0x87, 0xE0, 0xA2, 0x00, 0x86,
    0xB0, 0xA6, 0xB0, 0xBD, 0x01, 0xC1, 0x85, 0x95, 0xE8, 0x86, 0xB0, 0xEC,
    0x00, 0xC1, 0xD0, 0x04, 0xA9, 0x80, 0x85, 0xA3, 0x20, 0x00, 0xE0, 0xA6,
    0xB0, 0xEC, 0x00, 0xC1, 0xD0, 0xE3, 0x20, 0xAF, 0xE0, 0xA9, 0x48, 0x20,
    0x90, 0xE0, 0xA9, 0x60, 0x20, 0x90, 0xE0, 0x20, 0x75, 0xE0, 0x20, 0x87,
    0xE0, 0x20, 0x6C, 0xE0, 0x20, 0x59, 0xE0, 0x30, 0xFB, 0x20, 0xCD, 0xE0,
    0x85, 0xAE, 0x24, 0x90, 0x70, 0x19, 0x20, 0xCD, 0xE0, 0x85, 0xAF, 0x24,
    0x90, 0x70, 0x10, 0x20, 0xCD, 0xE0, 0xA0, 0x00, 0x91, 0xAE, 0xE6, 0xAE,
    0xD0, 0xF1, 0xE6, 0xAF, 0x4C, 0x8E, 0xE1, 0x20, 0xB7, 0xE0, 0xA9, 0x28,
    0x20, 0x90, 0xE0, 0xA9, 0xE0, 0x20, 0x90, 0xE0, 0x20, 0xAF, 0xE0, 0x60,
];

/// Reset at `$FCE2`: look for a cartridge, set the ports up, show `READY.`,
/// and load a file whenever `$C100` asks for one. `$C0` counts the loads.
const RESET: [u8; 90] = [
    0xA2, 0xFF, 0x78, 0x9A, 0xD8, 0x20, 0x27, 0xFD, 0xD0, 0x03, 0x6C, 0x00,
    0x80, 0xA9, 0xE7, 0x85, 0x01, 0xA9, 0x2F, 0x85, 0x00, 0xA9, 0x3F, 0x8D,
    0x02, 0xDD, 0xA9, 0x07, 0x8D, 0x00, 0xDD, 0x20, 0x63, 0xE0, 0xA2, 0x05,
    0xBD, 0x21, 0xFD, 0x9D, 0x00, 0x04, 0xCA, 0x10, 0xF7, 0xAD, 0x00, 0xC1,
    0xF0, 0xFB, 0x20, 0x2F, 0xE1, 0xA9, 0x00, 0x8D, 0x00, 0xC1, 0xE6, 0xC0,
    0x4C, 0x0F, 0xFD, 0x12, 0x05, 0x01, 0x04, 0x19, 0x2E, 0xA2, 0x05, 0xBD,
    0x35, 0xFD, 0xDD, 0x03, 0x80, 0xD0, 0x03, 0xCA, 0xD0, 0xF5, 0x60, 0x30,
    0xC3, 0xC2, 0xCD, 0x38, 0x30, 0x40,
];

/// The firmware as an 8 KB ROM at `$E000`.
fn kernal() -> Vec<u8> {
    let mut rom = vec![0u8; 0x2000];
    let mut put = |addr: usize, code: &[u8]| {
        rom[addr - 0xE000..addr - 0xE000 + code.len()].copy_from_slice(code);
    };
    put(0xE000, &SEND);
    put(0xE059, &LINES);
    put(0xE090, &COMMAND);
    put(0xE0CD, &RECEIVE);
    put(0xE12F, &LOAD);
    put(0xFCE2, &RESET);
    put(0xFFFA, &[0x3B, 0xFD, 0xE2, 0xFC, 0x3B, 0xFD]);
    rom
}

fn blank(len: usize) -> Vec<u8> {
    vec![0u8; len]
}

fn machine() -> Harness {
    Harness::new(&kernal(), &blank(0x2000), &blank(0x1000))
}

/// Boot, and stop with the screen if the machine does not get there.
fn boot(h: &mut Harness) {
    h.boot();
    assert!(h.screen_contains("READY."), "{}", h.screen());
}

fn machine_with_disk() -> Harness {
    Harness::with_disk(&kernal(), &blank(0x2000), &blank(0x1000), disk())
}

fn disk() -> Disk {
    Disk::new(d64::fixtures::synthetic_image()).expect("valid fixture")
}

/// A DOS that tests its zero page the way the 1541's does, points the port at
/// the bus, takes the attention interrupt and idles at `$EC00`.
fn dos() -> [u8; 0x4000] {
    let mut rom = [0u8; 0x4000];
    let mut put = |addr: usize, code: &[u8]| {
        rom[addr - 0xC000..addr - 0xC000 + code.len()].copy_from_slice(code);
    };
    put(0xEA6E, &[0x4C, 0x6E, 0xEA]); // JMP $EA6E: a fault stays here
    put(0xEAA0, &[0x78, 0xD8, 0xA2, 0xFF, 0x9A, 0xEA, 0xEA]); // SEI; CLD; LDX #$FF; TXS
    put(
        0xEAA7,
        &[
            0xE8, // INX
            0xA0, 0x00, // LDY #$00
            0xA2, 0x00, // LDX #$00
            // EAAC fill loop
            0x8A, // TXA
            0x95, 0x00, // STA $00,X
            0xE8, // INX
            0xD0, 0xFA, // BNE $EAAC
            // EAB2 test loop
            0x8A, // TXA
            0xD5, 0x00, // CMP $00,X
            0xD0, 0xB7, // BNE $EA6E (fault)
            0xF6, 0x00, // INC $00,X
            0xC8, // INY
            0xD0, 0xFB, // BNE $EAB7
            0xD5, 0x00, // CMP $00,X
            0xD0, 0xAE, // BNE $EA6E
            0x94, 0x00, // STY $00,X
            0xB5, 0x00, // LDA $00,X
            0xD0, 0xA8, // BNE $EA6E
            0xE8, // INX
            0xD0, 0xE9, // BNE $EAB2
        ],
    );
    put(
        0xEAC9,
        &[
            0xA9, 0x1A, // LDA #$1A
            0x8D, 0x02, 0x18, // STA $1802   ; DATA, CLK and ATNA are outputs
            0xA9, 0x01, // LDA #$01
            0x8D, 0x0C, 0x18, // STA $180C   ; CA1 sees the edge of ATN
            0xA9, 0x82, // LDA #$82
            0x8D, 0x0E, 0x18, // STA $180E   ; and interrupts
            0x58, // CLI
            0x4C, 0x00, 0xEC, // JMP $EC00
        ],
    );
    put(0xEC00, &[0xA5, 0x7C, 0x4C, 0x00, 0xEC]); // LDA $7C; JMP $EC00
    put(0xFE67, &[0x48, 0xAD, 0x01, 0x18, 0xE6, 0x7C, 0x68, 0x40]);
    put(0xFFFA, &[0x67, 0xFE, 0xA0, 0xEA, 0x67, 0xFE]);
    rom
}

/// Idle-loop head.
const IDLE_LOOP_HEAD: u16 = 0xEC00;
/// The RAM-fault handler; reaching it would mean boot failed.
const RAM_FAULT: u16 = 0xEA6E;

/// Run the drive on the bus until it reaches its idle loop.
fn boot_drive(drive: &mut Machine, bus: &mut iec::Bus) {
    for _ in 0..3_000_000u64 {
        drive.step_on_bus(bus, 1);
        if drive.cpu.pc == IDLE_LOOP_HEAD {
            return;
        }
    }
    panic!("drive never reached the idle loop; stuck near ${:04X}", drive.cpu.pc);
}

/// A minimal autostart cartridge, hand-assembled.
///
/// The layout of the first nine bytes is fixed by the KERNAL:
///
/// ```text
///   $8000  cold-start vector (little-endian)
///   $8002  warm-start vector (NMI)
///   $8004  the five signature bytes "CBM80"
///   $8009  ...your code
/// ```
fn marker_cartridge() -> Vec<u8> {
    let mut rom = vec![0u8; 0x2000];
    rom[0x00] = 0x09; // cold start -> $8009
    rom[0x01] = 0x80;
    rom[0x02] = 0x09; // warm start -> the same
    rom[0x03] = 0x80;
    rom[0x04..0x09].copy_from_slice(&[0xC3, 0xC2, 0xCD, 0x38, 0x30]); // "CBM80"

    let code: &[u8] = &[
        0xA9, 0x42, // LDA #$42
        0x8D, 0x00, 0xC0, // STA $C000   ; a marker in plain RAM
        0xA9, 0x43, // LDA #$43
        0x8D, 0x01, 0xC0, // STA $C001
        0x4C, 0x13, 0x80, // JMP $8013   ; spin here forever
    ];
    rom[0x09..0x09 + code.len()].copy_from_slice(code);
    rom
}

#[test]
fn an_autostart_cartridge_runs_instead_of_basic() {
    let mut h = machine();
    h.c64.insert_cartridge(Cartridge::lo8k(&marker_cartridge()));

    // Reset lands in the KERNAL as always: the cartridge is found from there.
    assert_eq!(h.c64.cpu.pc, 0xFCE2, "reset still enters the KERNAL");

    let ran = h.run_until_step(200, |c| {
        c.board.ram[0xC000] == 0x42 && c.board.ram[0xC001] == 0x43
    });
    assert!(ran, "the cartridge's code never ran (pc ${:04X})", h.c64.cpu.pc);

    // It spins at $8013, so the machine is *in* the cartridge, not past it.
    h.run_frames(20);
    assert_eq!(h.c64.cpu.pc, 0x8013, "should be looping inside the cartridge");

    // And BASIC never got a chance to start.
    assert!(
        !h.screen_contains("READY."),
        "BASIC started anyway, the cartridge did not take over:\n{}",
        h.screen()
    );
}

/// A 16 KB cartridge displaces BASIC.
#[test]
fn a_16k_cartridge_displaces_basic() {
    let mut rom = marker_cartridge();
    rom.resize(0x4000, 0);
    rom[0x2000] = 0xEE; // something recognisable in ROMH

    let mut h = machine();
    h.c64.insert_cartridge(Cartridge::hi16k(&rom));
    let ran = h.run_until_step(200, |c| c.board.ram[0xC000] == 0x42);
    assert!(ran, "the cartridge's code never ran");
    assert_eq!(h.c64.board.peek(0xA000), 0xEE, "ROMH replaces BASIC at $A000");
}

/// Without the signature the KERNAL goes past the cartridge, whose ROM is still
/// mapped.
#[test]
fn a_cartridge_without_the_signature_is_not_entered() {
    let mut rom = marker_cartridge();
    rom[0x04] = 0x00; // break "CBM80"
    let mut h = machine();
    h.c64.insert_cartridge(Cartridge::lo8k(&rom));
    boot(&mut h);
    assert_eq!(h.c64.board.ram[0xC000], 0x00, "the cartridge code must not have run");
    assert_eq!(h.c64.board.peek(0x8009), 0xA9, "ROML is still visible at $8009");
}

/// The idle bus after boot: **ATN and DATA released, CLK pulled low**.
#[test]
fn idle_bus_holds_clk_low_after_boot() {
    let mut h = machine();
    boot(&mut h);

    let state = format!(
        "$DD00 level ${:02X}, pulls ${:02X}",
        h.c64.board.cia2.port_a(),
        h.c64.board.iec.pulls_of(iec::CONTROLLER)
    );
    assert!(h.c64.board.iec.atn(), "ATN released when idle ({state})");
    assert!(h.c64.board.iec.data(), "DATA released when idle ({state})");
    assert!(
        h.c64.board.iec.pulled_low(iec::Line::Clk),
        "IOINIT's closing CLKLO should leave CLK low ({state})"
    );
}

/// A blank screen really is blank, so `screen_contains` can be trusted to mean
/// something when it says no.
#[test]
fn screen_helpers_agree_with_the_dump() {
    let mut h = machine();
    boot(&mut h);
    assert!(h.screen_contains("READY."));
    assert!(!h.screen_contains("SEARCHING FOR"));
    assert_eq!(screen::text(&h.c64.board.ram), h.screen());
}

/// A frame takes its time on the clock and no more than one step over it.
#[test]
fn frames_take_their_time() {
    let mut h = machine();
    let start = h.c64.cpu.cycles;
    h.run_frames(50);
    let spent = h.c64.cpu.cycles - start;
    let per_frame = c64research::harness::CYCLES_PER_FRAME as u64;
    assert_eq!(h.frames(), 50);
    assert!(spent >= 50 * per_frame && spent < 50 * (per_frame + 8));
}

#[test]
fn a_machine_that_never_gets_ready_is_noticed() {
    let mut h = Harness::new(&blank(0x2000), &blank(0x2000), &blank(0x1000));
    assert!(!h.wait_for("READY.", c64research::harness::BOOT_FRAMES));
    assert_eq!(h.frames(), c64research::harness::BOOT_FRAMES);
}

/// Ask the firmware for a file and wait for it to finish.
fn load(h: &mut Harness, name: &str) -> bool {
    boot(h);
    for (i, b) in name.bytes().enumerate() {
        h.c64.board.ram[0xC101 + i] = b;
    }
    h.c64.board.ram[0xC100] = name.len() as u8;
    h.run_until(400, |c| c.board.ram[0xC0] == 1)
}

/// A file crosses three wires a bit at a time: addressed under attention, the
/// bus turned round, and every byte at its load address.
#[test]
fn a_file_crosses_the_bus_to_its_load_address() {
    let mut h = machine_with_disk();
    assert!(load(&mut h, "*"), "the load never finished, pc ${:04X}", h.c64.cpu.pc);
    assert_eq!(h.c64.board.ram[0x0801..0x0804], [0xAA, 0xBB, 0xCC]);
    assert_eq!(h.io_status(), 0x40, "the last byte came with EOI");
    assert_eq!(h.drive.as_ref().unwrap().disk.last_open(), ("*", true));
}

/// The directory is a program, and crosses the bus like one.
#[test]
fn the_directory_crosses_the_bus() {
    let mut h = machine_with_disk();
    assert!(load(&mut h, "$"), "the load never finished, pc ${:04X}", h.c64.cpu.pc);
    let listing = d64::directory_listing(&disk());
    assert_eq!(listing[0..2], [0x01, 0x04]);
    let at = 0x0401;
    assert_eq!(h.c64.board.ram[at..at + listing.len() - 2], listing[2..]);
    assert_eq!(h.drive.as_ref().unwrap().disk.last_open(), ("$", true));
}

/// A disk is served although another file on it has a broken chain.
#[test]
fn a_file_crosses_the_bus_past_a_broken_one() {
    let mut img = d64::fixtures::synthetic_image();
    let at = d64::fixtures::DIR_AT;
    let first = img[at..at + 32].to_vec();
    img[at + 32 + 2..at + 64].copy_from_slice(&first[2..32]);
    img[at + 32 + 5] = b'J';
    img[at + 32 + 3] = 35;
    img[at + 32 + 4] = 200;
    let disk = Disk::new(img).unwrap();
    assert!(!disk.is_readable());
    let mut h = machine_with_disk();
    h.attach(disk);
    assert!(load(&mut h, "HELLO"));
    assert_eq!(h.drive.as_ref().unwrap().disk.last_open(), ("HELLO", true));
}

/// A name the disk does not hold is refused by the drive, and nothing arrives.
#[test]
fn a_missing_name_sends_nothing() {
    let mut h = machine_with_disk();
    assert!(!load(&mut h, "NOPE"));
    assert_eq!(h.drive.as_ref().unwrap().disk.last_open(), ("NOPE", false));
    assert_eq!(h.c64.board.ram[0x0801..0x0804], [0, 0, 0]);
}

/// Nobody on the bus: DATA floats after attention and the load fails at once.
#[test]
fn nobody_answers_on_an_empty_bus() {
    let mut h = machine();
    assert!(load(&mut h, "*"));
    assert_eq!(h.io_status() & 0x80, 0x80, "STATUS bit 7 = device not present");
    assert!(h.c64.board.iec.atn(), "attention is released again");
}

/// A drive starts where the reset vector of its ROM points. The ROM is this
/// file's own: of Commodore's image this says nothing.
#[test]
fn rom_is_embedded_and_vectors_are_sane() {
    let rom = dos();
    assert_eq!(rom.len(), 0x4000);
    let m = Machine::new(&rom);
    // Reset vector points at the canonical 1541 reset entry $EAA0.
    assert_eq!(m.cpu.pc, 0xEAA0);
}

#[test]
fn drive_answers_attention_on_the_bus() {
    let mut drive = Machine::new(&dos());
    let mut bus = iec::Bus::new();

    // Boot to the idle loop, clocked on the bus.
    let mut booted = false;
    for _ in 0..3_000_000u64 {
        drive.step_on_bus(&mut bus, 1);
        if drive.cpu.pc == IDLE_LOOP_HEAD {
            booted = true;
            break;
        }
    }
    assert!(booted, "drive did not boot on the bus");

    // Idle with ATN released: the drive must not be holding DATA down.
    for _ in 0..5_000 {
        drive.step_on_bus(&mut bus, 1);
    }
    assert!(bus.data(), "at idle the drive should release DATA");

    // The controller asserts ATN: the drive must pull DATA low to answer.
    bus.pull(iec::CONTROLLER, iec::Line::Atn, true);
    let mut answered = false;
    for _ in 0..20_000 {
        drive.step_on_bus(&mut bus, 1);
        if !bus.data() {
            answered = true;
            break;
        }
    }
    assert!(answered, "the drive must pull DATA low to acknowledge ATN");
}

#[test]
fn boots_into_dos_idle_loop() {
    let mut m = Machine::new(&dos());
    let mut idle_visits = 0u32;
    // Generous budget: boot (the RAM test) is a few hundred k cycles.
    for _ in 0..5_000_000u64 {
        m.step();
        match m.cpu.pc {
            RAM_FAULT => panic!("drive branched to the RAM-fault handler at $EA6E"),
            IDLE_LOOP_HEAD => {
                idle_visits += 1;
                if idle_visits >= 3 {
                    return; // reached and is looping in the idle loop: booted
                }
            }
            _ => {}
        }
    }
    panic!("drive never reached the DOS idle loop; stuck near ${:04X}", m.cpu.pc);
}

/// Attention reaches the DOS as an interrupt, once.
#[test]
fn attention_interrupts_the_dos() {
    let mut drive = Machine::new(&dos());
    let mut bus = iec::Bus::new();
    boot_drive(&mut drive, &mut bus);
    assert_eq!(drive.board.ram[0x7C], 0);
    bus.pull(iec::CONTROLLER, iec::Line::Atn, true);
    for _ in 0..1_000 {
        drive.step_on_bus(&mut bus, 1);
    }
    assert_eq!(drive.board.ram[0x7C], 1);
}

#[test]
fn run_cycles_stops_on_the_boundary() {
    let mut drive = Machine::new(&dos());
    boot_drive(&mut drive, &mut iec::Bus::new());
    let before = drive.cpu.cycles;
    // LDA zp and JMP, at three cycles each.
    assert_eq!(drive.run_cycles(1000), 334);
    assert_eq!(drive.cpu.cycles - before, 1002);
}

/// Both machines switched on together, each on its own clock, on one bus.
#[test]
fn two_machines_share_the_bus() {
    let mut h =
        Harness::with_real_drive(&kernal(), &blank(0x2000), &blank(0x1000), &dos(), &disk());
    boot(&mut h);
    h.run_frames(60);
    let pc = h.real_drive.as_ref().unwrap().machine.cpu.pc;
    assert!((0xEC00..=0xEC04).contains(&pc), "the drive should idle, not sit at ${pc:04X}");
    assert_eq!(h.real_drive.as_ref().unwrap().track(), 1, "parked at the rim after boot");
    assert!(h.c64.board.iec.data(), "nobody holds DATA at idle");
    // Both have spent the same time.
    let c64 = h.c64.cpu.cycles;
    let drive = h.real_drive.as_ref().unwrap().machine.cpu.cycles;
    assert!(drive.abs_diff(c64) < 32, "C64 at {c64}, drive at {drive}");
}
