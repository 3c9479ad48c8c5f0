//! The host side of the emulator: keys, escapes, the status monitor and the
//! debugger.

use c64research::c64::{joystick, C64};
use c64research::emu::debug::{command, HELP};
use c64research::emu::frame::run_frame;
use c64research::emu::keys::{
    direct_key_matrix, is_return_key, joystick_mask, press_direct, press_special, special_key,
    HostKey,
};
use c64research::emu::status::{DriveState, Monitor, BG, WIDTH};
use c64research::emu::{program_in, run_until_ready, unescape, ProgramError, BOOT_STEPS};
use c64research::d64::fixtures;
use c64research::vic2;

/// A machine whose character shapes all differ, so that pixel counts tell them
/// apart, and whose KERNAL is one loop at `$E000`.
fn machine() -> Box<C64> {
    let mut kernal = vec![0u8; 0x2000];
    kernal[0..3].copy_from_slice(&[0x4C, 0x00, 0xE0]); // JMP $E000
    kernal[0x1FFC..0x1FFE].copy_from_slice(&[0x00, 0xE0]);
    let mut chargen = vec![0u8; 0x1000];
    for code in 0..256usize {
        // Shape `code` lights `code` of its 64 dots; a space lights none.
        let dots = if code == 0x20 { 0 } else { 1 + code % 63 };
        for d in 0..dots {
            chargen[code * 8 + d / 8] |= 0x80 >> (d % 8);
        }
    }
    Box::new(C64::new(&kernal, &vec![0u8; 0x2000], &chargen))
}

/// How many pixels of one character row are lit.
fn lit(mon: &Monitor, row: usize) -> usize {
    let fb = mon.framebuffer();
    (row * 8..row * 8 + 8)
        .flat_map(|y| (0..WIDTH).map(move |x| (x, y)))
        .filter(|&(x, y)| fb[y * WIDTH + x] != BG)
        .count()
}

/// The host-key bindings.
#[test]
fn return_is_edge_triggered_and_delete_is_held() {
    // A Mac's main delete key is Backspace; fn+Delete is Delete. Both are the
    // C64's single INST/DEL, and both are *held* so they repeat: INST/DEL is
    // one of the few keys the KERNAL repeats by default.
    assert_eq!(special_key(HostKey::Backspace), Some((0, false)), "INST/DEL (backspace)");
    assert_eq!(special_key(HostKey::Delete), Some((0, false)), "INST/DEL (forward delete)");

    // RETURN must NOT be held: a held RETURN fires on every frame it is down
    // and would submit a line that is still being typed.
    assert!(is_return_key(HostKey::Enter), "RETURN must be bound");
    assert!(is_return_key(HostKey::NumPadEnter), "keypad RETURN must be bound");
    for k in [HostKey::Enter, HostKey::NumPadEnter] {
        assert_eq!(special_key(k), None, "{k:?} must not also be a held key");
    }
}

/// `--type` has to be able to ask for a RETURN from a shell.
#[test]
fn unescapes_command_line_escapes() {
    assert_eq!(unescape(r"run\r"), "run\r");
    assert_eq!(unescape(r"a\nb"), "a\nb");
    assert_eq!(unescape(r"back\\slash"), r"back\slash");
    assert_eq!(unescape("plain"), "plain");
    // An unknown escape is left alone rather than eaten.
    assert_eq!(unescape(r"\q"), r"\q");
}

#[test]
fn a_trailing_backslash_stays() {
    assert_eq!(unescape("a\\"), "a\\");
    assert_eq!(unescape(""), "");
}

/// The DRIVE panel only appears when a real drive is attached, and it draws
/// something when it does. Row 15 is its line.
#[test]
fn drive_panel_appears_only_with_a_real_drive() {
    let c64 = machine();

    let mut mon = Monitor::new();
    mon.render(&c64, false, None, 0);
    assert_eq!(lit(&mon, 15), 0, "no drive attached: row 15 should be blank");

    let state = DriveState {
        track: 18,
        motor: true,
        led: true,
        sync: false,
        head: 64,
        pc: 0xF556,
    };
    mon.render(&c64, true, Some(state), 1);
    assert!(lit(&mon, 15) > 0, "the DRIVE panel should have drawn");
}

/// The spinner only turns while the head index is moving, so a stalled drive
/// is visibly stalled rather than looking busy.
#[test]
fn the_spinner_tracks_a_turning_disk() {
    let c64 = machine();
    let mut mon = Monitor::new();
    let at = |head| DriveState { track: 18, motor: true, led: false, sync: false, head, pc: 0 };

    // Two frames at the same head position: the second is "not turning".
    mon.render(&c64, true, Some(at(10)), 0);
    mon.render(&c64, true, Some(at(10)), 1);
    let stalled = lit(&mon, 15);
    // Now move the head.
    mon.render(&c64, true, Some(at(50)), 2);
    let turning = lit(&mon, 15);
    assert_ne!(stalled, turning, "the spinner should change when the disk turns");
}

#[test]
fn joystick_keys_combine() {
    // Active low: a switch that is closed reads zero.
    assert_eq!(joystick_mask(false, false, false, false, false), joystick::CENTER);
    assert_eq!(
        joystick_mask(true, false, true, false, true),
        !(joystick::UP | joystick::LEFT | joystick::FIRE)
    );
    assert_eq!(
        joystick_mask(false, true, false, true, false),
        !(joystick::DOWN | joystick::RIGHT)
    );
}

#[test]
fn direct_keys_are_matrix_codes() {
    assert_eq!(direct_key_matrix(HostKey::A), Some(10));
    assert_eq!(direct_key_matrix(HostKey::Key1), Some(56));
    assert_eq!(direct_key_matrix(HostKey::Space), Some(60));
    assert_eq!(direct_key_matrix(HostKey::Enter), Some(1));
    assert_eq!(direct_key_matrix(HostKey::Minus), Some(43));
    assert_eq!(direct_key_matrix(HostKey::F1), None);
    assert_eq!(direct_key_matrix(HostKey::Other), None);
}

#[test]
fn cursor_keys_are_held_with_shift_where_the_c64_wants_it() {
    assert_eq!(special_key(HostKey::Down), Some((7, false)));
    assert_eq!(special_key(HostKey::Up), Some((7, true)));
    assert_eq!(special_key(HostKey::F8), Some((3, true)));
    assert_eq!(special_key(HostKey::A), None);
}

#[test]
fn debugger_shows_registers() {
    let mut m = machine();
    m.cpu.a = 0x12;
    m.cpu.x = 0xAB;
    m.cpu.y = 0x00;
    m.cpu.sp = 0xFD;
    m.cpu.cycles = 12345;
    m.cpu.n = true;
    m.cpu.v = false;
    m.cpu.d = false;
    m.cpu.i = true;
    m.cpu.z = false;
    m.cpu.c = true;
    let line = "PC:E000 A:12 X:AB Y:00 SP:FD  [NvdIzC]  I(masked):1  cyc:12345";
    assert_eq!(command(&mut m, "cpu"), line);
    assert_eq!(command(&mut m, "  r  "), line);
}

#[test]
fn debugger_shows_the_bus_and_the_chip() {
    let mut m = machine();
    assert_eq!(command(&mut m, "bus"), "ATN:1 CLK:1 DATA:1  (1 = released/high)");
    m.board.vic.regs[0x11] = 0xBB;
    m.board.vic.regs[0x12] = 0x34;
    m.board.vic.regs[0x16] = 0x18;
    m.board.vic.regs[0x18] = 0x15;
    m.board.vic.regs[0x20] = 0xFE;
    m.board.vic.regs[0x21] = 0xF6;
    m.board.vic.regs[0x19] = 0x00;
    m.board.vic.regs[0x1A] = 0x01;
    assert_eq!(
        command(&mut m, "vic"),
        "mode:MC-BITMAP raster:0 d011:BB d016:18 d018:15 border:E bg:6\n\
         raster-cmp:308 d019(latch):00 d01a(enable):01 irq:false"
    );
}

#[test]
fn debugger_shows_interrupts_and_sprites() {
    let mut m = machine();
    m.board.ram[0x0314] = 0x31;
    m.board.ram[0x0315] = 0xEA;
    m.cpu.i = false;
    assert_eq!(
        command(&mut m, "irq"),
        "CPU I-flag (IRQ masked): 0\nasserting -> VIC:false CIA1:false CIA2(NMI):false\n\
         $0314 IRQ vec -> $EA31   $FFFE -> $0000"
    );
    m.board.vic.regs[0x15] = 0x02;
    m.board.vic.regs[0x02] = 0x10;
    m.board.vic.regs[0x03] = 0x64;
    m.board.vic.regs[0x10] = 0x02;
    m.board.vic.regs[0x28] = 0xF7;
    let s = "enable:02 x-exp:00 y-exp:00 mc:00 pri:00 mc0:0 mc1:0\n  spr1: x=272 y=100 col:7\n";
    assert_eq!(command(&mut m, "spr"), s);
    assert_eq!(command(&mut m, "sprites"), s);
}

#[test]
fn debugger_dumps_and_pokes_memory() {
    let mut m = machine();
    assert_eq!(command(&mut m, "poke 0400 41"), "poked $0400 = $41");
    assert_eq!(m.board.ram[0x0400], 0x41);
    assert_eq!(
        command(&mut m, "mem 0400 3"),
        "0400: 41 00 00                                         A..\n"
    );
    // Two lines of sixteen and a rest.
    assert_eq!(command(&mut m, "mem $0400 #33").lines().count(), 3);
    // Through the banking: the KERNAL's loop at $E000.
    assert!(command(&mut m, "mem 0xE000 3").starts_with("E000: 4C 00 E0 "));
    assert_eq!(command(&mut m, "poke 0400"), "usage: poke <addr> <val>");
}

#[test]
fn debugger_disassembles() {
    let mut m = machine();
    let s = command(&mut m, "dis");
    assert!(s.starts_with("->E000: JMP  $E000\n  E003: BRK  \n"), "{s}");
    let s = command(&mut m, "dis C000");
    assert!(s.starts_with("  C000: BRK  \n"), "{s}");
}

#[test]
fn debugger_notices_a_loop() {
    let mut m = machine();
    assert_eq!(
        command(&mut m, "stuck"),
        "PC over 200k steps: 1 distinct in $E000..$E000  << LOOPING (try 'dis' at the low address)"
    );
}

#[test]
fn debugger_holds_a_key_for_eight_frames() {
    let mut m = machine();
    let before = m.cpu.cycles;
    let s = command(&mut m, "key #60");
    assert!(s.ends_with("  -> PC now $E000"), "{s}");
    assert_eq!(m.board.key_matrix, [0u8; 8]);
    assert!(m.cpu.cycles - before >= 8 * 19_700);
    assert_eq!(command(&mut m, "key"), "usage: key <matrix-code>  (e.g. 56=1, 59=2, 60=space)");
}

#[test]
fn debugger_answers_help_and_nonsense() {
    let mut m = machine();
    assert_eq!(command(&mut m, "help"), HELP);
    assert_eq!(command(&mut m, "?"), HELP);
    assert_eq!(command(&mut m, ""), "");
    let s = command(&mut m, "frob 1");
    assert!(s.starts_with("unknown command 'frob'"), "{s}");
    assert!(s.ends_with("type 'help'"), "{s}");
}

#[test]
fn held_keys_are_down_in_the_matrix() {
    let mut m = machine();
    // A is code 10, the left shift code 15: column 1, rows 2 and 7.
    press_direct(&mut m.board, &[HostKey::A, HostKey::F1], true);
    assert_eq!(m.board.key_matrix, [0, 0x84, 0, 0, 0, 0, 0, 0]);

    m.board.key_matrix = [0; 8];
    // Cursor left is SHIFT and cursor right (code 2); letters do nothing here.
    press_special(&mut m.board, &[HostKey::Left, HostKey::A]);
    assert_eq!(m.board.key_matrix, [0x04, 0x80, 0, 0, 0, 0, 0, 0]);
}

/// A frame takes its time, draws the whole picture, and gives the sound of every
/// instruction.
#[test]
fn a_frame_has_picture_and_sound() {
    let mut m = machine();
    m.board.vic.regs[0x11] = 0x1B;
    m.board.vic.regs[0x20] = 0x0E;
    let mut fb = vec![0xFFFF_FFFFu32; vic2::WIDTH * vic2::HEIGHT];
    let before = m.cpu.cycles;
    let sound = run_frame(&mut m, &mut None, &mut fb);
    let spent = m.cpu.cycles - before;
    assert!((19_700..19_722).contains(&spent));
    // One endless jump at three cycles each, and a silent SID.
    assert_eq!(sound.iter().map(|&(c, _)| c as u64).sum::<u64>(), spent);
    assert!(sound.iter().all(|&(c, level)| c == 3 && level == 0));
    assert!(fb.iter().all(|&px| px != 0xFFFF_FFFF), "every pixel was drawn");
}

#[test]
fn a_machine_that_never_gets_ready_is_given_up() {
    let mut m = machine();
    let before = m.cpu.cycles;
    run_until_ready(&mut m, &mut None);
    assert_eq!(m.cpu.cycles - before, 3 * BOOT_STEPS);
}

#[test]
fn programs_come_raw_or_off_a_disk() {
    let raw = vec![0x01, 0x08, 0xAA];
    assert_eq!(program_in(raw.clone(), false, None), Ok(raw.clone()));
    assert_eq!(program_in(raw, true, None), Err(ProgramError::NotADisk));
    let image = fixtures::synthetic_image();
    let file = vec![0x01, 0x08, 0xAA, 0xBB, 0xCC];
    assert_eq!(program_in(image.clone(), true, None), Ok(file.clone()));
    assert_eq!(program_in(image.clone(), true, Some("hello")), Ok(file));
    assert_eq!(program_in(image, true, Some("nope")), Err(ProgramError::NoSuchProgram));
}

/// Looking at a machine takes no time, and one command may follow another.
#[test]
fn debugger_looks_even_when_the_clock_is_at_its_end() {
    let mut m = machine();
    m.cpu.cycles = u64::MAX - 1;
    for line in ["cpu", "vic", "irq", "spr", "bus", "m 0400 10", "d", "poke 0400 01", "key", "?"] {
        assert!(!command(&mut m, line).is_empty(), "{line}");
    }
    assert_eq!(m.cpu.cycles, u64::MAX - 1);
    assert_eq!(m.board.ram[0x0400], 0x01);
}
