//! Which C64 keys the keys of a host keyboard stand for.

use vstd::prelude::*;
use crate::bits::{bit_of, lemma_digits};
use crate::c64;
use crate::c64::{joystick, Board};
use crate::harness::keyboard::SHIFT_KEY;
use crate::kernal::irq::UNSHIFTED_KEYS;

verus! {

/// The keys of a host keyboard that mean something to the machine.
#[derive(Debug, Clone, Copy, PartialEq, Eq, Structural)]
pub enum HostKey {
    A, B, C, D, E, F, G, H, I, J, K, L, M, N, O, P, Q, R, S, T, U, V, W, X, Y, Z,
    Key0, Key1, Key2, Key3, Key4, Key5, Key6, Key7, Key8, Key9,
    F1, F2, F3, F4, F5, F6, F7, F8,
    Down, Up, Right, Left, Home,
    Space, Enter, NumPadEnter, Backspace, Delete,
    Comma, Period, Slash, Semicolon, Equal, Minus,
    /// Any other key.
    Other,
}

/// A key held with another one's job: its matrix code, and whether SHIFT goes
/// with it.
pub open spec fn special(key: HostKey) -> Option<(u8, bool)> {
    match key {
        HostKey::Down => Some((7, false)),
        HostKey::Up => Some((7, true)),
        HostKey::Right => Some((2, false)),
        HostKey::Left => Some((2, true)),
        HostKey::Home => Some((51, false)),
        HostKey::Backspace => Some((0, false)),
        HostKey::Delete => Some((0, false)),
        HostKey::F1 => Some((4, false)),
        HostKey::F2 => Some((4, true)),
        HostKey::F3 => Some((5, false)),
        HostKey::F4 => Some((5, true)),
        HostKey::F5 => Some((6, false)),
        HostKey::F6 => Some((6, true)),
        HostKey::F7 => Some((3, false)),
        HostKey::F8 => Some((3, true)),
        _ => None,
    }
}

/// Host key -> (C64 matrix code, needs SHIFT) for keys the host doesn't deliver
/// as characters. The C64 makes cursor-up/left the *shifted* forms of
/// cursor-down/right, and F2/F4/F6/F8 the shifted forms of F1/F3/F5/F7.
///
/// DEL comes through here rather than as a character, because whether a control
/// code arrives as a character at all is platform-dependent. Holding it *should*
/// repeat: INST/DEL is one of the few keys the KERNAL repeats by default.
pub fn special_key(key: HostKey) -> (r: Option<(u8, bool)>)
    ensures
        r == special(key),
{
    match key {
        HostKey::Down => Some((7, false)), // CRSR down
        HostKey::Up => Some((7, true)), // CRSR up   = SHIFT + CRSR down
        HostKey::Right => Some((2, false)), // CRSR right
        HostKey::Left => Some((2, true)), // CRSR left = SHIFT + CRSR right
        HostKey::Home => Some((51, false)), // HOME  (SHIFT+Home would be CLR)
        HostKey::Backspace => Some((0, false)), // INST/DEL: the Mac's main delete key
        HostKey::Delete => Some((0, false)), // INST/DEL: forward delete (fn+Delete)
        HostKey::F1 => Some((4, false)),
        HostKey::F2 => Some((4, true)),
        HostKey::F3 => Some((5, false)),
        HostKey::F4 => Some((5, true)),
        HostKey::F5 => Some((6, false)),
        HostKey::F6 => Some((6, true)),
        HostKey::F7 => Some((3, false)),
        HostKey::F8 => Some((3, true)),
        _ => None,
    }
}

/// Host keys that mean RETURN.
///
/// These are **edge**-triggered, not held like the keys of [`special_key`], and
/// they are delivered through the type-ahead queue so they get the same
/// press/release discipline as a typed character.
///
/// The distinction matters more than it looks. A held RETURN injects a keypress
/// on every frame it is down, which is fine when you are typing by hand and
/// disastrous when characters are already queued: the stray RETURN submits the
/// line half-typed. Do that to `LOAD"*",8,1` and the C64 runs a bare `LOAD`,
/// which defaults to device 1, so the machine asks you to PRESS PLAY ON TAPE
/// and never speaks to the disk. The C64 does not repeat RETURN anyway, so
/// there is nothing to lose.
pub fn is_return_key(key: HostKey) -> (b: bool)
    ensures
        b == (key == HostKey::Enter || key == HostKey::NumPadEnter),
{
    key == HostKey::Enter || key == HostKey::NumPadEnter
}

/// The matrix code of a key in direct mode.
pub open spec fn direct(key: HostKey) -> Option<u8> {
    match key {
        HostKey::A => Some(10), HostKey::B => Some(28), HostKey::C => Some(20),
        HostKey::D => Some(18), HostKey::E => Some(14), HostKey::F => Some(21),
        HostKey::G => Some(26), HostKey::H => Some(29), HostKey::I => Some(33),
        HostKey::J => Some(34), HostKey::K => Some(37), HostKey::L => Some(42),
        HostKey::M => Some(36), HostKey::N => Some(39), HostKey::O => Some(38),
        HostKey::P => Some(41), HostKey::Q => Some(62), HostKey::R => Some(17),
        HostKey::S => Some(13), HostKey::T => Some(22), HostKey::U => Some(30),
        HostKey::V => Some(31), HostKey::W => Some(9), HostKey::X => Some(23),
        HostKey::Y => Some(25), HostKey::Z => Some(12),
        HostKey::Key0 => Some(35), HostKey::Key1 => Some(56), HostKey::Key2 => Some(59),
        HostKey::Key3 => Some(8), HostKey::Key4 => Some(11), HostKey::Key5 => Some(16),
        HostKey::Key6 => Some(19), HostKey::Key7 => Some(24), HostKey::Key8 => Some(27),
        HostKey::Key9 => Some(32),
        HostKey::Space => Some(60),
        HostKey::Enter | HostKey::NumPadEnter => Some(1),
        HostKey::Backspace | HostKey::Delete => Some(0),
        HostKey::Comma => Some(47), HostKey::Period => Some(44), HostKey::Slash => Some(55),
        HostKey::Semicolon => Some(50), HostKey::Equal => Some(53), HostKey::Minus => Some(43),
        _ => None,
    }
}

/// Physical host key -> C64 keyboard-matrix code, for **direct** (game) mode:
/// the key is set while held and cleared on release, like a real keyboard.
/// Positions follow a QWERTY host, so letters and digits line up with the C64.
/// Arrows and function keys are handled by [`special_key`] in both modes.
pub fn direct_key_matrix(key: HostKey) -> (r: Option<u8>)
    ensures
        r == direct(key),
{
    match key {
        HostKey::A => Some(10), HostKey::B => Some(28), HostKey::C => Some(20),
        HostKey::D => Some(18), HostKey::E => Some(14), HostKey::F => Some(21),
        HostKey::G => Some(26), HostKey::H => Some(29), HostKey::I => Some(33),
        HostKey::J => Some(34), HostKey::K => Some(37), HostKey::L => Some(42),
        HostKey::M => Some(36), HostKey::N => Some(39), HostKey::O => Some(38),
        HostKey::P => Some(41), HostKey::Q => Some(62), HostKey::R => Some(17),
        HostKey::S => Some(13), HostKey::T => Some(22), HostKey::U => Some(30),
        HostKey::V => Some(31), HostKey::W => Some(9), HostKey::X => Some(23),
        HostKey::Y => Some(25), HostKey::Z => Some(12),
        HostKey::Key0 => Some(35), HostKey::Key1 => Some(56), HostKey::Key2 => Some(59),
        HostKey::Key3 => Some(8), HostKey::Key4 => Some(11), HostKey::Key5 => Some(16),
        HostKey::Key6 => Some(19), HostKey::Key7 => Some(24), HostKey::Key8 => Some(27),
        HostKey::Key9 => Some(32),
        HostKey::Space => Some(60),
        HostKey::Enter | HostKey::NumPadEnter => Some(1),
        HostKey::Backspace | HostKey::Delete => Some(0),
        HostKey::Comma => Some(47), HostKey::Period => Some(44), HostKey::Slash => Some(55),
        HostKey::Semicolon => Some(50), HostKey::Equal => Some(53), HostKey::Minus => Some(43),
        _ => None,
    }
}

/// A board with keys held down directly, one after the other.
pub open spec fn direct_pressed(b: Board, keys: Seq<HostKey>) -> Board
    decreases keys.len(),
{
    if keys.len() == 0 {
        b
    } else {
        let p = direct_pressed(b, keys.drop_last());
        match direct(keys.last()) {
            Some(code) => c64::key_set(p, code, true),
            None => p,
        }
    }
}

/// A board with keys held down by the job they do, one after the other.
pub open spec fn special_pressed(b: Board, keys: Seq<HostKey>) -> Board
    decreases keys.len(),
{
    if keys.len() == 0 {
        b
    } else {
        let p = special_pressed(b, keys.drop_last());
        match special(keys.last()) {
            Some((code, shift)) => {
                let q = c64::key_set(p, code, true);
                if shift { c64::key_set(q, SHIFT_KEY, true) } else { q }
            },
            None => p,
        }
    }
}

/// Direct mode: every host key that maps to a C64 key is down on the board, and
/// SHIFT with them if `shift` is. No queue, no repeat, no stuck keys.
pub fn press_direct(b: &mut Board, keys: &[HostKey], shift: bool)
    ensures
        *final(b) == (if shift {
            c64::key_set(direct_pressed(*old(b), keys@), SHIFT_KEY, true)
        } else {
            direct_pressed(*old(b), keys@)
        }),
{
    let mut k: usize = 0;
    while k < keys.len()
        invariant
            k <= keys.len(),
            *b == direct_pressed(*old(b), keys@.take(k as int)),
        decreases keys.len() - k,
    {
        assert(keys@.take(k + 1).drop_last() =~= keys@.take(k as int));
        if let Some(code) = direct_key_matrix(keys[k]) {
            b.set_key(code, true);
        }
        k += 1;
    }
    assert(keys@.take(k as int) =~= keys@);
    if shift {
        b.set_key(SHIFT_KEY, true);
    }
}

/// Editing and special keys the host doesn't send as characters: down on the
/// board, with SHIFT where the C64 uses a shifted key.
pub fn press_special(b: &mut Board, keys: &[HostKey])
    ensures
        *final(b) == special_pressed(*old(b), keys@),
{
    let mut k: usize = 0;
    while k < keys.len()
        invariant
            k <= keys.len(),
            *b == special_pressed(*old(b), keys@.take(k as int)),
        decreases keys.len() - k,
    {
        assert(keys@.take(k + 1).drop_last() =~= keys@.take(k as int));
        if let Some((code, shift)) = special_key(keys[k]) {
            b.set_key(code, true);
            if shift {
                b.set_key(SHIFT_KEY, true);
            }
        }
        k += 1;
    }
    assert(keys@.take(k as int) =~= keys@);
}

/// The state of a joystick, **active-low**: a clear bit is a closed switch.
pub open spec fn joystick_state(up: bool, down: bool, left: bool, right: bool, fire: bool) -> u8 {
    (255 - (if up { joystick::UP as int } else { 0 }) - (if down { joystick::DOWN as int } else { 0 })
        - (if left { joystick::LEFT as int } else { 0 })
        - (if right { joystick::RIGHT as int } else { 0 })
        - (if fire { joystick::FIRE as int } else { 0 })) as u8
}

/// The joystick mask for the switches that are closed.
pub fn joystick_mask(up: bool, down: bool, left: bool, right: bool, fire: bool) -> (m: u8)
    ensures
        m == joystick_state(up, down, left, right, fire),
{
    let mut m: u8 = joystick::CENTER;
    if up {
        m -= joystick::UP;
    }
    if down {
        m -= joystick::DOWN;
    }
    if left {
        m -= joystick::LEFT;
    }
    if right {
        m -= joystick::RIGHT;
    }
    if fire {
        m -= joystick::FIRE;
    }
    m
}

/// No RETURN key is also a held key, in either direction.
pub proof fn law_return_is_never_held(key: HostKey)
    requires
        key == HostKey::Enter || key == HostKey::NumPadEnter,
    ensures
        special(key) is None,
{
}

/// The character on a key cap.
pub open spec fn key_cap(key: HostKey) -> Option<u8> {
    match key {
        HostKey::A => Some(0x41), HostKey::B => Some(0x42), HostKey::C => Some(0x43),
        HostKey::D => Some(0x44), HostKey::E => Some(0x45), HostKey::F => Some(0x46),
        HostKey::G => Some(0x47), HostKey::H => Some(0x48), HostKey::I => Some(0x49),
        HostKey::J => Some(0x4A), HostKey::K => Some(0x4B), HostKey::L => Some(0x4C),
        HostKey::M => Some(0x4D), HostKey::N => Some(0x4E), HostKey::O => Some(0x4F),
        HostKey::P => Some(0x50), HostKey::Q => Some(0x51), HostKey::R => Some(0x52),
        HostKey::S => Some(0x53), HostKey::T => Some(0x54), HostKey::U => Some(0x55),
        HostKey::V => Some(0x56), HostKey::W => Some(0x57), HostKey::X => Some(0x58),
        HostKey::Y => Some(0x59), HostKey::Z => Some(0x5A),
        HostKey::Key0 => Some(0x30), HostKey::Key1 => Some(0x31), HostKey::Key2 => Some(0x32),
        HostKey::Key3 => Some(0x33), HostKey::Key4 => Some(0x34), HostKey::Key5 => Some(0x35),
        HostKey::Key6 => Some(0x36), HostKey::Key7 => Some(0x37), HostKey::Key8 => Some(0x38),
        HostKey::Key9 => Some(0x39),
        HostKey::Space => Some(0x20),
        HostKey::Comma => Some(0x2C), HostKey::Period => Some(0x2E), HostKey::Slash => Some(0x2F),
        HostKey::Semicolon => Some(0x3B), HostKey::Equal => Some(0x3D), HostKey::Minus => Some(0x2D),
        _ => None,
    }
}

/// In direct mode a key with a character on its cap presses the C64 key that the
/// KERNAL decodes as that character.
pub proof fn law_direct_keys_type_their_caps(key: HostKey)
    ensures
        key_cap(key) matches Some(b) ==> {
            &&& direct(key) matches Some(code)
            &&& code < 64
            &&& UNSHIFTED_KEYS[code as int] == b
        },
{
}

/// A key with a job of its own presses what the KERNAL decodes as that job: the
/// cursor moves, HOME, DEL, and the function keys, the even ones with SHIFT.
pub proof fn law_special_keys_do_their_jobs(key: HostKey)
    ensures
        ({
            let code = match key {
                HostKey::Down => Some(0x11u8), HostKey::Up => Some(0x91u8),
                HostKey::Right => Some(0x1Du8), HostKey::Left => Some(0x9Du8),
                HostKey::Home => Some(0x13u8),
                HostKey::Backspace | HostKey::Delete => Some(0x14u8),
                HostKey::F1 => Some(0x85u8), HostKey::F2 => Some(0x89u8),
                HostKey::F3 => Some(0x86u8), HostKey::F4 => Some(0x8Au8),
                HostKey::F5 => Some(0x87u8), HostKey::F6 => Some(0x8Bu8),
                HostKey::F7 => Some(0x88u8), HostKey::F8 => Some(0x8Cu8),
                _ => None,
            };
            &&& special(key) is Some == code is Some
            &&& special(key) matches Some((k, shift)) ==> k < 64
                && crate::kernal::irq::petscii(if shift { 1 } else { 0 }, k) == code->0
        }),
{
}

/// RETURN and DEL are there in direct mode too, and nothing without a cap is but they.
pub proof fn law_direct_keys_without_caps(key: HostKey)
    ensures
        key_cap(key) is None && direct(key) is Some ==> {
            &&& key == HostKey::Enter || key == HostKey::NumPadEnter || key == HostKey::Backspace
                || key == HostKey::Delete
            &&& UNSHIFTED_KEYS[direct(key)->0 as int]
                == (if key == HostKey::Backspace || key == HostKey::Delete { 0x14u8 } else { 0x0D })
        },
        direct(HostKey::Enter) is Some && direct(HostKey::Backspace) is Some,
{
}

/// A closed switch of a joystick is a low bit: up, down, left, right and fire from
/// bit 0 on; the other bits are high.
pub proof fn law_joystick_switches(up: bool, down: bool, left: bool, right: bool, fire: bool)
    ensures
        ({
            let m = joystick_state(up, down, left, right, fire);
            &&& bit_of(m, 0) == !up && bit_of(m, 1) == !down && bit_of(m, 2) == !left
            &&& bit_of(m, 3) == !right && bit_of(m, 4) == !fire
            &&& bit_of(m, 5) && bit_of(m, 6) && bit_of(m, 7)
        }),
{
    lemma_digits(joystick_state(up, down, left, right, fire));
}

} // verus!
