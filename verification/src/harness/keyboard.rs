//! Turning characters into C64 keypresses.
//!
//! The C64 has no notion of a "character" arriving: it has a matrix of keys
//! that the KERNAL scans 60 times a second. So typing, whether from a host
//! keyboard or from a script, means pressing and releasing real keys with
//! realistic timing.
//!
//! The mapping itself is taken straight from the **KERNAL's own decode tables**
//! rather than written by hand, so it is the C64's mapping by construction.
//! That also makes it host-layout independent: whatever key you pressed, we work
//! from the *character* it produced.

use std::collections::{HashMap, VecDeque};
use vstd::prelude::*;
use crate::c64;
use crate::c64::machine::C64;
use crate::c64::Board;
use crate::kernal::irq::{SHIFTED_KEYS, UNSHIFTED_KEYS};

verus! {

/// SHIFT's position in the C64 key matrix.
pub const SHIFT_KEY: u8 = 15;
/// RUN/STOP's position: the C64's break key.
pub const RUN_STOP_KEY: u8 = 63;

/// Characters mapped to the keys that type them: matrix code, and whether SHIFT
/// has to be held.
pub struct KeyMap {
    /// By code point.
    pub keys: HashMap<u32, (u8, bool)>,
}

impl View for KeyMap {
    type V = Map<u32, (u8, bool)>;

    open spec fn view(&self) -> Map<u32, (u8, bool)> {
        self.keys@
    }
}

impl KeyMap {
    /// The key that types a character, if there is one.
    pub fn get(&self, c: char) -> (r: Option<(u8, bool)>)
        ensures
            r == (if self@.dom().contains(c as u32) { Some(self@[c as u32]) } else { None }),
    {
        match self.keys.get(&(c as u32)) {
            Some(key) => Some(*key),
            None => None,
        }
    }

    /// Is there a key for a character?
    pub fn contains_key(&self, c: char) -> (b: bool)
        ensures
            b == self@.dom().contains(c as u32),
    {
        self.keys.contains_key(&(c as u32))
    }

    /// How many characters can be typed.
    pub fn len(&self) -> (n: usize)
        ensures
            n == self@.len(),
    {
        self.keys.len()
    }

    /// Give a character its key unless it has one.
    fn add_first(&mut self, c: u32, key: (u8, bool))
        ensures
            final(self)@ == first(old(self)@, c, key),
    {
        if !self.keys.contains_key(&c) {
            self.keys.insert(c, key);
        }
    }
}

/// PETSCII and ASCII coincide over `$20..=$5F`.
pub open spec fn is_typed(b: u8) -> bool {
    0x20 <= b <= 0x5F
}

/// A map with one more key, unless the character has one.
pub open spec fn first(m: Map<u32, (u8, bool)>, c: u32, key: (u8, bool)) -> Map<u32, (u8, bool)> {
    if m.dom().contains(c) { m } else { m.insert(c, key) }
}

/// A map with what a key types without SHIFT: a letter in both cases.
pub open spec fn with_unshifted(m: Map<u32, (u8, bool)>, code: u8, b: u8) -> Map<u32, (u8, bool)> {
    if !is_typed(b) {
        m
    } else if 0x41 <= b <= 0x5A {
        first(first(m, b as u32, (code, false)), (b + 32) as u32, (code, false))
    } else {
        first(m, b as u32, (code, false))
    }
}

/// A map with what a key types with SHIFT.
pub open spec fn with_shifted(m: Map<u32, (u8, bool)>, code: u8, b: u8) -> Map<u32, (u8, bool)> {
    if is_typed(b) { first(m, b as u32, (code, true)) } else { m }
}

/// What the first `n` keys of the matrix type.
pub open spec fn keys_upto(n: int) -> Map<u32, (u8, bool)>
    decreases n,
{
    if n <= 0 {
        Map::empty()
    } else {
        let code = (n - 1) as u8;
        with_shifted(
            with_unshifted(keys_upto(n - 1), code, UNSHIFTED_KEYS[n - 1]), code, SHIFTED_KEYS[n - 1])
    }
}

/// What every key types, with the control codes for RETURN and INST/DEL.
pub open spec fn all_keys() -> Map<u32, (u8, bool)> {
    keys_upto(64).insert(0x0D, (1, false)).insert(0x0A, (1, false)).insert(0x08, (0, false))
        .insert(0x7F, (0, false))
}

/// PETSCII byte -> ASCII-range char (the two coincide over `$20..=$5F`).
pub fn petscii_char(b: u8) -> (c: Option<char>)
    ensures
        c == (if is_typed(b) { Some(b as char) } else { None }),
{
    if 0x20 <= b && b <= 0x5F { Some(b as char) } else { None }
}

/// Is this code point a printable character rather than a control code?
///
/// Control codes are handled as *keys*, never as characters, because host
/// backends disagree about whether they even deliver them: some drop every code
/// point below 32 (and `$7F..$A0`), others pass them straight through.
/// Filtering uniformly is what keeps RETURN working on both.
pub fn is_printable(code_point: u32) -> (b: bool)
    ensures
        b == (code_point >= 32 && !(0x7F <= code_point < 0xA0)),
{
    code_point >= 32 && !(0x7F <= code_point && code_point < 0xA0)
}

/// Build a character -> key map from the KERNAL's keyboard decode tables.
pub fn char_map() -> (m: KeyMap)
    ensures
        m@ == all_keys(),
{
    let mut m = KeyMap { keys: HashMap::new() };
    let mut idx: u8 = 0;
    while idx < 64
        invariant
            idx <= 64,
            m@ == keys_upto(idx as int),
        decreases 64 - idx,
    {
        let plain = UNSHIFTED_KEYS[idx as usize];
        if let Some(ch) = petscii_char(plain) {
            m.add_first(ch as u32, (idx, false));
            if 0x41 <= plain && plain <= 0x5A {
                m.add_first(ch as u32 + 32, (idx, false));
            }
        }
        if let Some(ch) = petscii_char(SHIFTED_KEYS[idx as usize]) {
            m.add_first(ch as u32, (idx, true));
        }
        idx += 1;
    }
    // Control codes. Typed ones never reach here (see `is_printable`), but
    // *pasted* and *scripted* text goes into the queue directly, so a newline
    // still has to become RETURN.
    m.keys.insert(0x0D, (1, false));
    m.keys.insert(0x0A, (1, false));
    m.keys.insert(0x08, (0, false)); // backspace -> INST/DEL
    m.keys.insert(0x7F, (0, false));
    m
}

// ---- typing ----

/// Types queued characters into the C64's keyboard matrix, one at a time.
///
/// A real key is pressed and released. The KERNAL only registers a keystroke if
/// its 60 Hz scan (`SCNKEY`, `$EA87`) catches the key down, and only registers a
/// *second* one if a scan catches the key back up in between: it remembers the
/// last key index in `$00CB` to debounce. So each character is held for
/// [`Typist::HOLD_FRAMES`] frames, then followed by [`Typist::GAP_FRAMES`] frames
/// of released keyboard.
///
/// Those two numbers are why this is a type and not three lines inline: too
/// small and characters vanish, and the only symptom is a subtly mistyped
/// command a long way downstream.
pub struct Typist {
    /// The key being held: matrix code, whether SHIFT is down, frames left.
    pub hold: Option<(u8, bool, u8)>,
    /// Frames of released keyboard still owed before the next character.
    pub gap: u8,
    /// Characters seen with no C64 key to type them.
    pub dropped: Vec<char>,
}

/// What a [`Typist`] is about.
#[verifier::ext_equal]
pub struct Typing {
    pub hold: Option<(u8, bool, u8)>,
    pub gap: u8,
    pub dropped: Seq<char>,
}

impl View for Typist {
    type V = Typing;

    open spec fn view(&self) -> Typing {
        Typing { hold: self.hold, gap: self.gap, dropped: self.dropped@ }
    }
}

/// Nothing held, nothing owed, nothing dropped.
pub open spec fn typing_idle() -> Typing {
    Typing { hold: None, gap: 0, dropped: Seq::empty() }
}

/// Is a character still being delivered?
pub open spec fn is_busy(t: Typing) -> bool {
    t.hold is Some || t.gap > 0
}

/// A board with a key down, and SHIFT with it if need be.
pub open spec fn pressed(b: Board, code: u8, shift: bool) -> Board {
    let t = c64::key_set(b, code, true);
    if shift { c64::key_set(t, SHIFT_KEY, true) } else { t }
}

/// The typist after one frame, with the queue it leaves.
pub open spec fn typed(t: Typing, queue: Seq<char>, keys: Map<u32, (u8, bool)>) -> (Typing, Seq<char>) {
    match t.hold {
        Some((code, shift, left)) => {
            let next = if left > 1 {
                Typing { hold: Some((code, shift, (left - 1) as u8)), ..t }
            } else {
                Typing { hold: None, gap: Typist::GAP_FRAMES, ..t }
            };
            (next, queue)
        },
        None => {
            if t.gap > 0 {
                (Typing { gap: (t.gap - 1) as u8, ..t }, queue)
            } else if queue.len() == 0 {
                (t, queue)
            } else {
                let c = queue[0];
                let next = if keys.dom().contains(c as u32) {
                    let (code, shift) = keys[c as u32];
                    Typing { hold: Some((code, shift, (Typist::HOLD_FRAMES - 1) as u8)), ..t }
                } else {
                    Typing { dropped: t.dropped.push(c), ..t }
                };
                (next, queue.skip(1))
            }
        },
    }
}

/// The key that is down during a frame, and whether SHIFT is.
pub open spec fn key_down(
    t: Typing, queue: Seq<char>, keys: Map<u32, (u8, bool)>,
) -> Option<(u8, bool)> {
    match t.hold {
        Some((code, shift, _)) => Some((code, shift)),
        None => {
            if t.gap == 0 && queue.len() > 0 && keys.dom().contains(queue[0] as u32) {
                Some(keys[queue[0] as u32])
            } else {
                None
            }
        },
    }
}

/// The board after a frame's key was pressed into its matrix.
pub open spec fn board_typed(
    b: Board, t: Typing, queue: Seq<char>, keys: Map<u32, (u8, bool)>,
) -> Board {
    match key_down(t, queue, keys) {
        Some((code, shift)) => pressed(b, code, shift),
        None => b,
    }
}

impl Default for Typist {
    fn default() -> (t: Self)
        ensures
            t@ == typing_idle(),
    {
        let t = Typist { hold: None, gap: 0, dropped: Vec::new() };
        assert(t@ =~= typing_idle());
        t
    }
}

impl Typist {
    /// Frames to hold a key down. A frame is 20 ms and the KERNAL scans every
    /// ~16.7 ms, so two frames guarantees a scan sees it.
    pub const HOLD_FRAMES: u8 = 2;
    /// Frames with no key pressed afterwards, so a scan can observe the release.
    pub const GAP_FRAMES: u8 = 2;

    /// True while a character is still being delivered.
    pub fn busy(&self) -> (b: bool)
        ensures
            b == is_busy(self@),
    {
        self.hold.is_some() || self.gap > 0
    }

    /// Characters that had no C64 key and were skipped.
    ///
    /// Worth checking in a test: a silently dropped character is the difference
    /// between `LOAD"*",8,1` and something that loads from tape.
    pub fn dropped(&self) -> (d: &[char])
        ensures
            d@ == self@.dropped,
    {
        self.dropped.as_slice()
    }

    /// Advance one frame, pressing keys into `c64`'s matrix.
    ///
    /// The caller clears the matrix first, so this is additive with any keys a
    /// host is physically holding.
    pub fn frame(&mut self, c64: &mut C64, queue: &mut VecDeque<char>, map: &KeyMap)
        ensures
            (final(self)@, final(queue)@) == typed(old(self)@, old(queue)@, map@),
            *final(c64) == (C64 {
                board: board_typed(old(c64).board, old(self)@, old(queue)@, map@),
                ..*old(c64)
            }),
    {
        if let Some((code, shift, left)) = self.hold {
            press(c64, code, shift);
            if left > 1 {
                self.hold = Some((code, shift, left - 1));
            } else {
                self.gap = Self::GAP_FRAMES;
                self.hold = None;
            }
        } else if self.gap > 0 {
            self.gap -= 1;
        } else if let Some(c) = queue.pop_front() {
            match map.get(c) {
                Some((code, shift)) => {
                    press(c64, code, shift);
                    self.hold = Some((code, shift, Self::HOLD_FRAMES - 1));
                },
                None => self.dropped.push(c),
            }
            assert(queue@ =~= old(queue)@.skip(1));
        }
        assert(self@ =~= typed(old(self)@, old(queue)@, map@).0);
    }
}

fn press(c64: &mut C64, code: u8, shift: bool)
    ensures
        *final(c64) == (C64 { board: pressed(old(c64).board, code, shift), ..*old(c64) }),
{
    c64.board.set_key(code, true);
    if shift {
        c64.board.set_key(SHIFT_KEY, true);
    }
}

// ---- what holds of typing ----

/// A character of the map is what its key types: by the KERNAL's own table, in
/// lower case for a letter, or as one of the four control codes.
pub open spec fn types(c: u32, key: (u8, bool)) -> bool {
    let b = if key.1 { SHIFTED_KEYS[key.0 as int] } else { UNSHIFTED_KEYS[key.0 as int] };
    &&& key.0 < 64
    &&& is_typed(b)
    &&& b == c || (!key.1 && 0x41 <= b <= 0x5A && c == b + 32)
}

proof fn lemma_keys_type(n: int)
    requires
        0 <= n <= 64,
    ensures
        forall|c: u32| #[trigger] keys_upto(n).dom().contains(c) ==> types(c, keys_upto(n)[c]),
    decreases n,
{
    if n > 0 {
        lemma_keys_type(n - 1);
        let code = (n - 1) as u8;
        let m = keys_upto(n - 1);
        let u = with_unshifted(m, code, UNSHIFTED_KEYS[n - 1]);
        assert forall|c: u32| #[trigger] u.dom().contains(c) implies types(c, u[c]) by {
            if m.dom().contains(c) {
                assert(types(c, m[c]));
            }
        }
        let s = with_shifted(u, code, SHIFTED_KEYS[n - 1]);
        assert forall|c: u32| #[trigger] s.dom().contains(c) implies types(c, s[c]) by {
            if u.dom().contains(c) {
                assert(types(c, u[c]));
            }
        }
    }
}

/// Every character of the map is typed by its key.
pub proof fn law_key_types_its_character(c: u32)
    requires
        all_keys().dom().contains(c),
    ensures
        types(c, all_keys()[c])
            || ((c == 0x0D || c == 0x0A) && all_keys()[c] == (1u8, false))
            || ((c == 0x08 || c == 0x7F) && all_keys()[c] == (0u8, false)),
{
    lemma_keys_type(64);
    assert(keys_upto(64).dom().contains(c) ==> types(c, keys_upto(64)[c]));
}

proof fn lemma_keys_kept(n: int, m: int, c: u32)
    requires
        0 <= n <= m,
        keys_upto(n).dom().contains(c),
    ensures
        keys_upto(m).dom().contains(c),
    decreases m,
{
    if n < m {
        lemma_keys_kept(n, m - 1, c);
    }
}

/// Every printable character on a key, with or without SHIFT, can be typed.
pub proof fn law_every_printable_key_is_mapped(code: int)
    requires
        0 <= code < 64,
    ensures
        is_typed(UNSHIFTED_KEYS[code]) ==> all_keys().dom().contains(UNSHIFTED_KEYS[code] as u32),
        is_typed(SHIFTED_KEYS[code]) ==> all_keys().dom().contains(SHIFTED_KEYS[code] as u32),
{
    if is_typed(UNSHIFTED_KEYS[code]) {
        assert(keys_upto(code + 1).dom().contains(UNSHIFTED_KEYS[code] as u32));
        lemma_keys_kept(code + 1, 64, UNSHIFTED_KEYS[code] as u32);
    }
    if is_typed(SHIFTED_KEYS[code]) {
        assert(keys_upto(code + 1).dom().contains(SHIFTED_KEYS[code] as u32));
        lemma_keys_kept(code + 1, 64, SHIFTED_KEYS[code] as u32);
    }
}

/// The typist and the queue after `n` frames.
pub open spec fn typed_frames(
    t: Typing, queue: Seq<char>, keys: Map<u32, (u8, bool)>, n: nat,
) -> (Typing, Seq<char>)
    decreases n,
{
    if n == 0 {
        (t, queue)
    } else {
        let (u, q) = typed_frames(t, queue, keys, (n - 1) as nat);
        typed(u, q, keys)
    }
}

/// Each character is held down, then released for as long, and only then comes
/// the next: an idle typist with a character it can type keeps its key down for
/// two frames and nothing down for the next two, and is idle again after that.
pub proof fn law_character_is_pressed_then_released(
    t: Typing, queue: Seq<char>, keys: Map<u32, (u8, bool)>,
)
    requires
        !is_busy(t),
        queue.len() > 0,
        keys.dom().contains(queue[0] as u32),
    ensures
        ({
            let key = Some(keys[queue[0] as u32]);
            let f = |n: nat| typed_frames(t, queue, keys, n);
            &&& key_down(f(0).0, f(0).1, keys) == key
            &&& key_down(f(1).0, f(1).1, keys) == key
            &&& key_down(f(2).0, f(2).1, keys) is None
            &&& key_down(f(3).0, f(3).1, keys) is None
            &&& f(4) == (t, queue.skip(1))
        }),
{
    assert(typed_frames(t, queue, keys, 1) == typed(t, queue, keys));
    let (t1, q1) = typed(t, queue, keys);
    assert(typed_frames(t, queue, keys, 2) == typed(t1, q1, keys));
    let (t2, q2) = typed(t1, q1, keys);
    assert(typed_frames(t, queue, keys, 3) == typed(t2, q2, keys));
    let (t3, q3) = typed(t2, q2, keys);
    assert(typed_frames(t, queue, keys, 4) == typed(t3, q3, keys));
}

/// A character without a key is recorded, not swallowed, and costs one frame.
pub proof fn law_unmapped_character_is_recorded(
    t: Typing, queue: Seq<char>, keys: Map<u32, (u8, bool)>,
)
    requires
        !is_busy(t),
        queue.len() > 0,
        !keys.dom().contains(queue[0] as u32),
    ensures
        key_down(t, queue, keys) is None,
        typed(t, queue, keys).0.dropped == t.dropped.push(queue[0]),
        !is_busy(typed(t, queue, keys).0),
        typed(t, queue, keys).1 == queue.skip(1),
{
}

} // verus!
