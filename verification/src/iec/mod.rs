//! The Commodore serial bus, "IEC", that connects the C64 to its disk drives.
//!
//! Electrically this is the simplest interesting thing in the whole machine:
//! three signal wires, each an **open-collector** line with a pull-up resistor.
//! No device ever drives a line high. A device either *pulls it low* or *lets
//! go*, and the line sits high only when **every** device has let go. That makes
//! the bus a wired-AND of "released" (equivalently, a wired-OR of "pulling").
//!
//! The three lines:
//!
//! | Line  | Driven by | Meaning |
//! |-------|-----------|---------|
//! | `ATN`  | controller only | "attention": what follows is a command, not data |
//! | `CLK`  | whoever is talking | clocks each bit; also the handshake heartbeat |
//! | `DATA` | talker (bits) / listeners (acknowledge) | the bit value, and "I'm ready" / "got it" |
//!
//! Commodore's documentation calls a line "true" when it is **pulled low**, and
//! the chips on both ends invert. Here a line is described **only** by its
//! electrical level: [`Bus::released`] (nobody is pulling; the line is high) and
//! [`Bus::pulled_low`] (at least one device is pulling; the line is low). The
//! chip-register inversions live at the edges, in the code that wires a CIA or a
//! VIA to this bus.

use vstd::prelude::*;

pub mod device;
pub mod laws;
pub mod line;
pub mod protocol;

pub use device::{Device, Storage, DEFAULT_ADDRESS};

verus! {

/// One of the three bus lines.
#[derive(Debug, Clone, Copy, PartialEq, Eq, Structural)]
pub enum Line {
    Atn,
    Clk,
    Data,
}

/// The bit mask of a line.
pub open spec fn mask_of(l: Line) -> u8 {
    match l {
        Line::Atn => line::ATN,
        Line::Clk => line::CLK,
        Line::Data => line::DATA,
    }
}

impl Line {
    /// The [`line`] bit mask for this line.
    pub fn mask(self) -> (m: u8)
        ensures
            m == mask_of(self),
    {
        match self {
            Line::Atn => line::ATN,
            Line::Clk => line::CLK,
            Line::Data => line::DATA,
        }
    }
}

/// How many devices can share the bus. Slot 0 is the controller; a real C64
/// serial chain tops out at four or five peripherals before the pull-ups give
/// up, so this is generous.
pub const MAX_DEVICES: usize = 4;

/// The controller's slot. On a C64 this is always the computer itself: it is
/// the only device allowed to pull ATN.
pub const CONTROLLER: usize = 0;

/// The three shared lines, plus who is pulling each one.
///
/// Devices don't own lines; they own an opinion about each line, and the bus
/// resolves those opinions. Every device gets a slot and declares which lines it
/// is currently pulling low ([`Bus::set_pulls`] / [`Bus::pull`]); everyone then
/// reads the same resolved levels ([`Bus::released`] / [`Bus::pulled_low`]).
#[derive(Debug, Clone)]
pub struct Bus {
    /// `pulls[d]` is the set of lines device `d` is pulling low.
    pub pulls: [u8; MAX_DEVICES],
}

/// Does the device in slot `d` pull this line low?
pub open spec fn pulls_line(b: Bus, d: int, l: Line) -> bool {
    b.pulls[d] & mask_of(l) != 0
}

/// The wired-OR: a line is high when no device pulls it.
pub open spec fn line_high(b: Bus, l: Line) -> bool {
    forall|d: int| 0 <= d < MAX_DEVICES ==> !pulls_line(b, d, l)
}

/// No slot holds bits that are not lines.
pub open spec fn bus_sound(b: Bus) -> bool {
    forall|d: int| 0 <= d < MAX_DEVICES ==> #[trigger] b.pulls[d] <= line::ALL
}

/// The bus with the whole opinion of slot `d` replaced. There are only
/// [`MAX_DEVICES`] slots; any other is ignored.
pub open spec fn with_pulls(b: Bus, d: int, mask: u8) -> Bus {
    if 0 <= d < MAX_DEVICES {
        Bus { pulls: vstd::array::spec_array_update(b.pulls, d, mask) }
    } else {
        b
    }
}

/// A slot's mask with one line pulled or let go.
pub open spec fn mask_with(mask: u8, l: Line, pulling: bool) -> u8 {
    if pulling { mask | mask_of(l) } else { mask & !mask_of(l) }
}

/// The bus after slot `d` has started or stopped pulling one line.
pub open spec fn with_line(b: Bus, d: int, l: Line, pulling: bool) -> Bus {
    with_pulls(b, d, mask_with(b.pulls[d], l, pulling))
}

/// The bit facts behind the bus: `m` is one line's mask.
proof fn lemma_masks(a: u8, b: u8, c: u8, d: u8, m: u8)
    by (bit_vector)
    ensures
        (a | b | c | d) & m == 0
            <==> a & m == 0 && b & m == 0 && c & m == 0 && d & m == 0,
        a & 0x07 <= 0x07,
        a <= 0x07 ==> a & 0x07 == a,
        a <= 0x07 && m <= 0x07 ==> a | m <= 0x07,
        a <= 0x07 ==> a & !m <= 0x07,
        a <= 7 && b <= 7 && c <= 7 && d <= 7 ==> (a | b | c | d) <= 7,
        m == 0x01 || m == 0x02 || m == 0x04 ==> (a | m) & m != 0,
        (a & !m) & m == 0,
        m == 0x01 ==> (a | m) & 0x02 == a & 0x02 && (a | m) & 0x04 == a & 0x04
            && (a & !m) & 0x02 == a & 0x02 && (a & !m) & 0x04 == a & 0x04,
        m == 0x02 ==> (a | m) & 0x01 == a & 0x01 && (a | m) & 0x04 == a & 0x04
            && (a & !m) & 0x01 == a & 0x01 && (a & !m) & 0x04 == a & 0x04,
        m == 0x04 ==> (a | m) & 0x01 == a & 0x01 && (a | m) & 0x02 == a & 0x02
            && (a & !m) & 0x01 == a & 0x01 && (a & !m) & 0x02 == a & 0x02,
        0u8 & m == 0,
{
}

/// A line of a mask after one line of it was pulled or let go: the named line
/// follows, the others stay.
pub proof fn lemma_mask_with(mask: u8, l: Line, pulling: bool, other: Line)
    ensures
        (mask_with(mask, l, pulling) & mask_of(other) != 0)
            == (if other == l { pulling } else { mask & mask_of(other) != 0 }),
        mask <= line::ALL ==> mask_with(mask, l, pulling) <= line::ALL,
{
    lemma_masks(mask, 0, 0, 0, mask_of(l));
}

impl Default for Bus {
    fn default() -> (b: Self)
        ensures
            forall|d: int| 0 <= d < MAX_DEVICES ==> b.pulls[d] == 0,
    {
        // Power-on: nobody pulls anything, so all three lines float high.
        Bus { pulls: [0; MAX_DEVICES] }
    }
}

impl Bus {
    /// A fresh, idle bus: all three lines released (high).
    pub fn new() -> (b: Self)
        ensures
            forall|d: int| 0 <= d < MAX_DEVICES ==> b.pulls[d] == 0,
            forall|l: Line| line_high(b, l),
            bus_sound(b),
    {
        let b = Self::default();
        assert forall|l: Line| line_high(b, l) by {
            lemma_masks(0, 0, 0, 0, mask_of(l));
        }
        b
    }

    /// The set of lines *somebody* is pulling low.
    pub fn pulled_mask(&self) -> (m: u8)
        ensures
            m == self.pulls[0] | self.pulls[1] | self.pulls[2] | self.pulls[3],
            forall|l: Line| (m & #[trigger] mask_of(l) == 0) == line_high(*self, l),
            bus_sound(*self) ==> m <= line::ALL,
    {
        let m = self.pulls[0] | self.pulls[1] | self.pulls[2] | self.pulls[3];
        proof {
            let (a, b, c, d) = (self.pulls[0], self.pulls[1], self.pulls[2], self.pulls[3]);
            lemma_masks(a, b, c, d, 0);
            assert forall|l: Line| (m & #[trigger] mask_of(l) == 0) == line_high(*self, l) by {
                lemma_masks(a, b, c, d, mask_of(l));
                assert(line_high(*self, l) ==> !pulls_line(*self, 0, l) && !pulls_line(*self, 1, l)
                    && !pulls_line(*self, 2, l) && !pulls_line(*self, 3, l));
            }
        }
        m
    }

    /// Is `line` released, i.e. **high**, because no device is pulling it?
    pub fn released(&self, line: Line) -> (b: bool)
        ensures
            b == line_high(*self, line),
    {
        self.pulled_mask() & line.mask() == 0
    }

    /// Is `line` pulled **low** by at least one device?
    pub fn pulled_low(&self, line: Line) -> (b: bool)
        ensures
            b == !line_high(*self, line),
    {
        !self.released(line)
    }

    /// ATN level: `true` = high (released), `false` = low.
    pub fn atn(&self) -> (b: bool)
        ensures
            b == line_high(*self, Line::Atn),
    {
        self.released(Line::Atn)
    }

    /// CLK level: `true` = high (released), `false` = low.
    pub fn clk(&self) -> (b: bool)
        ensures
            b == line_high(*self, Line::Clk),
    {
        self.released(Line::Clk)
    }

    /// DATA level: `true` = high (released), `false` = low.
    pub fn data(&self) -> (b: bool)
        ensures
            b == line_high(*self, Line::Data),
    {
        self.released(Line::Data)
    }

    /// Replace everything device `dev` is pulling with `mask` (a set of [`line`]
    /// bits). This is what a chip-to-bus adapter calls after its port register
    /// changes: it recomputes the whole opinion in one go.
    ///
    /// Out-of-range slots are ignored: this runs inside a memory-mapped register
    /// write, which is no place for a panic.
    pub fn set_pulls(&mut self, dev: usize, mask: u8)
        ensures
            *final(self) == with_pulls(*old(self), dev as int, mask & line::ALL),
            mask <= line::ALL ==> *final(self) == with_pulls(*old(self), dev as int, mask),
            bus_sound(*old(self)) ==> bus_sound(*final(self)),
    {
        if dev < MAX_DEVICES {
            proof {
                lemma_masks(mask, 0, 0, 0, 0);
            }
            self.pulls[dev] = mask & line::ALL;
        }
    }

    /// Start (`true`) or stop (`false`) pulling a single line low, leaving this
    /// device's other lines alone.
    pub fn pull(&mut self, dev: usize, line: Line, pulling: bool)
        ensures
            *final(self) == with_line(*old(self), dev as int, line, pulling),
            bus_sound(*old(self)) ==> bus_sound(*final(self)),
    {
        if dev >= MAX_DEVICES {
            return;
        }
        proof {
            lemma_mask_with(self.pulls[dev as int], line, pulling, line);
        }
        if pulling {
            self.pulls[dev] = self.pulls[dev] | line.mask();
        } else {
            self.pulls[dev] = self.pulls[dev] & !line.mask();
        }
    }

    /// What device `dev` is currently pulling.
    pub fn pulls_of(&self, dev: usize) -> (m: u8)
        ensures
            m == (if dev < MAX_DEVICES { self.pulls[dev as int] } else { 0 }),
    {
        if dev < MAX_DEVICES {
            self.pulls[dev]
        } else {
            0
        }
    }

    /// Let go of every line this device holds: a device reset, or one dropping
    /// off the chain.
    pub fn release_all(&mut self, dev: usize)
        ensures
            *final(self) == with_pulls(*old(self), dev as int, 0),
            bus_sound(*old(self)) ==> bus_sound(*final(self)),
    {
        proof {
            lemma_masks(0x07, 0, 0, 0, 0x07);
        }
        self.set_pulls(dev, 0);
    }
}

// ---- what holds of the bus ----

/// One device pulling is enough to take a line low.
pub proof fn law_one_pull_takes_a_line_low(b: Bus, d: int, l: Line)
    requires
        0 <= d < MAX_DEVICES,
    ensures
        !line_high(with_line(b, d, l, true), l),
{
    lemma_mask_with(b.pulls[d], l, true, l);
    assert(pulls_line(with_line(b, d, l, true), d, l));
}

/// Letting go does not raise a line that somebody else still pulls, and raises
/// it otherwise.
pub proof fn law_line_rises_when_all_let_go(b: Bus, d: int, l: Line)
    requires
        0 <= d < MAX_DEVICES,
    ensures
        line_high(with_line(b, d, l, false), l)
            == (forall|e: int| 0 <= e < MAX_DEVICES && e != d ==> !pulls_line(b, e, l)),
{
    lemma_mask_with(b.pulls[d], l, false, l);
    let w = with_line(b, d, l, false);
    assert(!pulls_line(w, d, l));
    assert forall|e: int| 0 <= e < MAX_DEVICES && e != d
        implies pulls_line(w, e, l) == pulls_line(b, e, l) by {}
}

/// Pulling or releasing one line never disturbs another.
pub proof fn law_lines_are_independent(b: Bus, d: int, l: Line, pulling: bool, other: Line)
    requires
        other != l,
    ensures
        line_high(with_line(b, d, l, pulling), other) == line_high(b, other),
{
    lemma_mask_with(b.pulls[d], l, pulling, other);
    let w = with_line(b, d, l, pulling);
    assert forall|e: int| 0 <= e < MAX_DEVICES
        implies pulls_line(w, e, other) == pulls_line(b, e, other) by {}
}

/// A device's opinion is its own: changing it leaves every other slot alone.
pub proof fn law_slots_are_independent(b: Bus, d: int, mask: u8, e: int)
    requires
        0 <= e < MAX_DEVICES,
        e != d,
    ensures
        with_pulls(b, d, mask).pulls[e] == b.pulls[e],
{
}

} // verus!
