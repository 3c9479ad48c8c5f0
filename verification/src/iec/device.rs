//! A peripheral on the serial bus, as a state machine.
//!
//! This is the other half of the conversation the KERNAL's `$ED40` (send) and
//! `$EE13` (receive) routines have. It is not a 1541: there is no drive CPU, no
//! DOS, no read head here. It is the *protocol*: something that answers to a
//! device number, understands LISTEN/TALK/OPEN/CLOSE, and clocks bytes in and
//! out one line-transition at a time. Where the bytes come from is somebody
//! else's problem, expressed as the [`Storage`] trait.
//!
//! Three rules carry almost all of the protocol:
//!
//! 1. **`DATA` high means a one.** `$ED73`: the KERNAL rotates the byte and
//!    branches to DATAHI (release) on a set bit, DATALO (pull) on a clear one.
//! 2. **A bit is read on the `CLK` rising edge.** The talker puts the bit on
//!    `DATA`, *then* releases `CLK` (`$ED7D`); the listener spins until `CLK`
//!    goes high and samples `DATA` right there (`$EE62`-`$EE65`).
//! 3. **A listener holds `DATA` low when it is not ready.** That single
//!    convention does three jobs: it acknowledges attention, it acknowledges
//!    each received byte (`$EDA6`), and, because a bus with nobody on it has
//!    `DATA` floating high, it *is* the "device present" signal.
//!
//! The one odd corner is **EOI**, the way a talker says "this is the last
//! byte": instead of pulling `CLK` low to start the byte, it waits. The listener
//! times that gap and treats the timeout as end-of-file, answering with a brief
//! `DATA`-low pulse before receiving the final byte normally.

use vstd::prelude::*;
use crate::iec::{Bus, Line};

verus! {

/// Where a device's bytes come from.
///
/// Deliberately tiny and byte-at-a-time: a source can be a disk image, a
/// directory listing synthesised on the fly, or a test fixture. What each call
/// does is a function on the storage's model; of a storage that leaves these
/// functions out, nothing is known.
pub trait Storage {
    /// What the storage holds, and where its channels stand.
    type Model;

    open spec fn model(&self) -> Self::Model {
        arbitrary()
    }

    /// The states in which the storage can be used.
    open spec fn usable(m: Self::Model) -> bool {
        arbitrary()
    }

    /// Can this name be opened on this channel? (A name that is not there can:
    /// the answer is no.)
    open spec fn openable(m: Self::Model, channel: u8, name: Seq<u8>) -> bool {
        arbitrary()
    }

    open spec fn after_open(m: Self::Model, channel: u8, name: Seq<u8>) -> (Self::Model, bool) {
        arbitrary()
    }

    open spec fn after_read(m: Self::Model, channel: u8) -> (Self::Model, Option<u8>) {
        arbitrary()
    }

    open spec fn after_write(m: Self::Model, channel: u8, byte: u8) -> Self::Model {
        arbitrary()
    }

    open spec fn after_close(m: Self::Model, channel: u8) -> Self::Model {
        arbitrary()
    }

    /// Open `name` on `channel` (the secondary address). `false` means "no such
    /// file": the device then has nothing to send.
    fn open(&mut self, channel: u8, name: &[u8]) -> (ok: bool)
        requires
            Self::usable(old(self).model()),
            Self::openable(old(self).model(), channel, name@),
        ensures
            (final(self).model(), ok) == Self::after_open(old(self).model(), channel, name@),
            Self::usable(final(self).model()),
    ;

    /// The next byte of `channel`, or `None` at end of file.
    fn read(&mut self, channel: u8) -> (b: Option<u8>)
        requires
            Self::usable(old(self).model()),
        ensures
            (final(self).model(), b) == Self::after_read(old(self).model(), channel),
            Self::usable(final(self).model()),
    ;

    /// A byte sent *to* the device on `channel` (a SAVE).
    fn write(&mut self, channel: u8, byte: u8)
        requires
            Self::usable(old(self).model()),
        ensures
            final(self).model() == Self::after_write(old(self).model(), channel, byte),
            Self::usable(final(self).model()),
    ;

    /// Close `channel`.
    fn close(&mut self, channel: u8)
        requires
            Self::usable(old(self).model()),
        ensures
            final(self).model() == Self::after_close(old(self).model(), channel),
            Self::usable(final(self).model()),
    ;
}

/// The device number a 1541 answers to out of the box.
pub const DEFAULT_ADDRESS: u8 = 8;

/// The longest filename we will buffer (a CBM name is 16 characters, but a
/// LOAD can carry options and `$` patterns, so leave room).
pub const NAME_MAX: usize = 40;

// Timing. One PAL C64 cycle is 1.0150 us, near enough to call these numbers
// microseconds. Everything here is a *floor*: each pulse must outlast the
// KERNAL's polling loop and the EOI stall must outlast the KERNAL's timer.

/// How long to hold a level before changing another line. The KERNAL polls the
/// bus with `LDA $DD00; CMP $DD00; BNE; ASL`, about 13 cycles, so anything
/// this side of ~15 is at risk of being blinked through. 20 is comfortable.
pub const SETTLE: u32 = 20;

/// How long `CLK` stays high with a valid bit on `DATA`. Same reasoning as
/// [`SETTLE`], with more margin because missing a bit desynchronises the byte.
pub const BIT_HOLD: u32 = 40;

/// The EOI stall: how long a talker sits on its hands to mean "last byte".
/// Must comfortably exceed the listener's timeout: CIA1 Timer B is loaded with
/// `$01xx` at `$EE20`, so ~256-511 us.
pub const EOI_STALL: u32 = 700;

/// How long a listener holds `DATA` low to acknowledge an EOI it detected.
pub const EOI_ACK_HOLD: u32 = 60;

/// A listener that has not acknowledged a byte in this long has gone away.
pub const ACK_TIMEOUT: u32 = 4000;

/// How long a freshly turned-around talker holds `CLK` low before it is ready
/// to send.
///
/// After TKSA the KERNAL releases ATN and then waits to see `CLK` pulled
/// **low**: that is how it knows the device has taken over as talker. Release
/// `CLK` again before the KERNAL gets there and it waits forever, while the
/// device waits for the `DATA` release that only comes *after* that loop. Hold
/// long enough to be unmissable.
pub const TURNAROUND_HOLD: u32 = 400;

/// How long a *listener* waits for `CLK` to go low before calling it EOI. The
/// mirror of [`EOI_STALL`], and the same role CIA1 Timer B plays for the C64.
pub const RX_EOI_TIMEOUT: u32 = 400;

/// What the controller has told this device to be.
#[derive(Debug, Clone, Copy, PartialEq, Eq, Structural)]
pub enum Role {
    /// Not addressed: keep off the bus entirely.
    Unaddressed,
    /// Addressed to LISTEN: bytes are coming to us.
    Listener,
    /// Addressed to TALK: we send, once ATN is released.
    Talker,
}

/// Where we are in the current line-level handshake.
#[derive(Debug, Clone, Copy, PartialEq, Eq, Structural)]
pub enum State {
    /// Off the bus, nothing to do.
    Idle,

    // -- receiving --
    /// Attention acknowledged, `DATA` held low, waiting for the controller to
    /// pull `CLK` low. Only after that does a released `CLK` mean "ready to
    /// send".
    RxWaitClkStart,
    /// Holding `DATA` low ("here, and not ready"). When the talker releases
    /// `CLK` it is ready to send, and we answer by releasing `DATA`.
    RxWaitClkHigh,
    /// `DATA` released. Waiting for `CLK` to go low, which starts the byte, or
    /// for [`RX_EOI_TIMEOUT`] to pass, which means EOI.
    RxWaitClkLow,
    /// Pulsing `DATA` low to acknowledge an EOI.
    RxEoiAck,
    /// Waiting for the `CLK` rising edge that makes the next bit valid.
    RxBitWaitHigh,
    /// Bit taken; waiting for `CLK` to fall again.
    RxBitWaitLow,

    // -- sending --
    /// Just turned around: claim the bus as talker by pulling `CLK` low.
    TxTurnaround,
    /// Release `CLK` ("ready to send") and wait for the listener to release
    /// `DATA` ("ready for data").
    TxReady,
    /// The EOI stall: say "last byte" by doing nothing, conspicuously.
    TxEoiStall,
    /// The listener pulsed `DATA` low to acknowledge EOI; wait for it to let go.
    TxEoiAckRelease,
    /// Pull `CLK` low to open the byte.
    TxStartByte,
    /// Put the current bit on `DATA`, then release `CLK`.
    TxBitSet,
    /// `CLK` high with the bit valid; hold, then close the bit.
    TxBitHold,
    /// All eight bits gone; wait for the listener to pull `DATA` low.
    TxWaitAck,
    /// Nothing left to send. `CLK` released so a listener's wait ends in a
    /// clean timeout rather than a hang.
    TxDone,
}

/// A virtual peripheral on the serial bus.
///
/// Clock it once per CPU cycle with [`Device::tick`], alongside whatever else
/// the machine clocks. It only ever touches its own slot on the [`Bus`], so the
/// wired-OR resolution does the arbitration for free.
pub struct Device {
    pub address: u8,
    pub slot: usize,
    pub role: Role,
    pub state: State,
    /// Cycles spent in the current state.
    pub timer: u32,

    // Edge detection.
    pub prev_atn: bool,
    /// True while ATN is asserted, so a received byte is a command.
    pub under_atn: bool,

    // Byte in flight.
    pub bit: u8,
    pub shift: u8,
    /// Did the last byte that came in carry EOI?
    pub rx_eoi: bool,
    /// Was there an EOI before the byte in flight? Also a guard, so that one
    /// stall is only ever read as one EOI.
    pub rx_eoi_done: bool,

    /// Secondary address (channel) of the current command.
    pub channel: u8,
    /// Channel an OPEN is collecting a name for.
    pub opening: Option<u8>,
    pub name: [u8; NAME_MAX],
    pub name_len: usize,

    /// One-byte lookahead, so we know which byte is the last one and can flag
    /// EOI *before* sending it.
    pub lookahead: Option<u8>,
    pub tx_eoi: bool,
}

// ---- the protocol, as a function ----

/// A device, the bus it sits on, and what its storage holds.
pub struct Link<M> {
    pub dev: Device,
    pub bus: Bus,
    pub store: M,
}

/// The states in which a byte is on its way and has bits left.
pub open spec fn mid_byte(s: State) -> bool {
    s == State::RxBitWaitHigh || s == State::TxEoiStall || s == State::TxEoiAckRelease
        || s == State::TxStartByte || s == State::TxBitSet || s == State::TxBitHold
}

/// What every reachable device keeps: the name fits its buffer, and the bit
/// counter never runs past the byte.
pub open spec fn device_sound(d: Device) -> bool {
    &&& d.name_len <= NAME_MAX
    &&& mid_byte(d.state) ==> d.bit < 8
    &&& d.state == State::RxBitWaitLow ==> d.bit <= 8
}

/// The name collected so far.
pub open spec fn collected_name(d: Device) -> Seq<u8> {
    d.name@.subrange(0, d.name_len as int)
}

/// The device on entering a state: its clock starts over.
pub open spec fn entered(d: Device, state: State) -> Device {
    Device { state, timer: 0, ..d }
}

pub open spec fn entering<M>(l: Link<M>, state: State) -> Link<M> {
    Link { dev: entered(l.dev, state), ..l }
}

/// The device pulls a line, or lets it go.
pub open spec fn pulling<M>(l: Link<M>, which: Line, low: bool) -> Link<M> {
    Link { bus: crate::iec::with_line(l.bus, l.dev.slot as int, which, low), ..l }
}

/// ATN went low. Every device on the chain answers by pulling `DATA` low,
/// addressed or not, and any transfer in progress is abandoned.
pub open spec fn after_attention<M>(l: Link<M>) -> Link<M> {
    let p = pulling(pulling(l, Line::Clk, false), Line::Data, true);
    Link {
        dev: entered(Device { under_atn: true, lookahead: None, ..p.dev }, State::RxWaitClkStart),
        ..p
    }
}

/// ATN went high again: a talker fetches its first byte and turns the bus
/// around, a listener waits for data, anyone else gets off the bus.
pub open spec fn after_attention_released<S: Storage>(l: Link<S::Model>) -> Link<S::Model> {
    let d = Device { under_atn: false, ..l.dev };
    match l.dev.role {
        Role::Talker => {
            let (store, byte) = S::after_read(l.store, d.channel);
            Link { dev: entered(Device { lookahead: byte, ..d }, State::TxTurnaround), store, ..l }
        },
        Role::Listener => Link { dev: entered(d, State::RxWaitClkHigh), ..l },
        Role::Unaddressed => entering(
            pulling(pulling(Link { dev: d, ..l }, Line::Clk, false), Line::Data, false),
            State::Idle,
        ),
    }
}

/// A complete data byte arrived: part of a filename while an OPEN is collecting
/// one, else a byte for the storage. A device that does not listen ignores it.
pub open spec fn after_data_byte<S: Storage>(l: Link<S::Model>, byte: u8) -> Link<S::Model> {
    let d = l.dev;
    if d.role != Role::Listener {
        l
    } else if d.opening is None {
        Link { store: S::after_write(l.store, d.channel, byte), ..l }
    } else if d.name_len < NAME_MAX {
        Link {
            dev: Device {
                name: vstd::array::spec_array_update(d.name, d.name_len as int, byte),
                name_len: (d.name_len + 1) as usize,
                ..d
            },
            ..l
        }
    } else {
        l
    }
}

/// A complete command byte arrived (a byte under ATN).
pub open spec fn after_command<S: Storage>(l: Link<S::Model>, byte: u8) -> Link<S::Model> {
    let d = l.dev;
    if byte == 0x3F {
        // UNLISTEN. If a name was being collected, the OPEN completes here.
        let role = if d.role == Role::Listener { Role::Unaddressed } else { d.role };
        match d.opening {
            Some(ch) => Link {
                dev: Device { opening: None, name_len: 0, role, ..d },
                store: S::after_open(l.store, ch, collected_name(d)).0,
                ..l
            },
            None => Link { dev: Device { role, ..d }, ..l },
        }
    } else if byte == 0x5F {
        // UNTALK.
        let role = if d.role == Role::Talker { Role::Unaddressed } else { d.role };
        Link { dev: Device { role, ..d }, ..l }
    } else if 0x20 <= byte <= 0x3E {
        // LISTEN <device>.
        let role = if byte % 32 == d.address { Role::Listener } else { Role::Unaddressed };
        Link { dev: Device { role, ..d }, ..l }
    } else if 0x40 <= byte <= 0x5E {
        // TALK <device>.
        let role = if byte % 32 == d.address { Role::Talker } else { Role::Unaddressed };
        Link { dev: Device { role, ..d }, ..l }
    } else if 0x60 <= byte <= 0x6F {
        // Secondary address: an existing channel for data.
        Link { dev: Device { channel: byte % 16, ..d }, ..l }
    } else if 0xE0 <= byte <= 0xEF {
        // CLOSE a channel.
        Link {
            dev: Device { channel: byte % 16, opening: None, name_len: 0, ..d },
            store: S::after_close(l.store, byte % 16),
            ..l
        }
    } else if 0xF0 <= byte {
        // OPEN a channel: the filename follows once ATN is released.
        Link {
            dev: Device { channel: byte % 16, opening: Some(byte % 16), name_len: 0, ..d },
            ..l
        }
    } else {
        l
    }
}

/// A complete byte arrived. Under ATN it is a command; otherwise it is data.
pub open spec fn after_byte<S: Storage>(l: Link<S::Model>, byte: u8) -> Link<S::Model> {
    if l.dev.under_atn { after_command::<S>(l, byte) } else { after_data_byte::<S>(l, byte) }
}

/// The last bit of a byte has been clocked in: acknowledge it, and note whether
/// the byte came with EOI.
pub open spec fn byte_taken<M>(l: Link<M>) -> Link<M> {
    let p = pulling(l, Line::Data, true);
    Link {
        dev: entered(Device { rx_eoi: l.dev.rx_eoi_done, ..l.dev }, State::RxWaitClkHigh),
        ..p
    }
}

/// One cycle of receiving, with the line levels as they were at its start.
pub open spec fn receiving<S: Storage>(l: Link<S::Model>, clk: bool, data: bool) -> Link<S::Model> {
    let d = l.dev;
    match d.state {
        State::RxWaitClkStart => if clk { l } else { entering(l, State::RxWaitClkHigh) },
        State::RxWaitClkHigh => if clk {
            // Talker is ready. Say we are too, by letting DATA go.
            let p = pulling(l, Line::Data, false);
            Link { dev: entered(Device { rx_eoi_done: false, ..d }, State::RxWaitClkLow), ..p }
        } else {
            l
        },
        State::RxWaitClkLow => if !clk {
            Link { dev: entered(Device { bit: 0, shift: 0, ..d }, State::RxBitWaitHigh), ..l }
        } else if d.timer > RX_EOI_TIMEOUT && !d.rx_eoi_done {
            // The talker is stalling: that is EOI. Acknowledge it.
            let p = pulling(l, Line::Data, true);
            Link {
                dev: entered(Device { rx_eoi_done: true, ..d }, State::RxEoiAck),
                ..p
            }
        } else {
            l
        },
        State::RxEoiAck => if d.timer >= EOI_ACK_HOLD {
            entering(pulling(l, Line::Data, false), State::RxWaitClkLow)
        } else {
            l
        },
        State::RxBitWaitHigh => if clk {
            // Rising edge: DATA is valid now, least-significant bit first.
            Link {
                dev: entered(
                    Device {
                        shift: (d.shift / 2 + (if data { 128int } else { 0 })) as u8,
                        bit: (d.bit + 1) as u8,
                        ..d
                    },
                    State::RxBitWaitLow,
                ),
                ..l
            }
        } else {
            l
        },
        State::RxBitWaitLow => if clk {
            l
        } else if d.bit >= 8 {
            // Acknowledge the frame, note whether it was the last one, act on it.
            after_byte::<S>(byte_taken(l), d.shift)
        } else {
            entering(l, State::RxBitWaitHigh)
        },
        _ => l,
    }
}

/// One cycle of sending, with the line levels as they were at its start.
pub open spec fn sending<S: Storage>(l: Link<S::Model>, clk: bool, data: bool) -> Link<S::Model> {
    let d = l.dev;
    match d.state {
        State::TxTurnaround => {
            let p = pulling(pulling(l, Line::Clk, true), Line::Data, false);
            if d.timer >= TURNAROUND_HOLD { entering(p, State::TxReady) } else { p }
        },
        State::TxReady => {
            let p = pulling(l, Line::Clk, false);
            if !data {
                p
            } else {
                // Listener has released DATA: it is ready for a byte.
                match d.lookahead {
                    None => entering(p, State::TxDone),
                    Some(byte) => {
                        let (store, next) = S::after_read(l.store, d.channel);
                        Link {
                            dev: entered(
                                Device {
                                    shift: byte, lookahead: next, tx_eoi: next is None, bit: 0, ..d
                                },
                                if next is None { State::TxEoiStall } else { State::TxStartByte },
                            ),
                            store,
                            ..p
                        }
                    },
                }
            }
        },
        State::TxEoiStall => if !data {
            // The listener noticed and is pulsing DATA low.
            entering(l, State::TxEoiAckRelease)
        } else if d.timer > EOI_STALL + ACK_TIMEOUT {
            // Listener never acknowledged; send it anyway.
            entering(l, State::TxStartByte)
        } else {
            l
        },
        State::TxEoiAckRelease => if data { entering(l, State::TxStartByte) } else { l },
        State::TxStartByte => {
            let p = pulling(l, Line::Clk, true);
            if d.timer >= SETTLE { entering(p, State::TxBitSet) } else { p }
        },
        State::TxBitSet => {
            // Bit on DATA first (high = 1), CLK released after.
            let p = pulling(l, Line::Data, d.shift % 2 == 0);
            if d.timer >= SETTLE {
                entering(pulling(p, Line::Clk, false), State::TxBitHold)
            } else {
                p
            }
        },
        State::TxBitHold => if d.timer >= BIT_HOLD {
            // Close the bit: CLK low again, and let DATA go so the listener can
            // use it to acknowledge.
            let p = pulling(pulling(l, Line::Clk, true), Line::Data, false);
            Link {
                dev: entered(
                    Device { shift: d.shift / 2, bit: (d.bit + 1) as u8, ..d },
                    if d.bit + 1 >= 8 { State::TxWaitAck } else { State::TxBitSet },
                ),
                ..p
            }
        } else {
            l
        },
        State::TxWaitAck => if !data {
            entering(l, State::TxReady)
        } else if d.timer > ACK_TIMEOUT {
            entering(l, State::TxDone)
        } else {
            l
        },
        _ => l,
    }
}

/// The edge of ATN, if there is one: the controller interrupts whatever was
/// going on, or lets the conversation go on.
pub open spec fn after_atn_edge<S: Storage>(l: Link<S::Model>, atn: bool) -> Link<S::Model> {
    if l.dev.prev_atn && !atn {
        after_attention(l)
    } else if !l.dev.prev_atn && atn {
        after_attention_released::<S>(l)
    } else {
        l
    }
}

/// A device that is done leaves both lines released.
pub open spec fn let_go_when_done<M>(l: Link<M>) -> Link<M> {
    if l.dev.state == State::TxDone {
        pulling(pulling(l, Line::Clk, false), Line::Data, false)
    } else {
        l
    }
}

/// One cycle of the protocol.
pub open spec fn ticked_once<S: Storage>(l: Link<S::Model>) -> Link<S::Model> {
    let atn = crate::iec::line_high(l.bus, Line::Atn);
    let clk = crate::iec::line_high(l.bus, Line::Clk);
    let data = crate::iec::line_high(l.bus, Line::Data);
    let e = after_atn_edge::<S>(l, atn);
    let t = Link {
        dev: Device { prev_atn: atn, timer: e.dev.timer.saturating_add(1), ..e.dev },
        ..e
    };
    let_go_when_done(sending::<S>(receiving::<S>(t, clk, data), clk, data))
}

/// `n` cycles of the protocol.
pub open spec fn ticked<S: Storage>(l: Link<S::Model>, n: nat) -> Link<S::Model>
    decreases n,
{
    if n == 0 { l } else { ticked_once::<S>(ticked::<S>(l, (n - 1) as nat)) }
}

/// What a byte opens, if anything, can be opened.
pub open spec fn may_take<S: Storage>(d: Device, store: S::Model, byte: u8) -> bool {
    d.under_atn && byte == 0x3F ==> (d.opening matches Some(ch)
        ==> S::openable(store, ch, collected_name(d)))
}

/// The channel that the next cycle opens, if it opens one: the last bit of an
/// UNLISTEN has been clocked in behind the name of an OPEN.
pub open spec fn opening_now<M>(l: Link<M>) -> Option<u8> {
    let d = l.dev;
    if d.prev_atn == crate::iec::line_high(l.bus, Line::Atn) && d.state == State::RxBitWaitLow
        && !crate::iec::line_high(l.bus, Line::Clk) && d.bit >= 8 && d.under_atn
        && d.shift == 0x3F {
        d.opening
    } else {
        None
    }
}

/// What the next cycle opens, if anything, can be opened.
pub open spec fn may_tick<S: Storage>(l: Link<S::Model>) -> bool {
    opening_now(l) matches Some(ch) ==> S::openable(l.store, ch, collected_name(l.dev))
}

/// Whatever is opened in the next `n` cycles can be.
pub open spec fn may_run<S: Storage>(l: Link<S::Model>, n: nat) -> bool {
    forall|k: nat| k < n ==> may_tick::<S>(#[trigger] ticked::<S>(l, k))
}

/// The handshake state's name.
pub open spec fn state_name(s: State) -> Seq<char> {
    match s {
        State::Idle => "Idle"@,
        State::RxWaitClkStart => "RxWaitClkStart"@,
        State::RxWaitClkHigh => "RxWaitClkHigh"@,
        State::RxWaitClkLow => "RxWaitClkLow"@,
        State::RxEoiAck => "RxEoiAck"@,
        State::RxBitWaitHigh => "RxBitWaitHigh"@,
        State::RxBitWaitLow => "RxBitWaitLow"@,
        State::TxTurnaround => "TxTurnaround"@,
        State::TxReady => "TxReady"@,
        State::TxEoiStall => "TxEoiStall"@,
        State::TxEoiAckRelease => "TxEoiAckRelease"@,
        State::TxStartByte => "TxStartByte"@,
        State::TxBitSet => "TxBitSet"@,
        State::TxBitHold => "TxBitHold"@,
        State::TxWaitAck => "TxWaitAck"@,
        State::TxDone => "TxDone"@,
    }
}

/// The role's name.
pub open spec fn role_name(r: Role) -> Seq<char> {
    match r {
        Role::Unaddressed => "unaddressed"@,
        Role::Listener => "listener"@,
        Role::Talker => "talker"@,
    }
}

/// A device fresh out of its box: unaddressed, off the bus, no name collected.
pub open spec fn fresh(d: Device, address: u8, slot: usize) -> bool {
    &&& d.address == address && d.slot == slot
    &&& d.role == Role::Unaddressed && d.state == State::Idle && d.timer == 0
    &&& d.prev_atn && !d.under_atn
    &&& d.bit == 0 && d.shift == 0 && !d.rx_eoi && !d.rx_eoi_done
    &&& d.channel == 0 && d.opening is None && d.name_len == 0
    &&& forall|k: int| 0 <= k < NAME_MAX ==> d.name[k] == 0
    &&& d.lookahead is None && !d.tx_eoi
}

/// Device, bus and storage as one value.
pub open spec fn link<S: Storage>(dev: Device, bus: Bus, store: S) -> Link<S::Model> {
    Link { dev, bus, store: store.model() }
}

impl Device {
    /// A device answering to `address` (8 for the first drive), occupying `slot`
    /// on the bus. Use any slot but [`crate::iec::CONTROLLER`].
    pub fn new(address: u8, slot: usize) -> (d: Self)
        ensures
            fresh(d, address, slot),
            device_sound(d),
    {
        Device {
            address,
            slot,
            role: Role::Unaddressed,
            state: State::Idle,
            timer: 0,
            prev_atn: true,
            under_atn: false,
            bit: 0,
            shift: 0,
            rx_eoi: false,
            rx_eoi_done: false,
            channel: 0,
            opening: None,
            name: [0; NAME_MAX],
            name_len: 0,
            lookahead: None,
            tx_eoi: false,
        }
    }

    /// The device number this answers to.
    pub fn address(&self) -> (a: u8)
        ensures
            a == self.address,
    {
        self.address
    }

    /// True while the controller has this device addressed to talk or listen.
    pub fn is_addressed(&self) -> (b: bool)
        ensures
            b == (self.role != Role::Unaddressed),
    {
        self.role != Role::Unaddressed
    }

    /// Advance by `cycles`, in single-cycle steps.
    ///
    /// The handshake is all edges, and an edge that is set and cleared inside
    /// one batch is an edge that never happened, so this never coarsens the
    /// step.
    pub fn tick<S: Storage>(&mut self, bus: &mut Bus, storage: &mut S, cycles: u32)
        requires
            device_sound(*old(self)),
            S::usable(old(storage).model()),
            may_run::<S>(link(*old(self), *old(bus), *old(storage)), cycles as nat),
        ensures
            link(*final(self), *final(bus), *final(storage))
                == ticked::<S>(link(*old(self), *old(bus), *old(storage)), cycles as nat),
            device_sound(*final(self)),
            S::usable(final(storage).model()),
    {
        let mut k: u32 = 0;
        while k < cycles
            invariant
                k <= cycles,
                may_run::<S>(link(*old(self), *old(bus), *old(storage)), cycles as nat),
                link(*self, *bus, *storage)
                    == ticked::<S>(link(*old(self), *old(bus), *old(storage)), k as nat),
                device_sound(*self),
                S::usable(storage.model()),
            decreases cycles - k,
        {
            self.tick_one(bus, storage);
            k += 1;
        }
    }

    fn tick_one<S: Storage>(&mut self, bus: &mut Bus, storage: &mut S)
        requires
            device_sound(*old(self)),
            S::usable(old(storage).model()),
            may_tick::<S>(link(*old(self), *old(bus), *old(storage))),
        ensures
            link(*final(self), *final(bus), *final(storage))
                == ticked_once::<S>(link(*old(self), *old(bus), *old(storage))),
            device_sound(*final(self)),
            S::usable(final(storage).model()),
    {
        let atn = bus.atn();
        let clk = bus.clk();
        let data = bus.data();

        // ATN is the controller interrupting whatever was going on. On a real
        // 1541 this is wired to VIA1's CA1 and raises an interrupt; the DATA
        // acknowledge is done in hardware, which is why it looks instant here.
        if self.prev_atn && !atn {
            self.attention(bus);
        } else if !self.prev_atn && atn {
            self.attention_released(bus, storage);
        }
        self.prev_atn = atn;
        self.timer = self.timer.saturating_add(1);

        self.receive(bus, storage, clk, data);
        self.send(bus, storage, clk, data);

        if self.state == State::TxDone {
            // Leave CLK released: a listener still waiting then ends in the
            // KERNAL's clean timeout path rather than spinning forever.
            self.pull(bus, Line::Clk, false);
            self.pull(bus, Line::Data, false);
        }
    }

    fn pull(&self, bus: &mut Bus, line: Line, low: bool)
        ensures
            *final(bus) == crate::iec::with_line(*old(bus), self.slot as int, line, low),
    {
        bus.pull(self.slot, line, low);
    }

    fn enter(&mut self, state: State)
        ensures
            *final(self) == entered(*old(self), state),
    {
        self.state = state;
        self.timer = 0;
    }

    /// ATN went low.
    fn attention(&mut self, bus: &mut Bus)
        requires
            device_sound(*old(self)),
        ensures
            *final(self) == after_attention(
                Link { dev: *old(self), bus: *old(bus), store: () }).dev,
            *final(bus) == after_attention(
                Link { dev: *old(self), bus: *old(bus), store: () }).bus,
            device_sound(*final(self)),
    {
        self.under_atn = true;
        self.pull(bus, Line::Clk, false);
        self.pull(bus, Line::Data, true);
        self.lookahead = None;
        self.enter(State::RxWaitClkStart);
    }

    /// ATN went high again: act on whatever we were told.
    fn attention_released<S: Storage>(&mut self, bus: &mut Bus, storage: &mut S)
        requires
            device_sound(*old(self)),
            S::usable(old(storage).model()),
        ensures
            link(*final(self), *final(bus), *final(storage))
                == after_attention_released::<S>(link(*old(self), *old(bus), *old(storage))),
            device_sound(*final(self)),
            S::usable(final(storage).model()),
    {
        self.under_atn = false;
        match self.role {
            // Turn the bus around and start talking.
            Role::Talker => {
                self.lookahead = storage.read(self.channel);
                self.enter(State::TxTurnaround);
            },
            // Stay a listener: keep holding DATA low and wait for data bytes.
            Role::Listener => self.enter(State::RxWaitClkHigh),
            // Not our conversation: get off the bus.
            Role::Unaddressed => {
                self.pull(bus, Line::Clk, false);
                self.pull(bus, Line::Data, false);
                self.enter(State::Idle);
            },
        }
    }

    /// The receiving half of a cycle.
    fn receive<S: Storage>(&mut self, bus: &mut Bus, storage: &mut S, clk: bool, data: bool)
        requires
            device_sound(*old(self)),
            S::usable(old(storage).model()),
            old(self).state == State::RxBitWaitLow && !clk && old(self).bit >= 8
                ==> may_take::<S>(*old(self), old(storage).model(), old(self).shift),
        ensures
            link(*final(self), *final(bus), *final(storage))
                == receiving::<S>(link(*old(self), *old(bus), *old(storage)), clk, data),
            device_sound(*final(self)),
            S::usable(final(storage).model()),
    {
        match self.state {
            State::RxWaitClkStart => {
                if !clk {
                    self.enter(State::RxWaitClkHigh);
                }
            },
            State::RxWaitClkHigh => {
                if clk {
                    // Talker is ready. Say we are too, by letting DATA go.
                    self.pull(bus, Line::Data, false);
                    self.enter(State::RxWaitClkLow);
                    self.rx_eoi_done = false;
                }
            },
            State::RxWaitClkLow => {
                if !clk {
                    self.bit = 0;
                    self.shift = 0;
                    self.enter(State::RxBitWaitHigh);
                } else if self.timer > RX_EOI_TIMEOUT && !self.rx_eoi_done {
                    // The talker is stalling: that is EOI. Acknowledge it.
                    self.rx_eoi_done = true;
                    self.pull(bus, Line::Data, true);
                    self.enter(State::RxEoiAck);
                }
            },
            State::RxEoiAck => {
                if self.timer >= EOI_ACK_HOLD {
                    self.pull(bus, Line::Data, false);
                    self.enter(State::RxWaitClkLow);
                }
            },
            State::RxBitWaitHigh => {
                if clk {
                    // Rising edge: DATA is valid *now*. High is a one, and the
                    // byte arrives least-significant bit first.
                    self.shift = self.shift / 2 + (if data { 0x80 } else { 0 });
                    self.bit += 1;
                    self.enter(State::RxBitWaitLow);
                }
            },
            State::RxBitWaitLow => {
                if !clk {
                    if self.bit >= 8 {
                        // Acknowledge the frame, then act on it.
                        self.pull(bus, Line::Data, true);
                        let byte = self.shift;
                        self.rx_eoi = self.rx_eoi_done;
                        self.enter(State::RxWaitClkHigh);
                        let ghost before = link(*self, *bus, *storage);
                        self.byte_received(storage, byte);
                        assert(link(*self, *bus, *storage) == after_byte::<S>(before, byte));
                    } else {
                        self.enter(State::RxBitWaitHigh);
                    }
                }
            },
            _ => {},
        }
    }

    /// The sending half of a cycle.
    fn send<S: Storage>(&mut self, bus: &mut Bus, storage: &mut S, clk: bool, data: bool)
        requires
            device_sound(*old(self)),
            S::usable(old(storage).model()),
        ensures
            link(*final(self), *final(bus), *final(storage))
                == sending::<S>(link(*old(self), *old(bus), *old(storage)), clk, data),
            device_sound(*final(self)),
            S::usable(final(storage).model()),
    {
        match self.state {
            State::TxTurnaround => {
                self.pull(bus, Line::Clk, true);
                self.pull(bus, Line::Data, false);
                if self.timer >= TURNAROUND_HOLD {
                    self.enter(State::TxReady);
                }
            },
            State::TxReady => {
                self.pull(bus, Line::Clk, false); // "ready to send"
                if data {
                    // Listener has released DATA: it is ready for a byte.
                    match self.lookahead {
                        None => self.enter(State::TxDone),
                        Some(byte) => {
                            self.shift = byte;
                            self.lookahead = storage.read(self.channel);
                            self.tx_eoi = self.lookahead.is_none();
                            self.bit = 0;
                            self.enter(if self.tx_eoi {
                                State::TxEoiStall
                            } else {
                                State::TxStartByte
                            });
                        },
                    }
                }
            },
            State::TxEoiStall => {
                // Saying "last byte" by not saying anything for long enough.
                if !data {
                    // The listener noticed and is pulsing DATA low.
                    self.enter(State::TxEoiAckRelease);
                } else if self.timer > EOI_STALL + ACK_TIMEOUT {
                    // Listener never acknowledged; send it anyway.
                    self.enter(State::TxStartByte);
                }
            },
            State::TxEoiAckRelease => {
                if data {
                    self.enter(State::TxStartByte);
                }
            },
            State::TxStartByte => {
                self.pull(bus, Line::Clk, true);
                if self.timer >= SETTLE {
                    self.enter(State::TxBitSet);
                }
            },
            State::TxBitSet => {
                // Bit on DATA first (high = 1), CLK released after: the
                // listener is watching for that rising edge.
                self.pull(bus, Line::Data, self.shift % 2 == 0);
                if self.timer >= SETTLE {
                    self.pull(bus, Line::Clk, false);
                    self.enter(State::TxBitHold);
                }
            },
            State::TxBitHold => {
                if self.timer >= BIT_HOLD {
                    // Close the bit: CLK low again, and let DATA go so the
                    // listener can use it to acknowledge.
                    self.pull(bus, Line::Clk, true);
                    self.pull(bus, Line::Data, false);
                    self.shift = self.shift / 2;
                    self.bit += 1;
                    self.enter(if self.bit >= 8 { State::TxWaitAck } else { State::TxBitSet });
                }
            },
            State::TxWaitAck => {
                if !data {
                    self.enter(State::TxReady); // acknowledged; next byte
                } else if self.timer > ACK_TIMEOUT {
                    self.enter(State::TxDone);
                }
            },
            _ => {},
        }
    }

    /// A complete byte arrived. Under ATN it is a command; otherwise it is data.
    ///
    /// An unaddressed device does not get off the bus here: while ATN is
    /// asserted every device on the chain keeps receiving and acknowledging
    /// command bytes. Dropping off happens on the ATN *release* edge. This is
    /// why `DEVICE NOT PRESENT` for a missing drive surfaces at the first *data*
    /// byte rather than at the LISTEN.
    pub fn byte_received<S: Storage>(&mut self, storage: &mut S, byte: u8)
        requires
            device_sound(*old(self)),
            S::usable(old(storage).model()),
            may_take::<S>(*old(self), old(storage).model(), byte),
        ensures
            forall|bus: Bus| link(*final(self), bus, *final(storage))
                == #[trigger] after_byte::<S>(link(*old(self), bus, *old(storage)), byte),
            device_sound(*final(self)),
            S::usable(final(storage).model()),
    {
        if !self.under_atn {
            if self.role == Role::Listener {
                if self.opening.is_some() {
                    // Part of a filename.
                    if self.name_len < NAME_MAX {
                        self.name[self.name_len] = byte;
                        self.name_len += 1;
                    }
                } else {
                    storage.write(self.channel, byte);
                }
            }
            return;
        }

        if byte == 0x3F {
            // UNLISTEN. If a name was being collected, the OPEN completes here.
            if let Some(ch) = self.opening {
                self.opening = None;
                storage.open(
                    ch, vstd::slice::slice_subrange(self.name.as_slice(), 0, self.name_len));
                self.name_len = 0;
            }
            if self.role == Role::Listener {
                self.role = Role::Unaddressed;
            }
        } else if byte == 0x5F {
            // UNTALK.
            if self.role == Role::Talker {
                self.role = Role::Unaddressed;
            }
        } else if 0x20 <= byte && byte <= 0x3E {
            // LISTEN <device>.
            self.role = if byte % 32 == self.address { Role::Listener } else { Role::Unaddressed };
        } else if 0x40 <= byte && byte <= 0x5E {
            // TALK <device>.
            self.role = if byte % 32 == self.address { Role::Talker } else { Role::Unaddressed };
        } else if 0x60 <= byte && byte <= 0x6F {
            // Secondary address: open an existing channel for data.
            self.channel = byte % 16;
        } else if 0xE0 <= byte && byte <= 0xEF {
            // CLOSE a channel.
            self.channel = byte % 16;
            storage.close(self.channel);
            self.opening = None;
            self.name_len = 0;
        } else if 0xF0 <= byte {
            // OPEN a channel: the filename follows once ATN is released.
            self.channel = byte % 16;
            self.opening = Some(self.channel);
            self.name_len = 0;
        }
    }

    /// True if the last received byte came with EOI (end of file) flagged.
    pub fn took_eoi(&self) -> (b: bool)
        ensures
            b == self.rx_eoi,
    {
        self.rx_eoi
    }

    /// A short name for the current handshake step, and how long we have been
    /// in it. Purely for debugging: a stalled transfer is almost always "which
    /// line is each side waiting for", and this is how you find out.
    pub fn debug_state(&self) -> (r: (&'static str, u32))
        ensures
            r.0@ == state_name(self.state),
            r.1 == self.timer,
    {
        let name = match self.state {
            State::Idle => "Idle",
            State::RxWaitClkStart => "RxWaitClkStart",
            State::RxWaitClkHigh => "RxWaitClkHigh",
            State::RxWaitClkLow => "RxWaitClkLow",
            State::RxEoiAck => "RxEoiAck",
            State::RxBitWaitHigh => "RxBitWaitHigh",
            State::RxBitWaitLow => "RxBitWaitLow",
            State::TxTurnaround => "TxTurnaround",
            State::TxReady => "TxReady",
            State::TxEoiStall => "TxEoiStall",
            State::TxEoiAckRelease => "TxEoiAckRelease",
            State::TxStartByte => "TxStartByte",
            State::TxBitSet => "TxBitSet",
            State::TxBitHold => "TxBitHold",
            State::TxWaitAck => "TxWaitAck",
            State::TxDone => "TxDone",
        };
        (name, self.timer)
    }

    /// Which role the controller last assigned: `"unaddressed"`, `"listener"`
    /// or `"talker"`. Debugging aid, as above.
    pub fn debug_role(&self) -> (s: &'static str)
        ensures
            s@ == role_name(self.role),
    {
        match self.role {
            Role::Unaddressed => "unaddressed",
            Role::Listener => "listener",
            Role::Talker => "talker",
        }
    }
}

} // verus!
