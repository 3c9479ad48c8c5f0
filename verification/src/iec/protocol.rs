//! The serial protocol, cycle by cycle: what a device does in each of its states, how
//! long it holds a line, and what each command byte means.

use vstd::prelude::*;
use crate::iec::device::{self, Device, Link, Role, State, Storage};
use crate::iec::{self, Bus, Line};

verus! {

/// The level of a line on a link's bus.
pub open spec fn high<M>(l: Link<M>, which: Line) -> bool {
    iec::line_high(l.bus, which)
}

/// Does the device itself pull this line?
pub open spec fn pulled<M>(l: Link<M>, which: Line) -> bool {
    iec::pulls_line(l.bus, l.dev.slot as int, which)
}

/// Attention stays as it is.
pub open spec fn steady<M>(l: Link<M>) -> bool {
    l.dev.slot < 4 && l.dev.prev_atn == high(l, Line::Atn)
}

/// How long the device has been in its state at the end of a cycle.
pub open spec fn age<M>(l: Link<M>) -> int {
    if l.dev.timer == u32::MAX { u32::MAX as int } else { l.dev.timer + 1 }
}

/// The device holds both lines as they were.
pub open spec fn same_lines<M>(a: Link<M>, b: Link<M>) -> bool {
    pulled(a, Line::Clk) == pulled(b, Line::Clk) && pulled(a, Line::Data) == pulled(b, Line::Data)
}

/// A line after the device has pulled one or let it go.
proof fn lemma_line(b: Bus, d: int, l: Line, low: bool, other: Line)
    requires
        0 <= d < 4,
    ensures
        iec::pulls_line(iec::with_line(b, d, l, low), d, other)
            == (if other == l { low } else { iec::pulls_line(b, d, other) }),
{
    iec::lemma_mask_with(b.pulls[d], l, low, other);
}

/// The device's lines after it has pulled one or let it go.
proof fn lemma_pulling<M>(l: Link<M>, which: Line, low: bool)
    requires
        l.dev.slot < 4,
    ensures
        ({
            let p = device::pulling(l, which, low);
            &&& p.dev == l.dev && p.store == l.store
            &&& pulled(p, Line::Clk) == (if which == Line::Clk { low } else { pulled(l, Line::Clk) })
            &&& pulled(p, Line::Data) == (if which == Line::Data { low } else { pulled(l, Line::Data) })
        }),
{
    lemma_line(l.bus, l.dev.slot as int, which, low, Line::Clk);
    lemma_line(l.bus, l.dev.slot as int, which, low, Line::Data);
}

/// A listener lets DATA go when the talker lets CLK go, and waits meanwhile.
pub proof fn law_listener_gets_ready<S: Storage>(l: Link<S::Model>)
    requires
        steady(l),
        l.dev.state == State::RxWaitClkStart || l.dev.state == State::RxWaitClkHigh,
    ensures
        ({
            let u = device::ticked_once::<S>(l);
            let clk = high(l, Line::Clk);
            let d = l.dev;
            &&& d.state == State::RxWaitClkStart ==> same_lines(u, l)
                && u.dev.state == (if clk { State::RxWaitClkStart } else { State::RxWaitClkHigh })
            &&& d.state == State::RxWaitClkHigh && clk ==> u.dev.state == State::RxWaitClkLow
                && !pulled(u, Line::Data) && !u.dev.rx_eoi_done
            &&& d.state == State::RxWaitClkHigh && !clk ==> same_lines(u, l) && u.dev.state == d.state
        }),
{
    let t = aged(l);
    lemma_ready::<S>(l);
    lemma_pulling(t, Line::Data, false);
    lemma_kept::<S>(
        device::receiving::<S>(t, high(l, Line::Clk), high(l, Line::Data)),
        high(l, Line::Clk), high(l, Line::Data));
}

/// A byte begins when CLK is pulled. If that takes more than 400 cycles it is the
/// last one, which the listener confirms by pulling DATA for 60 cycles, once.
pub proof fn law_listener_awaits_a_byte<S: Storage>(l: Link<S::Model>)
    requires
        steady(l),
        l.dev.state == State::RxWaitClkLow || l.dev.state == State::RxEoiAck,
    ensures
        ({
            let u = device::ticked_once::<S>(l);
            let clk = high(l, Line::Clk);
            let d = l.dev;
            &&& d.state == State::RxWaitClkLow && !clk ==> u.dev.state == State::RxBitWaitHigh
                && u.dev.bit == 0 && same_lines(u, l)
            &&& d.state == State::RxWaitClkLow && clk && !d.rx_eoi_done && age(l) > 400
                ==> u.dev.state == State::RxEoiAck && pulled(u, Line::Data) && u.dev.rx_eoi_done
            &&& d.state == State::RxWaitClkLow && clk && (d.rx_eoi_done || age(l) <= 400)
                ==> u.dev.state == d.state && same_lines(u, l)
            &&& d.state == State::RxEoiAck && age(l) >= 60
                ==> u.dev.state == State::RxWaitClkLow && !pulled(u, Line::Data)
                    && u.dev.rx_eoi_done == d.rx_eoi_done
            &&& d.state == State::RxEoiAck && age(l) < 60
                ==> u.dev.state == d.state && same_lines(u, l)
        }),
{
    let t = aged(l);
    lemma_ready::<S>(l);
    lemma_pulling(t, Line::Data, false);
    lemma_pulling(t, Line::Data, true);
    lemma_kept::<S>(
        device::receiving::<S>(t, high(l, Line::Clk), high(l, Line::Data)),
        high(l, Line::Clk), high(l, Line::Data));
}

/// Each bit is taken from DATA where CLK comes up, the lowest first, and the next one
/// is waited for when CLK goes down.
pub proof fn law_bits_are_taken<S: Storage>(l: Link<S::Model>)
    requires
        steady(l),
        l.dev.state == State::RxBitWaitHigh || l.dev.state == State::RxBitWaitLow,
        l.dev.bit < 8,
    ensures
        ({
            let u = device::ticked_once::<S>(l);
            let clk = high(l, Line::Clk);
            let d = l.dev;
            &&& same_lines(u, l)
            &&& d.state == State::RxBitWaitHigh && clk ==> {
                &&& u.dev.state == State::RxBitWaitLow
                &&& u.dev.bit == d.bit + 1
                &&& (u.dev.shift >= 128) == high(l, Line::Data)
                &&& u.dev.shift % 128 == d.shift / 2
            }
            &&& d.state == State::RxBitWaitHigh && !clk || d.state == State::RxBitWaitLow && clk
                ==> u.dev.state == d.state
            &&& d.state == State::RxBitWaitLow && !clk ==> u.dev.state == State::RxBitWaitHigh
            &&& !(d.state == State::RxBitWaitHigh && clk)
                ==> u.dev.shift == d.shift && u.dev.bit == d.bit
        }),
{
    lemma_ready::<S>(l);
    lemma_kept::<S>(
        device::receiving::<S>(aged(l), high(l, Line::Clk), high(l, Line::Data)),
        high(l, Line::Clk), high(l, Line::Data));
}

/// A device that is receiving sends nothing.
proof fn lemma_kept<S: Storage>(r: Link<S::Model>, clk: bool, data: bool)
    requires
        r.dev.state == State::RxWaitClkHigh || r.dev.state == State::RxWaitClkLow
            || r.dev.state == State::RxWaitClkStart || r.dev.state == State::RxEoiAck
            || r.dev.state == State::RxBitWaitHigh || r.dev.state == State::RxBitWaitLow,
    ensures
        device::let_go_when_done(device::sending::<S>(r, clk, data)) == r,
{
}

/// A link whose device is a cycle older.
spec fn aged<M>(l: Link<M>) -> Link<M> {
    Link {
        dev: Device {
            prev_atn: high(l, Line::Atn), timer: l.dev.timer.saturating_add(1), ..l.dev
        },
        ..l
    }
}

/// While attention stays as it is, a cycle is one of receiving and one of sending.
proof fn lemma_ready<S: Storage>(l: Link<S::Model>)
    requires
        steady(l),
    ensures
        device::ticked_once::<S>(l) == device::let_go_when_done(device::sending::<S>(
            device::receiving::<S>(aged(l), high(l, Line::Clk), high(l, Line::Data)),
            high(l, Line::Clk), high(l, Line::Data))),
        aged(l).dev.timer == age(l),
{
}

/// The eighth bit is in when CLK falls again: DATA is pulled to confirm the byte, and
/// the byte is what was shifted in.
pub proof fn law_byte_is_taken<S: Storage>(l: Link<S::Model>)
    requires
        steady(l),
        l.dev.state == State::RxBitWaitLow,
        l.dev.bit == 8,
        !high(l, Line::Clk),
    ensures
        ({
            let u = device::ticked_once::<S>(l);
            let taken = device::after_byte::<S>(l, l.dev.shift);
            &&& u.dev.state == State::RxWaitClkHigh
            &&& pulled(u, Line::Data)
            &&& u.dev.rx_eoi == l.dev.rx_eoi_done
            &&& u.store == taken.store
            &&& u.dev.role == taken.dev.role && u.dev.channel == taken.dev.channel
            &&& u.dev.opening == taken.dev.opening && u.dev.name_len == taken.dev.name_len
            &&& u.dev.name == taken.dev.name
        }),
{
    let t = aged(l);
    lemma_ready::<S>(l);
    lemma_pulling(t, Line::Data, true);
    let b = device::byte_taken(t);
    let r = device::after_byte::<S>(b, l.dev.shift);
    assert(r.dev.state == State::RxWaitClkHigh);
    assert(device::let_go_when_done(
        device::sending::<S>(r, false, high(l, Line::Data))) == r);
    assert(device::receiving::<S>(t, false, high(l, Line::Data))
        == device::after_byte::<S>(b, l.dev.shift));
}

/// A fresh talker pulls CLK for 400 cycles, then lets it go and waits for DATA. It
/// reads one byte ahead: behind the last byte there is none, and it says so by
/// waiting. With nothing to send it is done.
pub proof fn law_talker_gets_ready<S: Storage>(l: Link<S::Model>)
    requires
        steady(l),
        l.dev.state == State::TxTurnaround || l.dev.state == State::TxReady,
    ensures
        ({
            let u = device::ticked_once::<S>(l);
            let data = high(l, Line::Data);
            let d = l.dev;
            &&& d.state == State::TxTurnaround ==> {
                &&& pulled(u, Line::Clk) && !pulled(u, Line::Data)
                &&& u.dev.state == (if age(l) >= 400 { State::TxReady } else { d.state })
            }
            &&& d.state == State::TxReady ==> !pulled(u, Line::Clk)
            &&& d.state == State::TxReady && !data ==> u.dev.state == d.state && u.store == l.store
            &&& d.state == State::TxReady && data && d.lookahead is None
                ==> u.dev.state == State::TxDone && !pulled(u, Line::Data)
            &&& d.state == State::TxReady && data && d.lookahead is Some ==> {
                let (store, next) = S::after_read(l.store, d.channel);
                &&& u.store == store && u.dev.lookahead == next
                &&& u.dev.shift == d.lookahead->0 && u.dev.bit == 0
                &&& u.dev.state
                    == (if next is None { State::TxEoiStall } else { State::TxStartByte })
            }
        }),
{
    let t = aged(l);
    let (clk, data) = (high(l, Line::Clk), high(l, Line::Data));
    lemma_ready::<S>(l);
    assert(device::receiving::<S>(t, clk, data) == t);
    let s = device::sending::<S>(t, clk, data);
    if l.dev.state == State::TxTurnaround {
        lemma_pulling(t, Line::Clk, true);
        lemma_pulling(device::pulling(t, Line::Clk, true), Line::Data, false);
    } else {
        lemma_pulling(t, Line::Clk, false);
        lemma_pulling(s, Line::Clk, false);
        lemma_pulling(device::pulling(s, Line::Clk, false), Line::Data, false);
    }
}

/// Before its last byte a talker waits until the listener has pulled DATA and let it
/// go again, or 4700 cycles without an answer.
pub proof fn law_talker_marks_the_end<S: Storage>(l: Link<S::Model>)
    requires
        steady(l),
        l.dev.state == State::TxEoiStall || l.dev.state == State::TxEoiAckRelease,
    ensures
        ({
            let u = device::ticked_once::<S>(l);
            let data = high(l, Line::Data);
            let d = l.dev;
            &&& same_lines(u, l)
            &&& d.state == State::TxEoiStall ==> u.dev.state
                == (if !data { State::TxEoiAckRelease }
                    else if age(l) > 4700 { State::TxStartByte }
                    else { d.state })
            &&& d.state == State::TxEoiAckRelease
                ==> u.dev.state == (if data { State::TxStartByte } else { d.state })
        }),
{
    lemma_ready::<S>(l);
    assert(device::receiving::<S>(aged(l), high(l, Line::Clk), high(l, Line::Data)) == aged(l));
}

/// CLK is pulled for 20 cycles to begin a byte. Each bit is on DATA, a one being
/// high, 20 cycles before CLK is let go, and stays there for 40; then CLK is pulled
/// and DATA let go.
pub proof fn law_bits_are_sent<S: Storage>(l: Link<S::Model>)
    requires
        steady(l),
        l.dev.state == State::TxStartByte || l.dev.state == State::TxBitSet
            || l.dev.state == State::TxBitHold,
        l.dev.bit < 8,
    ensures
        ({
            let u = device::ticked_once::<S>(l);
            let d = l.dev;
            &&& d.state == State::TxStartByte ==> pulled(u, Line::Clk)
                && u.dev.state == (if age(l) >= 20 { State::TxBitSet } else { d.state })
            &&& d.state == State::TxBitSet ==> pulled(u, Line::Data) == (d.shift % 2 == 0)
            &&& d.state == State::TxBitSet && age(l) >= 20
                ==> !pulled(u, Line::Clk) && u.dev.state == State::TxBitHold
            &&& d.state == State::TxBitSet && age(l) < 20
                ==> pulled(u, Line::Clk) == pulled(l, Line::Clk) && u.dev.state == d.state
            &&& d.state == State::TxBitHold && age(l) < 40
                ==> same_lines(u, l) && u.dev.state == d.state
            &&& d.state == State::TxBitHold && age(l) >= 40 ==> {
                &&& pulled(u, Line::Clk) && !pulled(u, Line::Data)
                &&& u.dev.shift == d.shift / 2 && u.dev.bit == d.bit + 1
                &&& u.dev.state == (if d.bit == 7 { State::TxWaitAck } else { State::TxBitSet })
            }
        }),
{
    let t = aged(l);
    let low = t.dev.shift % 2 == 0;
    lemma_ready::<S>(l);
    assert(device::receiving::<S>(t, high(l, Line::Clk), high(l, Line::Data)) == t);
    lemma_pulling(t, Line::Clk, true);
    lemma_pulling(device::pulling(t, Line::Clk, true), Line::Data, false);
    lemma_pulling(t, Line::Data, low);
    lemma_pulling(device::pulling(t, Line::Data, low), Line::Clk, false);
}

/// After eight bits a talker waits up to 4000 cycles for DATA to be pulled, and gives
/// up without it. Once it is done it holds no line.
pub proof fn law_talker_awaits_an_answer<S: Storage>(l: Link<S::Model>)
    requires
        steady(l),
        l.dev.state == State::TxWaitAck || l.dev.state == State::TxDone,
    ensures
        ({
            let u = device::ticked_once::<S>(l);
            let data = high(l, Line::Data);
            let d = l.dev;
            &&& d.state == State::TxWaitAck ==> u.dev.state
                == (if !data { State::TxReady } else if age(l) > 4000 { State::TxDone }
                    else { d.state })
            &&& d.state == State::TxDone ==> u.dev.state == d.state
            &&& u.dev.state == State::TxDone ==> !pulled(u, Line::Clk) && !pulled(u, Line::Data)
            &&& u.dev.state != State::TxDone ==> same_lines(u, l)
        }),
{
    let t = aged(l);
    lemma_ready::<S>(l);
    assert(device::receiving::<S>(t, high(l, Line::Clk), high(l, Line::Data)) == t);
    let s = device::sending::<S>(t, high(l, Line::Clk), high(l, Line::Data));
    lemma_pulling(s, Line::Clk, false);
    lemma_pulling(device::pulling(s, Line::Clk, false), Line::Data, false);
}

/// What the commands do: $20 and up LISTEN, $3F UNLISTEN, $40 and up TALK, $5F
/// UNTALK, $60 to $6F name a channel, $E0 to $EF close one, $F0 to $FF open one, and
/// the rest mean nothing.
pub proof fn law_commands<S: Storage>(l: Link<S::Model>, byte: u8)
    requires
        l.dev.under_atn,
    ensures
        ({
            let u = device::after_byte::<S>(l, byte);
            let d = l.dev;
            let ch = (byte % 16) as u8;
            &&& u.bus == l.bus && u.dev.state == d.state
            &&& !(0x20 <= byte <= 0x5F) ==> u.dev.role == d.role
            &&& 0x20 <= byte <= 0x3E ==> u.dev.role
                == (if d.address + 0x20 == byte { Role::Listener } else { Role::Unaddressed })
            &&& byte == 0x3F ==> u.dev.role
                == (if d.role == Role::Listener { Role::Unaddressed } else { d.role })
            &&& 0x40 <= byte <= 0x5E ==> u.dev.role
                == (if d.address + 0x40 == byte { Role::Talker } else { Role::Unaddressed })
            &&& byte == 0x5F ==> u.dev.role
                == (if d.role == Role::Talker { Role::Unaddressed } else { d.role })
            &&& u.dev.channel
                == (if 0x60 <= byte <= 0x6F || byte >= 0xE0 { ch } else { d.channel })
            &&& 0xE0 <= byte <= 0xEF ==> u.store == S::after_close(l.store, ch)
                && u.dev.opening is None
            &&& 0xF0 <= byte ==> u.dev.opening == Some(ch) && u.dev.name_len == 0
            &&& byte != 0x3F && byte < 0xE0 ==> u.dev.opening == d.opening
                && u.dev.name_len == d.name_len
            &&& !(0xE0 <= byte <= 0xEF) && !(byte == 0x3F && d.opening is Some)
                ==> u.store == l.store
        }),
{
}

/// A data byte goes to the storage, on the channel that was named, unless a name is
/// being collected or the device does not listen.
pub proof fn law_data_bytes<S: Storage>(l: Link<S::Model>, byte: u8)
    requires
        !l.dev.under_atn,
    ensures
        ({
            let u = device::after_byte::<S>(l, byte);
            &&& u.store == (if l.dev.role == Role::Listener && l.dev.opening is None {
                S::after_write(l.store, l.dev.channel, byte)
            } else {
                l.store
            })
            &&& l.dev.role != Role::Listener ==> u == l
            &&& u.dev.role == l.dev.role && u.dev.channel == l.dev.channel
            &&& u.bus == l.bus
            &&& l.dev.role == Role::Listener && l.dev.opening is Some && l.dev.name_len >= 40
                ==> u == l
        }),
{
}

/// When attention ends, a talker fetches the first byte of its channel and takes CLK
/// over, a listener waits, and any other device lets both lines go.
pub proof fn law_attention_ends<S: Storage>(l: Link<S::Model>)
    requires
        l.dev.slot < 4,
        !l.dev.prev_atn,
        high(l, Line::Atn),
    ensures
        ({
            let u = device::ticked_once::<S>(l);
            &&& !u.dev.under_atn && u.dev.prev_atn
            &&& u.dev.role == l.dev.role
            &&& l.dev.role == Role::Talker ==> {
                &&& (u.store, u.dev.lookahead) == S::after_read(l.store, l.dev.channel)
                &&& u.dev.state == State::TxTurnaround
                &&& pulled(u, Line::Clk) && !pulled(u, Line::Data)
            }
            &&& l.dev.role == Role::Listener ==> u.store == l.store
                && (!high(l, Line::Clk) ==> u.dev.state == State::RxWaitClkHigh && same_lines(u, l))
            &&& l.dev.role == Role::Unaddressed ==> u.dev.state == State::Idle
                && u.store == l.store && !pulled(u, Line::Clk) && !pulled(u, Line::Data)
        }),
{
    let e = device::after_attention_released::<S>(l);
    let t = Link {
        dev: Device { prev_atn: true, timer: e.dev.timer.saturating_add(1), ..e.dev }, ..e
    };
    match l.dev.role {
        Role::Unaddressed => {
            let d = Link { dev: Device { under_atn: false, ..l.dev }, ..l };
            lemma_pulling(d, Line::Clk, false);
            lemma_pulling(device::pulling(d, Line::Clk, false), Line::Data, false);
        },
        Role::Talker => {
            lemma_pulling(t, Line::Clk, true);
            lemma_pulling(device::pulling(t, Line::Clk, true), Line::Data, false);
        },
        Role::Listener => {},
    }
}

} // verus!
