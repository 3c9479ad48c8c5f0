//! What holds of a device on the bus, whatever its storage.

use vstd::prelude::*;
use crate::iec::device::{Device, Link, Role, State, Storage};
use crate::iec::{device, Bus, Line};

verus! {

/// `b` differs from `a` at most in slot `d`, and there at most in CLK and DATA.
pub open spec fn same_elsewhere(a: Bus, b: Bus, d: int) -> bool {
    &&& forall|e: int| 0 <= e < crate::iec::MAX_DEVICES && e != d ==> b.pulls[e] == a.pulls[e]
    &&& 0 <= d < crate::iec::MAX_DEVICES
        ==> (crate::iec::pulls_line(b, d, Line::Atn) == crate::iec::pulls_line(a, d, Line::Atn))
}

proof fn lemma_pulling<M>(l: Link<M>, which: Line, low: bool)
    requires
        which != Line::Atn,
    ensures
        same_elsewhere(l.bus, device::pulling(l, which, low).bus, l.dev.slot as int),
        device::pulling(l, which, low).dev == l.dev,
        l.dev.slot < crate::iec::MAX_DEVICES ==>
            crate::iec::pulls_line(device::pulling(l, which, low).bus, l.dev.slot as int, which) == low,
        l.dev.slot < crate::iec::MAX_DEVICES ==> forall|other: Line| other != which ==>
            (#[trigger] crate::iec::pulls_line(device::pulling(l, which, low).bus, l.dev.slot as int, other)
                == crate::iec::pulls_line(l.bus, l.dev.slot as int, other)),
{
    let d = l.dev.slot as int;
    assert forall|other: Line| true implies
        (crate::iec::mask_with(l.bus.pulls[d], which, low) & crate::iec::mask_of(other) != 0)
        == (if other == which { low } else { l.bus.pulls[d] & crate::iec::mask_of(other) != 0 }) by {
        crate::iec::lemma_mask_with(l.bus.pulls[d], which, low, other);
    }
}

/// A device touches only its own slot, never pulls ATN, and keeps its address,
/// its slot and its soundness.
pub proof fn law_device_keeps_to_its_slot<S: Storage>(l: Link<S::Model>)
    requires
        device::device_sound(l.dev),
    ensures
        same_elsewhere(l.bus, device::ticked_once::<S>(l).bus, l.dev.slot as int),
        device::ticked_once::<S>(l).dev.slot == l.dev.slot,
        device::ticked_once::<S>(l).dev.address == l.dev.address,
        device::device_sound(device::ticked_once::<S>(l).dev),
{
    let atn = crate::iec::line_high(l.bus, Line::Atn);
    let clk = crate::iec::line_high(l.bus, Line::Clk);
    let data = crate::iec::line_high(l.bus, Line::Data);
    lemma_atn_edge_keeps_slot::<S>(l, atn);
    let e = device::after_atn_edge::<S>(l, atn);
    let t = Link {
        dev: Device { prev_atn: atn, timer: e.dev.timer.saturating_add(1), ..e.dev },
        ..e
    };
    lemma_receiving_keeps_slot::<S>(t, clk, data);
    let r = device::receiving::<S>(t, clk, data);
    lemma_sending_keeps_slot::<S>(r, clk, data);
    let s = device::sending::<S>(r, clk, data);
    lemma_pulling(s, Line::Clk, false);
    lemma_pulling(device::pulling(s, Line::Clk, false), Line::Data, false);
}

proof fn lemma_atn_edge_keeps_slot<S: Storage>(l: Link<S::Model>, atn: bool)
    requires
        device::device_sound(l.dev),
    ensures
        ({
            let e = device::after_atn_edge::<S>(l, atn);
            &&& same_elsewhere(l.bus, e.bus, l.dev.slot as int)
            &&& e.dev.slot == l.dev.slot && e.dev.address == l.dev.address
            &&& device::device_sound(e.dev)
        }),
{
    let q = Link { dev: Device { under_atn: false, ..l.dev }, ..l };
    lemma_pulling(l, Line::Clk, false);
    lemma_pulling(device::pulling(l, Line::Clk, false), Line::Data, true);
    lemma_pulling(q, Line::Clk, false);
    lemma_pulling(device::pulling(q, Line::Clk, false), Line::Data, false);
}

proof fn lemma_receiving_keeps_slot<S: Storage>(l: Link<S::Model>, clk: bool, data: bool)
    requires
        device::device_sound(l.dev),
    ensures
        ({
            let r = device::receiving::<S>(l, clk, data);
            &&& same_elsewhere(l.bus, r.bus, l.dev.slot as int)
            &&& r.dev.slot == l.dev.slot && r.dev.address == l.dev.address
            &&& device::device_sound(r.dev)
        }),
{
    lemma_pulling(l, Line::Data, false);
    lemma_pulling(l, Line::Data, true);
}

proof fn lemma_sending_keeps_slot<S: Storage>(l: Link<S::Model>, clk: bool, data: bool)
    requires
        device::device_sound(l.dev),
    ensures
        ({
            let r = device::sending::<S>(l, clk, data);
            &&& same_elsewhere(l.bus, r.bus, l.dev.slot as int)
            &&& r.dev.slot == l.dev.slot && r.dev.address == l.dev.address
            &&& device::device_sound(r.dev)
        }),
{
    lemma_pulling(l, Line::Clk, false);
    lemma_pulling(l, Line::Clk, true);
    lemma_pulling(device::pulling(l, Line::Clk, true), Line::Data, false);
    lemma_pulling(l, Line::Data, l.dev.shift % 2 == 0);
    lemma_pulling(device::pulling(l, Line::Data, l.dev.shift % 2 == 0), Line::Clk, false);
}

/// The moment ATN is asserted a device pulls DATA low, addressed or not, and
/// lets go of CLK: it is ready for a command.
pub proof fn law_attention_is_answered_at_once<S: Storage>(l: Link<S::Model>)
    requires
        l.dev.slot < crate::iec::MAX_DEVICES,
        l.dev.prev_atn,
        !crate::iec::line_high(l.bus, Line::Atn),
    ensures
        crate::iec::pulls_line(device::ticked_once::<S>(l).bus, l.dev.slot as int, Line::Data),
        !crate::iec::pulls_line(device::ticked_once::<S>(l).bus, l.dev.slot as int, Line::Clk),
        !crate::iec::line_high(device::ticked_once::<S>(l).bus, Line::Data),
        device::ticked_once::<S>(l).dev.under_atn,
{
    lemma_pulling(l, Line::Clk, false);
    lemma_pulling(device::pulling(l, Line::Clk, false), Line::Data, true);
}

/// A device that was not addressed lets go of the bus the moment ATN is
/// released.
pub proof fn law_unaddressed_device_lets_go<S: Storage>(l: Link<S::Model>)
    requires
        l.dev.slot < crate::iec::MAX_DEVICES,
        !l.dev.prev_atn,
        crate::iec::line_high(l.bus, Line::Atn),
        l.dev.role == Role::Unaddressed,
    ensures
        !crate::iec::pulls_line(device::ticked_once::<S>(l).bus, l.dev.slot as int, Line::Data),
        !crate::iec::pulls_line(device::ticked_once::<S>(l).bus, l.dev.slot as int, Line::Clk),
        device::ticked_once::<S>(l).dev.state == State::Idle,
{
    let q = Link { dev: Device { under_atn: false, ..l.dev }, ..l };
    lemma_pulling(q, Line::Clk, false);
    lemma_pulling(device::pulling(q, Line::Clk, false), Line::Data, false);
}

/// An idle device stays idle, and off the bus, while ATN does not move.
pub proof fn law_idle_device_stays_idle<S: Storage>(l: Link<S::Model>)
    requires
        l.dev.state == State::Idle,
        l.dev.prev_atn == crate::iec::line_high(l.bus, Line::Atn),
    ensures
        device::ticked_once::<S>(l).dev.state == State::Idle,
        device::ticked_once::<S>(l).bus == l.bus,
        device::ticked_once::<S>(l).store == l.store,
{
}

/// LISTEN and TALK address the device that bears the number and nobody else.
pub proof fn law_addressing<S: Storage>(l: Link<S::Model>, n: u8)
    requires
        n < 31,
        l.dev.address < 32,
    ensures
        (device::after_command::<S>(l, (0x20 + n) as u8).dev.role == Role::Listener)
            == (n == l.dev.address),
        (device::after_command::<S>(l, (0x40 + n) as u8).dev.role == Role::Talker)
            == (n == l.dev.address),
        n != l.dev.address ==> device::after_command::<S>(l, (0x20 + n) as u8).dev.role
            == Role::Unaddressed,
        n != l.dev.address ==> device::after_command::<S>(l, (0x40 + n) as u8).dev.role
            == Role::Unaddressed,
{
}

/// The name that an OPEN hands to the storage is the one that was sent: each
/// data byte after the OPEN command is appended to it, up to the buffer's end.
pub proof fn law_name_is_collected<S: Storage>(l: Link<S::Model>, byte: u8)
    requires
        !l.dev.under_atn,
        l.dev.role == Role::Listener,
        l.dev.opening is Some,
        l.dev.name_len < device::NAME_MAX,
    ensures
        device::collected_name(device::after_byte::<S>(l, byte).dev)
            == device::collected_name(l.dev).push(byte),
        device::after_byte::<S>(l, byte).store == l.store,
{
    assert(device::collected_name(device::after_byte::<S>(l, byte).dev)
        =~= device::collected_name(l.dev).push(byte));
}

/// UNLISTEN completes the OPEN with the whole name, exactly once.
pub proof fn law_unlisten_opens<S: Storage>(l: Link<S::Model>, ch: u8)
    requires
        l.dev.under_atn,
        l.dev.opening == Some(ch),
    ensures
        device::after_byte::<S>(l, 0x3F).store
            == S::after_open(l.store, ch, device::collected_name(l.dev)).0,
        device::after_byte::<S>(l, 0x3F).dev.opening is None,
        device::after_byte::<S>(l, 0x3F).dev.role != Role::Listener,
{
}

/// A talker flags EOI on the last byte of its file and on no other: it reads
/// one byte ahead, and stalls exactly when there is nothing behind the byte it
/// is about to send.
pub proof fn law_eoi_marks_the_last_byte<S: Storage>(l: Link<S::Model>, clk: bool, byte: u8)
    requires
        l.dev.state == State::TxReady,
        l.dev.lookahead == Some(byte),
    ensures
        ({
            let s = device::sending::<S>(l, clk, true);
            let next = S::after_read(l.store, l.dev.channel).1;
            &&& s.dev.shift == byte
            &&& s.dev.lookahead == next
            &&& (s.dev.state == State::TxEoiStall) == (next is None)
            &&& (s.dev.state == State::TxStartByte) == (next is Some)
        }),
{
}

// ---- an OPEN from end to end ----

/// Complete bytes, one after the other.
pub open spec fn bytes_taken<S: Storage>(l: Link<S::Model>, bytes: Seq<u8>) -> Link<S::Model>
    decreases bytes.len(),
{
    if bytes.len() == 0 {
        l
    } else {
        device::after_byte::<S>(bytes_taken::<S>(l, bytes.drop_last()), bytes.last())
    }
}

/// As many bytes of a name as a device keeps.
pub open spec fn kept_name(name: Seq<u8>) -> Seq<u8> {
    if name.len() <= device::NAME_MAX { name } else { name.take(device::NAME_MAX as int) }
}

/// The bytes of a name are collected, and none of them is written.
proof fn lemma_name_bytes<S: Storage>(l: Link<S::Model>, name: Seq<u8>)
    requires
        !l.dev.under_atn,
        l.dev.role == Role::Listener,
        l.dev.opening is Some,
        l.dev.name_len == 0,
    ensures
        ({
            let r = bytes_taken::<S>(l, name);
            &&& r.store == l.store
            &&& r.bus == l.bus
            &&& r.dev == (Device { name: r.dev.name, name_len: r.dev.name_len, ..l.dev })
            &&& r.dev.name_len <= device::NAME_MAX
            &&& device::collected_name(r.dev) == kept_name(name)
        }),
    decreases name.len(),
{
    if name.len() == 0 {
        assert(device::collected_name(l.dev) =~= kept_name(name));
    } else {
        lemma_name_bytes::<S>(l, name.drop_last());
        let p = bytes_taken::<S>(l, name.drop_last());
        let r = bytes_taken::<S>(l, name);
        let before = device::collected_name(p.dev);
        let after = device::collected_name(r.dev);
        assert(before.len() == p.dev.name_len);
        assert(r == device::after_data_byte::<S>(p, name.last()));
        if name.len() <= device::NAME_MAX {
            assert(after =~= before.push(name.last()));
            assert(after =~= name);
        } else {
            assert(after =~= before);
            assert(kept_name(name) =~= kept_name(name.drop_last()));
        }
    }
}

/// The device after a controller's OPEN up to the end of the name: LISTEN and
/// OPEN under ATN, ATN released, the name, ATN asserted again.
pub open spec fn name_sent<S: Storage>(l: Link<S::Model>, ch: u8, name: Seq<u8>) -> Link<S::Model> {
    let called = bytes_taken::<S>(l, seq![(0x20 + l.dev.address) as u8, (0xF0 + ch) as u8]);
    device::after_attention(
        bytes_taken::<S>(device::after_attention_released::<S>(called), name))
}

/// A whole OPEN: after LISTEN, OPEN, the bytes of a name and UNLISTEN the storage
/// has been opened once, with the first 40 of them, at the UNLISTEN and not
/// before; none of them was written to it, and the device is addressed no more.
pub proof fn law_open_exchange<S: Storage>(l: Link<S::Model>, ch: u8, name: Seq<u8>)
    requires
        l.dev.under_atn,
        l.dev.address <= 30,
        ch < 16,
    ensures
        name_sent::<S>(l, ch, name).store == l.store,
        name_sent::<S>(l, ch, name).dev.opening == Some(ch),
        device::collected_name(name_sent::<S>(l, ch, name).dev) == kept_name(name),
        ({
            let r = device::after_byte::<S>(name_sent::<S>(l, ch, name), 0x3F);
            &&& r.store == S::after_open(l.store, ch, kept_name(name)).0
            &&& r.dev.opening is None
            &&& r.dev.role == Role::Unaddressed
        }),
{
    let commands = seq![(0x20 + l.dev.address) as u8, (0xF0 + ch) as u8];
    assert(commands.drop_last() =~= seq![(0x20 + l.dev.address) as u8]);
    assert(commands.drop_last().drop_last() =~= Seq::<u8>::empty());
    reveal_with_fuel(bytes_taken, 3);
    let listening = device::after_byte::<S>(l, (0x20 + l.dev.address) as u8);
    let called = bytes_taken::<S>(l, commands);
    assert(called == device::after_byte::<S>(listening, (0xF0 + ch) as u8));
    let released = device::after_attention_released::<S>(called);
    assert(released.dev.role == Role::Listener && released.store == l.store);
    lemma_name_bytes::<S>(released, name);
    let sent = name_sent::<S>(l, ch, name);
    assert(device::collected_name(sent.dev)
        =~= device::collected_name(bytes_taken::<S>(released, name).dev));
}

// ---- a byte on the wire ----

/// The controller drives CLK and DATA: `low` pulls, otherwise it lets go.
pub open spec fn driven<M>(l: Link<M>, clk_low: bool, data_low: bool) -> Link<M> {
    Link {
        bus: crate::iec::with_line(
            crate::iec::with_line(l.bus, 0, Line::Clk, clk_low), 0, Line::Data, data_low),
        ..l
    }
}

/// Only the controller moves CLK and DATA, and ATN is as the device last saw it.
pub open spec fn controller_has_the_lines<M>(l: Link<M>) -> bool {
    &&& 1 <= l.dev.slot < crate::iec::MAX_DEVICES
    &&& forall|e: int| 1 <= e < crate::iec::MAX_DEVICES ==>
        !#[trigger] crate::iec::pulls_line(l.bus, e, Line::Clk)
    &&& forall|e: int| 1 <= e < crate::iec::MAX_DEVICES ==>
        !#[trigger] crate::iec::pulls_line(l.bus, e, Line::Data)
    &&& l.dev.prev_atn == crate::iec::line_high(l.bus, Line::Atn)
}

/// One cycle with CLK and DATA as the controller drives them.
#[verifier::opaque]
pub open spec fn cycle<S: Storage>(l: Link<S::Model>, clk_low: bool, data_low: bool) -> Link<S::Model> {
    device::ticked_once::<S>(driven(l, clk_low, data_low))
}

/// CLK held at one level for a cycle per entry, DATA doing what the entries say
/// (true: pulled low).
pub open spec fn held<S: Storage>(l: Link<S::Model>, clk_low: bool, data: Seq<bool>) -> Link<S::Model>
    decreases data.len(),
{
    if data.len() == 0 {
        l
    } else {
        cycle::<S>(held::<S>(l, clk_low, data.drop_last()), clk_low, data.last())
    }
}

/// A bit as the controller puts it on the wire. DATA counts in the cycle in which
/// CLK rises, high for a one; what it does after that is in `up` for the further
/// cycles of CLK high, and in `down` for those of CLK low behind them.
pub struct Pulse {
    pub one: bool,
    pub up: Seq<bool>,
    pub down: Seq<bool>,
}

/// The bits that some pulses carry.
pub open spec fn ones(pulses: Seq<Pulse>) -> Seq<bool> {
    Seq::new(pulses.len(), |k: int| pulses[k].one)
}

/// CLK falls again behind each of the pulses, for a cycle at least.
pub open spec fn all_fall(pulses: Seq<Pulse>) -> bool {
    forall|k: int| 0 <= k < pulses.len() ==> (#[trigger] pulses[k]).down.len() >= 1
}

/// One bit on the wire: CLK up, CLK down again.
#[verifier::opaque]
pub open spec fn bit_clocked<S: Storage>(l: Link<S::Model>, p: Pulse) -> Link<S::Model> {
    let risen = cycle::<S>(l, false, !p.one);
    held::<S>(held::<S>(risen, false, p.up), true, p.down)
}

proof fn lemma_driven_levels<M>(l: Link<M>, clk_low: bool, data_low: bool)
    requires
        controller_has_the_lines(l),
    ensures
        crate::iec::line_high(driven(l, clk_low, data_low).bus, Line::Clk) == !clk_low,
        crate::iec::line_high(driven(l, clk_low, data_low).bus, Line::Data) == !data_low,
        controller_has_the_lines(driven(l, clk_low, data_low)),
{
    let b1 = crate::iec::with_line(l.bus, 0, Line::Clk, clk_low);
    let b2 = crate::iec::with_line(b1, 0, Line::Data, data_low);
    crate::iec::lemma_mask_with(l.bus.pulls[0], Line::Clk, clk_low, Line::Clk);
    crate::iec::lemma_mask_with(b1.pulls[0], Line::Data, data_low, Line::Data);
    crate::iec::lemma_mask_with(b1.pulls[0], Line::Data, data_low, Line::Clk);
    crate::iec::law_lines_are_independent(l.bus, 0, Line::Clk, clk_low, Line::Atn);
    crate::iec::law_lines_are_independent(b1, 0, Line::Data, data_low, Line::Atn);
    assert(crate::iec::pulls_line(b2, 0, Line::Clk) == clk_low);
    assert(crate::iec::pulls_line(b2, 0, Line::Data) == data_low);
    assert forall|e: int| 1 <= e < crate::iec::MAX_DEVICES implies
        !#[trigger] crate::iec::pulls_line(b2, e, Line::Clk) by {
        assert(b2.pulls[e] == l.bus.pulls[e]);
        assert(!crate::iec::pulls_line(l.bus, e, Line::Clk));
    }
    assert forall|e: int| 1 <= e < crate::iec::MAX_DEVICES implies
        !#[trigger] crate::iec::pulls_line(b2, e, Line::Data) by {
        assert(b2.pulls[e] == l.bus.pulls[e]);
        assert(!crate::iec::pulls_line(l.bus, e, Line::Data));
    }
}

/// A cycle in which a receiver sees nothing to do.
proof fn lemma_idle_cycle<S: Storage>(l: Link<S::Model>)
    requires
        l.dev.prev_atn == crate::iec::line_high(l.bus, Line::Atn),
        crate::iec::line_high(l.bus, Line::Clk) == (l.dev.state == State::RxBitWaitLow),
        l.dev.state == State::RxBitWaitLow || l.dev.state == State::RxBitWaitHigh
            || l.dev.state == State::RxWaitClkHigh,
    ensures
        device::ticked_once::<S>(l) == (Link {
            dev: Device { timer: l.dev.timer.saturating_add(1), ..l.dev }, ..l
        }),
{
}

/// CLK stays up: nothing happens, whatever DATA does.
proof fn lemma_stays_up<S: Storage>(l: Link<S::Model>, data: Seq<bool>)
    requires
        controller_has_the_lines(l),
        l.dev.state == State::RxBitWaitLow,
    ensures
        ({
            let r = held::<S>(l, false, data);
            &&& r.dev == (Device { timer: r.dev.timer, ..l.dev })
            &&& r.store == l.store
            &&& controller_has_the_lines(r)
        }),
    decreases data.len(),
{
    if data.len() > 0 {
        lemma_stays_up::<S>(l, data.drop_last());
        let p = held::<S>(l, false, data.drop_last());
        lemma_driven_levels(p, false, data.last());
        reveal(cycle);
        lemma_idle_cycle::<S>(driven(p, false, data.last()));
    }
}

/// CLK stays down: nothing happens, whatever DATA does.
proof fn lemma_stays_down<S: Storage>(l: Link<S::Model>, data: Seq<bool>)
    requires
        controller_has_the_lines(l),
        l.dev.state == State::RxBitWaitHigh,
    ensures
        ({
            let r = held::<S>(l, true, data);
            &&& r.dev == (Device { timer: r.dev.timer, ..l.dev })
            &&& r.store == l.store
            &&& controller_has_the_lines(r)
        }),
    decreases data.len(),
{
    if data.len() > 0 {
        lemma_stays_down::<S>(l, data.drop_last());
        let p = held::<S>(l, true, data.drop_last());
        lemma_driven_levels(p, true, data.last());
        reveal(cycle);
        lemma_idle_cycle::<S>(driven(p, true, data.last()));
    }
}

/// Levels held one after the other.
proof fn lemma_held_first<S: Storage>(l: Link<S::Model>, clk_low: bool, data: Seq<bool>)
    requires
        data.len() >= 1,
    ensures
        held::<S>(l, clk_low, data)
            == held::<S>(cycle::<S>(l, clk_low, data[0]), clk_low, data.skip(1)),
    decreases data.len(),
{
    let first = cycle::<S>(l, clk_low, data[0]);
    if data.len() == 1 {
        assert(data.drop_last() =~= Seq::<bool>::empty());
        assert(held::<S>(l, clk_low, data.drop_last()) == l);
        assert(data.skip(1) =~= Seq::<bool>::empty());
    } else {
        lemma_held_first::<S>(l, clk_low, data.drop_last());
        assert(data.drop_last().skip(1) =~= data.skip(1).drop_last());
        assert(data.skip(1).last() == data.last());
    }
}

/// CLK falls, to start a byte or behind one of its first seven bits.
proof fn lemma_clk_falls<S: Storage>(l: Link<S::Model>, data_low: bool)
    requires
        controller_has_the_lines(l),
        l.dev.state == State::RxWaitClkLow
            || (l.dev.state == State::RxBitWaitLow && l.dev.bit < 8),
    ensures
        ({
            let r = cycle::<S>(l, true, data_low);
            let starts = l.dev.state == State::RxWaitClkLow;
            &&& r.dev == (Device {
                bit: if starts { 0 } else { l.dev.bit },
                shift: if starts { 0 } else { l.dev.shift },
                state: State::RxBitWaitHigh,
                timer: 0,
                ..l.dev
            })
            &&& r.store == l.store
            &&& controller_has_the_lines(r)
        }),
{
    reveal(cycle);
    lemma_driven_levels(l, true, data_low);
    assert(cycle::<S>(l, true, data_low).bus == driven(l, true, data_low).bus);
}

/// CLK rises on a bit.
proof fn lemma_clk_rises<S: Storage>(l: Link<S::Model>, one: bool)
    requires
        controller_has_the_lines(l),
        l.dev.state == State::RxBitWaitHigh,
        l.dev.bit < 8,
    ensures
        ({
            let r = cycle::<S>(l, false, !one);
            &&& r.dev == (Device {
                shift: (l.dev.shift / 2 + (if one { 128int } else { 0 })) as u8,
                bit: (l.dev.bit + 1) as u8,
                state: State::RxBitWaitLow,
                timer: 0,
                ..l.dev
            })
            &&& r.store == l.store
            &&& controller_has_the_lines(r)
        }),
{
    reveal(cycle);
    lemma_driven_levels(l, false, !one);
    assert(cycle::<S>(l, false, !one).bus == driven(l, false, !one).bus);
}

/// A complete byte acted on.
#[verifier::opaque]
spec fn acted<S: Storage>(l: Link<S::Model>, byte: u8) -> Link<S::Model> {
    device::after_byte::<S>(l, byte)
}

/// CLK falls behind the eighth bit: the byte is acted on and acknowledged.
proof fn lemma_byte_falls<S: Storage>(l: Link<S::Model>, data_low: bool)
    requires
        controller_has_the_lines(l),
        l.dev.state == State::RxBitWaitLow,
        l.dev.bit == 8,
    ensures
        ({
            let r = cycle::<S>(l, true, data_low);
            let a = device::byte_taken(driven(l, true, data_low));
            &&& r == acted::<S>(a, l.dev.shift)
            &&& r.dev.slot == l.dev.slot
            &&& r.dev.prev_atn == crate::iec::line_high(r.bus, Line::Atn)
            &&& r.dev.state == State::RxWaitClkHigh
            &&& crate::iec::pulls_line(r.bus, l.dev.slot as int, Line::Data)
        }),
{
    reveal(cycle);
    reveal(acted);
    let low = driven(l, true, data_low);
    lemma_driven_levels(l, true, data_low);
    lemma_byte_complete::<S>(low);
    let a = device::byte_taken(low);
    lemma_byte_frame::<S>(a, l.dev.shift);
    lemma_pulling(low, Line::Data, true);
    lemma_atn_spared(low.bus, a.bus, low.dev.slot as int);
}

/// The controller starts a byte: from the moment CLK is pulled low the device
/// waits for its first bit, however long that takes and whatever DATA does.
proof fn lemma_byte_starts<S: Storage>(l: Link<S::Model>, start: Seq<bool>)
    requires
        controller_has_the_lines(l),
        l.dev.state == State::RxWaitClkLow,
        start.len() >= 1,
    ensures
        ({
            let r = held::<S>(l, true, start);
            &&& r.dev == (Device {
                bit: 0, shift: 0, state: State::RxBitWaitHigh, timer: r.dev.timer, ..l.dev
            })
            &&& r.store == l.store
            &&& controller_has_the_lines(r)
        }),
{
    lemma_held_first::<S>(l, true, start);
    lemma_clk_falls::<S>(l, start[0]);
    lemma_stays_down::<S>(cycle::<S>(l, true, start[0]), start.skip(1));
}

/// One bit: the shift register takes it in at the top, and the device waits for
/// the next one.
proof fn lemma_bit<S: Storage>(l: Link<S::Model>, p: Pulse)
    requires
        controller_has_the_lines(l),
        l.dev.state == State::RxBitWaitHigh,
        l.dev.bit < 7,
        p.down.len() >= 1,
    ensures
        ({
            let r = bit_clocked::<S>(l, p);
            &&& r.dev == (Device {
                shift: (l.dev.shift / 2 + (if p.one { 128int } else { 0 })) as u8,
                bit: (l.dev.bit + 1) as u8,
                timer: r.dev.timer,
                ..l.dev
            })
            &&& r.store == l.store
            &&& controller_has_the_lines(r)
        }),
{
    reveal(bit_clocked);
    let up = lemma_bit_rises::<S>(l, p);
    lemma_held_first::<S>(up, true, p.down);
    lemma_clk_falls::<S>(up, p.down[0]);
    lemma_stays_down::<S>(cycle::<S>(up, true, p.down[0]), p.down.skip(1));
}

/// CLK rises and stays up: the bit is taken, once.
proof fn lemma_bit_rises<S: Storage>(l: Link<S::Model>, p: Pulse) -> (up: Link<S::Model>)
    requires
        controller_has_the_lines(l),
        l.dev.state == State::RxBitWaitHigh,
        l.dev.bit < 8,
    ensures
        up == held::<S>(cycle::<S>(l, false, !p.one), false, p.up),
        up.dev == (Device {
            shift: (l.dev.shift / 2 + (if p.one { 128int } else { 0 })) as u8,
            bit: (l.dev.bit + 1) as u8,
            state: State::RxBitWaitLow,
            timer: up.dev.timer,
            ..l.dev
        }),
        up.store == l.store,
        controller_has_the_lines(up),
{
    lemma_clk_rises::<S>(l, p.one);
    let risen = cycle::<S>(l, false, !p.one);
    lemma_stays_up::<S>(risen, p.up);
    held::<S>(risen, false, p.up)
}

/// Bits on the wire, one after the other.
pub open spec fn bits_clocked<S: Storage>(l: Link<S::Model>, pulses: Seq<Pulse>) -> Link<S::Model>
    decreases pulses.len(),
{
    if pulses.len() == 0 {
        l
    } else {
        bit_clocked::<S>(bits_clocked::<S>(l, pulses.drop_last()), pulses.last())
    }
}

/// A whole byte on the wire: CLK pulled low to start it, then its bits.
pub open spec fn byte_clocked<S: Storage>(
    l: Link<S::Model>, start: Seq<bool>, pulses: Seq<Pulse>,
) -> Link<S::Model> {
    bits_clocked::<S>(held::<S>(l, true, start), pulses)
}

/// The byte whose bits, lowest first, these are.
pub open spec fn byte_of(b: Seq<bool>) -> u8 {
    byte_from(b[0], b[1], b[2], b[3], b[4], b[5], b[6], b[7])
}

pub open spec fn byte_from(
    b0: bool, b1: bool, b2: bool, b3: bool, b4: bool, b5: bool, b6: bool, b7: bool,
) -> u8 {
    ((if b0 { 1int } else { 0 }) + (if b1 { 2int } else { 0 }) + (if b2 { 4int } else { 0 })
        + (if b3 { 8int } else { 0 }) + (if b4 { 16int } else { 0 }) + (if b5 { 32int } else { 0 })
        + (if b6 { 64int } else { 0 }) + (if b7 { 128int } else { 0 })) as u8
}

/// A shift register that takes bits in at the top.
spec fn shifted(s: int, bits: Seq<bool>) -> int
    decreases bits.len(),
{
    if bits.len() == 0 {
        s
    } else {
        shifted(s, bits.drop_last()) / 2 + (if bits.last() { 128int } else { 0 })
    }
}

/// Up to seven bits only fill the shift register.
proof fn lemma_bits<S: Storage>(l: Link<S::Model>, pulses: Seq<Pulse>)
    requires
        controller_has_the_lines(l),
        l.dev.state == State::RxBitWaitHigh,
        l.dev.bit == 0,
        pulses.len() <= 7,
        all_fall(pulses),
    ensures
        ({
            let r = bits_clocked::<S>(l, pulses);
            &&& r.dev == (Device {
                shift: shifted(l.dev.shift as int, ones(pulses)) as u8,
                bit: pulses.len() as u8,
                timer: r.dev.timer,
                ..l.dev
            })
            &&& 0 <= shifted(l.dev.shift as int, ones(pulses)) < 256
            &&& r.store == l.store
            &&& controller_has_the_lines(r)
        }),
    decreases pulses.len(),
{
    if pulses.len() > 0 {
        assert(ones(pulses).drop_last() =~= ones(pulses.drop_last()));
        assert(pulses.last().down.len() >= 1);
        assert forall|k: int| 0 <= k < pulses.drop_last().len() implies
            (#[trigger] pulses.drop_last()[k]).down.len() >= 1 by {
            assert(pulses.drop_last()[k] == pulses[k]);
        }
        lemma_bits::<S>(l, pulses.drop_last());
        lemma_bit::<S>(bits_clocked::<S>(l, pulses.drop_last()), pulses.last());
    }
}

/// A byte arrives intact: once the device is ready for it, CLK pulled low starts
/// it, and eight bits clocked out lowest first by the controller are acted on as
/// the byte they spell, and acknowledged by pulling DATA low. It takes as long as
/// the controller likes: each level of CLK is held for any number of cycles, and
/// DATA counts only when CLK rises. EOI is noted for this byte and no other: if
/// the talker stalled before it.
pub proof fn law_byte_is_received_intact<S: Storage>(
    l: Link<S::Model>, start: Seq<bool>, pulses: Seq<Pulse>,
)
    requires
        controller_has_the_lines(l),
        l.dev.state == State::RxWaitClkLow,
        start.len() >= 1,
        pulses.len() == 8,
        all_fall(pulses),
    ensures
        ({
            let r = byte_clocked::<S>(l, start, pulses);
            let byte = byte_of(ones(pulses));
            let at_end = Link {
                dev: Device {
                    shift: byte, bit: 8, timer: r.dev.timer, state: State::RxWaitClkHigh,
                    rx_eoi: l.dev.rx_eoi_done, ..l.dev
                },
                bus: r.bus,
                store: l.store,
            };
            &&& r.dev == device::after_byte::<S>(at_end, byte).dev
            &&& r.store == device::after_byte::<S>(at_end, byte).store
            &&& crate::iec::pulls_line(r.bus, l.dev.slot as int, Line::Data)
            &&& r.dev.rx_eoi == l.dev.rx_eoi_done
        }),
{
    lemma_byte_starts::<S>(l, start);
    let b = held::<S>(l, true, start);
    assert(pulses.last().down.len() >= 1);
    assert forall|k: int| 0 <= k < pulses.drop_last().len() implies
        (#[trigger] pulses.drop_last()[k]).down.len() >= 1 by {
        assert(pulses.drop_last()[k] == pulses[k]);
    }
    assert(ones(pulses).drop_last() =~= ones(pulses.drop_last()));
    lemma_bits::<S>(b, pulses.drop_last());
    lemma_shifted_byte(b.dev.shift, ones(pulses));
    lemma_last_bit::<S>(bits_clocked::<S>(b, pulses.drop_last()), pulses.last());
    reveal(acted);
}

/// After eight bits the register spells them.
proof fn lemma_shifted_byte(s0: u8, b: Seq<bool>)
    requires
        b.len() == 8,
    ensures
        shifted(s0 as int, b) == byte_of(b),
{
    let s = s0 as int;
    assert(b.take(0) =~= Seq::<bool>::empty() && b.take(8) =~= b);
    lemma_shift_step(s, b, 1);
    lemma_shift_step(s, b, 2);
    lemma_shift_step(s, b, 3);
    lemma_shift_step(s, b, 4);
    lemma_shift_step(s, b, 5);
    lemma_shift_step(s, b, 6);
    lemma_shift_step(s, b, 7);
    lemma_shift_step(s, b, 8);
    lemma_shift_in(s0, b[0], b[1], b[2], b[3], b[4], b[5], b[6], b[7]);
}

proof fn lemma_shift_step(s: int, b: Seq<bool>, k: int)
    requires
        0 < k <= b.len(),
    ensures
        shifted(s, b.take(k)) == shifted(s, b.take(k - 1)) / 2 + (if b[k - 1] { 128int } else { 0 }),
{
    assert(b.take(k).drop_last() =~= b.take(k - 1));
}

/// The shift register after eight bits: nothing of its old content is left.
proof fn lemma_shift_in(
    s0: u8, b0: bool, b1: bool, b2: bool, b3: bool, b4: bool, b5: bool, b6: bool, b7: bool,
)
    ensures
        ({
            let s1 = s0 / 2 + (if b0 { 128int } else { 0 });
            let s2 = s1 / 2 + (if b1 { 128int } else { 0 });
            let s3 = s2 / 2 + (if b2 { 128int } else { 0 });
            let s4 = s3 / 2 + (if b3 { 128int } else { 0 });
            let s5 = s4 / 2 + (if b4 { 128int } else { 0 });
            let s6 = s5 / 2 + (if b5 { 128int } else { 0 });
            let s7 = s6 / 2 + (if b6 { 128int } else { 0 });
            let s8 = s7 / 2 + (if b7 { 128int } else { 0 });
            s8 == byte_from(b0, b1, b2, b3, b4, b5, b6, b7)
        }),
{
    let s1 = s0 / 2 + (if b0 { 128int } else { 0 });
    let s2 = s1 / 2 + (if b1 { 128int } else { 0 });
    let s3 = s2 / 2 + (if b2 { 128int } else { 0 });
    let s4 = s3 / 2 + (if b3 { 128int } else { 0 });
    assert(s1 / 128 == (if b0 { 1int } else { 0 }));
    assert(s2 / 64 == (if b1 { 2int } else { 0 }) + s1 / 128);
    assert(s3 / 32 == (if b2 { 4int } else { 0 }) + s2 / 64);
    assert(s4 / 16 == (if b3 { 8int } else { 0 }) + s3 / 32);
    let s5 = s4 / 2 + (if b4 { 128int } else { 0 });
    let s6 = s5 / 2 + (if b5 { 128int } else { 0 });
    let s7 = s6 / 2 + (if b6 { 128int } else { 0 });
    let s8 = s7 / 2 + (if b7 { 128int } else { 0 });
    assert(s5 / 8 == (if b4 { 16int } else { 0 }) + s4 / 16);
    assert(s6 / 4 == (if b5 { 32int } else { 0 }) + s5 / 8);
    assert(s7 / 2 == (if b6 { 64int } else { 0 }) + s6 / 4);
}

/// The eighth bit completes the byte.
proof fn lemma_last_bit<S: Storage>(l: Link<S::Model>, p: Pulse)
    requires
        controller_has_the_lines(l),
        l.dev.state == State::RxBitWaitHigh,
        l.dev.bit == 7,
        p.down.len() >= 1,
    ensures
        ({
            let byte = (l.dev.shift / 2 + (if p.one { 128int } else { 0 })) as u8;
            let r = bit_clocked::<S>(l, p);
            let at_end = Link {
                dev: Device {
                    shift: byte, bit: 8, timer: r.dev.timer, state: State::RxWaitClkHigh,
                    rx_eoi: l.dev.rx_eoi_done, ..l.dev
                },
                bus: r.bus,
                store: l.store,
            };
            &&& r.dev == acted::<S>(at_end, byte).dev
            &&& r.store == acted::<S>(at_end, byte).store
            &&& crate::iec::pulls_line(r.bus, l.dev.slot as int, Line::Data)
        }),
{
    reveal(bit_clocked);
    let up = lemma_bit_rises::<S>(l, p);
    lemma_held_first::<S>(up, true, p.down);
    lemma_byte_falls::<S>(up, p.down[0]);
    let a = device::byte_taken(driven(up, true, p.down[0]));
    lemma_acknowledged::<S>(cycle::<S>(up, true, p.down[0]), p.down.skip(1));
    let r = bit_clocked::<S>(l, p);
    let byte = up.dev.shift;
    let at_end = Link {
        dev: Device {
            shift: byte, bit: 8, timer: r.dev.timer, state: State::RxWaitClkHigh,
            rx_eoi: l.dev.rx_eoi_done, ..l.dev
        },
        bus: r.bus,
        store: l.store,
    };
    assert(a.dev == (Device { timer: 0, ..at_end.dev }));
    lemma_byte_ignores::<S>(a, at_end, byte);
}

/// What a byte does depends neither on the bus nor on the device's clock.
proof fn lemma_byte_ignores<S: Storage>(a: Link<S::Model>, b: Link<S::Model>, byte: u8)
    requires
        a.store == b.store,
        a.dev == (Device { timer: a.dev.timer, ..b.dev }),
    ensures
        acted::<S>(b, byte).store == acted::<S>(a, byte).store,
        acted::<S>(b, byte).dev
            == (Device { timer: b.dev.timer, ..acted::<S>(a, byte).dev }),
{
    reveal(acted);
    assert(device::collected_name(a.dev) == device::collected_name(b.dev));
}

/// Behind a byte, as long as CLK stays down, the device keeps DATA low.
proof fn lemma_acknowledged<S: Storage>(l: Link<S::Model>, data: Seq<bool>)
    requires
        1 <= l.dev.slot < crate::iec::MAX_DEVICES,
        l.dev.prev_atn == crate::iec::line_high(l.bus, Line::Atn),
        l.dev.state == State::RxWaitClkHigh,
        crate::iec::pulls_line(l.bus, l.dev.slot as int, Line::Data),
    ensures
        ({
            let r = held::<S>(l, true, data);
            &&& r.dev == (Device { timer: r.dev.timer, ..l.dev })
            &&& r.store == l.store
            &&& r.dev.prev_atn == crate::iec::line_high(r.bus, Line::Atn)
            &&& crate::iec::pulls_line(r.bus, l.dev.slot as int, Line::Data)
        }),
    decreases data.len(),
{
    if data.len() > 0 {
        lemma_acknowledged::<S>(l, data.drop_last());
        let p = held::<S>(l, true, data.drop_last());
        let d = driven(p, true, data.last());
        let b1 = crate::iec::with_line(p.bus, 0, Line::Clk, true);
        crate::iec::lemma_mask_with(p.bus.pulls[0], Line::Clk, true, Line::Clk);
        crate::iec::lemma_mask_with(b1.pulls[0], Line::Data, data.last(), Line::Clk);
        crate::iec::law_lines_are_independent(p.bus, 0, Line::Clk, true, Line::Atn);
        crate::iec::law_lines_are_independent(b1, 0, Line::Data, data.last(), Line::Atn);
        assert(crate::iec::pulls_line(d.bus, 0, Line::Clk));
        assert(d.bus.pulls[l.dev.slot as int] == p.bus.pulls[l.dev.slot as int]);
        reveal(cycle);
        lemma_idle_cycle::<S>(d);
    }
}

/// A finished byte keeps the bus as it is, and the handshake state.
proof fn lemma_byte_frame<S: Storage>(l: Link<S::Model>, byte: u8)
    ensures
        device::after_byte::<S>(l, byte).bus == l.bus,
        device::after_byte::<S>(l, byte).dev.state == l.dev.state,
        device::after_byte::<S>(l, byte).dev.slot == l.dev.slot,
        device::after_byte::<S>(l, byte).dev.prev_atn == l.dev.prev_atn,
{
}

/// CLK falls behind the eighth bit.
proof fn lemma_byte_complete<S: Storage>(l: Link<S::Model>)
    requires
        1 <= l.dev.slot < crate::iec::MAX_DEVICES,
        l.dev.prev_atn == crate::iec::line_high(l.bus, Line::Atn),
        !crate::iec::line_high(l.bus, Line::Clk),
        l.dev.state == State::RxBitWaitLow,
        l.dev.bit == 8,
    ensures
        ({
            let a = device::byte_taken(l);
            &&& device::ticked_once::<S>(l) == device::after_byte::<S>(a, l.dev.shift)
            &&& device::ticked_once::<S>(l).bus == a.bus
            &&& crate::iec::pulls_line(a.bus, l.dev.slot as int, Line::Data)
        }),
{
    let data = crate::iec::line_high(l.bus, Line::Data);
    let t = Link {
        dev: Device { timer: l.dev.timer.saturating_add(1), ..l.dev },
        ..l
    };
    lemma_pulling(l, Line::Data, true);
    let a = device::byte_taken(l);
    assert(a == device::byte_taken(t));
    lemma_byte_frame::<S>(a, l.dev.shift);
    let r = device::receiving::<S>(t, false, data);
    assert(r == device::after_byte::<S>(a, l.dev.shift));
    assert(device::sending::<S>(r, false, data) == r);
}

// ---- a byte sent ----

/// ATN is as the device last saw it.
pub open spec fn atn_steady<M>(l: Link<M>) -> bool {
    &&& l.dev.slot < crate::iec::MAX_DEVICES
    &&& l.dev.prev_atn == crate::iec::line_high(l.bus, Line::Atn)
}

/// The levels the device itself asks for.
pub open spec fn asks_for<M>(l: Link<M>, clk_low: bool, data_low: bool) -> bool {
    &&& crate::iec::pulls_line(l.bus, l.dev.slot as int, Line::Clk) == clk_low
    &&& crate::iec::pulls_line(l.bus, l.dev.slot as int, Line::Data) == data_low
}

/// A change that spares ATN leaves its level alone.
proof fn lemma_atn_spared(a: Bus, b: Bus, d: int)
    requires
        0 <= d < crate::iec::MAX_DEVICES,
        same_elsewhere(a, b, d),
    ensures
        crate::iec::line_high(b, Line::Atn) == crate::iec::line_high(a, Line::Atn),
{
    assert forall|e: int| 0 <= e < crate::iec::MAX_DEVICES implies
        crate::iec::pulls_line(b, e, Line::Atn) == crate::iec::pulls_line(a, e, Line::Atn) by {
        if e != d {
            assert(b.pulls[e] == a.pulls[e]);
        }
    }
}

/// One cycle of setting up a bit.
proof fn lemma_bit_set_tick<S: Storage>(l: Link<S::Model>)
    requires
        atn_steady(l),
        l.dev.state == State::TxBitSet,
        l.dev.timer < device::SETTLE,
    ensures
        ({
            let r = device::ticked_once::<S>(l);
            let last = l.dev.timer + 1 == device::SETTLE;
            &&& atn_steady(r)
            &&& r.store == l.store
            &&& r.dev == (Device {
                state: if last { State::TxBitHold } else { State::TxBitSet },
                timer: if last { 0 } else { (l.dev.timer + 1) as u32 },
                ..l.dev
            })
            &&& last ==> asks_for(r, false, l.dev.shift % 2 == 0)
        }),
{
    let t = Link { dev: Device { timer: l.dev.timer.saturating_add(1), ..l.dev }, ..l };
    let p = device::pulling(t, Line::Data, t.dev.shift % 2 == 0);
    lemma_pulling(t, Line::Data, t.dev.shift % 2 == 0);
    lemma_pulling(p, Line::Clk, false);
    lemma_atn_spared(l.bus, p.bus, l.dev.slot as int);
    lemma_atn_spared(p.bus, device::pulling(p, Line::Clk, false).bus, l.dev.slot as int);
}

/// One cycle of holding a bit.
proof fn lemma_bit_hold_tick<S: Storage>(l: Link<S::Model>)
    requires
        atn_steady(l),
        l.dev.state == State::TxBitHold,
        l.dev.timer < device::BIT_HOLD,
        l.dev.bit < 8,
    ensures
        ({
            let r = device::ticked_once::<S>(l);
            let last = l.dev.timer + 1 == device::BIT_HOLD;
            &&& atn_steady(r)
            &&& r.store == l.store
            &&& !last ==> r.dev == (Device { timer: (l.dev.timer + 1) as u32, ..l.dev })
                && r.bus == l.bus
            &&& last ==> r.dev == (Device {
                state: if l.dev.bit == 7 { State::TxWaitAck } else { State::TxBitSet },
                timer: 0,
                shift: l.dev.shift / 2,
                bit: (l.dev.bit + 1) as u8,
                ..l.dev
            }) && asks_for(r, true, false)
        }),
{
    let t = Link { dev: Device { timer: l.dev.timer.saturating_add(1), ..l.dev }, ..l };
    let p = device::pulling(t, Line::Clk, true);
    lemma_pulling(t, Line::Clk, true);
    lemma_pulling(p, Line::Data, false);
    lemma_atn_spared(l.bus, p.bus, l.dev.slot as int);
    lemma_atn_spared(p.bus, device::pulling(p, Line::Data, false).bus, l.dev.slot as int);
}

proof fn lemma_bit_set_ticks<S: Storage>(l: Link<S::Model>, n: nat)
    requires
        atn_steady(l),
        l.dev.state == State::TxBitSet,
        l.dev.timer == 0,
        n <= device::SETTLE,
    ensures
        ({
            let r = device::ticked::<S>(l, n);
            let last = n == device::SETTLE;
            &&& atn_steady(r)
            &&& r.store == l.store
            &&& r.dev == (Device {
                state: if last { State::TxBitHold } else { State::TxBitSet },
                timer: if last { 0 } else { n as u32 },
                ..l.dev
            })
            &&& last ==> asks_for(r, false, l.dev.shift % 2 == 0)
        }),
    decreases n,
{
    if n > 0 {
        lemma_bit_set_ticks::<S>(l, (n - 1) as nat);
        lemma_bit_set_tick::<S>(device::ticked::<S>(l, (n - 1) as nat));
    }
}

proof fn lemma_bit_hold_ticks<S: Storage>(l: Link<S::Model>, n: nat)
    requires
        atn_steady(l),
        l.dev.state == State::TxBitHold,
        l.dev.timer == 0,
        l.dev.bit < 8,
        n <= device::BIT_HOLD,
    ensures
        ({
            let r = device::ticked::<S>(l, n);
            &&& atn_steady(r)
            &&& r.store == l.store
            &&& n < device::BIT_HOLD ==> r.dev == (Device { timer: n as u32, ..l.dev })
                && r.bus == l.bus
            &&& n == device::BIT_HOLD ==> r.dev == (Device {
                state: if l.dev.bit == 7 { State::TxWaitAck } else { State::TxBitSet },
                timer: 0,
                shift: l.dev.shift / 2,
                bit: (l.dev.bit + 1) as u8,
                ..l.dev
            }) && asks_for(r, true, false)
        }),
    decreases n,
{
    if n > 0 {
        lemma_bit_hold_ticks::<S>(l, (n - 1) as nat);
        lemma_bit_hold_tick::<S>(device::ticked::<S>(l, (n - 1) as nat));
    }
}

/// Cycles add up.
pub proof fn law_ticks_add<S: Storage>(l: Link<S::Model>, m: nat, n: nat)
    ensures
        device::ticked::<S>(device::ticked::<S>(l, m), n) == device::ticked::<S>(l, m + n),
    decreases n,
{
    if n > 0 {
        law_ticks_add::<S>(l, m, (n - 1) as nat);
        assert((m + n - 1) as nat == m + (n - 1) as nat);
    }
}

/// A talker sends its byte lowest bit first, DATA high for a one: each bit is
/// set up for [`device::SETTLE`] cycles, then CLK is let go and the bit stays
/// valid for [`device::BIT_HOLD`] cycles, then CLK goes low again and the next
/// bit moves up.
pub proof fn law_bit_is_sent<S: Storage>(l: Link<S::Model>, held: nat)
    requires
        atn_steady(l),
        l.dev.state == State::TxBitSet,
        l.dev.timer == 0,
        l.dev.bit < 8,
        held < device::BIT_HOLD,
    ensures
        asks_for(
            device::ticked::<S>(l, (device::SETTLE + held) as nat),
            false,
            l.dev.shift % 2 == 0,
        ),
        ({
            let r = device::ticked::<S>(l, (device::SETTLE + device::BIT_HOLD) as nat);
            &&& asks_for(r, true, false)
            &&& r.dev.shift == l.dev.shift / 2
            &&& r.dev.bit == l.dev.bit + 1
            &&& r.dev.timer == 0
            &&& r.dev.state == (if l.dev.bit == 7 { State::TxWaitAck } else { State::TxBitSet })
            &&& r.store == l.store
            &&& atn_steady(r)
        }),
{
    lemma_bit_set_ticks::<S>(l, device::SETTLE as nat);
    let h = device::ticked::<S>(l, device::SETTLE as nat);
    lemma_bit_hold_ticks::<S>(h, held);
    lemma_bit_hold_ticks::<S>(h, device::BIT_HOLD as nat);
    law_ticks_add::<S>(l, device::SETTLE as nat, held);
    law_ticks_add::<S>(l, device::SETTLE as nat, device::BIT_HOLD as nat);
}

/// A byte shifted down by `k` bits.
pub open spec fn shifted_down(b: u8, k: nat) -> u8
    decreases k,
{
    if k == 0 { b } else { shifted_down(b, (k - 1) as nat) / 2 }
}

/// The bits of a byte, lowest first.
pub open spec fn bits_of(b: u8) -> Seq<bool> {
    Seq::new(8, |k: int| shifted_down(b, k as nat) % 2 == 1)
}

/// How long one bit takes on the wire.
pub open spec fn bit_time() -> nat {
    (device::SETTLE + device::BIT_HOLD) as nat
}

/// After `k` bits, `8 - k` are left in the register.
proof fn lemma_bits_sent<S: Storage>(l: Link<S::Model>, k: nat)
    requires
        atn_steady(l),
        l.dev.state == State::TxBitSet,
        l.dev.timer == 0,
        l.dev.bit == 0,
        k <= 8,
    ensures
        ({
            let r = device::ticked::<S>(l, k * bit_time());
            &&& atn_steady(r)
            &&& r.dev.state == (if k == 8 { State::TxWaitAck } else { State::TxBitSet })
            &&& r.dev.timer == 0
            &&& r.dev.bit == k
            &&& r.dev.shift == shifted_down(l.dev.shift, k)
            &&& r.dev.slot == l.dev.slot
            &&& r.store == l.store
            &&& k > 0 ==> asks_for(r, true, false)
        }),
    decreases k,
{
    if k > 0 {
        let before = (k - 1) as nat;
        lemma_bits_sent::<S>(l, before);
        let m = device::ticked::<S>(l, before * bit_time());
        law_bit_is_sent::<S>(m, 0);
        law_ticks_add::<S>(l, before * bit_time(), bit_time());
        assert(before * bit_time() + bit_time() == k * bit_time()) by (nonlinear_arith)
            requires
                k == before + 1,
        ;
        lemma_bit_keeps_slot::<S>(m);
    } else {
        assert(k * bit_time() == 0) by (nonlinear_arith)
            requires
                k == 0,
        ;
    }
}

/// A bit sent leaves the device in its slot.
proof fn lemma_bit_keeps_slot<S: Storage>(l: Link<S::Model>)
    requires
        atn_steady(l),
        l.dev.state == State::TxBitSet,
        l.dev.timer == 0,
        l.dev.bit < 8,
    ensures
        device::ticked::<S>(l, bit_time()).dev.slot == l.dev.slot,
{
    lemma_bit_set_ticks::<S>(l, device::SETTLE as nat);
    let h = device::ticked::<S>(l, device::SETTLE as nat);
    lemma_bit_hold_ticks::<S>(h, device::BIT_HOLD as nat);
    law_ticks_add::<S>(l, device::SETTLE as nat, device::BIT_HOLD as nat);
}

/// The `k`th bit while it is held.
#[verifier::rlimit(40)]
proof fn lemma_kth_bit<S: Storage>(l: Link<S::Model>, k: nat, held: nat)
    requires
        atn_steady(l),
        l.dev.state == State::TxBitSet,
        l.dev.timer == 0,
        l.dev.bit == 0,
        k < 8,
        held < device::BIT_HOLD,
    ensures
        asks_for(
            device::ticked::<S>(l, k * bit_time() + device::SETTLE as nat + held),
            false,
            !bits_of(l.dev.shift)[k as int],
        ),
{
    lemma_bits_sent::<S>(l, k);
    let m = device::ticked::<S>(l, k * bit_time());
    let rest = (device::SETTLE + held) as nat;
    law_bit_is_sent::<S>(m, held);
    law_ticks_add::<S>(l, k * bit_time(), rest);
    assert(k * bit_time() + rest == k * bit_time() + device::SETTLE as nat + held);
}

/// A talker puts all eight bits of its byte on the wire, lowest first: while the
/// `k`th bit is held, CLK is let go and DATA is high just when that bit is a one.
/// Behind the eighth it holds CLK low and waits for the listener.
pub proof fn law_byte_is_sent_intact<S: Storage>(l: Link<S::Model>, k: nat, held: nat)
    requires
        atn_steady(l),
        l.dev.state == State::TxBitSet,
        l.dev.timer == 0,
        l.dev.bit == 0,
        k < 8,
        held < device::BIT_HOLD,
    ensures
        asks_for(
            device::ticked::<S>(l, k * bit_time() + device::SETTLE as nat + held),
            false,
            !bits_of(l.dev.shift)[k as int],
        ),
        byte_of(bits_of(l.dev.shift)) == l.dev.shift,
        ({
            let r = device::ticked::<S>(l, 8 * bit_time());
            &&& r.dev.state == State::TxWaitAck
            &&& r.store == l.store
            &&& asks_for(r, true, false)
        }),
{
    lemma_kth_bit::<S>(l, k, held);
    lemma_bits_sent::<S>(l, 8);
    lemma_bits_spell(l.dev.shift);
}

/// The bits of a byte spell it.
proof fn lemma_bits_spell(b: u8)
    ensures
        byte_of(bits_of(b)) == b,
{
    reveal_with_fuel(shifted_down, 2);
    assert(shifted_down(b, 1) == b / 2);
    assert(shifted_down(b, 2) == b / 2 / 2);
    assert(shifted_down(b, 3) == b / 2 / 2 / 2);
    assert(shifted_down(b, 4) == b / 2 / 2 / 2 / 2);
    assert(shifted_down(b, 5) == b / 2 / 2 / 2 / 2 / 2);
    assert(shifted_down(b, 6) == b / 2 / 2 / 2 / 2 / 2 / 2);
    assert(shifted_down(b, 7) == b / 2 / 2 / 2 / 2 / 2 / 2 / 2);
}

// ---- a whole transfer ----

/// One cycle of a device with this on the bus.
#[verifier::opaque]
pub open spec fn ticked_on<S: Storage>(l: Link<S::Model>, bus: Bus) -> Link<S::Model> {
    device::ticked_once::<S>(Link { bus, ..l })
}

/// A device after some cycles, whatever is on the bus before each of them.
pub open spec fn ran<S: Storage>(l: Link<S::Model>, buses: Seq<Bus>) -> Link<S::Model>
    decreases buses.len(),
{
    if buses.len() == 0 {
        l
    } else {
        ticked_on::<S>(ran::<S>(l, buses.drop_last()), buses.last())
    }
}

/// A storage after `n` reads of a channel.
pub open spec fn after_reads<S: Storage>(m: S::Model, channel: u8, n: nat) -> S::Model
    decreases n,
{
    if n == 0 { m } else { S::after_read(after_reads::<S>(m, channel, (n - 1) as nat), channel).0 }
}

/// What the storage gives at read `k` of a channel, counted from 0.
pub open spec fn nth_read<S: Storage>(m: S::Model, channel: u8, k: nat) -> Option<u8> {
    S::after_read(after_reads::<S>(m, channel, k), channel).1
}

/// A byte that a talker took up for sending, and whether it stalled to flag EOI.
pub struct Load {
    pub byte: u8,
    pub eoi: bool,
}

/// The bytes that a device takes up for sending in some cycles, in order.
pub open spec fn loads<S: Storage>(l: Link<S::Model>, buses: Seq<Bus>) -> Seq<Load>
    decreases buses.len(),
{
    if buses.len() == 0 {
        Seq::empty()
    } else {
        let before = loads::<S>(l, buses.drop_last());
        let p = ran::<S>(l, buses.drop_last()).dev;
        let r = ran::<S>(l, buses).dev;
        if takes_up(p.state, r.state) {
            before.push(Load { byte: r.shift, eoi: r.state == State::TxEoiStall })
        } else {
            before
        }
    }
}

/// From ready to send to a byte on its way, with or without the stall before it.
pub open spec fn takes_up(before: State, after: State) -> bool {
    before == State::TxReady && (after == State::TxEoiStall || after == State::TxStartByte)
}

/// The stall, and the wait for its acknowledgement to end.
pub open spec fn stalls(s: State) -> bool {
    s == State::TxEoiStall || s == State::TxEoiAckRelease
}

/// A byte is on its way out.
pub open spec fn on_its_way(s: State) -> bool {
    stalls(s) || s == State::TxStartByte || s == State::TxBitSet || s == State::TxBitHold
}

/// A talker is at work, or done.
pub open spec fn talks(s: State) -> bool {
    on_its_way(s) || s == State::TxTurnaround || s == State::TxReady || s == State::TxWaitAck
        || s == State::TxDone
}

/// One cycle of a talker: it takes up the byte it read ahead and reads the next
/// one, or it moves on with the byte it has.
proof fn lemma_talker_cycle<S: Storage>(l: Link<S::Model>, bus: Bus)
    requires
        talks(l.dev.state),
        l.dev.prev_atn,
        crate::iec::line_high(bus, Line::Atn),
        on_its_way(l.dev.state) ==> l.dev.bit < 8,
    ensures
        ({
            let r = ticked_on::<S>(l, bus);
            let next = S::after_read(l.store, l.dev.channel);
            &&& talks(r.dev.state)
            &&& r.dev.prev_atn
            &&& r.dev.channel == l.dev.channel
            &&& on_its_way(r.dev.state) ==> r.dev.bit < 8
            &&& if takes_up(l.dev.state, r.dev.state) {
                &&& l.dev.lookahead == Some(r.dev.shift)
                &&& r.dev.bit == 0
                &&& (r.store, r.dev.lookahead) == next
                &&& stalls(r.dev.state) == (next.1 is None)
            } else {
                &&& r.store == l.store
                &&& r.dev.lookahead == l.dev.lookahead
                &&& stalls(r.dev.state) ==> stalls(l.dev.state)
                &&& on_its_way(r.dev.state) ==> {
                    &&& on_its_way(l.dev.state)
                    &&& if r.dev.bit == l.dev.bit {
                        r.dev.shift == l.dev.shift
                    } else {
                        r.dev.bit == l.dev.bit + 1 && r.dev.shift == l.dev.shift / 2
                    }
                }
            }
        }),
{
    reveal(ticked_on);
    let clk = crate::iec::line_high(bus, Line::Clk);
    let data = crate::iec::line_high(bus, Line::Data);
    let t = Link {
        dev: Device { timer: l.dev.timer.saturating_add(1), ..l.dev }, bus, store: l.store,
    };
    assert(device::receiving::<S>(t, clk, data) == t);
    lemma_sending_cycle::<S>(t, clk, data);
}

proof fn lemma_sending_cycle<S: Storage>(l: Link<S::Model>, clk: bool, data: bool)
    requires
        talks(l.dev.state),
        on_its_way(l.dev.state) ==> l.dev.bit < 8,
    ensures
        ({
            let r = device::sending::<S>(l, clk, data);
            let next = S::after_read(l.store, l.dev.channel);
            &&& talks(r.dev.state)
            &&& r.dev.prev_atn == l.dev.prev_atn
            &&& r.dev.channel == l.dev.channel
            &&& on_its_way(r.dev.state) ==> r.dev.bit < 8
            &&& if takes_up(l.dev.state, r.dev.state) {
                &&& l.dev.lookahead == Some(r.dev.shift)
                &&& r.dev.bit == 0
                &&& (r.store, r.dev.lookahead) == next
                &&& stalls(r.dev.state) == (next.1 is None)
            } else {
                &&& r.store == l.store
                &&& r.dev.lookahead == l.dev.lookahead
                &&& stalls(r.dev.state) ==> stalls(l.dev.state)
                &&& on_its_way(r.dev.state) ==> {
                    &&& on_its_way(l.dev.state)
                    &&& if r.dev.bit == l.dev.bit {
                        r.dev.shift == l.dev.shift
                    } else {
                        r.dev.bit == l.dev.bit + 1 && r.dev.shift == l.dev.shift / 2
                    }
                }
            }
        }),
{
}

/// ATN is released on a talker: it reads its first byte ahead and turns the bus
/// around.
proof fn lemma_talker_turns<S: Storage>(l: Link<S::Model>, bus: Bus)
    requires
        l.dev.role == Role::Talker,
        !l.dev.prev_atn,
        crate::iec::line_high(bus, Line::Atn),
    ensures
        ({
            let r = ticked_on::<S>(l, bus);
            &&& r.dev.state == State::TxTurnaround
            &&& r.dev.prev_atn
            &&& r.dev.channel == l.dev.channel
            &&& (r.store, r.dev.lookahead) == S::after_read(l.store, l.dev.channel)
        }),
{
    reveal(ticked_on);
    let clk = crate::iec::line_high(bus, Line::Clk);
    let data = crate::iec::line_high(bus, Line::Data);
    let e = device::after_attention_released::<S>(Link { bus, ..l });
    let t = Link { dev: Device { prev_atn: true, timer: 1, ..e.dev }, ..e };
    assert(device::receiving::<S>(t, clk, data) == t);
    assert(device::sending::<S>(t, clk, data).dev == t.dev);
}

/// A whole transfer, from the release of ATN on a talker and for as long as ATN
/// stays released, whatever else happens on the bus: the bytes that the device
/// takes up for sending are those that its storage gives, each in its turn. It
/// stalls to flag EOI before the last of them and before no other. What is on its
/// way out, bit by bit, is what it took up last, and a talker is all it is.
pub proof fn law_transfer_is_the_file<S: Storage>(l: Link<S::Model>, buses: Seq<Bus>)
    requires
        l.dev.role == Role::Talker,
        !l.dev.prev_atn,
        forall|k: int| 0 <= k < buses.len() ==>
            crate::iec::line_high(#[trigger] buses[k], Line::Atn),
        buses.len() > 0,
    ensures
        ({
            let sent = loads::<S>(l, buses);
            let r = ran::<S>(l, buses);
            &&& forall|k: int| 0 <= k < sent.len() ==> {
                &&& nth_read::<S>(l.store, l.dev.channel, k as nat)
                    == Some((#[trigger] sent[k]).byte)
                &&& sent[k].eoi
                    == (nth_read::<S>(l.store, l.dev.channel, (k + 1) as nat) is None)
                &&& sent[k].eoi ==> k == sent.len() - 1
            }
            &&& r.store == after_reads::<S>(l.store, l.dev.channel, sent.len() + 1)
            &&& r.dev.lookahead == nth_read::<S>(l.store, l.dev.channel, sent.len())
            &&& on_its_way(r.dev.state) ==> {
                &&& sent.len() > 0
                &&& r.dev.shift == shifted_down(sent.last().byte, r.dev.bit as nat)
                &&& r.dev.bit < 8
                &&& stalls(r.dev.state) ==> sent.last().eoi
            }
            &&& talks(r.dev.state)
            &&& r.dev.prev_atn
            &&& r.dev.channel == l.dev.channel
        }),
    decreases buses.len(),
{
    let rest = buses.drop_last();
    let ch = l.dev.channel;
    let p = ran::<S>(l, rest);
    let r = ran::<S>(l, buses);
    let before = loads::<S>(l, rest);
    let sent = loads::<S>(l, buses);
    assert(crate::iec::line_high(buses[buses.len() - 1], Line::Atn));
    if rest.len() == 0 {
        lemma_talker_turns::<S>(l, buses.last());
        assert(sent =~= Seq::<Load>::empty());
        assert(after_reads::<S>(l.store, ch, 0) == l.store);
        reveal_with_fuel(after_reads, 2);
    } else {
        assert forall|k: int| 0 <= k < rest.len() implies
            crate::iec::line_high(#[trigger] rest[k], Line::Atn) by {
            assert(rest[k] == buses[k]);
        }
        law_transfer_is_the_file::<S>(l, rest);
        lemma_talker_cycle::<S>(p, buses.last());
        if takes_up(p.dev.state, r.dev.state) {
            assert(sent.len() == before.len() + 1);
            assert(sent.last() == (Load { byte: r.dev.shift, eoi: stalls(r.dev.state) }));
            assert forall|k: int| 0 <= k < sent.len() implies {
                &&& nth_read::<S>(l.store, ch, k as nat) == Some((#[trigger] sent[k]).byte)
                &&& sent[k].eoi == (nth_read::<S>(l.store, ch, (k + 1) as nat) is None)
                &&& sent[k].eoi ==> k == sent.len() - 1
            } by {
                if k < before.len() {
                    assert(sent[k] == before[k]);
                    if k == before.len() - 1 {
                        assert((k + 1) as nat == before.len());
                    }
                }
            }
        } else {
            assert(sent == before);
        }
    }
}

} // verus!
