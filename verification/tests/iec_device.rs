//! A device answers the controller over the bus.

use c64research::iec::device::{
    Device, Storage, BIT_HOLD, DEFAULT_ADDRESS, EOI_ACK_HOLD, NAME_MAX, SETTLE,
};
use c64research::iec::{Bus, Line, CONTROLLER};

/// A storage that hands back a fixed script of bytes.
struct Fixture {
    data: &'static [u8],
    pos: usize,
    opened: Option<[u8; NAME_MAX]>,
    opened_len: usize,
    written: [u8; 16],
    written_len: usize,
}

impl Fixture {
    fn new(data: &'static [u8]) -> Self {
        Fixture {
            data,
            pos: 0,
            opened: None,
            opened_len: 0,
            written: [0; 16],
            written_len: 0,
        }
    }
    fn name(&self) -> &[u8] {
        match &self.opened {
            Some(n) => &n[..self.opened_len],
            None => &[],
        }
    }
}

impl Storage for Fixture {
    type Model = ();

    fn open(&mut self, _channel: u8, name: &[u8]) -> bool {
        let mut buf = [0u8; NAME_MAX];
        let n = name.len().min(NAME_MAX);
        buf[..n].copy_from_slice(&name[..n]);
        self.opened = Some(buf);
        self.opened_len = n;
        self.pos = 0;
        true
    }
    fn read(&mut self, _channel: u8) -> Option<u8> {
        let b = self.data.get(self.pos).copied();
        if b.is_some() {
            self.pos += 1;
        }
        b
    }
    fn write(&mut self, _channel: u8, byte: u8) {
        if self.written_len < self.written.len() {
            self.written[self.written_len] = byte;
            self.written_len += 1;
        }
    }
    fn close(&mut self, _channel: u8) {}
}

/// A minimal stand-in for the KERNAL's side of the bus, so the device can be
/// exercised without booting a whole C64. It follows the same rules the ROM
/// does, which is the point: if the two agree, the device is talking
/// Commodore serial and not some private dialect.
struct Controller {
    bus: Bus,
}

impl Controller {
    fn new() -> Self {
        Controller { bus: Bus::new() }
    }

    fn atn(&mut self, low: bool) {
        self.bus.pull(CONTROLLER, Line::Atn, low);
    }
    fn clk(&mut self, low: bool) {
        self.bus.pull(CONTROLLER, Line::Clk, low);
    }
    fn data(&mut self, low: bool) {
        self.bus.pull(CONTROLLER, Line::Data, low);
    }

    /// Run the device for `cycles`, then return.
    fn run<S: Storage>(&mut self, dev: &mut Device, s: &mut S, cycles: u32) {
        dev.tick(&mut self.bus, s, cycles);
    }

    /// Spin until `pred` holds, up to a budget. Returns false on timeout.
    fn wait<S: Storage, F: Fn(&Bus) -> bool>(
        &mut self,
        dev: &mut Device,
        s: &mut S,
        pred: F,
        budget: u32,
    ) -> bool {
        for _ in 0..budget {
            if pred(&self.bus) {
                return true;
            }
            dev.tick(&mut self.bus, s, 1);
        }
        pred(&self.bus)
    }

    /// Send one byte, mirroring `$ED40` ISOUR.
    fn send<S: Storage>(&mut self, dev: &mut Device, s: &mut S, byte: u8) -> bool {
        // The device should be holding DATA low; that is "present".
        if self.bus.data() {
            return false;
        }
        self.clk(false); // CLKHI: ready to send
        if !self.wait(dev, s, |b| b.data(), 5_000) {
            return false; // device never said "ready for data"
        }
        self.clk(true); // CLKLO: byte starts
        self.run(dev, s, SETTLE);

        let mut v = byte;
        for _ in 0..8 {
            self.data(v & 1 == 0); // pull low for a zero
            self.run(dev, s, SETTLE);
            self.clk(false); // rising edge: bit valid
            self.run(dev, s, BIT_HOLD);
            self.clk(true);
            self.data(false);
            self.run(dev, s, SETTLE);
            v >>= 1;
        }
        // Wait for the frame acknowledge: DATA pulled low.
        self.wait(dev, s, |b| !b.data(), 5_000)
    }

    /// Receive one byte, mirroring `$EE13` ACPTR. Returns `(byte, eoi)`.
    fn recv<S: Storage>(&mut self, dev: &mut Device, s: &mut S) -> Option<(u8, bool)> {
        self.clk(false);
        if !self.wait(dev, s, |b| b.clk(), 20_000) {
            return None; // talker never said "ready to send"
        }
        self.data(false); // ready for data

        // Time the gap before CLK falls: a long one means EOI.
        let mut eoi = false;
        let mut waited = 0u32;
        while self.bus.clk() {
            dev.tick(&mut self.bus, s, 1);
            waited += 1;
            if waited > 300 && !eoi {
                // Timer B expired: EOI. Acknowledge with a DATA pulse.
                eoi = true;
                self.data(true);
                self.run(dev, s, EOI_ACK_HOLD);
                self.data(false);
            }
            if waited > 60_000 {
                return None;
            }
        }

        let mut value = 0u8;
        for _ in 0..8 {
            if !self.wait(dev, s, |b| b.clk(), 20_000) {
                return None;
            }
            value >>= 1;
            if self.bus.data() {
                value |= 0x80;
            }
            if !self.wait(dev, s, |b| !b.clk(), 20_000) {
                return None;
            }
        }
        self.data(true); // acknowledge the byte
        self.run(dev, s, SETTLE);
        Some((value, eoi))
    }

    /// LISTEN/TALK/etc.: a command byte, sent with ATN asserted.
    fn command<S: Storage>(&mut self, dev: &mut Device, s: &mut S, byte: u8) -> bool {
        self.atn(true);
        self.clk(true);
        self.run(dev, s, SETTLE);
        self.send(dev, s, byte)
    }
}

#[test]
fn pulls_data_low_the_moment_atn_is_asserted() {
    let mut c = Controller::new();
    let mut d = Device::new(DEFAULT_ADDRESS, 1);
    let mut s = Fixture::new(b"");

    assert!(c.bus.data(), "idle bus: DATA floats high");
    c.atn(true);
    c.run(&mut d, &mut s, 1);
    assert!(!c.bus.data(), "a device must answer attention by pulling DATA low");
}

#[test]
fn command_byte_is_received_intact() {
    let mut c = Controller::new();
    let mut d = Device::new(DEFAULT_ADDRESS, 1);
    let mut s = Fixture::new(b"");

    // LISTEN 8 = $20 + 8.
    assert!(c.command(&mut d, &mut s, 0x28), "LISTEN 8 should be acknowledged");
    assert!(d.is_addressed(), "device 8 should now be a listener");
}

/// Addressing another device: ours still *acknowledges* the command byte -
/// under ATN everyone does: but drops off the bus the moment ATN is
/// released, leaving DATA to float high.
///
/// That two-step is why a missing drive is reported at the first data byte
/// and not at the LISTEN that addressed it.
#[test]
fn another_devices_address_is_acknowledged_then_dropped() {
    let mut c = Controller::new();
    let mut d = Device::new(DEFAULT_ADDRESS, 1);
    let mut s = Fixture::new(b"");

    // LISTEN 9: not us, but still answered while ATN is low.
    assert!(c.command(&mut d, &mut s, 0x29), "every device answers under ATN");
    assert!(!d.is_addressed(), "device 8 must not take device 9's address");
    assert!(!c.bus.data(), "DATA stays low for as long as ATN is asserted");

    // ATN released: nothing on this chain is addressed, so DATA floats.
    c.atn(false);
    c.run(&mut d, &mut s, SETTLE);
    assert!(c.bus.data(), "an unaddressed device lets go once ATN is high");
}

/// The full shape of a `LOAD`: open a channel, send a name, turn the bus
/// around, and read the file back with EOI on the last byte.
#[test]
fn open_then_talk_transfers_a_file() {
    const FILE: &[u8] = &[0x01, 0x08, 0x99, 0x42, 0xFF];
    let mut c = Controller::new();
    let mut d = Device::new(DEFAULT_ADDRESS, 1);
    let mut s = Fixture::new(FILE);

    // LISTEN 8, OPEN channel 0, "TEST", UNLISTEN.
    assert!(c.command(&mut d, &mut s, 0x28));
    assert!(c.command(&mut d, &mut s, 0xF0));
    c.atn(false);
    c.run(&mut d, &mut s, SETTLE);
    for &b in b"TEST" {
        assert!(c.send(&mut d, &mut s, b), "filename byte {b:#04X} was not taken");
    }
    assert!(c.command(&mut d, &mut s, 0x3F)); // UNLISTEN completes the OPEN
    assert_eq!(s.name(), b"TEST", "the device should have collected the name");

    // TALK 8, channel 0, then turn the bus around.
    assert!(c.command(&mut d, &mut s, 0x48));
    assert!(c.command(&mut d, &mut s, 0x60));
    c.data(true); // the C64 becomes a listener: DATALO before releasing ATN
    c.atn(false);
    c.run(&mut d, &mut s, SETTLE);

    let mut got = [0u8; 8];
    let mut n = 0;
    loop {
        let (byte, eoi) = c.recv(&mut d, &mut s).expect("transfer stalled");
        got[n] = byte;
        n += 1;
        if eoi {
            break;
        }
        assert!(n < got.len(), "never saw EOI");
    }
    assert_eq!(&got[..n], FILE, "the file should arrive byte-for-byte");
}

#[test]
fn data_bytes_reach_storage_when_listening() {
    let mut c = Controller::new();
    let mut d = Device::new(DEFAULT_ADDRESS, 1);
    let mut s = Fixture::new(b"");

    // LISTEN 8, channel 2 (not an OPEN, so bytes are data), then send.
    assert!(c.command(&mut d, &mut s, 0x28));
    assert!(c.command(&mut d, &mut s, 0x62));
    c.atn(false);
    c.run(&mut d, &mut s, SETTLE);
    for &b in b"HI" {
        assert!(c.send(&mut d, &mut s, b));
    }
    assert_eq!(&s.written[..s.written_len], b"HI");
}

impl Controller {
    /// Send the last byte of a transfer: hold back until the device has
    /// acknowledged the EOI.
    fn send_last<S: Storage>(&mut self, dev: &mut Device, s: &mut S, byte: u8) -> bool {
        self.clk(false);
        self.wait(dev, s, |b| b.data(), 5_000)
            && self.wait(dev, s, |b| !b.data(), 5_000)
            && self.wait(dev, s, |b| b.data(), 5_000)
            && self.send_bits(dev, s, byte)
    }

    fn send_bits<S: Storage>(&mut self, dev: &mut Device, s: &mut S, byte: u8) -> bool {
        self.clk(true);
        self.run(dev, s, SETTLE);
        for k in 0..8 {
            self.data(byte >> k & 1 == 0);
            self.run(dev, s, SETTLE);
            self.clk(false);
            self.run(dev, s, BIT_HOLD);
            self.clk(true);
            self.data(false);
            self.run(dev, s, SETTLE);
        }
        self.wait(dev, s, |b| !b.data(), 5_000)
    }
}

/// EOI is told of the last byte only.
#[test]
fn eoi_is_told_of_the_last_byte_only() {
    let mut c = Controller::new();
    let mut d = Device::new(DEFAULT_ADDRESS, 1);
    let mut s = Fixture::new(b"");
    assert!(c.command(&mut d, &mut s, 0x28));
    assert!(c.command(&mut d, &mut s, 0x62));
    c.atn(false);
    c.run(&mut d, &mut s, SETTLE);
    assert!(c.send(&mut d, &mut s, b'H'));
    assert!(!d.took_eoi());
    assert!(c.send_last(&mut d, &mut s, b'I'));
    assert!(d.took_eoi());
    assert!(c.send(&mut d, &mut s, b'!'));
    assert!(!d.took_eoi(), "the byte that followed came without it");
    assert_eq!(&s.written[..s.written_len], b"HI!");
}

/// The name of an OPEN reaches the storage in one piece, cut at what there is
/// room for, and none of it is written as data.
#[test]
fn a_long_name_is_cut_and_never_written() {
    let mut c = Controller::new();
    let mut d = Device::new(DEFAULT_ADDRESS, 1);
    let mut s = Fixture::new(b"");
    let long: Vec<u8> = (0..NAME_MAX as u8 + 5).map(|k| b'A' + k % 26).collect();
    assert!(c.command(&mut d, &mut s, 0x28));
    assert!(c.command(&mut d, &mut s, 0xF2));
    c.atn(false);
    c.run(&mut d, &mut s, SETTLE);
    for &b in &long {
        assert!(c.send(&mut d, &mut s, b));
    }
    assert_eq!(s.opened, None, "nothing is opened before UNLISTEN");
    assert!(c.command(&mut d, &mut s, 0x3F));
    assert_eq!(s.name(), &long[..NAME_MAX]);
    assert_eq!(s.written_len, 0);
    assert!(!d.is_addressed());
}

/// Each level of CLK may last as long as the controller likes, and DATA counts
/// only when CLK rises: in between it may do anything.
#[test]
fn levels_may_last_any_time() {
    for (up, down) in [(1u32, 1u32), (1, 90), (500, 1), (7, 13)] {
        let mut c = Controller::new();
        let mut d = Device::new(DEFAULT_ADDRESS, 1);
        let mut s = Fixture::new(b"");
        assert!(c.command(&mut d, &mut s, 0x28));
        assert!(c.command(&mut d, &mut s, 0x62));
        c.atn(false);
        c.run(&mut d, &mut s, SETTLE);
        c.clk(false);
        assert!(c.wait(&mut d, &mut s, |b| b.data(), 100));
        c.clk(true);
        c.run(&mut d, &mut s, down);
        let byte = 0b1010_0110u8;
        for k in 0..8 {
            c.data(byte >> k & 1 == 0);
            c.clk(false);
            c.run(&mut d, &mut s, 1);
            c.data(k % 2 == 0);
            c.run(&mut d, &mut s, up - 1);
            c.clk(true);
            c.run(&mut d, &mut s, 1);
            c.data(k % 3 == 0);
            c.run(&mut d, &mut s, down - 1);
        }
        c.data(false);
        assert!(c.bus.pulled_low(Line::Data), "the byte is acknowledged");
        assert_eq!(&s.written[..s.written_len], [byte], "{up} up, {down} down");
    }
}

/// A talker sends what its storage gives, in order, and flags the last byte only.
#[test]
fn every_byte_is_sent_and_the_last_one_flagged() {
    const FILE: &[u8] = &[0x00, 0xFF, 0x3F, 0x5A];
    for len in 1..=FILE.len() {
        let mut c = Controller::new();
        let mut d = Device::new(DEFAULT_ADDRESS, 1);
        let mut s = Fixture::new(&FILE[..len]);
        assert!(c.command(&mut d, &mut s, 0x48));
        assert!(c.command(&mut d, &mut s, 0x60));
        c.data(true);
        c.atn(false);
        c.run(&mut d, &mut s, SETTLE);
        let sent: Vec<(u8, bool)> =
            (0..len).map(|_| c.recv(&mut d, &mut s).expect("transfer stalled")).collect();
        let want: Vec<(u8, bool)> =
            FILE[..len].iter().enumerate().map(|(k, &b)| (b, k + 1 == len)).collect();
        assert_eq!(sent, want);
    }
}

/// The bytes of an OPEN, one by one: opened once, at UNLISTEN.
#[test]
fn an_open_completes_at_unlisten() {
    let mut d = Device::new(DEFAULT_ADDRESS, 1);
    let mut s = Fixture::new(b"");
    d.under_atn = true;
    d.byte_received(&mut s, 0x28);
    assert!(d.is_addressed());
    d.byte_received(&mut s, 0xF3);
    d.under_atn = false;
    for &b in b"NAME" {
        d.byte_received(&mut s, b);
    }
    assert_eq!(s.opened, None);
    d.under_atn = true;
    d.byte_received(&mut s, 0x3F);
    assert_eq!(s.name(), b"NAME");
    assert_eq!(s.written_len, 0);
    assert!(!d.is_addressed());
}
