//! A `.d64` image behind the serial-bus [`Storage`] interface: the disk half of
//! a disk drive, with none of the mechanism.
//!
//! [`crate::d64::Disk`] already knows how to read the directory and follow a
//! file's sector chain. This adds the part a C64 actually talks to: filename
//! parsing (including `*` and `?` patterns), the command/error channel, and the
//! `$` directory, which on a real drive is not a file at all but a **BASIC
//! program synthesised on the fly** so that `LOAD"$",8` + `LIST` shows you a
//! listing.
//!
//! What is deliberately missing: writing, and anything to do with GCR or the
//! head. A real 1541 reaches its bytes by stepping a motor; this reaches them
//! with an array index.

use vstd::prelude::*;
use crate::d64::{Disk, Entry};
use crate::iec::Storage;
use crate::{d64, text};

verus! {

/// How many secondary addresses a device has.
pub const CHANNELS: usize = 16;

/// The command/error channel. Secondary address 15 is not a file: writing to it
/// issues a DOS command, and reading it returns the drive's status line.
pub const COMMAND_CHANNEL: u8 = 15;

/// The longest command the drive will buffer.
pub const COMMAND_MAX: usize = 64;

// ---- the status line ----

/// What the error channel says.
pub struct Status {
    pub code: u8,
    pub message: Seq<char>,
    pub track: u8,
    pub sector: u8,
}

/// A status without a place on the disk.
pub open spec fn plain_status(code: u8, message: Seq<char>) -> Status {
    Status { code, message, track: 0, sector: 0 }
}

/// `00,OK,00,00`
pub open spec fn status_ok() -> Status {
    plain_status(0, "OK"@)
}

/// The drive's current status, as the error channel reports it.
///
/// A 1541 answers with `code,MESSAGE,track,sector` followed by a carriage
/// return, always in that shape, which is why `INPUT#15,A,B$,C,D` is the
/// idiomatic way to read it. Two behaviours matter and are easy to miss:
///
/// - **Reading the channel clears it.** After you read an error, the drive
///   reverts to `00,OK,00,00`. Programs rely on that to tell a fresh error from
///   a stale one.
/// - **A freshly powered drive reports `73`**, its DOS version banner, not `00`.
///   Getting `73` back is how you know nobody has talked to it yet.
#[derive(Debug, Clone, Copy, PartialEq, Eq)]
pub struct DosStatus {
    pub code: u8,
    pub message: &'static str,
    pub track: u8,
    pub sector: u8,
}

impl View for DosStatus {
    type V = Status;

    open spec fn view(&self) -> Status {
        Status {
            code: self.code,
            message: self.message@,
            track: self.track,
            sector: self.sector,
        }
    }
}

/// Two decimal digits in ASCII; of a number over 99, its last two.
pub open spec fn two_digits(n: u8) -> Seq<u8> {
    seq![(0x30 + n / 10 % 10) as u8, (0x30 + n % 10) as u8]
}

/// The bytes of a status line.
pub open spec fn status_line(s: Status) -> Seq<u8> {
    two_digits(s.code) + seq![0x2Cu8] + vstd::utf8::encode_utf8(s.message) + seq![0x2Cu8]
        + two_digits(s.track) + seq![0x2Cu8] + two_digits(s.sector) + seq![0x0Du8]
}

impl DosStatus {
    /// `00,OK,00,00`: nothing wrong.
    pub fn ok() -> (s: DosStatus)
        ensures
            s@ == status_ok(),
    {
        DosStatus { code: 0, message: "OK", track: 0, sector: 0 }
    }

    /// The power-on banner a 1541 reports until it is initialised.
    pub fn power_on() -> (s: DosStatus)
        ensures
            s@ == plain_status(73, "CBM DOS V2.6 1541"@),
    {
        DosStatus { code: 73, message: "CBM DOS V2.6 1541", track: 0, sector: 0 }
    }

    /// `62,FILE NOT FOUND`: the open failed.
    pub fn file_not_found() -> (s: DosStatus)
        ensures
            s@ == plain_status(62, "FILE NOT FOUND"@),
    {
        DosStatus { code: 62, message: "FILE NOT FOUND", track: 0, sector: 0 }
    }

    /// `31,SYNTAX ERROR`: the command wasn't understood.
    pub fn syntax_error() -> (s: DosStatus)
        ensures
            s@ == plain_status(31, "SYNTAX ERROR"@),
    {
        DosStatus { code: 31, message: "SYNTAX ERROR", track: 0, sector: 0 }
    }

    /// `26,WRITE PROTECT ON`: this drive is read-only.
    pub fn write_protect() -> (s: DosStatus)
        ensures
            s@ == plain_status(26, "WRITE PROTECT ON"@),
    {
        DosStatus { code: 26, message: "WRITE PROTECT ON", track: 0, sector: 0 }
    }

    /// `74,DRIVE NOT READY`: no disk.
    pub fn not_ready() -> (s: DosStatus)
        ensures
            s@ == plain_status(74, "DRIVE NOT READY"@),
    {
        DosStatus { code: 74, message: "DRIVE NOT READY", track: 0, sector: 0 }
    }

    /// The exact bytes the drive sends: `NN,MESSAGE,TT,SS` + CR.
    pub fn to_line(self) -> (out: Vec<u8>)
        ensures
            out@ == status_line(self@),
    {
        let mut out: Vec<u8> = Vec::new();
        push_two(&mut out, self.code);
        out.push(0x2C);
        out.extend_from_slice(self.message.as_bytes());
        out.push(0x2C);
        push_two(&mut out, self.track);
        out.push(0x2C);
        push_two(&mut out, self.sector);
        out.push(0x0D);
        assert(out@ =~= status_line(self@));
        out
    }
}

fn push_two(out: &mut Vec<u8>, n: u8)
    ensures
        final(out)@ == old(out)@ + two_digits(n),
{
    out.push(0x30 + n / 10 % 10);
    out.push(0x30 + n % 10);
    assert(out@ =~= old(out)@ + two_digits(n));
}

// ---- names and patterns ----

/// A filename in PETSCII as text, up to the first comma (a CBM name can carry
/// `,P,R` type/mode options). The shifted letters fold down; bytes that are
/// neither printable nor shifted letters are dropped.
pub open spec fn name_text(raw: Seq<u8>) -> Seq<char>
    decreases raw.len(),
{
    if raw.len() == 0 || raw[0] == 0x2C {
        Seq::empty()
    } else if 0x20 <= raw[0] <= 0x7E {
        seq![raw[0] as char] + name_text(raw.skip(1))
    } else if 0xC1 <= raw[0] <= 0xDA {
        seq![((raw[0] - 0x80) as u8) as char] + name_text(raw.skip(1))
    } else {
        name_text(raw.skip(1))
    }
}

/// The pattern that a name sent by the C64 stands for.
pub open spec fn pattern_of(raw: Seq<u8>) -> Seq<char> {
    text::uppercase(text::trimmed(name_text(raw)))
}

/// CBM pattern matching: `*` matches the rest of the name, `?` any single
/// character.
pub open spec fn pattern_matches(p: Seq<u8>, n: Seq<u8>) -> bool
    decreases p.len(),
{
    if p.len() == 0 {
        n.len() == 0
    } else if p[0] == 0x2A {
        true
    } else {
        n.len() > 0 && (p[0] == 0x3F || p[0] == n[0]) && pattern_matches(p.skip(1), n.skip(1))
    }
}

/// Does an entry match a pattern?
pub open spec fn entry_matches(pattern: Seq<char>, e: Entry) -> bool {
    d64::is_prg_entry(e) && pattern_matches(
        vstd::utf8::encode_utf8(pattern), vstd::utf8::encode_utf8(text::uppercase(e.name)))
}

/// The first program that matches a pattern.
pub open spec fn first_match(entries: Seq<Entry>, pattern: Seq<char>) -> Option<Entry>
    decreases entries.len(),
{
    if entries.len() == 0 {
        None
    } else if entry_matches(pattern, entries[0]) {
        Some(entries[0])
    } else {
        first_match(entries.skip(1), pattern)
    }
}

// ---- the directory as a program ----

/// A line of a BASIC program: a link (any nonzero one will do), the line number,
/// the text and a zero.
pub open spec fn basic_line(number: int, text: Seq<u8>) -> Seq<u8> {
    seq![0x01u8, 0x01, (number % 256) as u8, (number / 256) as u8] + text + seq![0x00u8]
}

/// The reverse-video header of a listing: the disk's name in quotes, its ID and
/// its DOS type.
pub open spec fn listing_head(img: Seq<u8>) -> Seq<u8> {
    seq![0x12u8, 0x22]
        + Seq::new(16, |k: int| if d64::bam(img, 0x90 + k) < 0x20 { 0xA0 } else { d64::bam(img, 0x90 + k) })
        + seq![
            0x22u8, 0x20,
            d64::outside_quotes(d64::bam(img, 0xA2)), d64::outside_quotes(d64::bam(img, 0xA3)),
            0x20,
            d64::outside_quotes(d64::bam(img, 0xA5)), d64::outside_quotes(d64::bam(img, 0xA6)),
        ]
}

/// `n` spaces.
pub open spec fn spaces(n: nat) -> Seq<u8> {
    Seq::new(n, |k: int| 0x20u8)
}

/// The three-letter type a directory listing shows.
pub open spec fn file_kind(file_type: u8) -> Seq<u8> {
    let t = file_type % 16;
    if t == 0 { seq![0x44u8, 0x45, 0x4C] }
    else if t == 1 { seq![0x53u8, 0x45, 0x51] }
    else if t == 2 { seq![0x50u8, 0x52, 0x47] }
    else if t == 3 { seq![0x55u8, 0x53, 0x52] }
    else if t == 4 { seq![0x52u8, 0x45, 0x4C] }
    else { seq![0x3Fu8, 0x3F, 0x3F] }
}

/// How far an entry is indented, so that the quoted names line up once `LIST`
/// has printed the block count as a line number.
pub open spec fn indent(size: u16) -> nat {
    if size <= 9 { 3 } else if size <= 99 { 2 } else { 1 }
}

/// The text of an entry's line. The name field is 18 columns wide with quotes.
pub open spec fn entry_text(e: Entry) -> Seq<u8> {
    let name = vstd::utf8::encode_utf8(e.name);
    let fill = if name.len() + 2 < 18 { (16 - name.len()) as nat } else { 0 };
    spaces(indent(e.size_sectors)) + seq![0x22u8] + name + seq![0x22u8] + spaces(fill)
        + file_kind(e.file_type)
}

/// The lines of the first `n` entries.
pub open spec fn entry_lines(entries: Seq<Entry>, n: int) -> Seq<u8>
    decreases n,
{
    if n <= 0 {
        Seq::empty()
    } else {
        entry_lines(entries, n - 1)
            + basic_line(entries[n - 1].size_sectors as int, entry_text(entries[n - 1]))
    }
}

/// `BLOCKS FREE.`
pub open spec fn blocks_free_text() -> Seq<u8> {
    seq![0x42u8, 0x4C, 0x4F, 0x43, 0x4B, 0x53, 0x20, 0x46, 0x52, 0x45, 0x45, 0x2E]
}

/// The program a drive sends for `LOAD"$",8`: load address $0401, the header as
/// line 0, one line per entry, the free blocks, and the end of the program.
pub open spec fn listing(img: Seq<u8>) -> Seq<u8> {
    let entries = d64::directory(img);
    seq![0x01u8, 0x04] + basic_line(0, listing_head(img))
        + entry_lines(entries, entries.len() as int)
        + basic_line(d64::free_upto(img, 35), blocks_free_text())
        + seq![0x00u8, 0x00]
}

// ---- the drive ----

/// One open channel: a byte stream and how far the C64 has read.
#[verifier::ext_equal]
pub struct Stream {
    pub data: Seq<u8>,
    pub pos: int,
}

/// What a drive holds.
#[verifier::ext_equal]
pub struct DriveModel {
    pub disk: Option<Seq<u8>>,
    pub channels: Seq<Stream>,
    pub last_name: Seq<char>,
    pub last_open_ok: bool,
    pub status: Status,
    /// Bytes of a command that has not ended yet.
    pub command: Seq<u8>,
}

/// A channel with nothing on it.
pub open spec fn no_stream() -> Stream {
    Stream { data: Seq::empty(), pos: 0 }
}

/// A drive fresh from the factory.
pub open spec fn fresh_drive(disk: Option<Seq<u8>>) -> DriveModel {
    DriveModel {
        disk,
        channels: Seq::new(CHANNELS as nat, |k: int| no_stream()),
        last_name: Seq::empty(),
        last_open_ok: false,
        status: plain_status(73, "CBM DOS V2.6 1541"@),
        command: Seq::empty(),
    }
}

/// The first byte of a command that is not white space.
pub open spec fn command_letter(command: Seq<u8>) -> Option<u8>
    decreases command.len(),
{
    if command.len() == 0 {
        None
    } else if text::is_space_char(command[0] as char) {
        command_letter(command.skip(1))
    } else {
        Some(command[0])
    }
}

/// Is this byte the letter, in either case?
pub open spec fn is_letter(b: u8, upper: u8) -> bool {
    b == upper || b == upper + 0x20
}

/// The status after a command. INITIALIZE and the resets need a disk, VALIDATE
/// always succeeds, what would write is refused, and anything else is not
/// understood. An empty command leaves the status alone.
pub open spec fn status_after(m: DriveModel, command: Seq<u8>) -> Status {
    match command_letter(command) {
        None => m.status,
        Some(b) => if is_letter(b, 0x49) || is_letter(b, 0x55) {
            if m.disk is Some { status_ok() } else { plain_status(74, "DRIVE NOT READY"@) }
        } else if is_letter(b, 0x56) {
            status_ok()
        } else if is_letter(b, 0x4E) || is_letter(b, 0x53) || is_letter(b, 0x52)
            || is_letter(b, 0x43) {
            plain_status(26, "WRITE PROTECT ON"@)
        } else {
            plain_status(31, "SYNTAX ERROR"@)
        },
    }
}

/// What an open of a file finds.
pub open spec fn found(disk: Option<Seq<u8>>, pattern: Seq<char>) -> Option<Seq<u8>> {
    match disk {
        None => None,
        Some(img) => if pattern.len() == 0 {
            None
        } else if pattern[0] == '$' {
            Some(listing(img))
        } else {
            match first_match(d64::directory(img), pattern) {
                Some(e) => Some(d64::file_of(img, e)),
                None => None,
            }
        },
    }
}

/// Are all the channels there?
pub open spec fn drive_usable(m: DriveModel) -> bool {
    m.channels.len() == CHANNELS
}

/// What an open has to read stays inside the image: the directory, and the chain
/// of the file that matches.
pub open spec fn can_find(img: Seq<u8>, pattern: Seq<char>) -> bool {
    pattern.len() > 0 ==> {
        &&& d64::directory_inside(img)
        &&& if pattern[0] == '$' {
            d64::is_image(img)
        } else {
            first_match(d64::directory(img), pattern) matches Some(e) ==> d64::entry_inside(img, e)
        }
    }
}

/// Can this name be opened on this channel? A command always can, and so can
/// anything while no disk is in.
pub open spec fn drive_openable(m: DriveModel, channel: u8, name: Seq<u8>) -> bool {
    channel != COMMAND_CHANNEL && m.disk is Some ==> can_find(m.disk->0, pattern_of(name))
}

/// A channel number: there are sixteen.
pub open spec fn slot(channel: u8) -> int {
    channel as int % 16
}

pub open spec fn drive_after_open(m: DriveModel, channel: u8, name: Seq<u8>) -> (DriveModel, bool) {
    if channel == COMMAND_CHANNEL {
        // The command channel is never a file: the name is a command.
        (
            DriveModel {
                status: status_after(m, name),
                channels: m.channels.update(15, no_stream()),
                ..m
            },
            true,
        )
    } else {
        let pattern = pattern_of(name);
        let data = found(m.disk, pattern);
        (
            DriveModel {
                last_name: pattern,
                last_open_ok: data is Some,
                status: if data is Some {
                    m.status
                } else if m.disk is None {
                    plain_status(74, "DRIVE NOT READY"@)
                } else {
                    plain_status(62, "FILE NOT FOUND"@)
                },
                channels: m.channels.update(
                    slot(channel),
                    Stream { data: match data { Some(d) => d, None => Seq::empty() }, pos: 0 },
                ),
                ..m
            },
            data is Some,
        )
    }
}

/// The byte under a stream's position, if there is one left.
pub open spec fn next_byte(s: Stream) -> Option<u8> {
    if 0 <= s.pos < s.data.len() { Some(s.data[s.pos]) } else { None }
}

pub open spec fn drive_after_read(m: DriveModel, channel: u8) -> (DriveModel, Option<u8>) {
    let ch = m.channels[slot(channel)];
    if channel == COMMAND_CHANNEL {
        // The status line is rendered at the first read, and the drive reverts
        // to OK once it has been read to its end.
        let line = if ch.data.len() == 0 {
            Stream { data: status_line(m.status), pos: 0 }
        } else {
            ch
        };
        match next_byte(line) {
            Some(b) => (
                DriveModel {
                    channels: m.channels.update(15, Stream { pos: line.pos + 1, ..line }),
                    ..m
                },
                Some(b),
            ),
            None => (
                DriveModel {
                    status: status_ok(),
                    channels: m.channels.update(15, no_stream()),
                    ..m
                },
                None,
            ),
        }
    } else {
        match next_byte(ch) {
            Some(b) => (
                DriveModel {
                    channels: m.channels.update(slot(channel), Stream { pos: ch.pos + 1, ..ch }),
                    ..m
                },
                Some(b),
            ),
            None => (m, None),
        }
    }
}

pub open spec fn drive_after_write(m: DriveModel, channel: u8, byte: u8) -> DriveModel {
    if channel != COMMAND_CHANNEL {
        m
    } else if byte == 0x0D {
        // A command ends at its carriage return.
        DriveModel { status: status_after(m, m.command), command: Seq::empty(), ..m }
    } else if m.command.len() < COMMAND_MAX {
        DriveModel { command: m.command.push(byte), ..m }
    } else {
        m
    }
}

pub open spec fn drive_after_close(m: DriveModel, channel: u8) -> DriveModel {
    let t = if channel == COMMAND_CHANNEL && m.command.len() > 0 {
        // Closing the command channel runs anything not yet terminated.
        DriveModel { status: status_after(m, m.command), command: Seq::empty(), ..m }
    } else {
        m
    };
    DriveModel { channels: m.channels.update(slot(channel), no_stream()), ..t }
}

/// One open channel: a byte stream and how far the C64 has read.
pub struct Channel {
    pub data: Vec<u8>,
    pub pos: usize,
}

impl View for Channel {
    type V = Stream;

    open spec fn view(&self) -> Stream {
        Stream { data: self.data@, pos: self.pos as int }
    }
}

/// A disk image serving files over the serial bus.
pub struct DiskDrive {
    pub disk: Option<Disk>,
    pub channels: Vec<Channel>,
    /// Name the last open was asked for, for tests and for a host that wants to
    /// report what the C64 is doing.
    pub last_name: String,
    pub last_open_ok: bool,
    /// What the error channel will report next.
    pub status: DosStatus,
    /// Bytes of a DOS command arriving on channel 15, until its carriage return.
    pub command: Vec<u8>,
}

/// The image in a drive.
pub open spec fn image_in(disk: Option<Disk>) -> Option<Seq<u8>> {
    match disk {
        Some(d) => Some(d@),
        None => None,
    }
}

impl View for DiskDrive {
    type V = DriveModel;

    open spec fn view(&self) -> DriveModel {
        DriveModel {
            disk: image_in(self.disk),
            channels: Seq::new(self.channels@.len(), |k: int| self.channels@[k]@),
            last_name: self.last_name@,
            last_open_ok: self.last_open_ok,
            status: self.status@,
            command: self.command@,
        }
    }
}

/// Sixteen empty channels.
fn empty_channels() -> (v: Vec<Channel>)
    ensures
        v@.len() == CHANNELS,
        forall|k: int| 0 <= k < CHANNELS ==> #[trigger] v@[k]@ == no_stream(),
{
    let mut v: Vec<Channel> = Vec::new();
    while v.len() < CHANNELS
        invariant
            v@.len() <= CHANNELS,
            forall|k: int| 0 <= k < v@.len() ==> #[trigger] v@[k]@ == no_stream(),
        decreases CHANNELS - v.len(),
    {
        let c = Channel { data: Vec::new(), pos: 0 };
        assert(c@ =~= no_stream());
        v.push(c);
    }
    v
}

impl DiskDrive {
    /// A drive with `disk` in it.
    pub fn new(disk: Disk) -> (d: Self)
        ensures
            d@ == fresh_drive(Some(disk@)),
    {
        Self::with(Some(disk))
    }

    /// A drive with no disk in it. Every open fails, as it should.
    pub fn empty() -> (d: Self)
        ensures
            d@ == fresh_drive(None),
    {
        Self::with(None)
    }

    fn with(disk: Option<Disk>) -> (d: Self)
        ensures
            d@ == fresh_drive(image_in(disk)),
    {
        let d = DiskDrive {
            disk,
            channels: empty_channels(),
            last_name: String::new(),
            last_open_ok: false,
            status: DosStatus::power_on(),
            command: Vec::new(),
        };
        assert(d@ =~= fresh_drive(image_in(disk)));
        d
    }

    /// Put a disk in (or take one out with `None`). The channels are forgotten.
    pub fn insert(&mut self, disk: Option<Disk>)
        ensures
            final(self)@ == (DriveModel {
                disk: image_in(disk),
                channels: Seq::new(CHANNELS as nat, |k: int| no_stream()),
                ..old(self)@
            }),
    {
        self.disk = disk;
        self.channels = empty_channels();
        assert(self@ =~= (DriveModel {
            disk: image_in(disk),
            channels: Seq::new(CHANNELS as nat, |k: int| no_stream()),
            ..old(self)@
        }));
    }

    /// The filename of the most recent open attempt, and whether it succeeded.
    pub fn last_open(&self) -> (r: (&str, bool))
        ensures
            r.0@ == self@.last_name,
            r.1 == self@.last_open_ok,
    {
        (self.last_name.as_str(), self.last_open_ok)
    }

    /// What the error channel would report right now, without consuming it.
    pub fn status(&self) -> (s: DosStatus)
        ensures
            s@ == self@.status,
    {
        self.status
    }

    /// Run a DOS command, as sent to channel 15.
    ///
    /// This drive is read-only, so the commands that would change a disk answer
    /// `26,WRITE PROTECT ON` rather than pretending to work: an honest refusal
    /// is far easier to debug than a silent no-op.
    fn execute(&mut self, command: &[u8])
        ensures
            final(self)@ == (DriveModel {
                status: status_after(old(self)@, command@), ..old(self)@
            }),
    {
        let mut k: usize = 0;
        assert(command@.skip(0) =~= command@);
        while k < command.len() && text::is_space(command[k] as char)
            invariant
                k <= command.len(),
                command_letter(command@.skip(k as int)) == command_letter(command@),
            decreases command.len() - k,
        {
            assert(command@.skip(k as int).skip(1) =~= command@.skip(k + 1));
            k += 1;
        }
        // Nothing to do, but a command channel opened with no command is how a
        // program asks for the status, so leave it alone.
        if k < command.len() {
            let b = command[k];
            assert(command@.skip(k as int)[0] == b);
            self.status = match text::upper(b as char) {
                // INITIALIZE / UI, UJ (reset): re-read the BAM, clear the error.
                'I' | 'U' => if self.disk.is_some() {
                    DosStatus::ok()
                } else {
                    DosStatus::not_ready()
                },
                // VALIDATE: nothing to collect on a read-only disk, so it succeeds.
                'V' => DosStatus::ok(),
                // Anything that writes: NEW (format), SCRATCH, RENAME, COPY.
                'N' | 'S' | 'R' | 'C' => DosStatus::write_protect(),
                _ => DosStatus::syntax_error(),
            };
        }
        assert(self@.channels =~= old(self)@.channels);
        assert(self@ =~= (DriveModel {
            status: status_after(old(self)@, command@), ..old(self)@
        }));
    }

    /// PETSCII filename bytes -> an uppercase string, stopping at the first `,`
    /// (a CBM name can carry `,P,R` type/mode options).
    ///
    /// PETSCII is not ASCII, and the overlap is only partial: `$20`-`$5F`
    /// coincide, the *unshifted* letters a C64 sends when you type a name live
    /// at `$41`-`$5A`, and the shifted set lives up at `$C1`-`$DA`. Fold that
    /// upper range back down and uppercase the lot, so a name compares equal
    /// however it was typed.
    pub fn parse_name(raw: &[u8]) -> (s: String)
        ensures
            s@ == pattern_of(raw@),
    {
        let mut chars: Vec<char> = Vec::new();
        let mut k: usize = 0;
        assert(raw@.skip(0) =~= raw@);
        assert(chars@ + name_text(raw@) =~= name_text(raw@));
        while k < raw.len() && raw[k] != 0x2C
            invariant
                k <= raw.len(),
                chars@ + name_text(raw@.skip(k as int)) == name_text(raw@),
            decreases raw.len() - k,
        {
            let b = raw[k];
            let ghost before = chars@;
            let ghost rest = raw@.skip(k as int);
            assert(rest.skip(1) =~= raw@.skip(k + 1));
            if 0x20 <= b && b <= 0x7E {
                chars.push(b as char);
                assert(before + (seq![b as char] + name_text(rest.skip(1)))
                    =~= chars@ + name_text(rest.skip(1)));
            } else if 0xC1 <= b && b <= 0xDA {
                // shifted letters -> $41..$5A
                chars.push((b - 0x80) as char);
                assert(before + (seq![((b - 0x80) as u8) as char] + name_text(rest.skip(1)))
                    =~= chars@ + name_text(rest.skip(1)));
            }
            k += 1;
        }
        assert(name_text(raw@.skip(k as int)) =~= Seq::<char>::empty());
        assert(chars@ =~= name_text(raw@));
        let trimmed = text::trim(chars.as_slice());
        text::string_of(text::to_upper(trimmed.as_slice()).as_slice())
    }

    /// CBM pattern matching: `*` matches the rest of the name, `?` any single
    /// character. `"*"` alone therefore matches the first file on the disk.
    pub fn matches(pattern: &str, name: &str) -> (b: bool)
        ensures
            b == pattern_matches(
                vstd::utf8::encode_utf8(pattern@), vstd::utf8::encode_utf8(name@)),
    {
        let p = pattern.as_bytes();
        let n = name.as_bytes();
        let mut i: usize = 0;
        assert(p@.skip(0) =~= p@ && n@.skip(0) =~= n@);
        while i < p.len()
            invariant
                i <= p.len(),
                i <= n.len(),
                p@ == vstd::utf8::encode_utf8(pattern@),
                n@ == vstd::utf8::encode_utf8(name@),
                pattern_matches(p@.skip(i as int), n@.skip(i as int)) == pattern_matches(p@, n@),
            decreases p.len() - i,
        {
            assert(p@.skip(i as int)[0] == p@[i as int]);
            if p[i] == 0x2A {
                return true; // everything from here on matches
            }
            if i >= n.len() {
                return false;
            }
            assert(n@.skip(i as int)[0] == n@[i as int]);
            if p[i] != 0x3F && p[i] != n[i] {
                return false;
            }
            assert(p@.skip(i as int).skip(1) =~= p@.skip(i + 1));
            assert(n@.skip(i as int).skip(1) =~= n@.skip(i + 1));
            i += 1;
        }
        i == n.len()
    }

    /// Find a PRG by CBM pattern and return its raw bytes.
    fn find_prg(disk: &Disk, pattern: &str) -> (r: Option<Vec<u8>>)
        requires
            d64::directory_inside(disk@),
            first_match(d64::directory(disk@), pattern@) matches Some(e)
                ==> d64::entry_inside(disk@, e),
        ensures
            match first_match(d64::directory(disk@), pattern@) {
                Some(e) => r is Some && r->0@ == d64::file_of(disk@, e),
                None => r is None,
            },
    {
        let entries = disk.dir();
        let ghost all = d64::directory(disk@);
        let mut k: usize = 0;
        assert(all.skip(0) =~= all);
        while k < entries.len()
            invariant
                k <= entries.len(),
                all == d64::directory(disk@),
                d64::entries_of(entries@) == all,
                first_match(all, pattern@) matches Some(e) ==> d64::entry_inside(disk@, e),
                first_match(all, pattern@) == first_match(all.skip(k as int), pattern@),
            decreases entries.len() - k,
        {
            let e = &entries[k];
            assert(all[k as int] == e@);
            assert(all.skip(k as int)[0] == e@);
            if e.is_prg() {
                let chars = text::chars_of(e.name.as_str());
                let name = text::string_of(text::to_upper(chars.as_slice()).as_slice());
                if Self::matches(pattern, name.as_str()) {
                    return Some(disk.read_entry(e));
                }
            }
            assert(all.skip(k as int).skip(1) =~= all.skip(k + 1));
            k += 1;
        }
        assert(all.skip(k as int).len() == 0);
        None
    }

    /// What an open of `pattern` finds.
    fn find(&self, pattern: &String) -> (r: Option<Vec<u8>>)
        requires
            self@.disk is Some ==> can_find(self@.disk->0, pattern@),
        ensures
            match found(self@.disk, pattern@) {
                Some(d) => r is Some && r->0@ == d,
                None => r is None,
            },
    {
        let n = pattern.as_str().unicode_len();
        if n == 0 {
            return None;
        }
        match &self.disk {
            None => None,
            Some(disk) => if pattern.as_str().get_char(0) == '$' {
                Some(directory_listing(disk))
            } else {
                Self::find_prg(disk, pattern.as_str())
            },
        }
    }

    /// Replace a channel.
    fn set_channel(&mut self, k: usize, data: Vec<u8>)
        requires
            k < CHANNELS,
            drive_usable(old(self)@),
        ensures
            final(self)@ == (DriveModel {
                channels: old(self)@.channels.update(k as int, Stream { data: data@, pos: 0 }),
                ..old(self)@
            }),
    {
        let c = Channel { data, pos: 0 };
        self.channels[k] = c;
        assert(self@.channels
            =~= old(self)@.channels.update(k as int, Stream { data: data@, pos: 0 }));
        assert(self@ =~= (DriveModel {
            channels: old(self)@.channels.update(k as int, Stream { data: data@, pos: 0 }),
            ..old(self)@
        }));
    }

    /// Take the next byte of a channel, if there is one.
    fn advance(&mut self, k: usize) -> (b: Option<u8>)
        requires
            k < CHANNELS,
            drive_usable(old(self)@),
        ensures
            b == next_byte(old(self)@.channels[k as int]),
            final(self)@ == (match b {
                Some(_) => DriveModel {
                    channels: old(self)@.channels.update(
                        k as int,
                        Stream {
                            pos: old(self)@.channels[k as int].pos + 1,
                            ..old(self)@.channels[k as int]
                        },
                    ),
                    ..old(self)@
                },
                None => old(self)@,
            }),
    {
        let pos = self.channels[k].pos;
        if pos < self.channels[k].data.len() {
            let b = self.channels[k].data[pos];
            self.channels[k].pos = pos + 1;
            proof {
                let want = DriveModel {
                    channels: old(self)@.channels.update(
                        k as int,
                        Stream {
                            pos: old(self)@.channels[k as int].pos + 1,
                            ..old(self)@.channels[k as int]
                        },
                    ),
                    ..old(self)@
                };
                assert(self@.channels =~= want.channels);
                assert(self@ =~= want);
            }
            Some(b)
        } else {
            None
        }
    }

    /// Run the command that has been collected, and forget it.
    fn run_command(&mut self)
        ensures
            final(self)@ == (DriveModel {
                status: status_after(old(self)@, old(self)@.command),
                command: Seq::empty(),
                ..old(self)@
            }),
    {
        let mut cmd: Vec<u8> = Vec::new();
        core::mem::swap(&mut cmd, &mut self.command);
        let ghost mid = self@;
        assert(mid.channels =~= old(self)@.channels);
        self.execute(cmd.as_slice());
        assert(self@ =~= (DriveModel {
            status: status_after(old(self)@, old(self)@.command),
            command: Seq::empty(),
            ..old(self)@
        }));
    }
}

impl Storage for DiskDrive {
    type Model = DriveModel;

    open spec fn model(&self) -> DriveModel {
        self@
    }

    open spec fn usable(m: DriveModel) -> bool {
        drive_usable(m)
    }

    open spec fn openable(m: DriveModel, channel: u8, name: Seq<u8>) -> bool {
        drive_openable(m, channel, name)
    }

    open spec fn after_open(m: DriveModel, channel: u8, name: Seq<u8>) -> (DriveModel, bool) {
        drive_after_open(m, channel, name)
    }

    open spec fn after_read(m: DriveModel, channel: u8) -> (DriveModel, Option<u8>) {
        drive_after_read(m, channel)
    }

    open spec fn after_write(m: DriveModel, channel: u8, byte: u8) -> DriveModel {
        drive_after_write(m, channel, byte)
    }

    open spec fn after_close(m: DriveModel, channel: u8) -> DriveModel {
        drive_after_close(m, channel)
    }

    fn open(&mut self, channel: u8, name: &[u8]) -> (ok: bool) {
        // Channel 15 is the command channel, never a file. `OPEN 15,8,15,"I0"`
        // arrives here with the command as the "filename".
        if channel == COMMAND_CHANNEL {
            self.execute(name);
            self.set_channel(15, Vec::new());
            assert(self.model() =~= drive_after_open(old(self)@, channel, name@).0);
            return true;
        }

        let pattern = Self::parse_name(name);
        let found = self.find(&pattern);
        self.last_name = pattern;
        self.last_open_ok = found.is_some();
        // Record *why* it failed, so a program asking the error channel gets a
        // real answer instead of silence.
        if !self.last_open_ok {
            self.status = if self.disk.is_none() {
                DosStatus::not_ready()
            } else {
                DosStatus::file_not_found()
            };
        }
        assert(self@.channels =~= old(self)@.channels);
        let data = match found {
            Some(d) => d,
            None => Vec::new(),
        };
        self.set_channel((channel as usize) % CHANNELS, data);
        assert(self.model() =~= drive_after_open(old(self)@, channel, name@).0);
        self.last_open_ok
    }

    fn read(&mut self, channel: u8) -> (b: Option<u8>) {
        if channel == COMMAND_CHANNEL {
            if self.channels[15].data.len() == 0 {
                // First read of this status: render it now.
                let line = self.status.to_line();
                self.set_channel(15, line);
            }
            let b = self.advance(15);
            if b.is_none() {
                // Fully read: the drive reverts to OK, as a real one does.
                self.status = DosStatus::ok();
                self.set_channel(15, Vec::new());
            }
            assert(self.model() =~= drive_after_read(old(self)@, channel).0);
            return b;
        }
        self.advance((channel as usize) % CHANNELS)
    }

    fn write(&mut self, channel: u8, byte: u8) {
        if channel != COMMAND_CHANNEL {
            return; // read-only: file writes go nowhere
        }
        // A command ends at its carriage return, which is what `PRINT#15` sends.
        if byte == 0x0D {
            self.run_command();
        } else if self.command.len() < COMMAND_MAX {
            self.command.push(byte);
            assert(self@.channels =~= old(self)@.channels);
            assert(self.model() =~= drive_after_write(old(self)@, channel, byte));
        }
    }

    fn close(&mut self, channel: u8) {
        if channel == COMMAND_CHANNEL && self.command.len() > 0 {
            // Closing the command channel runs anything not yet terminated.
            self.run_command();
        }
        self.set_channel((channel as usize) % CHANNELS, Vec::new());
        assert(self.model() =~= drive_after_close(old(self)@, channel));
    }
}

// ---- the listing, computed ----

fn push_line(out: &mut Vec<u8>, number: u16, text: &[u8])
    ensures
        final(out)@ == old(out)@ + basic_line(number as int, text@),
{
    out.push(0x01); // any nonzero link
    out.push(0x01);
    out.push((number % 256) as u8);
    out.push((number / 256) as u8);
    out.extend_from_slice(text);
    out.push(0x00);
    assert(out@ =~= old(out)@ + basic_line(number as int, text@));
}

fn push_spaces(out: &mut Vec<u8>, n: usize)
    ensures
        final(out)@ == old(out)@ + spaces(n as nat),
{
    let mut k: usize = 0;
    assert(out@ =~= old(out)@ + spaces(0));
    while k < n
        invariant
            k <= n,
            out@ == old(out)@ + spaces(k as nat),
        decreases n - k,
    {
        out.push(0x20);
        k += 1;
        assert(out@ =~= old(out)@ + spaces(k as nat));
    }
}

/// The three-letter type a directory listing shows.
fn push_file_kind(out: &mut Vec<u8>, file_type: u8)
    ensures
        final(out)@ == old(out)@ + file_kind(file_type),
{
    let name: [u8; 3] = match file_type % 16 {
        0 => [0x44, 0x45, 0x4C], // DEL
        1 => [0x53, 0x45, 0x51], // SEQ
        2 => [0x50, 0x52, 0x47], // PRG
        3 => [0x55, 0x53, 0x52], // USR
        4 => [0x52, 0x45, 0x4C], // REL
        _ => [0x3F, 0x3F, 0x3F],
    };
    assert(name@ =~= file_kind(file_type));
    out.extend_from_slice(name.as_slice());
    assert(out@ =~= old(out)@ + file_kind(file_type));
}

fn entry_line(e: &d64::DirEntry) -> (out: Vec<u8>)
    ensures
        out@ == entry_text(e@),
{
    let mut out: Vec<u8> = Vec::new();
    let pad: usize = if e.size_sectors <= 9 { 3 } else if e.size_sectors <= 99 { 2 } else { 1 };
    push_spaces(&mut out, pad);
    out.push(0x22);
    let name = e.name.as_str().as_bytes();
    out.extend_from_slice(name);
    out.push(0x22);
    // Name field is 18 columns wide including both quotes.
    push_spaces(&mut out, if name.len() < 16 { 16 - name.len() } else { 0 });
    push_file_kind(&mut out, e.file_type);
    assert(out@ =~= entry_text(e@));
    out
}

fn head_line(disk: &Disk) -> (out: Vec<u8>)
    requires
        d64::is_image(disk@),
    ensures
        out@ == listing_head(disk@),
{
    let header = disk.header();
    let mut out: Vec<u8> = Vec::new();
    out.push(0x12); // RVS ON
    out.push(0x22);
    out.extend_from_slice(header.name.as_slice());
    out.push(0x22);
    out.push(0x20);
    out.extend_from_slice(header.id.as_slice());
    out.push(0x20);
    out.extend_from_slice(header.dos_type.as_slice());
    assert(out@ =~= listing_head(disk@));
    out
}

/// Build the fake BASIC program a drive sends for `LOAD"$",8`.
///
/// This is one of the C64's better jokes: the directory is not text and not a
/// file, it is a **program**. The drive fabricates something with the exact
/// shape BASIC expects in memory, so `LIST` renders it. The block counts down
/// the left-hand side of a directory listing are BASIC *line numbers*.
pub fn directory_listing(disk: &Disk) -> (out: Vec<u8>)
    requires
        d64::is_image(disk@),
        d64::directory_inside(disk@),
    ensures
        out@ == listing(disk@),
{
    let mut out: Vec<u8> = Vec::new();
    out.push(0x01); // load address $0401
    out.push(0x04);
    let head = head_line(disk);
    push_line(&mut out, 0, head.as_slice());
    let ghost start = out@;

    // One line per entry.
    let entries = disk.dir();
    let ghost all = d64::directory(disk@);
    let mut k: usize = 0;
    assert(start + entry_lines(all, 0) =~= start);
    while k < entries.len()
        invariant
            k <= entries.len(),
            d64::entries_of(entries@) == all,
            out@ == start + entry_lines(all, k as int),
        decreases entries.len() - k,
    {
        let e = &entries[k];
        assert(all[k as int] == e@);
        let text = entry_line(e);
        let ghost before = out@;
        push_line(&mut out, e.size_sectors, text.as_slice());
        proof {
            let line = basic_line(e.size_sectors as int, entry_text(e@));
            assert(start + (entry_lines(all, k as int) + line) =~= before + line);
        }
        k += 1;
    }
    let free: [u8; 12] = [0x42, 0x4C, 0x4F, 0x43, 0x4B, 0x53, 0x20, 0x46, 0x52, 0x45, 0x45, 0x2E];
    assert(free@ =~= blocks_free_text());
    push_line(&mut out, disk.blocks_free(), free.as_slice());
    out.push(0x00); // end of program
    out.push(0x00);
    assert(out@ =~= listing(disk@));
    out
}

} // verus!
