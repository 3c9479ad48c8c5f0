//! What holds of disk images and of the drive that serves them.

use vstd::prelude::*;
use crate::d64::drive::{self, DiskDrive, DriveModel, Stream};
use crate::d64::{self, fixtures, Entry};
use crate::iec::device::{Link, Role};
use crate::iec::{laws, Bus, Line};

verus! {

// ---- geometry ----

/// Sectors follow each other without gaps or overlaps, from track to track, and
/// there are 683 of them.
pub proof fn law_sectors_are_contiguous(track: u8, sector: u8)
    requires
        1 <= track <= 35,
        sector < crate::gcr::zone_sectors(track),
    ensures
        sector + 1 < crate::gcr::zone_sectors(track)
            ==> d64::starts_at(track, (sector + 1) as u8) == d64::starts_at(track, sector) + 256,
        sector + 1 == crate::gcr::zone_sectors(track)
            ==> d64::starts_at((track + 1) as u8, 0) == d64::starts_at(track, sector) + 256,
        d64::starts_at(36, 0) == 683 * 256,
        d64::starts_at(track, sector) + 256 <= d64::IMAGE_SIZE,
{
}

/// Every sector of 35 tracks is on a mounted disk.
pub proof fn law_mounted_disk_is_whole(img: Seq<u8>, track: u8, sector: u8)
    requires
        d64::is_image(img),
        1 <= track <= 35,
        sector < crate::gcr::zone_sectors(track),
    ensures
        d64::holds(img, track, sector),
        d64::sector_of(img, track, sector).len() == 256,
{
}

/// The directory lists closed files with a name, and no others.
pub proof fn law_directory_lists_closed_files(img: Seq<u8>, k: int)
    requires
        0 <= k < d64::directory(img).len(),
    ensures
        d64::is_listed(d64::directory(img)[k]),
{
    lemma_chain_lists(img, d64::DIR_TRACK, d64::DIR_SECTOR, d64::DIR_GUARD as nat, k);
}

proof fn lemma_sector_lists(sec: Seq<u8>, n: int, k: int)
    requires
        0 <= k < d64::sector_entries(sec, n).len(),
    ensures
        d64::is_listed(d64::sector_entries(sec, n)[k]),
    decreases n,
{
    if n > 0 && k < d64::sector_entries(sec, n - 1).len() {
        lemma_sector_lists(sec, n - 1, k);
    }
}

proof fn lemma_chain_lists(img: Seq<u8>, track: u8, sector: u8, fuel: nat, k: int)
    requires
        0 <= k < d64::dir_from(img, track, sector, fuel).len(),
    ensures
        d64::is_listed(d64::dir_from(img, track, sector, fuel)[k]),
    decreases fuel,
{
    let sec = d64::sector_of(img, track, sector);
    let here = d64::sector_entries(sec, 8);
    if k < here.len() {
        lemma_sector_lists(sec, 8, k);
    } else {
        lemma_chain_lists(img, sec[0], sec[1], (fuel - 1) as nat, k - here.len());
    }
}

/// A blank disk has 664 blocks free: all but those of the directory track.
pub proof fn law_blank_disk_has_664_free(img: Seq<u8>)
    requires
        forall|t: int| 1 <= t <= 35 && t != d64::DIR_TRACK
            ==> #[trigger] d64::bam(img, 4 * t) == crate::gcr::zone_sectors(t as u8),
    ensures
        d64::free_upto(img, 35) == 664,
{
    lemma_free_upto(img, 35);
}

/// What full tracks up to `n` add up to.
proof fn lemma_free_upto(img: Seq<u8>, n: int)
    requires
        0 <= n <= 35,
        forall|t: int| 1 <= t <= 35 && t != d64::DIR_TRACK
            ==> #[trigger] d64::bam(img, 4 * t) == crate::gcr::zone_sectors(t as u8),
    ensures
        d64::free_upto(img, n) == d64::sectors_before((n + 1) as u8) - (if n >= 18 { 19int } else { 0 }),
    decreases n,
{
    if n > 0 {
        lemma_free_upto(img, n - 1);
        if n != 18 {
            assert(d64::bam(img, 4 * n) == crate::gcr::zone_sectors(n as u8));
        }
    }
}

// ---- the fixtures ----

/// The one entry on a fixture disk.
pub open spec fn fixture_entry(name: Seq<u8>) -> Entry {
    Entry {
        name: d64::petscii_text(fixtures::dir_sector(name).subrange(5, 21)),
        file_type: 0x82,
        size_sectors: 1,
        first_track: 1,
        first_sector: 0,
    }
}

/// The sectors of a fixture disk.
proof fn lemma_fixture_sectors(name: Seq<u8>, prg: Seq<u8>)
    ensures
        d64::sector_of(fixtures::image_of(name, prg), 1, 0) == fixtures::file_sector(prg),
        d64::sector_of(fixtures::image_of(name, prg), 18, 0) == fixtures::bam_sector(),
        d64::sector_of(fixtures::image_of(name, prg), 18, 1) == fixtures::dir_sector(name),
{
    let img = fixtures::image_of(name, prg);
    assert(d64::sector_of(img, 1, 0) =~= fixtures::file_sector(prg));
    assert(d64::sector_of(img, 18, 0) =~= fixtures::bam_sector());
    assert(d64::sector_of(img, 18, 1) =~= fixtures::dir_sector(name));
}

/// The entries of a fixture's directory sector.
proof fn lemma_fixture_entries(name: Seq<u8>)
    requires
        is_name(name),
    ensures
        d64::sector_entries(fixtures::dir_sector(name), 8) == seq![fixture_entry(name)],
{
    let sec = fixtures::dir_sector(name);
    reveal_with_fuel(d64::sector_entries, 9);
    assert(sec[34] == 0 && sec[66] == 0 && sec[98] == 0 && sec[130] == 0);
    assert(sec[162] == 0 && sec[194] == 0 && sec[226] == 0 && sec[2] == 0x82);
    assert(d64::entry_at(sec, 0) == fixture_entry(name));
    assert(sec.subrange(5, 21)[0] == name[0]);
    assert(d64::sector_entries(sec, 1) =~= seq![fixture_entry(name)]);
}

/// A name that a directory shows: up to 16 bytes, and not padding from the start.
pub open spec fn is_name(name: Seq<u8>) -> bool {
    1 <= name.len() <= 16 && name[0] != 0xA0 && name[0] != 0x00
}

/// A fixture is a disk that can be read, with one program on it.
pub proof fn law_fixture_directory(name: Seq<u8>, prg: Seq<u8>)
    requires
        prg.len() <= 254,
        is_name(name),
    ensures
        d64::readable(fixtures::image_of(name, prg)),
        d64::directory(fixtures::image_of(name, prg)) == seq![fixture_entry(name)],
        d64::free_upto(fixtures::image_of(name, prg), 35) == 663,
{
    let img = fixtures::image_of(name, prg);
    lemma_fixture_sectors(name, prg);
    lemma_fixture_entries(name);
    let sec = d64::sector_of(img, 18, 1);
    assert(sec[0] == 0);
    assert(d64::directory(img) =~= seq![fixture_entry(name)]);
    let f = d64::sector_of(img, 1, 0);
    assert(f[0] == 0);
    assert(d64::entry_inside(img, fixture_entry(name)));
    lemma_fixture_free(name, prg, 35);
}

proof fn lemma_fixture_free(name: Seq<u8>, prg: Seq<u8>, n: int)
    requires
        0 <= n <= 35,
    ensures
        d64::free_upto(fixtures::image_of(name, prg), n)
            == d64::sectors_before((n + 1) as u8) - (if n >= 18 { 19int } else { 0 })
                - (if n >= 1 { 1int } else { 0 }),
    decreases n,
{
    if n > 0 {
        lemma_fixture_free(name, prg, n - 1);
        let img = fixtures::image_of(name, prg);
        assert(d64::bam(img, 4 * n) == fixtures::bam_sector()[4 * n]);
        assert(fixtures::bam_sector()[4 * n] == fixtures::free_on(n));
    }
}

/// What was put on a fixture disk is what is read from it, byte for byte, for
/// any program of one to 254 bytes.
pub proof fn law_fixture_file_round_trips(name: Seq<u8>, prg: Seq<u8>)
    requires
        1 <= prg.len() <= 254,
        name.len() <= 16,
    ensures
        d64::file_of(fixtures::image_of(name, prg), fixture_entry(name)) == prg,
{
    let img = fixtures::image_of(name, prg);
    lemma_fixture_sectors(name, prg);
    let sec = d64::sector_of(img, 1, 0);
    assert(sec[0] == 0 && sec[1] == prg.len() + 1);
    assert(d64::file_of(img, fixture_entry(name)) =~= prg);
}

/// A name of up to 16 plain characters comes back as it was written.
pub proof fn law_fixture_name_round_trips(name: Seq<u8>)
    requires
        name.len() <= 16,
        forall|k: int| 0 <= k < name.len() ==> 0x20 <= #[trigger] name[k] <= 0x5F,
    ensures
        fixture_entry(name).name == name.map_values(|b: u8| b as char),
{
    lemma_padded_name(fixtures::dir_sector(name).subrange(5, 21), name);
}

proof fn lemma_padded_name(field: Seq<u8>, name: Seq<u8>)
    requires
        name.len() <= field.len(),
        forall|k: int| 0 <= k < name.len() ==> 0x20 <= #[trigger] name[k] <= 0x5F,
        forall|k: int| 0 <= k < field.len() ==> #[trigger] field[k]
            == (if k < name.len() { name[k] } else { 0xA0 }),
    ensures
        d64::petscii_text(field) == name.map_values(|b: u8| b as char),
    decreases name.len(),
{
    if name.len() > 0 {
        lemma_padded_name(field.skip(1), name.skip(1));
        assert(field[0] == name[0]);
        assert(seq![name[0] as char] + name.skip(1).map_values(|b: u8| b as char)
            =~= name.map_values(|b: u8| b as char));
    } else {
        assert(field.len() > 0 ==> field[0] == 0xA0);
        assert(name.map_values(|b: u8| b as char) =~= Seq::<char>::empty());
    }
}

// ---- patterns ----

/// `*` alone matches every name.
pub proof fn law_star_matches_everything(n: Seq<u8>)
    ensures
        drive::pattern_matches(seq![0x2Au8], n),
{
}

/// A pattern without wildcards matches its own name and no other: there is no
/// implicit prefix match.
pub proof fn law_plain_pattern_matches_itself_only(p: Seq<u8>, n: Seq<u8>)
    requires
        forall|k: int| 0 <= k < p.len() ==> #[trigger] p[k] != 0x2A && p[k] != 0x3F,
    ensures
        drive::pattern_matches(p, n) == (p == n),
    decreases p.len(),
{
    if p.len() == 0 {
        assert(n.len() == 0 ==> p =~= n);
    } else {
        assert(p[0] != 0x2A && p[0] != 0x3F);
        if n.len() > 0 {
            assert forall|k: int| 0 <= k < p.skip(1).len() implies
                #[trigger] p.skip(1)[k] != 0x2A && p.skip(1)[k] != 0x3F by {
                assert(p.skip(1)[k] == p[k + 1]);
            }
            law_plain_pattern_matches_itself_only(p.skip(1), n.skip(1));
            assert(p =~= seq![p[0]] + p.skip(1));
            assert(n =~= seq![n[0]] + n.skip(1));
            assert(p == n ==> p.skip(1) == n.skip(1) && p[0] == n[0]);
        }
    }
}

/// A prefix followed by `*` matches every name that starts with it.
pub proof fn law_prefix_star(p: Seq<u8>, rest: Seq<u8>)
    ensures
        drive::pattern_matches(p + seq![0x2Au8], p + rest),
    decreases p.len(),
{
    if p.len() > 0 {
        law_prefix_star(p.skip(1), rest);
        assert((p + seq![0x2Au8]).skip(1) =~= p.skip(1) + seq![0x2Au8]);
        assert((p + rest).skip(1) =~= p.skip(1) + rest);
    } else {
        assert((p + seq![0x2Au8])[0] == 0x2A);
    }
}

// ---- the drive ----

/// Reading a file channel only moves its position.
proof fn lemma_reads_move_on(m: DriveModel, channel: u8, n: nat)
    requires
        channel != drive::COMMAND_CHANNEL,
        channel < 16,
        m.channels.len() == drive::CHANNELS,
        m.channels[channel as int].pos == 0,
        n <= m.channels[channel as int].data.len(),
    ensures
        laws::after_reads::<DiskDrive>(m, channel, n) == (DriveModel {
            channels: m.channels.update(
                channel as int, Stream { pos: n as int, ..m.channels[channel as int] }),
            ..m
        }),
    decreases n,
{
    let ch = m.channels[channel as int];
    if n == 0 {
        assert(m.channels.update(channel as int, Stream { pos: 0, ..ch }) =~= m.channels);
    } else {
        lemma_reads_move_on(m, channel, (n - 1) as nat);
        let p = laws::after_reads::<DiskDrive>(m, channel, (n - 1) as nat);
        assert(p.channels[channel as int] == (Stream { pos: n - 1, ..ch }));
        assert(p.channels.update(channel as int, Stream { pos: n as int, ..ch })
            =~= m.channels.update(channel as int, Stream { pos: n as int, ..ch }));
    }
}

/// An opened file is streamed byte for byte and then ends: the `k`-th read gives
/// its `k`-th byte, and the read behind the last one nothing.
pub proof fn law_opened_file_is_streamed(m: DriveModel, channel: u8, name: Seq<u8>, k: nat)
    requires
        channel < 15,
        drive::drive_usable(m),
        drive::found(m.disk, drive::pattern_of(name)) is Some,
    ensures
        ({
            let data = drive::found(m.disk, drive::pattern_of(name))->0;
            let opened = drive::drive_after_open(m, channel, name);
            &&& opened.1
            &&& k < data.len() ==> drive::drive_after_read(
                laws::after_reads::<DiskDrive>(opened.0, channel, k), channel).1 == Some(data[k as int])
            &&& drive::drive_after_read(
                laws::after_reads::<DiskDrive>(opened.0, channel, data.len()), channel).1 is None
        }),
{
    let data = drive::found(m.disk, drive::pattern_of(name))->0;
    let opened = drive::drive_after_open(m, channel, name).0;
    assert(opened.channels[channel as int] == (Stream { data, pos: 0 }));
    if k < data.len() {
        lemma_reads_move_on(opened, channel, k);
    }
    lemma_reads_move_on(opened, channel, data.len());
}

/// A file crosses the bus byte for byte: once it is open and the drive is told to
/// talk, the bytes taken up for sending are those of the file, in order, and EOI
/// comes with its last byte and no other, whatever else happens on the bus while
/// ATN stays released.
pub proof fn law_file_crosses_the_bus(
    m: DriveModel, name: Seq<u8>, l: Link<DriveModel>, buses: Seq<Bus>,
)
    requires
        drive::drive_usable(m),
        drive::found(m.disk, drive::pattern_of(name)) is Some,
        l.dev.channel < 15,
        l.store == drive::drive_after_open(m, l.dev.channel, name).0,
        l.dev.role == Role::Talker,
        !l.dev.prev_atn,
        forall|k: int| 0 <= k < buses.len() ==>
            crate::iec::line_high(#[trigger] buses[k], Line::Atn),
    ensures
        ({
            let data = drive::found(m.disk, drive::pattern_of(name))->0;
            let sent = laws::loads::<DiskDrive>(l, buses);
            &&& sent.len() <= data.len()
            &&& forall|k: int| 0 <= k < sent.len() ==> (#[trigger] sent[k]).byte == data[k]
                && sent[k].eoi == (k == data.len() - 1)
        }),
{
    let data = drive::found(m.disk, drive::pattern_of(name))->0;
    let sent = laws::loads::<DiskDrive>(l, buses);
    let ch = l.dev.channel;
    if buses.len() > 0 {
        laws::law_transfer_is_the_file::<DiskDrive>(l, buses);
        law_opened_file_is_streamed(m, ch, name, 0);
        assert(laws::nth_read::<DiskDrive>(l.store, ch, data.len()) is None);
        assert(sent.len() <= data.len()) by {
            if sent.len() > data.len() {
                let over = sent[data.len() as int];
                assert(laws::nth_read::<DiskDrive>(l.store, ch, data.len()) == Some(over.byte));
            }
        }
        assert forall|k: int| 0 <= k < sent.len() implies (#[trigger] sent[k]).byte == data[k]
            && sent[k].eoi == (k == data.len() - 1) by {
            law_opened_file_is_streamed(m, ch, name, k as nat);
            law_opened_file_is_streamed(m, ch, name, (k + 1) as nat);
        }
    }
}

/// A file that is not there fails to open, streams nothing, and the error
/// channel says why.
pub proof fn law_missing_file(m: DriveModel, channel: u8, name: Seq<u8>)
    requires
        channel < 15,
        drive::drive_usable(m),
        drive::found(m.disk, drive::pattern_of(name)) is None,
    ensures
        ({
            let (after, ok) = drive::drive_after_open(m, channel, name);
            &&& !ok
            &&& drive::drive_after_read(after, channel).1 is None
            &&& after.status.code == (if m.disk is None { 74u8 } else { 62 })
        }),
{
}

/// A successful open leaves the status alone.
pub proof fn law_open_keeps_status(m: DriveModel, channel: u8, name: Seq<u8>)
    requires
        channel != drive::COMMAND_CHANNEL,
        drive::drive_after_open(m, channel, name).1,
    ensures
        drive::drive_after_open(m, channel, name).0.status == m.status,
{
}

/// An empty drive opens nothing.
pub proof fn law_empty_drive_opens_nothing(m: DriveModel, channel: u8, name: Seq<u8>)
    requires
        m.disk is None,
        channel != drive::COMMAND_CHANNEL,
    ensures
        !drive::drive_after_open(m, channel, name).1,
{
}

/// Reading the status channel only moves its position, until the line's end.
proof fn lemma_status_reads(m: DriveModel, n: nat)
    requires
        m.channels.len() == drive::CHANNELS,
        m.channels[15].data.len() == 0,
        1 <= n <= drive::status_line(m.status).len(),
    ensures
        laws::after_reads::<DiskDrive>(m, drive::COMMAND_CHANNEL, n) == (DriveModel {
            channels: m.channels.update(
                15, Stream { data: drive::status_line(m.status), pos: n as int }),
            ..m
        }),
    decreases n,
{
    let line = drive::status_line(m.status);
    if n == 1 {
        reveal_with_fuel(laws::after_reads, 2);
        assert(laws::after_reads::<DiskDrive>(m, drive::COMMAND_CHANNEL, 0) == m);
    } else {
        lemma_status_reads(m, (n - 1) as nat);
        let p = laws::after_reads::<DiskDrive>(m, drive::COMMAND_CHANNEL, (n - 1) as nat);
        assert(p.channels[15] == (Stream { data: line, pos: n - 1 }));
        assert(p.channels.update(15, Stream { data: line, pos: n as int })
            =~= m.channels.update(15, Stream { data: line, pos: n as int }));
    }
}

/// The error channel gives the status line byte for byte; reading it to its end
/// clears the status, so the next line is `00,OK,00,00`.
pub proof fn law_reading_the_status_clears_it(m: DriveModel, k: nat)
    requires
        m.channels.len() == drive::CHANNELS,
        m.channels[15].data.len() == 0,
    ensures
        ({
            let line = drive::status_line(m.status);
            let end = drive::drive_after_read(
                laws::after_reads::<DiskDrive>(m, drive::COMMAND_CHANNEL, line.len()), drive::COMMAND_CHANNEL);
            &&& line.len() > 0
            &&& k < line.len() ==> drive::drive_after_read(
                laws::after_reads::<DiskDrive>(m, drive::COMMAND_CHANNEL, k), drive::COMMAND_CHANNEL).1
                == Some(line[k as int])
            &&& end.1 is None
            &&& end.0.status == drive::status_ok()
            &&& end.0.channels[15] == drive::no_stream()
        }),
{
    let line = drive::status_line(m.status);
    assert(line.len() > 0);
    if k > 0 && k < line.len() {
        lemma_status_reads(m, k);
    }
    lemma_status_reads(m, line.len());
}

/// Closing a channel forgets it.
pub proof fn law_closed_channel_is_forgotten(m: DriveModel, channel: u8)
    requires
        channel < 15,
        m.channels.len() == drive::CHANNELS,
    ensures
        drive::drive_after_read(drive::drive_after_close(m, channel), channel).1 is None,
{
}

/// What is written to a file channel goes nowhere, and is never taken for a
/// command.
pub proof fn law_file_writes_are_dropped(m: DriveModel, channel: u8, byte: u8)
    requires
        channel != drive::COMMAND_CHANNEL,
    ensures
        drive::drive_after_write(m, channel, byte) == m,
{
}

/// A command sent byte by byte runs at its carriage return and not before, and
/// to the same effect as when it is sent whole.
pub proof fn law_command_runs_at_carriage_return(m: DriveModel, byte: u8)
    requires
        byte != 0x0D,
    ensures
        drive::drive_after_write(m, drive::COMMAND_CHANNEL, byte).status == m.status,
        drive::drive_after_write(m, drive::COMMAND_CHANNEL, 0x0D).status
            == drive::drive_after_open(m, drive::COMMAND_CHANNEL, m.command).0.status,
{
}

/// The commands that would write are refused.
pub proof fn law_write_commands_are_refused(m: DriveModel, command: Seq<u8>)
    requires
        command.len() > 0,
        command[0] == 0x4E || command[0] == 0x53 || command[0] == 0x52 || command[0] == 0x43,
    ensures
        drive::drive_after_open(m, drive::COMMAND_CHANNEL, command).0.status.code == 26,
        drive::drive_after_open(m, drive::COMMAND_CHANNEL, command).0.disk == m.disk,
{
}

/// A directory listing is a well-formed program: it loads at $0401, its first
/// line has a nonzero link and starts with RVS ON, and it ends with a null link.
pub proof fn law_listing_is_a_program(img: Seq<u8>)
    ensures
        ({
            let l = drive::listing(img);
            &&& l.len() > 8
            &&& l[0] == 0x01 && l[1] == 0x04
            &&& l[2] == 0x01 && l[3] == 0x01
            &&& l[6] == 0x12
            &&& l[l.len() - 1] == 0 && l[l.len() - 2] == 0
        }),
{
}

} // verus!
