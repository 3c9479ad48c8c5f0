//! What a drive answers: which file a name opens, what the commands do, what the
//! error channel says, and what the directory looks like as a program.

use vstd::prelude::*;
use crate::d64::drive::{self, DriveModel, Status};
use crate::d64::{self, Entry};
use crate::text;

verus! {

// ---- names ----

/// The character that a byte of a name stands for, if any: the printable ones stand
/// for themselves, the shifted letters for the letters.
pub open spec fn spelt(b: u8) -> Seq<char> {
    if 0x20 <= b <= 0x7E {
        seq![b as char]
    } else if 0xC1 <= b <= 0xDA {
        seq![(b - 0x80) as char]
    } else {
        Seq::empty()
    }
}

/// A name is read byte by byte, up to a comma.
pub proof fn law_names_are_read(name: Seq<u8>, b: u8, rest: Seq<u8>)
    requires
        forall|k: int| 0 <= k < name.len() ==> #[trigger] name[k] != 0x2C,
    ensures
        drive::name_text(Seq::empty()) == Seq::<char>::empty(),
        b != 0x2C ==> drive::name_text(name.push(b)) == drive::name_text(name) + spelt(b),
        drive::name_text(name.push(0x2C) + rest) == drive::name_text(name),
    decreases name.len(),
{
    let comma = name.push(0x2C) + rest;
    if name.len() == 0 {
        assert(comma[0] == 0x2C);
        assert(drive::name_text(name) =~= Seq::empty());
        assert(name.push(b).skip(1) =~= Seq::empty());
        assert(drive::name_text(Seq::empty()) =~= Seq::empty());
        if b != 0x2C {
            assert(drive::name_text(name.push(b)) =~= spelt(b));
            assert(drive::name_text(name) + spelt(b) =~= spelt(b));
        }
    } else {
        assert(name[0] != 0x2C);
        assert forall|k: int| 0 <= k < name.skip(1).len() implies
            #[trigger] name.skip(1)[k] != 0x2C by {
            assert(name.skip(1)[k] == name[k + 1]);
        }
        law_names_are_read(name.skip(1), b, rest);
        assert(name.push(b).skip(1) =~= name.skip(1).push(b));
        assert(comma.skip(1) =~= name.skip(1).push(0x2C) + rest);
        if b != 0x2C {
            assert(drive::name_text(name.push(b)) =~= drive::name_text(name) + spelt(b));
        }
        assert(drive::name_text(Seq::empty()) =~= Seq::empty());
    }
}

/// A pattern without `*` matches names of its length that agree with it, except
/// where it has a `?`; behind a `*` nothing matters.
pub proof fn law_patterns(p: Seq<u8>, n: Seq<u8>, rest: Seq<u8>)
    requires
        forall|k: int| 0 <= k < p.len() ==> #[trigger] p[k] != 0x2A,
    ensures
        drive::pattern_matches(p, n)
            == (p.len() == n.len() && agree(p, n)),
        drive::pattern_matches(p.push(0x2A) + rest, n)
            == (p.len() <= n.len() && agree(p, n)),
    decreases p.len(),
{
    let star = p.push(0x2A) + rest;
    if p.len() == 0 {
        assert(star[0] == 0x2A);
        assert(agree(p, n));
    } else {
        assert(p[0] != 0x2A);
        assert(star[0] == p[0]);
        if n.len() > 0 {
            assert forall|k: int| 0 <= k < p.skip(1).len() implies
                #[trigger] p.skip(1)[k] != 0x2A by {
                assert(p.skip(1)[k] == p[k + 1]);
            }
            law_patterns(p.skip(1), n.skip(1), rest);
            assert(star.skip(1) =~= p.skip(1).push(0x2A) + rest);
            lemma_agree(p, n);
        }
    }
}

/// The pattern and the name have the same bytes, or the pattern a `?`.
pub open spec fn agree(p: Seq<u8>, n: Seq<u8>) -> bool {
    forall|k: int| 0 <= k < p.len() && k < n.len() ==> #[trigger] p[k] == 0x3F || p[k] == n[k]
}

proof fn lemma_agree(p: Seq<u8>, n: Seq<u8>)
    requires
        p.len() > 0,
        n.len() > 0,
    ensures
        agree(p, n) == ((p[0] == 0x3F || p[0] == n[0]) && agree(p.skip(1), n.skip(1))),
{
    if agree(p, n) {
        assert forall|k: int| 0 <= k < p.skip(1).len() && k < n.skip(1).len() implies
            #[trigger] p.skip(1)[k] == 0x3F || p.skip(1)[k] == n.skip(1)[k] by {
            assert(p[k + 1] == 0x3F || p[k + 1] == n[k + 1]);
        }
    }
    if (p[0] == 0x3F || p[0] == n[0]) && agree(p.skip(1), n.skip(1)) {
        assert forall|k: int| 0 <= k < p.len() && k < n.len() implies
            #[trigger] p[k] == 0x3F || p[k] == n[k] by {
            if k > 0 {
                assert(p.skip(1)[k - 1] == p[k] && n.skip(1)[k - 1] == n[k]);
            }
        }
    }
}

// ---- opening ----

/// Can an entry be opened under a pattern? Only programs can, whatever the case of
/// their name.
pub open spec fn answers(e: Entry, pattern: Seq<char>) -> bool {
    e.file_type % 16 == 2 && drive::pattern_matches(
        vstd::utf8::encode_utf8(pattern), vstd::utf8::encode_utf8(text::uppercase(e.name)))
}

/// An open gives the first program of the directory that answers, from its start, and
/// `$` gives the directory; everything else about the drive stays but the last name.
pub proof fn law_open(m: DriveModel, channel: u8, name: Seq<u8>, at: int)
    requires
        m.channels.len() == 16,
        channel < 15,
        m.disk is Some,
        drive::pattern_of(name).len() > 0,
    ensures
        ({
            let (a, ok) = drive::drive_after_open(m, channel, name);
            let p = drive::pattern_of(name);
            let es = d64::directory(m.disk->0);
            let ch = a.channels[channel as int];
            &&& a.disk == m.disk && a.command == m.command
            &&& ch.pos == 0
            &&& ok ==> a.status == m.status
            &&& !ok ==> a.status == (Status {
                code: 62, message: "FILE NOT FOUND"@, track: 0, sector: 0,
            }) && ch.data.len() == 0
            &&& p[0] == '$' ==> ok && ch.data == drive::listing(m.disk->0)
            &&& p[0] != '$' && 0 <= at < es.len() && answers(es[at], p)
                && (forall|k: int| 0 <= k < at ==> !answers(#[trigger] es[k], p))
                ==> ok && ch.data == d64::file_of(m.disk->0, es[at])
            &&& p[0] != '$' && (forall|k: int| 0 <= k < es.len() ==> !answers(#[trigger] es[k], p))
                ==> !ok
        }),
{
    lemma_first(d64::directory(m.disk->0), drive::pattern_of(name), at);
}

proof fn lemma_first(es: Seq<Entry>, p: Seq<char>, at: int)
    ensures
        0 <= at < es.len() && answers(es[at], p)
            && (forall|k: int| 0 <= k < at ==> !answers(#[trigger] es[k], p))
            ==> drive::first_match(es, p) == Some(es[at]),
        (forall|k: int| 0 <= k < es.len() ==> !answers(#[trigger] es[k], p))
            ==> drive::first_match(es, p) is None,
    decreases es.len(),
{
    if es.len() > 0 {
        assert(drive::entry_matches(p, es[0]) == answers(es[0], p));
        let rest = es.skip(1);
        lemma_first(rest, p, at - 1);
        if 0 < at < es.len() && (forall|k: int| 0 <= k < at ==> !answers(#[trigger] es[k], p)) {
            assert(!answers(es[0], p));
            assert forall|k: int| 0 <= k < at - 1 implies !answers(#[trigger] rest[k], p) by {
                assert(rest[k] == es[k + 1]);
            }
        }
        if forall|k: int| 0 <= k < es.len() ==> !answers(#[trigger] es[k], p) {
            assert(!answers(es[0], p));
            assert forall|k: int| 0 <= k < rest.len() implies !answers(#[trigger] rest[k], p) by {
                assert(rest[k] == es[k + 1]);
            }
        }
    }
}

/// Without a disk nothing opens and the drive is not ready; without a name nothing
/// opens either. On channel 15 the name is a command.
pub proof fn law_open_otherwise(m: DriveModel, channel: u8, name: Seq<u8>)
    requires
        m.channels.len() == 16,
        channel < 16,
    ensures
        ({
            let (a, ok) = drive::drive_after_open(m, channel, name);
            &&& channel < 15 && m.disk is None ==> !ok && a.status == (Status {
                code: 74, message: "DRIVE NOT READY"@, track: 0, sector: 0,
            })
            &&& channel < 15 && m.disk is Some && drive::pattern_of(name).len() == 0
                ==> !ok && a.status.code == 62
            &&& channel == 15 ==> ok && a.status == drive::status_after(m, name)
                && a.channels[15].data.len() == 0
            &&& forall|k: int| 0 <= k < 16 && k != channel
                ==> #[trigger] a.channels[k] == m.channels[k]
        }),
{
}

/// Reading and closing one channel leaves the others alone.
pub proof fn law_channels_are_independent(m: DriveModel, channel: u8, other: int)
    requires
        m.channels.len() == 16,
        channel < 16,
        0 <= other < 16,
        other != channel,
    ensures
        drive::drive_after_read(m, channel).0.channels[other] == m.channels[other],
        drive::drive_after_close(m, channel).channels[other] == m.channels[other],
{
}

// ---- the command channel ----

/// What the commands do. `I` and `U` want a disk, `V` does nothing, `N`, `S`, `R` and
/// `C` would write, and any other is an error; a small letter is as good as a capital.
pub proof fn law_commands(m: DriveModel, command: Seq<u8>)
    requires
        command.len() > 0,
        0x41 <= command[0] <= 0x5A || 0x61 <= command[0] <= 0x7A,
    ensures
        ({
            let s = drive::status_after(m, command);
            let c = if command[0] >= 0x61 { (command[0] - 0x20) as char } else { command[0] as char };
            let ready = c == 'V' || ((c == 'I' || c == 'U') && m.disk is Some);
            &&& s.track == 0 && s.sector == 0
            &&& ready ==> s.code == 0 && s.message == "OK"@
            &&& (c == 'I' || c == 'U') && m.disk is None
                ==> s.code == 74 && s.message == "DRIVE NOT READY"@
            &&& c == 'N' || c == 'S' || c == 'R' || c == 'C'
                ==> s.code == 26 && s.message == "WRITE PROTECT ON"@
            &&& c != 'I' && c != 'U' && c != 'V' && c != 'N' && c != 'S' && c != 'R' && c != 'C'
                ==> s.code == 31 && s.message == "SYNTAX ERROR"@
        }),
{
}

/// Blanks in front of a command do not matter, and a command of nothing else leaves
/// the status alone.
pub proof fn law_blanks_before_a_command(m: DriveModel, command: Seq<u8>)
    ensures
        drive::status_after(m, seq![0x20u8] + command) == drive::status_after(m, command),
        drive::status_after(m, Seq::empty()) == m.status,
{
    assert((seq![0x20u8] + command).skip(1) =~= command);
}

/// A command comes byte by byte, of which the drive keeps 64; the carriage return runs
/// it, and closing the channel runs what is left of one.
pub proof fn law_commands_come_bytewise(m: DriveModel, byte: u8)
    requires
        m.channels.len() == 16,
    ensures
        ({
            let w = drive::drive_after_write(m, 15, byte);
            let c = drive::drive_after_close(m, 15);
            &&& byte != 0x0D && m.command.len() < 64
                ==> w == (DriveModel { command: m.command.push(byte), ..m })
            &&& byte != 0x0D && m.command.len() >= 64 ==> w == m
            &&& byte == 0x0D ==> w == (DriveModel {
                status: drive::status_after(m, m.command), command: Seq::empty(), ..m
            })
            &&& c.command.len() == 0 && c.disk == m.disk
            &&& m.command.len() > 0 ==> c.status == drive::status_after(m, m.command)
            &&& m.command.len() == 0 ==> c.status == m.status
            &&& c.channels[15].data.len() == 0
        }),
{
}

/// A status line: two digits, the message, two digits of track and of sector, with
/// commas between, and a carriage return.
pub proof fn law_status_line(s: Status)
    requires
        s.code < 100,
        s.track < 100,
        s.sector < 100,
    ensures
        ({
            let line = drive::status_line(s);
            let text = vstd::utf8::encode_utf8(s.message);
            let n = text.len() as int;
            &&& line.len() == n + 10
            &&& 10 * (line[0] - '0' as int) + (line[1] - '0' as int) == s.code
            &&& line[2] == 0x2C && line[3 + n] == 0x2C && line[6 + n] == 0x2C
            &&& line.subrange(3, 3 + n) == text
            &&& 10 * (line[4 + n] - '0' as int) + (line[5 + n] - '0' as int) == s.track
            &&& 10 * (line[7 + n] - '0' as int) + (line[8 + n] - '0' as int) == s.sector
            &&& line[9 + n] == 0x0D
        }),
{
    let text = vstd::utf8::encode_utf8(s.message);
    assert(drive::status_line(s).subrange(3, 3int + text.len()) =~= text);
}

/// A drive that nobody has talked to says which one it is.
pub proof fn law_fresh_drive(disk: Option<Seq<u8>>)
    ensures
        ({
            let m = drive::fresh_drive(disk);
            &&& m.status
                == (Status { code: 73, message: "CBM DOS V2.6 1541"@, track: 0, sector: 0 })
            &&& m.disk == disk && m.command.len() == 0 && m.channels.len() == 16
            &&& forall|k: int| 0 <= k < 16 ==> (#[trigger] m.channels[k]).data.len() == 0
        }),
{
}

// ---- the directory ----

/// How many digits a number has.
pub open spec fn digits(n: int) -> int {
    if n < 10 { 1 } else if n < 100 { 2 } else if n < 1000 { 3 } else { 4 }
}

/// A file's line of the directory: its size is the line number, its name stands in
/// quotes in the same column whatever the size (of up to three digits), and its type
/// in the same column whatever the name.
pub proof fn law_directory_lines(e: Entry)
    requires
        vstd::utf8::encode_utf8(e.name).len() <= 16,
        e.size_sectors < 1000,
    ensures
        ({
            let line = drive::entry_lines(seq![e], 1);
            let name = vstd::utf8::encode_utf8(e.name);
            let quote = 8 - digits(e.size_sectors as int);
            let kind = line.subrange(quote + 18, quote + 21);
            let t = e.file_type % 16;
            &&& line.len() == quote + 22
            &&& line[0] + 256 * line[1] != 0
            &&& line[2] + 256 * line[3] == e.size_sectors
            &&& forall|k: int| 4 <= k < quote ==> #[trigger] line[k] == 0x20
            &&& line[quote] == 0x22 && line[quote + 1 + name.len()] == 0x22
            &&& line.subrange(quote + 1, quote + 1 + name.len()) == name
            &&& forall|k: int| quote + 2 + name.len() <= k < quote + 18 ==> #[trigger] line[k] == 0x20
            &&& line[quote + 21] == 0
            &&& kind == vstd::utf8::encode_utf8(
                if t == 0 { "DEL"@ } else if t == 1 { "SEQ"@ } else if t == 2 { "PRG"@ }
                else if t == 3 { "USR"@ } else if t == 4 { "REL"@ } else { "???"@ })
        }),
{
    let line = drive::entry_lines(seq![e], 1);
    let name = vstd::utf8::encode_utf8(e.name);
    let quote = 8 - digits(e.size_sectors as int);
    let text = drive::entry_text(e);
    reveal_with_fuel(drive::entry_lines, 2);
    assert(line =~= drive::basic_line(e.size_sectors as int, text));
    assert(text.len() == quote - 4 + 21);
    assert(line.subrange(quote + 1, quote + 1 + name.len()) =~= name);
    lemma_kinds();
    assert(line.subrange(quote + 18, quote + 21) =~= drive::file_kind(e.file_type));
}

proof fn lemma_kinds()
    ensures
        vstd::utf8::encode_utf8("DEL"@) == seq![0x44u8, 0x45, 0x4C],
        vstd::utf8::encode_utf8("SEQ"@) == seq![0x53u8, 0x45, 0x51],
        vstd::utf8::encode_utf8("PRG"@) == seq![0x50u8, 0x52, 0x47],
        vstd::utf8::encode_utf8("USR"@) == seq![0x55u8, 0x53, 0x52],
        vstd::utf8::encode_utf8("REL"@) == seq![0x52u8, 0x45, 0x4C],
        vstd::utf8::encode_utf8("???"@) == seq![0x3Fu8, 0x3F, 0x3F],
        vstd::utf8::encode_utf8("BLOCKS FREE."@) == drive::blocks_free_text(),
{
    broadcast use vstd::utf8::is_ascii_chars_encode_utf8;

    reveal_strlit("DEL");
    reveal_strlit("SEQ");
    reveal_strlit("PRG");
    reveal_strlit("USR");
    reveal_strlit("REL");
    reveal_strlit("???");
    reveal_strlit("BLOCKS FREE.");
    assert(vstd::utf8::is_ascii_chars("DEL"@));
    assert(vstd::utf8::is_ascii_chars("SEQ"@));
    assert(vstd::utf8::is_ascii_chars("PRG"@));
    assert(vstd::utf8::is_ascii_chars("USR"@));
    assert(vstd::utf8::is_ascii_chars("REL"@));
    assert(vstd::utf8::is_ascii_chars("???"@));
    assert(vstd::utf8::is_ascii_chars("BLOCKS FREE."@));
    assert(vstd::utf8::encode_utf8("DEL"@) =~= seq![0x44u8, 0x45, 0x4C]);
    assert(vstd::utf8::encode_utf8("SEQ"@) =~= seq![0x53u8, 0x45, 0x51]);
    assert(vstd::utf8::encode_utf8("PRG"@) =~= seq![0x50u8, 0x52, 0x47]);
    assert(vstd::utf8::encode_utf8("USR"@) =~= seq![0x55u8, 0x53, 0x52]);
    assert(vstd::utf8::encode_utf8("REL"@) =~= seq![0x52u8, 0x45, 0x4C]);
    assert(vstd::utf8::encode_utf8("???"@) =~= seq![0x3Fu8, 0x3F, 0x3F]);
    assert(vstd::utf8::encode_utf8("BLOCKS FREE."@) =~= drive::blocks_free_text());
}

/// The directory has a line for every file, in order.
pub proof fn law_directory_lines_follow(es: Seq<Entry>, n: int)
    requires
        0 <= n < es.len(),
    ensures
        drive::entry_lines(es, n + 1)
            == drive::entry_lines(es, n) + drive::entry_lines(seq![es[n]], 1),
        drive::entry_lines(es, 0) == Seq::<u8>::empty(),
{
    reveal_with_fuel(drive::entry_lines, 2);
    assert(drive::entry_lines(seq![es[n]], 1)
        =~= drive::basic_line(es[n].size_sectors as int, drive::entry_text(es[n])));
}

/// The directory as a program: it loads at $0401, its first line is the disk's name
/// and ID in reverse, its last one the free blocks, and there it ends.
pub proof fn law_directory_program(img: Seq<u8>)
    requires
        0 <= d64::free_upto(img, 35) < 0x1_0000,
    ensures
        ({
            let l = drive::listing(img);
            let es = d64::directory(img);
            let files = drive::entry_lines(es, es.len() as int);
            let free = 32 + files.len() as int;
            let title = |k: int| d64::bam(img, 0x90 + k);
            &&& l.len() == free + 19
            &&& l[0] == 0x01 && l[1] == 0x04
            &&& l[2] + 256 * l[3] != 0 && l[4] == 0 && l[5] == 0
            &&& l[6] == 0x12 && l[7] == 0x22 && l[24] == 0x22 && l[25] == 0x20 && l[28] == 0x20
            &&& forall|k: int| 0 <= k < 16 ==> #[trigger] l[8 + k]
                == (if title(k) < 0x20 { 0xA0u8 } else { title(k) })
            &&& l[26] == shown(d64::bam(img, 0xA2)) && l[27] == shown(d64::bam(img, 0xA3))
            &&& l[29] == shown(d64::bam(img, 0xA5)) && l[30] == shown(d64::bam(img, 0xA6))
            &&& l[31] == 0
            &&& l.subrange(32, free) == files
            &&& l[free] + 256 * l[free + 1] != 0
            &&& l[free + 2] + 256 * l[free + 3] == d64::free_upto(img, 35)
            &&& l.subrange(free + 4, free + 16) == vstd::utf8::encode_utf8("BLOCKS FREE."@)
            &&& l[free + 16] == 0 && l[free + 17] == 0 && l[free + 18] == 0
        }),
{
    let l = drive::listing(img);
    let es = d64::directory(img);
    let files = drive::entry_lines(es, es.len() as int);
    let head = seq![0x01u8, 0x04] + drive::basic_line(0, drive::listing_head(img));
    lemma_kinds();
    assert(drive::listing_head(img).len() == 25);
    assert(head.len() == 32);
    assert(l.subrange(32, 32int + files.len()) =~= files);
    assert(l.subrange(36int + files.len(), 48int + files.len()) =~= drive::blocks_free_text());
    assert forall|k: int| 0 <= k < 16 implies #[trigger] l[8 + k]
        == (if d64::bam(img, 0x90 + k) < 0x20 { 0xA0u8 } else { d64::bam(img, 0x90 + k) }) by {
        assert(drive::listing_head(img)[2 + k] == l[8 + k]);
    }
}

/// What stands for a byte outside quotes, where only ASCII is safe.
pub open spec fn shown(b: u8) -> u8 {
    if 0x20 <= b <= 0x7F { b } else { 0x20 }
}

} // verus!
