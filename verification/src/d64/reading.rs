//! What reading a disk gives back, in terms of the sectors it is laid out in.

use vstd::prelude::*;
use crate::d64::{self, Entry};
use crate::text;

verus! {

// ---- where the sectors are ----

/// Byte `i` of a sector.
pub open spec fn byte_in(img: Seq<u8>, at: (u8, u8), i: int) -> u8 {
    d64::sector_of(img, at.0, at.1)[i]
}

/// The number of a sector, counted from the first one of track 1: 21 to a track up
/// to track 17, 19 up to 24, 18 up to 30 and 17 from there.
pub open spec fn block_number(track: int, sector: int) -> int {
    sector + (if track <= 18 { 21 * (track - 1) } else { 357int })
        + (if track <= 18 { 0 } else if track <= 25 { 19 * (track - 18) } else { 133int })
        + (if track <= 25 { 0 } else if track <= 31 { 18 * (track - 25) } else { 108int })
        + (if track <= 31 { 0 } else { 17 * (track - 31) })
}

/// A sector is 256 bytes of the image, at its number.
pub proof fn law_sector_bytes(img: Seq<u8>, track: u8, sector: u8, i: int)
    requires
        1 <= track <= 35,
        0 <= i < 256,
        256 * block_number(track as int, sector as int) + 256 <= img.len(),
    ensures
        d64::sector_of(img, track, sector).len() == 256,
        byte_in(img, (track, sector), i) == img[256 * block_number(track as int, sector as int) + i],
{
}

// ---- chains ----

/// Sectors linked one to the next by their first two bytes.
pub open spec fn linked(img: Seq<u8>, chain: Seq<(u8, u8)>) -> bool {
    forall|k: int| #![trigger chain[k]] 0 <= k < chain.len() - 1 ==> {
        &&& byte_in(img, chain[k], 0) != 0
        &&& chain[k + 1] == (byte_in(img, chain[k], 0), byte_in(img, chain[k], 1))
    }
}

// ---- the directory ----

/// Slot `j` of a directory sector holds a closed file with a name: bit 7 of its
/// type is set, and its name does not start with padding.
pub open spec fn holds_file(img: Seq<u8>, at: (u8, u8), j: int) -> bool {
    &&& byte_in(img, at, 32 * j + 2) >= 128
    &&& byte_in(img, at, 32 * j + 5) != 0xA0
    &&& byte_in(img, at, 32 * j + 5) != 0
}

/// How many files there are before slot `j` of a sector.
pub open spec fn files_before(img: Seq<u8>, at: (u8, u8), j: int) -> int
    decreases j,
{
    if j <= 0 { 0 } else {
        files_before(img, at, j - 1) + (if holds_file(img, at, j - 1) { 1int } else { 0 })
    }
}

/// How many files the first `k` sectors of a chain hold.
pub open spec fn files_in(img: Seq<u8>, chain: Seq<(u8, u8)>, k: int) -> int
    decreases k,
{
    if k <= 0 { 0 } else {
        files_in(img, chain, k - 1) + files_before(img, chain[k - 1], 8)
    }
}

/// The character that a byte of a name is shown as: itself where it is ASCII, else
/// a question mark. Padding is not shown.
pub open spec fn spelt(c: char, b: u8) -> bool {
    &&& b != 0xA0 && b != 0
    &&& 0x20 <= b <= 0x5F ==> c == b as char
    &&& !(0x20 <= b <= 0x5F) ==> c == '?'
}

/// What an entry says of the file in slot `j` of a sector.
pub open spec fn describes(img: Seq<u8>, e: Entry, at: (u8, u8), j: int) -> bool {
    &&& e.file_type == byte_in(img, at, 32 * j + 2)
    &&& e.first_track == byte_in(img, at, 32 * j + 3)
    &&& e.first_sector == byte_in(img, at, 32 * j + 4)
    &&& e.size_sectors == byte_in(img, at, 32 * j + 30) + 256 * byte_in(img, at, 32 * j + 31)
    &&& 1 <= e.name.len() <= 16
    &&& forall|i: int| #![trigger e.name[i]] 0 <= i < e.name.len()
        ==> spelt(e.name[i], byte_in(img, at, 32 * j + 5 + i))
    &&& e.name.len() < 16 ==> {
        let b = byte_in(img, at, 32 * j + 5 + e.name.len());
        b == 0xA0 || b == 0
    }
}

/// The directory is complete: every closed, named file of every sector that is
/// linked from 18/1 on is listed, in its place, and nothing else is. A link to
/// track 0 ends the chain, and so do 64 sectors.
pub proof fn law_directory_is_complete(img: Seq<u8>, chain: Seq<(u8, u8)>, k: int, j: int)
    requires
        1 <= chain.len() <= 64,
        chain[0] == (18u8, 1u8),
        linked(img, chain),
        byte_in(img, chain.last(), 0) == 0 || chain.len() == 64,
        0 <= k < chain.len(),
        0 <= j < 8,
        forall|i: int| 0 <= i < chain.len() ==>
            (#[trigger] d64::sector_of(img, chain[i].0, chain[i].1)).len() == 256,
    ensures
        d64::directory(img).len() == files_in(img, chain, chain.len() as int),
        holds_file(img, chain[k], j) ==> {
            let n = files_in(img, chain, k) + files_before(img, chain[k], j);
            &&& 0 <= n < d64::directory(img).len()
            &&& describes(img, d64::directory(img)[n], chain[k], j)
        },
{
    lemma_directory_from(img, chain, 0, 64, k, j);
}

/// The same of the chain from its sector `from` on.
proof fn lemma_directory_from(img: Seq<u8>, chain: Seq<(u8, u8)>, from: int, fuel: nat, k: int, j: int)
    requires
        0 <= from < chain.len() <= from + fuel,
        linked(img, chain),
        byte_in(img, chain.last(), 0) == 0 || chain.len() == from + fuel,
        from <= k < chain.len(),
        0 <= j < 8,
        forall|i: int| 0 <= i < chain.len() ==>
            (#[trigger] d64::sector_of(img, chain[i].0, chain[i].1)).len() == 256,
    ensures
        ({
            let dir = d64::dir_from(img, chain[from].0, chain[from].1, fuel);
            let n = files_in(img, chain, k) - files_in(img, chain, from)
                + files_before(img, chain[k], j);
            &&& dir.len() == files_in(img, chain, chain.len() as int) - files_in(img, chain, from)
            &&& holds_file(img, chain[k], j)
                ==> 0 <= n < dir.len() && describes(img, dir[n], chain[k], j)
        }),
    decreases chain.len() - from,
{
    let at = chain[from];
    let sec = d64::sector_of(img, at.0, at.1);
    let here = d64::sector_entries(sec, 8);
    let dir = d64::dir_from(img, at.0, at.1, fuel);
    lemma_sector_files(img, at, 8, j);
    assert(sec[0] == byte_in(img, at, 0) && sec[1] == byte_in(img, at, 1));
    assert(files_in(img, chain, from + 1) == files_in(img, chain, from) + here.len());
    if from == chain.len() - 1 {
        if sec[0] == 0 {
            assert(dir =~= here);
        } else {
            assert(fuel == 1);
            assert(d64::dir_from(img, sec[0], sec[1], 0) =~= Seq::<Entry>::empty());
            assert(dir =~= here);
        }
    } else {
        assert(chain[from + 1] == (sec[0], sec[1]));
        let next = if k > from { k } else { from + 1 };
        lemma_directory_from(img, chain, from + 1, (fuel - 1) as nat, next, j);
        let rest = d64::dir_from(img, sec[0], sec[1], (fuel - 1) as nat);
        assert(dir == here + rest);
        lemma_counts(img, chain, from + 1, next);
    }
}

proof fn lemma_counts(img: Seq<u8>, chain: Seq<(u8, u8)>, a: int, b: int)
    requires
        0 <= a <= b,
    ensures
        files_in(img, chain, a) <= files_in(img, chain, b),
    decreases b - a,
{
    if a < b {
        lemma_counts(img, chain, a, b - 1);
        lemma_no_fewer(img, chain[b - 1], 8);
    }
}

proof fn lemma_no_fewer(img: Seq<u8>, at: (u8, u8), n: int)
    ensures
        files_before(img, at, n) >= 0,
    decreases n,
{
    if n > 0 {
        lemma_no_fewer(img, at, n - 1);
    }
}

/// The files among the first slots of a sector.
proof fn lemma_sector_files(img: Seq<u8>, at: (u8, u8), n: int, j: int)
    requires
        0 <= n <= 8,
        d64::sector_of(img, at.0, at.1).len() == 256,
    ensures
        ({
            let here = d64::sector_entries(d64::sector_of(img, at.0, at.1), n);
            &&& here.len() == files_before(img, at, n)
            &&& 0 <= j < n && holds_file(img, at, j) ==> {
                &&& 0 <= files_before(img, at, j) < here.len()
                &&& describes(img, here[files_before(img, at, j)], at, j)
            }
        }),
    decreases n,
{
    let sec = d64::sector_of(img, at.0, at.1);
    if n > 0 {
        lemma_sector_files(img, at, n - 1, j);
        lemma_no_fewer(img, at, j);
        let e = d64::entry_at(sec, n - 1);
        let sub = sec.subrange(32 * (n - 1) + 5, 32 * (n - 1) + 21);
        lemma_name(sub);
        assert(e.name == d64::petscii_text(sub));
        assert(sub.len() == 16 && sub[0] == sec[32 * (n - 1) + 5]);
        assert(d64::is_listed(e) == holds_file(img, at, n - 1));
        if j == n - 1 && holds_file(img, at, j) {
            assert forall|i: int| #![trigger e.name[i]] 0 <= i < e.name.len() implies
                spelt(e.name[i], byte_in(img, at, 32 * j + 5 + i)) by {
                assert(sub[i] == sec[32 * j + 5 + i]);
                assert(e.name[i] == d64::petscii_text(sub)[i]);
            }
            if e.name.len() < 16 {
                assert(sub[e.name.len() as int] == sec[32 * j + 5 + e.name.len()]);
            }
            assert(e.name.len() >= 1);
            assert(describes(img, e, at, j));
        }
    }
}

/// A name goes up to its padding.
proof fn lemma_name(bytes: Seq<u8>)
    ensures
        ({
            let t = d64::petscii_text(bytes);
            &&& t.len() <= bytes.len()
            &&& forall|i: int| #![trigger t[i]] 0 <= i < t.len() ==> spelt(t[i], bytes[i])
            &&& t.len() < bytes.len() ==> bytes[t.len() as int] == 0xA0 || bytes[t.len() as int] == 0
        }),
    decreases bytes.len(),
{
    if bytes.len() > 0 && bytes[0] != 0xA0 && bytes[0] != 0 {
        let rest = bytes.skip(1);
        lemma_name(rest);
        let t = d64::petscii_text(bytes);
        let u = d64::petscii_text(rest);
        assert(t == seq![d64::petscii_char(bytes[0])] + u);
        assert(t[0] == d64::petscii_char(bytes[0]) && t.len() == u.len() + 1);
        assert forall|i: int| #![trigger t[i]] 0 <= i < t.len() implies spelt(t[i], bytes[i]) by {
            if i > 0 {
                assert(t[i] == u[i - 1] && rest[i - 1] == bytes[i]);
            }
        }
        if t.len() < bytes.len() {
            assert(rest[u.len() as int] == bytes[t.len() as int]);
        }
    }
}

// ---- files ----

/// A file is what its sectors hold: 254 bytes behind the link of each but the last,
/// and of the last, whose link is to track 0, those up to the index that its
/// second byte gives.
pub proof fn law_file_is_its_sectors(img: Seq<u8>, e: Entry, chain: Seq<(u8, u8)>, k: int, i: int)
    requires
        1 <= chain.len() <= 683,
        chain[0] == (e.first_track, e.first_sector),
        linked(img, chain),
        byte_in(img, chain.last(), 0) == 0,
        forall|n: int| 0 <= n < chain.len() ==> 1 <= (#[trigger] chain[n]).0 <= 35,
        forall|n: int| 0 <= n < chain.len() ==>
            (#[trigger] d64::sector_of(img, chain[n].0, chain[n].1)).len() == 256,
        0 <= k < chain.len(),
    ensures
        ({
            let file = d64::file_of(img, e);
            let last = byte_in(img, chain.last(), 1);
            let used = if last < 2 { 1int } else { last - 1 };
            &&& file.len() == 254 * (chain.len() - 1) + used
            &&& 0 <= i < (if k < chain.len() - 1 { 254int } else { used })
                ==> file[254 * k + i] == byte_in(img, chain[k], 2 + i)
        }),
{
    lemma_file_from(img, chain, 0, 683, k, i);
}

proof fn lemma_file_from(img: Seq<u8>, chain: Seq<(u8, u8)>, from: int, fuel: nat, k: int, i: int)
    requires
        0 <= from < chain.len() <= from + fuel,
        linked(img, chain),
        byte_in(img, chain.last(), 0) == 0,
        forall|n: int| 0 <= n < chain.len() ==> 1 <= (#[trigger] chain[n]).0 <= 35,
        forall|n: int| 0 <= n < chain.len() ==>
            (#[trigger] d64::sector_of(img, chain[n].0, chain[n].1)).len() == 256,
        from <= k < chain.len(),
    ensures
        ({
            let file = d64::file_from(img, chain[from].0, chain[from].1, fuel);
            let last = byte_in(img, chain.last(), 1);
            let used = if last < 2 { 1int } else { last - 1 };
            &&& file.len() == 254 * (chain.len() - 1 - from) + used
            &&& 0 <= i < (if k < chain.len() - 1 { 254int } else { used })
                ==> file[254 * (k - from) + i] == byte_in(img, chain[k], 2 + i)
        }),
    decreases chain.len() - from,
{
    let at = chain[from];
    let sec = d64::sector_of(img, at.0, at.1);
    assert(sec[0] == byte_in(img, at, 0) && sec[1] == byte_in(img, at, 1));
    if from < chain.len() - 1 {
        assert(chain[from + 1] == (sec[0], sec[1]));
        let next = if k > from { k } else { from + 1 };
        lemma_file_from(img, chain, from + 1, (fuel - 1) as nat, next, i);
        let rest = d64::file_from(img, sec[0], sec[1], (fuel - 1) as nat);
        assert(d64::file_from(img, at.0, at.1, fuel) == sec.subrange(2, 256) + rest);
    }
}

/// A link to a track that a disk has not ends a file too.
pub proof fn law_file_ends_beyond_the_disk(img: Seq<u8>, e: Entry)
    ensures
        e.first_track == 0 || e.first_track > 35 ==> d64::file_of(img, e).len() == 0,
{
}

// ---- finding a program ----

/// A program is found by its name, whatever the case, or as the first of all by
/// `*`; it is the first one that fits, and none is found only where none fits. A
/// program has 2 in the lower half of its type.
pub proof fn law_first_program(entries: Seq<Entry>, want: Seq<char>)
    ensures
        match d64::first_prg(entries, want) {
            Some(e) => exists|k: int| {
                &&& 0 <= k < entries.len() && #[trigger] entries[k] == e
                &&& fits(e, want)
                &&& forall|j: int| 0 <= j < k ==> !fits(#[trigger] entries[j], want)
            },
            None => forall|j: int| 0 <= j < entries.len() ==> !fits(#[trigger] entries[j], want),
        },
    decreases entries.len(),
{
    if entries.len() > 0 {
        let name = entries[0].name;
        assert(fits(entries[0], want) == (d64::is_prg_entry(entries[0])
            && (want == seq!['*'] || text::uppercase(name) == want))) by {
            if name.len() == want.len() && forall|i: int| 0 <= i < want.len()
                ==> #[trigger] want[i] == text::upper_char(name[i]) {
                assert(text::uppercase(name) =~= want);
            }
            if text::uppercase(name) == want {
                assert forall|i: int| 0 <= i < want.len() implies
                    #[trigger] want[i] == text::upper_char(name[i]) by {
                    assert(text::uppercase(name)[i] == text::upper_char(name[i]));
                }
            }
        }
        if fits(entries[0], want) {
            assert(entries[0] == d64::first_prg(entries, want)->0);
        } else {
            let rest = entries.skip(1);
            law_first_program(rest, want);
            match d64::first_prg(rest, want) {
                Some(e) => {
                    let k = choose|k: int| {
                        &&& 0 <= k < rest.len() && #[trigger] rest[k] == e
                        &&& fits(e, want)
                        &&& forall|j: int| 0 <= j < k ==> !fits(#[trigger] rest[j], want)
                    };
                    assert(entries[k + 1] == e);
                    assert forall|j: int| 0 <= j < k + 1 implies !fits(#[trigger] entries[j], want) by {
                        if j > 0 {
                            assert(rest[j - 1] == entries[j]);
                        }
                    }
                },
                None => {
                    assert forall|j: int| 0 <= j < entries.len() implies
                        !fits(#[trigger] entries[j], want) by {
                        if j > 0 {
                            assert(rest[j - 1] == entries[j]);
                        }
                    }
                },
            }
        }
    }
}

/// Is this a program of that name? Letters are compared in capitals.
pub open spec fn fits(e: Entry, want: Seq<char>) -> bool {
    &&& e.file_type % 16 == 2
    &&& want == seq!['*'] || (e.name.len() == want.len() && forall|i: int|
        0 <= i < want.len() ==> #[trigger] want[i] == text::upper_char(e.name[i]))
}

// ---- the BAM ----

/// The free blocks are those that the BAM gives for each track but 18, four bytes
/// to a track from byte 4 of 18/0 on: a disk with none has none, and one more on a
/// track is one more in all.
pub proof fn law_blocks_free(img: Seq<u8>, other: Seq<u8>, track: int)
    requires
        img.len() >= 174_848,
        other.len() == img.len(),
        1 <= track <= 35,
        forall|t: int| 1 <= t <= 35 && t != track
            ==> #[trigger] count_at(other, t) == count_at(img, t),
    ensures
        d64::free_upto(other, 35) - d64::free_upto(img, 35)
            == (if track == 18 { 0 } else { count_at(other, track) - count_at(img, track) }),
        (forall|t: int| 1 <= t <= 35 ==> #[trigger] count_at(img, t) == 0)
            ==> d64::free_upto(img, 35) == 0,
{
    lemma_free(img, other, track, 35);
    if forall|t: int| 1 <= t <= 35 ==> #[trigger] count_at(img, t) == 0 {
        lemma_none_free(img, 35);
    }
}

/// The BAM's count for a track.
pub open spec fn count_at(img: Seq<u8>, t: int) -> int {
    img[91_392 + 4 * t] as int
}

proof fn lemma_free(img: Seq<u8>, other: Seq<u8>, track: int, n: int)
    requires
        1 <= track <= 35,
        0 <= n <= 35,
        forall|t: int| 1 <= t <= 35 && t != track
            ==> #[trigger] count_at(other, t) == count_at(img, t),
    ensures
        d64::free_upto(other, n) - d64::free_upto(img, n) == (if track == 18 || track > n { 0 }
            else { count_at(other, track) - count_at(img, track) }),
    decreases n,
{
    if n > 0 {
        lemma_free(img, other, track, n - 1);
        assert(d64::bam(img, 4 * n) == count_at(img, n));
        assert(d64::bam(other, 4 * n) == count_at(other, n));
    }
}

proof fn lemma_none_free(img: Seq<u8>, n: int)
    requires
        0 <= n <= 35,
        forall|t: int| 1 <= t <= 35 ==> #[trigger] count_at(img, t) == 0,
    ensures
        d64::free_upto(img, n) == 0,
    decreases n,
{
    if n > 0 {
        lemma_none_free(img, n - 1);
        assert(d64::bam(img, 4 * n) == count_at(img, n));
    }
}

} // verus!
