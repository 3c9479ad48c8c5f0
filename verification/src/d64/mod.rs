//! Reader for `.d64` disk images: the 1541's 35-track, 683-sector format.
//!
//! Parses the directory on track 18 and extracts files by following their
//! track/sector chains, returning the raw `.prg` bytes (load address + data).
//! Used both to load programs directly and to feed the emulated 1541.
//!
//! An image is nothing but its bytes, so what each function finds is a function
//! of these bytes. A damaged image can hold a chain that leads outside of it;
//! the functions that follow chains ask for chains that stay inside, and
//! [`Disk::is_readable`] tells whether all of them do.

use vstd::prelude::*;
use crate::text;

pub mod drive;
pub mod fixtures;
pub mod laws;
pub mod reading;
pub mod serving;

pub use drive::{directory_listing, DiskDrive};

verus! {

pub const SECTOR_SIZE: usize = 256;
/// The size of a standard image: 683 sectors.
pub const IMAGE_SIZE: usize = 174_848;
pub const DIR_TRACK: u8 = 18;
pub const DIR_SECTOR: u8 = 1;

/// The directory is at most this many sectors long: a guard against a chain
/// that loops.
pub const DIR_GUARD: u32 = 64;
/// A file is at most the whole disk.
pub const FILE_GUARD: u32 = 683;

// ---- geometry ----

/// How many sectors come before a track, in the 1541's zoned layout.
pub open spec fn sectors_before(track: u8) -> int {
    if track <= 1 { 0 }
    else if track <= 18 { 21 * (track - 1) }
    else if track <= 25 { 357 + 19 * (track - 18) }
    else if track <= 31 { 490 + 18 * (track - 25) }
    else { 598 + 17 * (track - 31) }
}

/// Where a sector starts in the image.
pub open spec fn starts_at(track: u8, sector: u8) -> int {
    256 * (sectors_before(track) + sector)
}

/// Does the image hold this sector?
pub open spec fn holds(img: Seq<u8>, track: u8, sector: u8) -> bool {
    starts_at(track, sector) + 256 <= img.len()
}

/// The bytes of a sector.
pub open spec fn sector_of(img: Seq<u8>, track: u8, sector: u8) -> Seq<u8> {
    img.subrange(starts_at(track, sector), starts_at(track, sector) + 256)
}

/// Large enough to be a disk image: all the sectors of 35 tracks are in it.
pub open spec fn is_image(img: Seq<u8>) -> bool {
    img.len() >= IMAGE_SIZE
}

// ---- the directory ----

/// What a directory entry says.
pub struct Entry {
    pub name: Seq<char>,
    pub file_type: u8,
    pub size_sectors: u16,
    pub first_track: u8,
    pub first_sector: u8,
}

/// The character a directory shows for a PETSCII byte: $20 to $5F coincide with
/// ASCII, other bytes are shown as a question mark.
pub open spec fn petscii_char(b: u8) -> char {
    if 0x20 <= b <= 0x5F { b as char } else { '?' }
}

/// A name up to its padding.
pub open spec fn petscii_text(bytes: Seq<u8>) -> Seq<char>
    decreases bytes.len(),
{
    if bytes.len() == 0 || bytes[0] == 0xA0 || bytes[0] == 0x00 {
        Seq::empty()
    } else {
        seq![petscii_char(bytes[0])] + petscii_text(bytes.skip(1))
    }
}

/// Entry `k` of a directory sector.
pub open spec fn entry_at(sec: Seq<u8>, k: int) -> Entry {
    let at = 32 * k;
    Entry {
        name: petscii_text(sec.subrange(at + 5, at + 21)),
        file_type: sec[at + 2],
        size_sectors: (sec[at + 30] + 256 * sec[at + 31]) as u16,
        first_track: sec[at + 3],
        first_sector: sec[at + 4],
    }
}

/// A closed file with a name: bit 7 of the type says that it was closed. A type
/// of zero marks an empty slot.
pub open spec fn is_listed(e: Entry) -> bool {
    e.file_type >= 0x80 && e.name.len() > 0
}

/// The files among the first `n` slots of a directory sector.
pub open spec fn sector_entries(sec: Seq<u8>, n: int) -> Seq<Entry>
    decreases n,
{
    if n <= 0 {
        Seq::empty()
    } else if is_listed(entry_at(sec, n - 1)) {
        sector_entries(sec, n - 1).push(entry_at(sec, n - 1))
    } else {
        sector_entries(sec, n - 1)
    }
}

/// Does the directory chain from here stay inside the image?
pub open spec fn dir_inside(img: Seq<u8>, track: u8, sector: u8, fuel: nat) -> bool
    decreases fuel,
{
    fuel == 0 || (holds(img, track, sector) && {
        let sec = sector_of(img, track, sector);
        sec[0] == 0 || dir_inside(img, sec[0], sec[1], (fuel - 1) as nat)
    })
}

/// The entries of the directory chain from here on.
pub open spec fn dir_from(img: Seq<u8>, track: u8, sector: u8, fuel: nat) -> Seq<Entry>
    decreases fuel,
{
    if fuel == 0 {
        Seq::empty()
    } else {
        let sec = sector_of(img, track, sector);
        sector_entries(sec, 8) + (if sec[0] == 0 {
            Seq::empty()
        } else {
            dir_from(img, sec[0], sec[1], (fuel - 1) as nat)
        })
    }
}

/// The directory of a disk.
pub open spec fn directory(img: Seq<u8>) -> Seq<Entry> {
    dir_from(img, DIR_TRACK, DIR_SECTOR, DIR_GUARD as nat)
}

/// The directory stays inside the image.
pub open spec fn directory_inside(img: Seq<u8>) -> bool {
    dir_inside(img, DIR_TRACK, DIR_SECTOR, DIR_GUARD as nat)
}

// ---- files ----

/// Does the file chain from here stay inside the image? A link to a track that
/// does not exist ends the file.
pub open spec fn file_inside(img: Seq<u8>, track: u8, sector: u8, fuel: nat) -> bool
    decreases fuel,
{
    fuel == 0 || track == 0 || track > 35 || (holds(img, track, sector) && {
        let sec = sector_of(img, track, sector);
        sec[0] == 0 || file_inside(img, sec[0], sec[1], (fuel - 1) as nat)
    })
}

/// The bytes of the file chain from here on. Each sector holds a link and 254
/// bytes; the last one has a zero for a link, and then the index of its last
/// used byte.
pub open spec fn file_from(img: Seq<u8>, track: u8, sector: u8, fuel: nat) -> Seq<u8>
    decreases fuel,
{
    if fuel == 0 || track == 0 || track > 35 {
        Seq::empty()
    } else {
        let sec = sector_of(img, track, sector);
        if sec[0] == 0 {
            sec.subrange(2, (if sec[1] >= 2 { sec[1] as int } else { 2 }) + 1)
        } else {
            sec.subrange(2, 256) + file_from(img, sec[0], sec[1], (fuel - 1) as nat)
        }
    }
}

/// The bytes of an entry's file.
pub open spec fn file_of(img: Seq<u8>, e: Entry) -> Seq<u8> {
    file_from(img, e.first_track, e.first_sector, FILE_GUARD as nat)
}

/// An entry's file stays inside the image.
pub open spec fn entry_inside(img: Seq<u8>, e: Entry) -> bool {
    file_inside(img, e.first_track, e.first_sector, FILE_GUARD as nat)
}

/// A program file: the low four bits of the type are 2.
pub open spec fn is_prg_entry(e: Entry) -> bool {
    e.file_type % 16 == 2
}

/// Everything on the disk that can be opened stays inside the image.
pub open spec fn readable(img: Seq<u8>) -> bool {
    &&& is_image(img)
    &&& directory_inside(img)
    &&& forall|k: int| 0 <= k < directory(img).len() && is_prg_entry(directory(img)[k])
        ==> entry_inside(img, #[trigger] directory(img)[k])
}

/// The first of some entries that is a program and has this name, or any name
/// for `*`. Names are compared in upper case.
pub open spec fn first_prg(entries: Seq<Entry>, want: Seq<char>) -> Option<Entry>
    decreases entries.len(),
{
    if entries.len() == 0 {
        None
    } else if is_prg_entry(entries[0])
        && (want == seq!['*'] || text::uppercase(entries[0].name) == want) {
        Some(entries[0])
    } else {
        first_prg(entries.skip(1), want)
    }
}

/// The name a search compares with.
pub open spec fn wanted(name: Seq<char>) -> Seq<char> {
    text::uppercase(text::trimmed(name))
}

/// What a search for a program has to read stays inside the image: the directory,
/// and the file's chain if there is one of that name.
pub open spec fn prg_inside(img: Seq<u8>, name: Seq<char>) -> bool {
    &&& directory_inside(img)
    &&& first_prg(directory(img), wanted(name)) matches Some(e) ==> entry_inside(img, e)
}

// ---- the BAM ----

/// A byte of the block availability map, track 18 sector 0.
pub open spec fn bam(img: Seq<u8>, at: int) -> u8 {
    img[starts_at(DIR_TRACK, 0) + at]
}

/// A byte that `LIST` shows outside of quotes: anything it would detokenise is
/// a space.
pub open spec fn outside_quotes(b: u8) -> u8 {
    if 0x20 <= b < 0x80 { b } else { 0x20 }
}

/// The free blocks of the tracks up to `n`, without the directory track.
pub open spec fn free_upto(img: Seq<u8>, n: int) -> int
    decreases n,
{
    if n <= 0 {
        0
    } else {
        free_upto(img, n - 1) + (if n == DIR_TRACK { 0 } else { bam(img, 4 * n) as int })
    }
}

// ---- the types ----

/// A directory entry.
pub struct DirEntry {
    pub name: String,
    /// Low nibble: 1=SEQ,2=PRG,3=USR,4=REL.
    pub file_type: u8,
    pub size_sectors: u16,
    pub first_track: u8,
    pub first_sector: u8,
}

impl View for DirEntry {
    type V = Entry;

    open spec fn view(&self) -> Entry {
        Entry {
            name: self.name@,
            file_type: self.file_type,
            size_sectors: self.size_sectors,
            first_track: self.first_track,
            first_sector: self.first_sector,
        }
    }
}

/// The entries of a list.
pub open spec fn entries_of(v: Seq<DirEntry>) -> Seq<Entry> {
    Seq::new(v.len(), |k: int| v[k]@)
}

impl DirEntry {
    pub fn is_prg(&self) -> (b: bool)
        ensures
            b == is_prg_entry(self@),
    {
        self.file_type % 16 == 2
    }
}

/// A disk's identity as stored in its BAM sector.
#[derive(Debug, Clone, Copy, PartialEq, Eq)]
pub struct Header {
    /// 16-byte PETSCII disk name, padded with `$A0`.
    pub name: [u8; 16],
    /// Two-character disk ID.
    pub id: [u8; 2],
    /// DOS type, `"2A"` for a 1541.
    pub dos_type: [u8; 2],
}

/// A mounted `.d64` image.
pub struct Disk {
    pub data: Vec<u8>,
}

impl View for Disk {
    type V = Seq<u8>;

    open spec fn view(&self) -> Seq<u8> {
        self.data@
    }
}

/// Sectors per track (the 1541's zoned layout).
pub(crate) fn sectors_in_track(track: u8) -> (n: u8)
    ensures
        n == crate::gcr::zone_sectors(track),
{
    crate::gcr::sectors_per_track(track)
}

/// Byte offset of the first sector of `track` within the image.
pub(crate) fn track_offset(track: u8) -> (off: usize)
    ensures
        off == starts_at(track, 0),
        off <= 0x20_0000,
{
    let mut off: usize = 0;
    let mut t: u8 = 1;
    while t < track
        invariant
            1 <= t,
            t <= track || (track == 0 && t == 1),
            off == starts_at(t, 0),
            off <= 0x20_0000,
        decreases track - t,
    {
        off += sectors_in_track(t) as usize * SECTOR_SIZE;
        t += 1;
    }
    off
}

pub(crate) fn sector_offset(track: u8, sector: u8) -> (off: usize)
    ensures
        off == starts_at(track, sector),
        off <= 0x30_0000,
{
    track_offset(track) + sector as usize * SECTOR_SIZE
}

/// A 16-byte PETSCII directory name, trimmed of the `$A0` shifted-space padding.
fn petscii_name(bytes: &[u8]) -> (s: String)
    ensures
        s@ == petscii_text(bytes@),
{
    let mut s = String::new();
    let mut k: usize = 0;
    assert(bytes@.skip(0) =~= bytes@);
    assert(s@ + petscii_text(bytes@) =~= petscii_text(bytes@));
    while k < bytes.len() && bytes[k] != 0xA0 && bytes[k] != 0x00
        invariant
            k <= bytes.len(),
            s@ + petscii_text(bytes@.skip(k as int)) == petscii_text(bytes@),
        decreases bytes.len() - k,
    {
        let b = bytes[k];
        let ghost before = s@;
        // PETSCII $20..$5F coincides with ASCII; other bytes shown as '?'.
        s.push(if 0x20 <= b && b <= 0x5F { b as char } else { '?' });
        proof {
            let rest = bytes@.skip(k as int);
            assert(rest.skip(1) =~= bytes@.skip(k + 1));
            assert(before + (seq![petscii_char(b)] + petscii_text(rest.skip(1)))
                =~= s@ + petscii_text(bytes@.skip(k + 1)));
        }
        k += 1;
    }
    assert(petscii_text(bytes@.skip(k as int)) =~= Seq::<char>::empty());
    assert(s@ =~= petscii_text(bytes@));
    s
}

impl Disk {
    /// Wrap raw `.d64` bytes. Accepts the standard 174848-byte image (and larger
    /// variants that append error info).
    pub fn new(data: Vec<u8>) -> (d: Option<Disk>)
        ensures
            d is Some == is_image(data@),
            d is Some ==> d->0@ == data@,
    {
        if data.len() < IMAGE_SIZE {
            return None;
        }
        Some(Disk { data })
    }

    fn sector(&self, track: u8, sector: u8) -> (s: &[u8])
        requires
            holds(self@, track, sector),
        ensures
            s@ == sector_of(self@, track, sector),
    {
        let off = sector_offset(track, sector);
        vstd::slice::slice_subrange(self.data.as_slice(), off, off + SECTOR_SIZE)
    }

    /// Sectors on `track` (the 1541's zoned layout), or 0 for an out-of-range
    /// track. Exposed so a GCR encoder can walk a whole track.
    pub fn sectors_on_track(&self, track: u8) -> (n: u8)
        ensures
            n == (if 1 <= track <= 35 { crate::gcr::zone_sectors(track) } else { 0 }),
    {
        if 1 <= track && track <= 35 {
            sectors_in_track(track)
        } else {
            0
        }
    }

    /// A copy of one sector's raw 256 decoded bytes, or `None` if the
    /// track/sector is out of range. This is what the emulated drive turns into
    /// a GCR bitstream for its read head.
    pub fn sector_bytes(&self, track: u8, sector: u8) -> (r: Option<[u8; 256]>)
        requires
            1 <= track <= 35 && sector < crate::gcr::zone_sectors(track)
                ==> holds(self@, track, sector),
        ensures
            r is Some == (1 <= track <= 35 && sector < crate::gcr::zone_sectors(track)),
            r is Some ==> r->0@ == sector_of(self@, track, sector),
    {
        if track < 1 || track > 35 || sector >= sectors_in_track(track) {
            return None;
        }
        let sec = self.sector(track, sector);
        let mut out: [u8; 256] = [0; 256];
        let mut k: usize = 0;
        while k < 256
            invariant
                k <= 256,
                sec@.len() == 256,
                forall|j: int| 0 <= j < k ==> #[trigger] out@[j] == sec@[j],
            decreases 256 - k,
        {
            out[k] = sec[k];
            k += 1;
        }
        assert(out@ =~= sec@);
        Some(out)
    }

    /// The disk's two **raw** ID bytes from the BAM, exactly as they are written
    /// into every sector header on the physical disk.
    ///
    /// Unlike [`Disk::header`], these are not sanitised for display: a sector
    /// header on disk stores the ID verbatim, and the drive's DOS compares the
    /// bytes it reads against these.
    pub fn id(&self) -> (id: [u8; 2])
        requires
            is_image(self@),
        ensures
            id@ == seq![bam(self@, 0xA2), bam(self@, 0xA3)],
    {
        let sec = self.sector(DIR_TRACK, 0);
        let id: [u8; 2] = [sec[0xA2], sec[0xA3]];
        assert(id@ =~= seq![bam(self@, 0xA2), bam(self@, 0xA3)]);
        id
    }

    /// List every directory entry (closed files with a name).
    pub fn dir(&self) -> (entries: Vec<DirEntry>)
        requires
            directory_inside(self@),
        ensures
            entries_of(entries@) == directory(self@),
    {
        let mut entries: Vec<DirEntry> = Vec::new();
        let mut t = DIR_TRACK;
        let mut s = DIR_SECTOR;
        let mut left: u32 = DIR_GUARD;
        assert(entries_of(entries@) =~= Seq::<Entry>::empty());
        assert(entries_of(entries@) + directory(self@) =~= directory(self@));
        // Follow the directory sector chain.
        while left > 0
            invariant_except_break
                left <= DIR_GUARD,
                dir_inside(self@, t, s, left as nat),
                entries_of(entries@) + dir_from(self@, t, s, left as nat) == directory(self@),
            ensures
                entries_of(entries@) == directory(self@),
            decreases left,
        {
            let sec = self.sector(t, s);
            let ghost before = entries_of(entries@);
            self.push_entries(sec, &mut entries);
            let next_t = sec[0];
            if next_t == 0 {
                assert(before + (sector_entries(sec@, 8) + Seq::<Entry>::empty())
                    =~= before + sector_entries(sec@, 8));
                break;
            }
            proof {
                let rest = dir_from(self@, sec@[0], sec@[1], (left - 1) as nat);
                assert(before + (sector_entries(sec@, 8) + rest)
                    =~= (before + sector_entries(sec@, 8)) + rest);
            }
            t = next_t;
            s = sec[1];
            left -= 1;
            if left == 0 {
                assert(dir_from(self@, t, s, 0) =~= Seq::<Entry>::empty());
                assert(entries_of(entries@) + Seq::<Entry>::empty() =~= entries_of(entries@));
            }
        }
        entries
    }

    /// Append the files of a directory sector.
    fn push_entries(&self, sec: &[u8], entries: &mut Vec<DirEntry>)
        requires
            sec.len() == 256,
        ensures
            entries_of(final(entries)@) == entries_of(old(entries)@) + sector_entries(sec@, 8),
    {
        let mut e: usize = 0;
        assert(entries_of(entries@) + Seq::<Entry>::empty() =~= entries_of(entries@));
        while e < 8
            invariant
                e <= 8,
                sec.len() == 256,
                entries_of(entries@)
                    == entries_of(old(entries)@) + sector_entries(sec@, e as int),
            decreases 8 - e,
        {
            let at = 32 * e;
            let entry = DirEntry {
                name: petscii_name(vstd::slice::slice_subrange(sec, at + 5, at + 21)),
                file_type: sec[at + 2],
                size_sectors: sec[at + 30] as u16 + 256 * (sec[at + 31] as u16),
                first_track: sec[at + 3],
                first_sector: sec[at + 4],
            };
            assert(entry@ == entry_at(sec@, e as int));
            // Deleted and empty slots have type zero, a file still being written
            // has bit 7 clear.
            if entry.file_type >= 0x80 && entry.name.as_str().unicode_len() > 0 {
                let ghost before = entries@;
                entries.push(entry);
                assert(entries_of(entries@) =~= entries_of(before).push(entry@));
                assert(entries_of(entries@)
                    =~= entries_of(old(entries)@) + sector_entries(sec@, e + 1));
            }
            e += 1;
        }
    }

    /// Extract a file's raw bytes (a `.prg`: load address followed by data) by
    /// following its sector chain.
    pub fn read_entry(&self, entry: &DirEntry) -> (bytes: Vec<u8>)
        requires
            entry_inside(self@, entry@),
        ensures
            bytes@ == file_of(self@, entry@),
    {
        self.read_chain(entry.first_track, entry.first_sector)
    }

    /// Extract the first PRG matching `name` (case-insensitive, ignoring the
    /// C64's `$A0` padding). `"*"` matches the first PRG on the disk.
    pub fn read_prg(&self, name: &str) -> (r: Option<Vec<u8>>)
        requires
            prg_inside(self@, name@),
        ensures
            match first_prg(directory(self@), wanted(name@)) {
                Some(e) => r is Some && r->0@ == file_of(self@, e),
                None => r is None,
            },
    {
        let entries = self.dir();
        match place_of(&entries, name) {
            Some(k) => Some(self.read_entry(&entries[k])),
            None => None,
        }
    }

    /// The disk's identity, from the BAM sector (track 18, sector 0).
    ///
    /// Unprintable bytes are replaced, because these go straight into the
    /// synthesised BASIC program of a `$` listing where a `$00` would end the
    /// line early and truncate the directory.
    ///
    /// - The **name** is padded with `$A0`, the shifted space, exactly as a real
    ///   drive pads it: it is printed inside quotes, and `LIST` does not
    ///   detokenise inside a quoted string.
    /// - The **ID** and **DOS type** sit *outside* the quotes, where `LIST` does
    ///   detokenise, and `$A0` happens to be the token for `CLOSE`. They get
    ///   spaces.
    pub fn header(&self) -> (h: Header)
        requires
            is_image(self@),
        ensures
            forall|k: int| 0 <= k < 16 ==> #[trigger] h.name@[k]
                == (if bam(self@, 0x90 + k) < 0x20 { 0xA0 } else { bam(self@, 0x90 + k) }),
            h.id@ == seq![outside_quotes(bam(self@, 0xA2)), outside_quotes(bam(self@, 0xA3))],
            h.dos_type@ == seq![outside_quotes(bam(self@, 0xA5)), outside_quotes(bam(self@, 0xA6))],
    {
        let sec = self.sector(DIR_TRACK, 0);
        let mut name: [u8; 16] = [0xA0; 16];
        let mut k: usize = 0;
        while k < 16
            invariant
                k <= 16,
                sec@ == sector_of(self@, DIR_TRACK, 0),
                sec@.len() == 256,
                is_image(self@),
                forall|j: int| 0 <= j < k ==> #[trigger] name@[j]
                    == (if bam(self@, 0x90 + j) < 0x20 { 0xA0 } else { bam(self@, 0x90 + j) }),
            decreases 16 - k,
        {
            let b = sec[0x90 + k];
            name[k] = if b < 0x20 { 0xA0 } else { b };
            k += 1;
        }
        let h = Header {
            name,
            id: [Self::printable(sec[0xA2]), Self::printable(sec[0xA3])],
            dos_type: [Self::printable(sec[0xA5]), Self::printable(sec[0xA6])],
        };
        assert(h.id@ =~= seq![outside_quotes(bam(self@, 0xA2)), outside_quotes(bam(self@, 0xA3))]);
        assert(h.dos_type@
            =~= seq![outside_quotes(bam(self@, 0xA5)), outside_quotes(bam(self@, 0xA6))]);
        h
    }

    fn printable(b: u8) -> (r: u8)
        ensures
            r == outside_quotes(b),
    {
        if 0x20 <= b && b < 0x80 { b } else { 0x20 }
    }

    /// Free blocks, summed from the BAM's per-track free counts.
    ///
    /// Track 18 is excluded, exactly as a real drive excludes it: the directory
    /// track is not yours to fill, which is why a blank 1541 disk reports 664
    /// free and not 683.
    pub fn blocks_free(&self) -> (free: u16)
        requires
            is_image(self@),
        ensures
            free == free_upto(self@, 35),
    {
        let sec = self.sector(DIR_TRACK, 0);
        let mut free: u16 = 0;
        let mut track: u8 = 0;
        while track < 35
            invariant
                track <= 35,
                sec@ == sector_of(self@, DIR_TRACK, 0),
                sec@.len() == 256,
                is_image(self@),
                free == free_upto(self@, track as int),
                free <= 255 * track,
            decreases 35 - track,
        {
            track += 1;
            // Four bytes per track from offset 4; the first is the free count.
            if track != DIR_TRACK {
                free += sec[4 + (track as usize - 1) * 4] as u16;
            }
        }
        free
    }

    fn read_chain(&self, first_track: u8, first_sector: u8) -> (out: Vec<u8>)
        requires
            file_inside(self@, first_track, first_sector, FILE_GUARD as nat),
        ensures
            out@ == file_from(self@, first_track, first_sector, FILE_GUARD as nat),
    {
        let mut track = first_track;
        let mut sector = first_sector;
        let mut out: Vec<u8> = Vec::new();
        let mut left: u32 = FILE_GUARD;
        let ghost whole = file_from(self@, first_track, first_sector, FILE_GUARD as nat);
        assert(out@ + whole =~= whole);
        while left > 0 && track != 0 && track <= 35
            invariant_except_break
                left <= FILE_GUARD,
                file_inside(self@, track, sector, left as nat),
                out@ + file_from(self@, track, sector, left as nat) == whole,
            ensures
                out@ == whole || (out@ + file_from(self@, track, sector, left as nat) == whole
                    && (left == 0 || track == 0 || track > 35)),
            decreases left,
        {
            let sec = self.sector(track, sector);
            let ghost before = out@;
            let next_t = sec[0];
            let next_s = sec[1];
            if next_t == 0 {
                // Last sector: next_s is the index of the last used byte.
                let used: usize = if next_s >= 2 { next_s as usize } else { 2 };
                out.extend_from_slice(vstd::slice::slice_subrange(sec, 2, used + 1));
                assert(out@ =~= before + sec@.subrange(2, used + 1));
                break;
            }
            out.extend_from_slice(vstd::slice::slice_subrange(sec, 2, SECTOR_SIZE));
            proof {
                let rest = file_from(self@, next_t, next_s, (left - 1) as nat);
                assert(out@ =~= before + sec@.subrange(2, 256));
                assert(before + (sec@.subrange(2, 256) + rest) =~= out@ + rest);
            }
            track = next_t;
            sector = next_s;
            left -= 1;
        }
        assert(out@ + Seq::<u8>::empty() =~= out@);
        out
    }

    /// Does every chain on the disk stay inside the image? A disk for which this
    /// holds can be listed, and every program on it read.
    pub fn is_readable(&self) -> (b: bool)
        ensures
            b == readable(self@),
    {
        if self.data.len() < IMAGE_SIZE || !self.has_directory() {
            return false;
        }
        let entries = self.dir();
        let ghost all = directory(self@);
        let mut k: usize = 0;
        while k < entries.len()
            invariant
                k <= entries.len(),
                all == directory(self@),
                entries_of(entries@) == all,
                forall|j: int| 0 <= j < k && is_prg_entry(all[j])
                    ==> entry_inside(self@, #[trigger] all[j]),
            decreases entries.len() - k,
        {
            let e = &entries[k];
            assert(e@ == all[k as int]);
            if e.is_prg() && !self.is_file_inside(e.first_track, e.first_sector) {
                assert(is_prg_entry(all[k as int]) && !entry_inside(self@, all[k as int]));
                return false;
            }
            k += 1;
        }
        true
    }

    /// Does the directory stay inside the image? A disk for which this holds can
    /// be listed.
    pub fn has_directory(&self) -> (b: bool)
        ensures
            b == directory_inside(self@),
    {
        let mut t = DIR_TRACK;
        let mut s = DIR_SECTOR;
        let mut left: u32 = DIR_GUARD;
        while left > 0
            invariant
                directory_inside(self@) == dir_inside(self@, t, s, left as nat),
            decreases left,
        {
            if self.data.len() < sector_offset(t, s) + SECTOR_SIZE {
                return false;
            }
            let sec = self.sector(t, s);
            if sec[0] == 0 {
                return true;
            }
            t = sec[0];
            s = sec[1];
            left -= 1;
        }
        true
    }

    /// Does what [`Disk::read_prg`] has to read for this name stay inside the
    /// image: the directory, and the chain of the file if there is one?
    pub fn can_read_prg(&self, name: &str) -> (b: bool)
        ensures
            b == prg_inside(self@, name@),
    {
        if !self.has_directory() {
            return false;
        }
        let entries = self.dir();
        match place_of(&entries, name) {
            Some(k) => {
                let e = &entries[k];
                self.is_file_inside(e.first_track, e.first_sector)
            },
            None => true,
        }
    }

    fn is_file_inside(&self, first_track: u8, first_sector: u8) -> (b: bool)
        ensures
            b == file_inside(self@, first_track, first_sector, FILE_GUARD as nat),
    {
        let mut t = first_track;
        let mut s = first_sector;
        let mut left: u32 = FILE_GUARD;
        while left > 0 && t != 0 && t <= 35
            invariant
                file_inside(self@, first_track, first_sector, FILE_GUARD as nat)
                    == file_inside(self@, t, s, left as nat),
            decreases left,
        {
            if self.data.len() < sector_offset(t, s) + SECTOR_SIZE {
                return false;
            }
            let sec = self.sector(t, s);
            if sec[0] == 0 {
                return true;
            }
            t = sec[0];
            s = sec[1];
            left -= 1;
        }
        true
    }
}

/// Where the first program of this name stands in a directory.
fn place_of(entries: &Vec<DirEntry>, name: &str) -> (r: Option<usize>)
    ensures
        match first_prg(entries_of(entries@), wanted(name@)) {
            Some(e) => r matches Some(k) && k < entries@.len() && entries@[k as int]@ == e,
            None => r is None,
        },
{
    let chars = text::chars_of(name);
    let want = text::to_upper(text::trim(chars.as_slice()).as_slice());
    let any = want.len() == 1 && want[0] == '*';
    assert(any == (want@ == seq!['*'])) by {
        assert(any ==> want@ =~= seq!['*']);
        assert(want@ == seq!['*'] ==> want@.len() == 1 && want@[0] == seq!['*'][0]);
    }
    let mut k: usize = 0;
    let ghost all = entries_of(entries@);
    assert(all.skip(0) =~= all);
    while k < entries.len()
        invariant
            k <= entries.len(),
            all == entries_of(entries@),
            want@ == wanted(name@),
            any == (want@ == seq!['*']),
            first_prg(all, want@) == first_prg(all.skip(k as int), want@),
        decreases entries.len() - k,
    {
        let e = &entries[k];
        assert(all.skip(k as int)[0] == e@);
        if e.is_prg() {
            let n = text::to_upper(text::chars_of(e.name.as_str()).as_slice());
            if any || text::same(n.as_slice(), want.as_slice()) {
                return Some(k);
            }
        }
        assert(all.skip(k as int).skip(1) =~= all.skip(k + 1));
        k += 1;
    }
    assert(all.skip(k as int).len() == 0);
    None
}

} // verus!
