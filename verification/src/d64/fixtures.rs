//! Synthetic disk images, for tests and experiments.
//!
//! Hand-built images are how you test a disk format without shipping somebody's
//! copyrighted disk: every byte here is one this crate's own parser has to
//! understand, so a fixture doubles as documentation of the layout.

use vstd::prelude::*;
use crate::d64::{sectors_in_track, Disk, DIR_TRACK, IMAGE_SIZE};

verus! {

/// Where the block availability map is.
pub const BAM_AT: usize = 91_392;
/// Where the first directory sector is.
pub const DIR_AT: usize = 91_648;

/// A file that fits one sector: no link, the index of the last used byte, and
/// the data.
pub open spec fn file_sector(prg: Seq<u8>) -> Seq<u8> {
    Seq::new(256, |k: int|
        if k == 1 { (prg.len() + 1) as u8 }
        else if 2 <= k < prg.len() + 2 { prg[k - 2] }
        else { 0 })
}

/// The disk's name.
pub open spec fn disk_name() -> Seq<u8> {
    seq![0x54u8, 0x45, 0x53, 0x54, 0x20, 0x44, 0x49, 0x53, 0x4B]
}

/// The free sectors of a track: the directory track has none to give, and one of
/// track 1 holds the file.
pub open spec fn free_on(track: int) -> u8 {
    if track == 18 { 0 }
    else if track == 1 { 20 }
    else { crate::gcr::zone_sectors(track as u8) }
}

/// A believable block availability map: the disk's name, ID "01" and DOS type
/// "2A", and a free count for every track.
pub open spec fn bam_sector() -> Seq<u8> {
    Seq::new(256, |k: int|
        if k == 0 { 18u8 }
        else if k == 1 { 1 }
        else if k == 2 { 0x41 }
        else if 4 <= k < 144 { if k % 4 == 0 { free_on(k / 4) } else { 0 } }
        else if 0x90 <= k < 0xA0 {
            if k - 0x90 < disk_name().len() { disk_name()[k - 0x90] } else { 0xA0 }
        }
        else if k == 0xA0 || k == 0xA1 || k == 0xA4 { 0xA0 }
        else if k == 0xA2 { 0x30 }
        else if k == 0xA3 { 0x31 }
        else if k == 0xA5 { 0x32 }
        else if k == 0xA6 { 0x41 }
        else { 0 })
}

/// A directory with one entry: a closed PRG of one sector at track 1, sector 0.
pub open spec fn dir_sector(name: Seq<u8>) -> Seq<u8> {
    Seq::new(256, |k: int|
        if k == 1 { 0xFFu8 }
        else if k == 2 { 0x82 }
        else if k == 3 { 1 }
        else if 5 <= k < 21 { if k - 5 < name.len() { name[k - 5] } else { 0xA0 } }
        else if k == 30 { 1 }
        else { 0 })
}

/// An image with one file: three sectors hold something, the others are zero.
pub open spec fn image_of(name: Seq<u8>, prg: Seq<u8>) -> Seq<u8> {
    Seq::new(IMAGE_SIZE as nat, |at: int|
        if at < 256 { file_sector(prg)[at] }
        else if BAM_AT <= at < BAM_AT + 256 { bam_sector()[at - BAM_AT] }
        else if DIR_AT <= at < DIR_AT + 256 { dir_sector(name)[at - DIR_AT] }
        else { 0 })
}

/// `HELLO`, as the C64 spells it.
pub open spec fn hello() -> Seq<u8> {
    seq![0x48u8, 0x45, 0x4C, 0x4C, 0x4F]
}

/// `10 PRINT"HELLO FROM DISK"` as a program file: load address, link to the next
/// line, line number, token and text, and the two terminators.
pub open spec fn hello_program() -> Seq<u8> {
    seq![
        0x01u8, 0x08, 0x18, 0x08, 0x0A, 0x00, 0x99, 0x22,
        0x48, 0x45, 0x4C, 0x4C, 0x4F, 0x20, 0x46, 0x52, 0x4F, 0x4D, 0x20, 0x44, 0x49, 0x53, 0x4B,
        0x22, 0x00, 0x00, 0x00,
    ]
}

/// A tiny but valid image: one single-sector PRG named `HELLO`, holding the
/// load address `$0801` followed by three dummy bytes.
///
/// Deliberately *not* a runnable program: it exists to be transferred and
/// compared byte-for-byte. If you want a disk that visibly does something,
/// use [`basic_program_image`].
pub fn synthetic_image() -> (img: Vec<u8>)
    ensures
        img@ == image_of(hello(), seq![0x01u8, 0x08, 0xAA, 0xBB, 0xCC]),
{
    let name: [u8; 5] = [0x48, 0x45, 0x4C, 0x4C, 0x4F];
    let prg: [u8; 5] = [0x01, 0x08, 0xAA, 0xBB, 0xCC];
    assert(name@ =~= hello());
    assert(prg@ =~= seq![0x01u8, 0x08, 0xAA, 0xBB, 0xCC]);
    image_with_prg(name.as_slice(), prg.as_slice())
}

/// A disk holding a **runnable** BASIC program, `10 PRINT"HELLO FROM DISK"`, so
/// that `LOAD"*",8,1` followed by `RUN` puts something on the screen.
///
/// This is what a BASIC program looks like on disk: a two-byte load address,
/// then per line a link to the next line, the line number, the *tokenised* text
/// (`PRINT` is the single byte `$99`), and a `$00`; then `$0000` to finish. The
/// link points at `$0818`, the address the following line would start at, which
/// is why a BASIC program is not relocatable without relinking.
pub fn basic_program_image() -> (img: Vec<u8>)
    ensures
        img@ == image_of(hello(), hello_program()),
{
    let name: [u8; 5] = [0x48, 0x45, 0x4C, 0x4C, 0x4F];
    let prg: [u8; 27] = [
        0x01, 0x08, // load address $0801
        0x18, 0x08, // the next line would start here
        0x0A, 0x00, // line number 10
        0x99, 0x22, // PRINT "
        0x48, 0x45, 0x4C, 0x4C, 0x4F, 0x20, 0x46, 0x52, 0x4F, 0x4D, 0x20, 0x44, 0x49, 0x53, 0x4B,
        0x22, 0x00, // " and end of line
        0x00, 0x00, // end of program
    ];
    assert(name@ =~= hello());
    assert(prg@ =~= hello_program());
    image_with_prg(name.as_slice(), prg.as_slice())
}

/// Overwrite part of an image.
fn put(data: &mut Vec<u8>, at: usize, bytes: &[u8; 256])
    requires
        at + 256 <= old(data).len(),
    ensures
        final(data)@ == Seq::new(old(data)@.len(), |k: int|
            if at <= k < at + 256 { bytes@[k - at] } else { old(data)@[k] }),
{
    let mut k: usize = 0;
    while k < 256
        invariant
            k <= 256,
            at + 256 <= old(data).len(),
            data@ == Seq::new(old(data)@.len(), |j: int|
                if at <= j < at + k { bytes@[j - at] } else { old(data)@[j] }),
        decreases 256 - k,
    {
        data[at + k] = bytes[k];
        k += 1;
        assert(data@ =~= Seq::new(old(data)@.len(), |j: int|
            if at <= j < at + k { bytes@[j - at] } else { old(data)@[j] }));
    }
}

fn make_file_sector(prg: &[u8]) -> (s: [u8; 256])
    requires
        prg.len() <= 254,
    ensures
        s@ == file_sector(prg@),
{
    let mut s: [u8; 256] = [0; 256];
    // Byte 0 = next track (0 = this is the last sector), byte 1 = index of the
    // last used byte in this sector.
    s[1] = (prg.len() + 1) as u8;
    let mut k: usize = 0;
    while k < prg.len()
        invariant
            k <= prg.len(),
            prg.len() <= 254,
            forall|j: int| 0 <= j < 256 ==> #[trigger] s@[j]
                == (if j == 1 { (prg@.len() + 1) as u8 }
                    else if 2 <= j < k + 2 { prg@[j - 2] }
                    else { 0 }),
        decreases prg.len() - k,
    {
        s[k + 2] = prg[k];
        k += 1;
    }
    assert(s@ =~= file_sector(prg@));
    s
}

fn make_bam_sector() -> (s: [u8; 256])
    ensures
        s@ == bam_sector(),
{
    let mut s: [u8; 256] = [0; 256];
    s[0] = DIR_TRACK; // first directory sector: 18/1
    s[1] = 1;
    s[2] = 0x41; // DOS version
    let mut track: u8 = 1;
    while track <= 35
        invariant
            1 <= track <= 36,
            forall|j: int| 0 <= j < 256 ==> #[trigger] s@[j]
                == (if j == 0 { 18u8 } else if j == 1 { 1 } else if j == 2 { 0x41 }
                    else if 4 <= j < 4 * track { if j % 4 == 0 { free_on(j / 4) } else { 0 } }
                    else { 0 }),
        decreases 36 - track,
    {
        let mut free = sectors_in_track(track);
        if track == DIR_TRACK {
            free = 0; // the directory track is not available
        } else if track == 1 {
            free -= 1; // the one sector our PRG occupies
        }
        s[4 * track as usize] = free;
        track += 1;
    }
    let name: [u8; 9] = [0x54, 0x45, 0x53, 0x54, 0x20, 0x44, 0x49, 0x53, 0x4B];
    assert(name@ =~= disk_name());
    let mut k: usize = 0;
    while k < 16
        invariant
            k <= 16,
            name@ == disk_name(),
            forall|j: int| 0 <= j < 256 ==> #[trigger] s@[j]
                == (if j == 0 { 18u8 } else if j == 1 { 1 } else if j == 2 { 0x41 }
                    else if 4 <= j < 144 { if j % 4 == 0 { free_on(j / 4) } else { 0 } }
                    else if 0x90 <= j < 0x90 + k {
                        if j - 0x90 < 9 { disk_name()[j - 0x90] } else { 0xA0 }
                    }
                    else { 0 }),
        decreases 16 - k,
    {
        s[0x90 + k] = if k < 9 { name[k] } else { 0xA0 };
        k += 1;
    }
    s[0xA0] = 0xA0;
    s[0xA1] = 0xA0;
    s[0xA2] = 0x30; // disk ID "01"
    s[0xA3] = 0x31;
    s[0xA4] = 0xA0;
    s[0xA5] = 0x32; // DOS type "2A"
    s[0xA6] = 0x41;
    assert(s@ =~= bam_sector());
    s
}

fn make_dir_sector(name: &[u8]) -> (s: [u8; 256])
    requires
        name.len() <= 16,
    ensures
        s@ == dir_sector(name@),
{
    let mut s: [u8; 256] = [0; 256];
    s[1] = 0xFF; // no next dir sector
    s[2] = 0x82; // closed PRG
    s[3] = 1; // first track
    s[30] = 1; // size in sectors
    let mut k: usize = 0;
    while k < 16
        invariant
            k <= 16,
            name.len() <= 16,
            forall|j: int| 0 <= j < 256 ==> #[trigger] s@[j]
                == (if j == 1 { 0xFFu8 } else if j == 2 { 0x82 } else if j == 3 { 1 }
                    else if 5 <= j < 5 + k { if j - 5 < name@.len() { name@[j - 5] } else { 0xA0 } }
                    else if j == 30 { 1 }
                    else { 0 }),
        decreases 16 - k,
    {
        s[5 + k] = if k < name.len() { name[k] } else { 0xA0 }; // shifted-space padding
        k += 1;
    }
    assert(s@ =~= dir_sector(name@));
    s
}

/// Build a `.d64` holding one PRG, named `name`, in a single sector: at most 254
/// bytes, these are fixtures, not a disk writer.
pub fn image_with_prg(name: &[u8], prg: &[u8]) -> (img: Vec<u8>)
    requires
        prg.len() <= 254,
        name.len() <= 16,
    ensures
        img@ == image_of(name@, prg@),
{
    let mut data: Vec<u8> = vec![0u8; IMAGE_SIZE];
    put(&mut data, 0, &make_file_sector(prg));
    put(&mut data, BAM_AT, &make_bam_sector());
    put(&mut data, DIR_AT, &make_dir_sector(name));
    assert(data@ =~= image_of(name@, prg@));
    data
}

/// [`synthetic_image`], mounted.
pub fn synthetic_disk() -> (d: Disk)
    ensures
        d@ == image_of(hello(), seq![0x01u8, 0x08, 0xAA, 0xBB, 0xCC]),
{
    Disk { data: synthetic_image() }
}

} // verus!
