//! GCR, Group Code Recording: the format a 1541 actually stores on disk.
//!
//! A `.d64` holds decoded 256-byte sectors, but the drive's read head sees a
//! ring of magnetic flux, not bytes. Data is written in **GCR**: every 4 bits
//! become a 5-bit code chosen so no run of more than two zero bits ever appears,
//! which is what lets the drive recover its clock from the data alone. A track
//! is a loop of sync marks, sector headers and data blocks with gaps between.
//!
//! This module builds that loop from a track's sectors (and can decode it back),
//! so the emulated disk controller has a real bitstream to read.

use vstd::prelude::*;

verus! {

/// Bytes of sync (all-ones) written before each header and data block.
pub const SYNC_LEN: usize = 5;
/// The gap byte the drive writes to fill space between blocks.
pub const GAP: u8 = 0x55;

// ---- the code ----

/// 4-bit nibble -> 5-bit GCR code.
pub open spec fn code_of(n: u8) -> u8 {
    match n {
        0x0 => 0x0A, 0x1 => 0x0B, 0x2 => 0x12, 0x3 => 0x13,
        0x4 => 0x0E, 0x5 => 0x0F, 0x6 => 0x16, 0x7 => 0x17,
        0x8 => 0x09, 0x9 => 0x19, 0xA => 0x1A, 0xB => 0x1B,
        0xC => 0x0D, 0xD => 0x1D, 0xE => 0x1E, _ => 0x15,
    }
}

/// Is this the code of some nibble?
pub open spec fn is_code(c: u8) -> bool {
    exists|n: u8| n < 16 && #[trigger] code_of(n) == c
}

/// The nibble that a valid code stands for.
pub open spec fn nibble_of(c: u8) -> u8 {
    choose|n: u8| n < 16 && #[trigger] code_of(n) == c
}

/// Nibble `k` of a run of bytes, high nibbles first.
pub open spec fn nibble_at(bytes: Seq<u8>, k: int) -> u8 {
    if k % 2 == 0 { bytes[k / 2] / 16 } else { bytes[k / 2] % 16 }
}

/// Eight 5-bit codes packed into 40 bits, most significant first.
pub open spec fn packed(c: Seq<u8>) -> u64 {
    (c[0] * 0x8_0000_0000 + c[1] * 0x4000_0000 + c[2] * 0x200_0000 + c[3] * 0x10_0000
        + c[4] * 0x8000 + c[5] * 0x400 + c[6] * 0x20 + c[7]) as u64
}

/// The codes of four bytes.
pub open spec fn codes(inp: Seq<u8>) -> Seq<u8> {
    Seq::new(8, |k: int| code_of(nibble_at(inp, k)))
}

/// The 40 bits of four bytes.
pub open spec fn word_of(inp: Seq<u8>) -> u64 {
    packed(codes(inp))
}

/// Byte `i` of a 40-bit word, most significant first.
pub open spec fn byte_of(w: u64, i: int) -> u8 {
    (if i == 0 { w / 0x1_0000_0000 }
    else if i == 1 { w / 0x100_0000 % 0x100 }
    else if i == 2 { w / 0x1_0000 % 0x100 }
    else if i == 3 { w / 0x100 % 0x100 }
    else { w % 0x100 }) as u8
}

/// Four data bytes in GCR: five bytes.
pub open spec fn group(inp: Seq<u8>) -> Seq<u8> {
    Seq::new(5, |i: int| byte_of(word_of(inp), i))
}

/// Five bytes as a 40-bit word.
pub open spec fn word_from(g: Seq<u8>) -> u64 {
    (g[0] * 0x1_0000_0000 + g[1] * 0x100_0000 + g[2] * 0x1_0000 + g[3] * 0x100 + g[4]) as u64
}

/// 5-bit code `k` of a 40-bit word, most significant first.
pub open spec fn code_at(w: u64, k: int) -> u8 {
    (if k == 0 { w / 0x8_0000_0000 % 32 }
    else if k == 1 { w / 0x4000_0000 % 32 }
    else if k == 2 { w / 0x200_0000 % 32 }
    else if k == 3 { w / 0x10_0000 % 32 }
    else if k == 4 { w / 0x8000 % 32 }
    else if k == 5 { w / 0x400 % 32 }
    else if k == 6 { w / 0x20 % 32 }
    else { w % 32 }) as u8
}

/// Do five bytes hold eight valid codes?
pub open spec fn decodable(g: Seq<u8>) -> bool {
    forall|k: int| 0 <= k < 8 ==> is_code(#[trigger] code_at(word_from(g), k))
}

/// The four bytes that a decodable group stands for.
pub open spec fn ungrouped(g: Seq<u8>) -> Seq<u8> {
    Seq::new(4, |i: int|
        (16 * nibble_of(code_at(word_from(g), 2 * i))
            + nibble_of(code_at(word_from(g), 2 * i + 1))) as u8)
}

// ---- tracks ----

/// A block in GCR: its groups of four bytes, one after the other.
pub open spec fn encoded_block(block: Seq<u8>) -> Seq<u8>
    decreases block.len(),
{
    if block.len() < 4 {
        Seq::empty()
    } else {
        group(block.take(4)) + encoded_block(block.skip(4))
    }
}

/// All bytes XORed together.
pub open spec fn checksum(bytes: Seq<u8>) -> u8
    decreases bytes.len(),
{
    if bytes.len() == 0 { 0 } else { checksum(bytes.drop_last()) ^ bytes.last() }
}

/// `n` copies of a byte.
pub open spec fn run_of(b: u8, n: nat) -> Seq<u8> {
    Seq::new(n, |i: int| b)
}

/// A sector's header: marker, checksum, sector, track, ID, and padding.
pub open spec fn sector_header(sector: u8, track: u8, id: Seq<u8>) -> Seq<u8> {
    seq![0x08u8, sector ^ track ^ id[0] ^ id[1], sector, track, id[1], id[0], 0x0F, 0x0F]
}

/// A sector's data block: marker, the 256 bytes, checksum, and padding.
pub open spec fn sector_data(data: Seq<u8>) -> Seq<u8> {
    seq![0x07u8] + data + seq![checksum(data), 0x00u8, 0x00u8]
}

/// One sector on the track: sync, header, gap, sync, data, gap.
pub open spec fn sector_stream(data: Seq<u8>, sector: u8, track: u8, id: Seq<u8>) -> Seq<u8> {
    run_of(0xFF, SYNC_LEN as nat) + encoded_block(sector_header(sector, track, id)) + run_of(GAP, 9)
        + run_of(0xFF, SYNC_LEN as nat) + encoded_block(sector_data(data)) + run_of(GAP, 8)
}

/// The first `n` sectors of a track, in order.
pub open spec fn track_stream(sectors: Seq<Seq<u8>>, track: u8, id: Seq<u8>, n: nat) -> Seq<u8>
    decreases n,
{
    if n == 0 {
        Seq::empty()
    } else {
        track_stream(sectors, track, id, (n - 1) as nat)
            + sector_stream(sectors[n - 1], ((n - 1) % 256) as u8, track, id)
    }
}

/// The bytes of a list of sectors.
pub open spec fn contents(sectors: Seq<[u8; 256]>) -> Seq<Seq<u8>> {
    Seq::new(sectors.len(), |k: int| sectors[k]@)
}

/// Sectors per track in the 1541's four speed zones.
pub open spec fn zone_sectors(track: u8) -> u8 {
    if 1 <= track <= 17 { 21 } else if 18 <= track <= 24 { 19 } else if 25 <= track <= 30 { 18 } else { 17 }
}

// ---- the code, computed ----

fn encode_nibble(n: u8) -> (c: u8)
    requires
        n < 16,
    ensures
        c == code_of(n),
        c < 32,
{
    match n {
        0x0 => 0x0A, 0x1 => 0x0B, 0x2 => 0x12, 0x3 => 0x13,
        0x4 => 0x0E, 0x5 => 0x0F, 0x6 => 0x16, 0x7 => 0x17,
        0x8 => 0x09, 0x9 => 0x19, 0xA => 0x1A, 0xB => 0x1B,
        0xC => 0x0D, 0xD => 0x1D, 0xE => 0x1E, _ => 0x15,
    }
}

/// 5-bit GCR code -> 4-bit nibble, if there is one.
fn decode_code(c: u8) -> (n: Option<u8>)
    ensures
        n is Some == is_code(c),
        n is Some ==> n->0 == nibble_of(c) && n->0 < 16,
{
    let n = match c {
        0x0A => 0x0, 0x0B => 0x1, 0x12 => 0x2, 0x13 => 0x3,
        0x0E => 0x4, 0x0F => 0x5, 0x16 => 0x6, 0x17 => 0x7,
        0x09 => 0x8, 0x19 => 0x9, 0x1A => 0xA, 0x1B => 0xB,
        0x0D => 0xC, 0x1D => 0xD, 0x1E => 0xE, 0x15 => 0xF,
        _ => 0xFFu8,
    };
    if n == 0xFF {
        None
    } else {
        assert(code_of(n) == c);
        proof {
            lemma_code_is_unique(n);
        }
        Some(n)
    }
}

/// No two nibbles share a code.
proof fn lemma_code_is_unique(n: u8)
    requires
        n < 16,
    ensures
        is_code(code_of(n)),
        nibble_of(code_of(n)) == n,
{
    let c = code_of(n);
    assert(n < 16 && code_of(n) == c);
    let m = nibble_of(c);
    assert(m < 16 && code_of(m) == c);
}

/// Sectors per track in the 1541's four speed zones.
pub fn sectors_per_track(track: u8) -> (n: u8)
    ensures
        n == zone_sectors(track),
{
    if 1 <= track && track <= 17 {
        21
    } else if 18 <= track && track <= 24 {
        19
    } else if 25 <= track && track <= 30 {
        18
    } else {
        17
    }
}

/// Encode four data bytes into five GCR bytes.
pub fn encode_group(inp: &[u8; 4], out: &mut [u8; 5])
    ensures
        final(out)@ == group(inp@),
{
    let c0 = encode_nibble(inp[0] / 16);
    let c1 = encode_nibble(inp[0] % 16);
    let c2 = encode_nibble(inp[1] / 16);
    let c3 = encode_nibble(inp[1] % 16);
    let c4 = encode_nibble(inp[2] / 16);
    let c5 = encode_nibble(inp[2] % 16);
    let c6 = encode_nibble(inp[3] / 16);
    let c7 = encode_nibble(inp[3] % 16);
    // Eight 5-bit codes = 40 bits, packed most-significant-first.
    let w: u64 = c0 as u64 * 0x8_0000_0000 + c1 as u64 * 0x4000_0000 + c2 as u64 * 0x200_0000
        + c3 as u64 * 0x10_0000 + c4 as u64 * 0x8000 + c5 as u64 * 0x400 + c6 as u64 * 0x20
        + c7 as u64;
    assert(w == word_of(inp@)) by {
        let c = codes(inp@);
        assert(c[0] == c0 && c[1] == c1 && c[2] == c2 && c[3] == c3);
        assert(c[4] == c4 && c[5] == c5 && c[6] == c6 && c[7] == c7);
    }
    out[0] = (w / 0x1_0000_0000) as u8;
    out[1] = (w / 0x100_0000 % 0x100) as u8;
    out[2] = (w / 0x1_0000 % 0x100) as u8;
    out[3] = (w / 0x100 % 0x100) as u8;
    out[4] = (w % 0x100) as u8;
    assert(out@ =~= group(inp@));
}

/// Decode five GCR bytes back into four data bytes. Returns `false`, and leaves
/// `out` alone, if any 5-bit code was invalid.
pub fn decode_group(inp: &[u8; 5], out: &mut [u8; 4]) -> (ok: bool)
    ensures
        ok == decodable(inp@),
        final(out)@ == (if ok { ungrouped(inp@) } else { old(out)@ }),
{
    let w: u64 = inp[0] as u64 * 0x1_0000_0000 + inp[1] as u64 * 0x100_0000
        + inp[2] as u64 * 0x1_0000 + inp[3] as u64 * 0x100 + inp[4] as u64;
    let n0 = decode_code((w / 0x8_0000_0000 % 32) as u8);
    let n1 = decode_code((w / 0x4000_0000 % 32) as u8);
    let n2 = decode_code((w / 0x200_0000 % 32) as u8);
    let n3 = decode_code((w / 0x10_0000 % 32) as u8);
    let n4 = decode_code((w / 0x8000 % 32) as u8);
    let n5 = decode_code((w / 0x400 % 32) as u8);
    let n6 = decode_code((w / 0x20 % 32) as u8);
    let n7 = decode_code((w % 32) as u8);
    assert(w == word_from(inp@));
    assert(decodable(inp@) ==> is_code(code_at(w, 0)) && is_code(code_at(w, 1))
        && is_code(code_at(w, 2)) && is_code(code_at(w, 3)) && is_code(code_at(w, 4))
        && is_code(code_at(w, 5)) && is_code(code_at(w, 6)) && is_code(code_at(w, 7)));
    if let (Some(a), Some(b), Some(c), Some(d)) = (n0, n1, n2, n3) {
        if let (Some(e), Some(f), Some(g), Some(h)) = (n4, n5, n6, n7) {
            out[0] = 16 * a + b;
            out[1] = 16 * c + d;
            out[2] = 16 * e + f;
            out[3] = 16 * g + h;
            assert(out@ =~= ungrouped(inp@));
            return true;
        }
    }
    false
}

/// Append the GCR encoding of four bytes to `out`.
fn push_group(out: &mut Vec<u8>, chunk: &[u8; 4])
    ensures
        final(out)@ == old(out)@ + group(chunk@),
{
    let mut g: [u8; 5] = [0; 5];
    encode_group(chunk, &mut g);
    out.push(g[0]);
    out.push(g[1]);
    out.push(g[2]);
    out.push(g[3]);
    out.push(g[4]);
    assert(out@ =~= old(out)@ + g@);
}

/// Append the GCR encoding of a block (length a multiple of 4) to `out`.
fn encode_block(block: &[u8], out: &mut Vec<u8>)
    requires
        block.len() % 4 == 0,
    ensures
        final(out)@ == old(out)@ + encoded_block(block@),
{
    let mut at: usize = 0;
    let ghost whole = old(out)@ + encoded_block(block@);
    assert(block@.skip(0) =~= block@);
    while at < block.len()
        invariant
            at <= block.len(),
            at % 4 == 0,
            block.len() % 4 == 0,
            out@ + encoded_block(block@.skip(at as int)) == whole,
        decreases block.len() - at,
    {
        let chunk: [u8; 4] = [block[at], block[at + 1], block[at + 2], block[at + 3]];
        proof {
            lemma_first_group(block@.skip(at as int), out@);
            assert(chunk@ =~= block@.skip(at as int).take(4));
            assert(block@.skip(at as int).skip(4) =~= block@.skip(at + 4));
        }
        push_group(out, &chunk);
        at += 4;
    }
    proof {
        lemma_no_group(block@.skip(at as int), out@);
    }
}

proof fn lemma_first_group(block: Seq<u8>, out: Seq<u8>)
    requires
        block.len() >= 4,
    ensures
        out + encoded_block(block) == (out + group(block.take(4))) + encoded_block(block.skip(4)),
{
    let g = group(block.take(4));
    let rest = encoded_block(block.skip(4));
    assert(encoded_block(block) == g + rest);
    assert(out + (g + rest) =~= (out + g) + rest);
}

proof fn lemma_no_group(block: Seq<u8>, out: Seq<u8>)
    requires
        block.len() == 0,
    ensures
        out + encoded_block(block) == out,
{
    assert(out + encoded_block(block) =~= out);
}

/// Append `n` copies of a byte.
fn push_run(out: &mut Vec<u8>, b: u8, n: usize)
    ensures
        final(out)@ == old(out)@ + run_of(b, n as nat),
{
    let mut k: usize = 0;
    while k < n
        invariant
            k <= n,
            out@ == old(out)@ + run_of(b, k as nat),
        decreases n - k,
    {
        out.push(b);
        assert(run_of(b, (k + 1) as nat) =~= run_of(b, k as nat).push(b));
        assert(out@ =~= old(out)@ + run_of(b, (k + 1) as nat));
        k += 1;
    }
    assert(out@ =~= old(out)@ + run_of(b, n as nat));
}

/// Append one sector to a track.
fn encode_sector(data: &[u8; 256], sector: u8, track: u8, id: &[u8; 2], out: &mut Vec<u8>)
    ensures
        final(out)@ == old(out)@ + sector_stream(data@, sector, track, id@),
{
    // ---- header ----
    push_run(out, 0xFF, SYNC_LEN);
    let header: [u8; 8] = [
        0x08, sector ^ track ^ id[0] ^ id[1], sector, track, id[1], id[0], 0x0F, 0x0F,
    ];
    assert(header@ =~= sector_header(sector, track, id@));
    encode_block(header.as_slice(), out);
    push_run(out, GAP, 9);

    // ---- data ----
    push_run(out, 0xFF, SYNC_LEN);
    let mut block: Vec<u8> = Vec::with_capacity(260);
    block.push(0x07);
    let mut sum: u8 = 0;
    let mut k: usize = 0;
    while k < 256
        invariant
            k <= 256,
            block@ == seq![0x07u8] + data@.take(k as int),
            sum == checksum(data@.take(k as int)),
        decreases 256 - k,
    {
        block.push(data[k]);
        sum = sum ^ data[k];
        proof {
            assert(data@.take(k + 1).drop_last() =~= data@.take(k as int));
            assert(block@ =~= seq![0x07u8] + data@.take(k + 1));
        }
        k += 1;
    }
    assert(data@.take(256) =~= data@);
    block.push(sum); // data checksum
    block.push(0x00);
    block.push(0x00);
    assert(block@ =~= sector_data(data@));
    encode_block(block.as_slice(), out);
    push_run(out, GAP, 8);
    assert(out@ =~= old(out)@ + sector_stream(data@, sector, track, id@));
}

/// Build the full GCR bitstream (byte-aligned) for one track, given its decoded
/// sectors in order and the disk's two ID bytes.
///
/// Layout per sector: sync, GCR(header), header gap, sync, GCR(data), gap.
/// - **header** = `08 checksum sector track id2 id1 0F 0F` (checksum = the four
///   XORed together).
/// - **data** = `07 <256 bytes> checksum 00 00` (checksum = the 256 bytes XORed).
pub fn encode_track(sectors: &[[u8; 256]], track: u8, id: [u8; 2]) -> (out: Vec<u8>)
    ensures
        out@ == track_stream(contents(sectors@), track, id@, sectors@.len()),
{
    let mut out: Vec<u8> = Vec::new();
    let mut k: usize = 0;
    while k < sectors.len()
        invariant
            k <= sectors.len(),
            out@ == track_stream(contents(sectors@), track, id@, k as nat),
        decreases sectors.len() - k,
    {
        encode_sector(&sectors[k], (k % 256) as u8, track, &id, &mut out);
        k += 1;
    }
    out
}

// ---- what holds of the code ----

/// The bit facts of eight well-formed codes in a row.
proof fn lemma_packed_bits(
    c0: u64, c1: u64, c2: u64, c3: u64, c4: u64, c5: u64, c6: u64, c7: u64, k: u64,
)
    by (bit_vector)
    requires
        c0 < 32, c1 < 32, c2 < 32, c3 < 32, c4 < 32, c5 < 32, c6 < 32, c7 < 32,
        k <= 37,
        c0 & 3 != 0, c1 & 3 != 0, c2 & 3 != 0, c3 & 3 != 0,
        c4 & 3 != 0, c5 & 3 != 0, c6 & 3 != 0, c7 & 3 != 0,
        c0 & 24 != 0, c1 & 24 != 0, c2 & 24 != 0, c3 & 24 != 0,
        c4 & 24 != 0, c5 & 24 != 0, c6 & 24 != 0, c7 & 24 != 0,
        c0 & 14 != 0, c1 & 14 != 0, c2 & 14 != 0, c3 & 14 != 0,
        c4 & 14 != 0, c5 & 14 != 0, c6 & 14 != 0, c7 & 14 != 0,
    ensures
        (((c0 * 0x8_0000_0000 + c1 * 0x4000_0000 + c2 * 0x200_0000 + c3 * 0x10_0000
            + c4 * 0x8000 + c5 * 0x400 + c6 * 0x20 + c7) as u64) >> k) & 7 != 0,
{
}

/// Every code starts and ends with at most one zero, and has no three in a row.
proof fn lemma_code_bits(n: u8)
    requires
        n < 16,
    ensures
        code_of(n) < 32,
        code_of(n) as u64 & 3 != 0,
        code_of(n) as u64 & 24 != 0,
        code_of(n) as u64 & 14 != 0,
{
    assert(0x0Au64 & 3 != 0 && 0x0Bu64 & 3 != 0 && 0x12u64 & 3 != 0 && 0x13u64 & 3 != 0
        && 0x0Eu64 & 3 != 0 && 0x0Fu64 & 3 != 0 && 0x16u64 & 3 != 0 && 0x17u64 & 3 != 0
        && 0x09u64 & 3 != 0 && 0x19u64 & 3 != 0 && 0x1Au64 & 3 != 0 && 0x1Bu64 & 3 != 0
        && 0x0Du64 & 3 != 0 && 0x1Du64 & 3 != 0 && 0x1Eu64 & 3 != 0 && 0x15u64 & 3 != 0
        && 0x0Au64 & 24 != 0 && 0x0Bu64 & 24 != 0 && 0x12u64 & 24 != 0 && 0x13u64 & 24 != 0
        && 0x0Eu64 & 24 != 0 && 0x0Fu64 & 24 != 0 && 0x16u64 & 24 != 0 && 0x17u64 & 24 != 0
        && 0x09u64 & 24 != 0 && 0x19u64 & 24 != 0 && 0x1Au64 & 24 != 0 && 0x1Bu64 & 24 != 0
        && 0x0Du64 & 24 != 0 && 0x1Du64 & 24 != 0 && 0x1Eu64 & 24 != 0 && 0x15u64 & 24 != 0
        && 0x0Au64 & 14 != 0 && 0x0Bu64 & 14 != 0 && 0x12u64 & 14 != 0 && 0x13u64 & 14 != 0
        && 0x0Eu64 & 14 != 0 && 0x0Fu64 & 14 != 0 && 0x16u64 & 14 != 0 && 0x17u64 & 14 != 0
        && 0x09u64 & 14 != 0 && 0x19u64 & 14 != 0 && 0x1Au64 & 14 != 0 && 0x1Bu64 & 14 != 0
        && 0x0Du64 & 14 != 0 && 0x1Du64 & 14 != 0 && 0x1Eu64 & 14 != 0 && 0x15u64 & 14 != 0)
        by (bit_vector);
}

/// What makes GCR work: whatever the data, its bitstream never has three zero
/// bits in a row.
pub proof fn law_no_three_zero_bits(inp: Seq<u8>, k: u64)
    requires
        inp.len() == 4,
        k <= 37,
    ensures
        (word_of(inp) >> k) & 7 != 0,
{
    let c = codes(inp);
    lemma_code_bits(nibble_at(inp, 0));
    lemma_code_bits(nibble_at(inp, 1));
    lemma_code_bits(nibble_at(inp, 2));
    lemma_code_bits(nibble_at(inp, 3));
    lemma_code_bits(nibble_at(inp, 4));
    lemma_code_bits(nibble_at(inp, 5));
    lemma_code_bits(nibble_at(inp, 6));
    lemma_code_bits(nibble_at(inp, 7));
    lemma_packed_bits(
        c[0] as u64, c[1] as u64, c[2] as u64, c[3] as u64,
        c[4] as u64, c[5] as u64, c[6] as u64, c[7] as u64, k);
}

/// Unpacking gives back what was packed.
proof fn lemma_unpack(c: Seq<u8>)
    requires
        c.len() == 8,
        forall|k: int| 0 <= k < 8 ==> #[trigger] c[k] < 32,
    ensures
        packed(c) < 0x100_0000_0000,
        forall|k: int| 0 <= k < 8 ==> #[trigger] code_at(packed(c), k) == c[k],
{
    let w = packed(c);
    let r1 = c[1] * 0x4000_0000 + c[2] * 0x200_0000 + c[3] * 0x10_0000
        + c[4] * 0x8000 + c[5] * 0x400 + c[6] * 0x20 + c[7];
    let r4 = c[4] * 0x8000 + c[5] * 0x400 + c[6] * 0x20 + c[7];
    assert(w == c[0] * 0x8_0000_0000 + r1 && 0 <= r1 < 0x8_0000_0000);
    assert(code_at(w, 0) == c[0]);
    assert(w / 0x4000_0000 == c[0] * 32 + c[1]);
    assert(w / 0x200_0000 == (c[0] * 32 + c[1]) * 32 + c[2]);
    assert(w / 0x10_0000 == ((c[0] * 32 + c[1]) * 32 + c[2]) * 32 + c[3] && 0 <= r4 < 0x10_0000);
    let h = ((c[0] * 32 + c[1]) * 32 + c[2]) * 32 + c[3];
    assert(w == h * 0x10_0000 + r4);
    assert(w / 0x8000 == h * 32 + c[4]);
    assert(w / 0x400 == (h * 32 + c[4]) * 32 + c[5]);
    assert(w / 0x20 == ((h * 32 + c[4]) * 32 + c[5]) * 32 + c[6]);
}

/// Five bytes hold the 40-bit word they were cut from.
proof fn lemma_word_from_bytes(w: u64)
    requires
        w < 0x100_0000_0000,
    ensures
        word_from(Seq::new(5, |i: int| byte_of(w, i))) == w,
{
    let g = Seq::new(5, |i: int| byte_of(w, i));
    let q1 = w / 0x100;
    let q2 = w / 0x1_0000;
    let q3 = w / 0x100_0000;
    let q4 = w / 0x1_0000_0000;
    assert(w == 0x100 * q1 + w % 0x100);
    assert(q1 == 0x100 * q2 + q1 % 0x100) by {
        assert(q2 == q1 / 0x100);
    }
    assert(q2 == 0x100 * q3 + q2 % 0x100) by {
        assert(q3 == q2 / 0x100);
    }
    assert(q3 == 0x100 * q4 + q3 % 0x100) by {
        assert(q4 == q3 / 0x100);
    }
    assert(q4 < 0x100);
}

/// Encoding and decoding are inverse: every group of four bytes decodes, and to
/// what it was.
pub proof fn law_group_round_trips(inp: Seq<u8>)
    requires
        inp.len() == 4,
    ensures
        decodable(group(inp)),
        ungrouped(group(inp)) == inp,
{
    let c = codes(inp);
    assert forall|k: int| 0 <= k < 8 implies #[trigger] c[k] < 32 && is_code(c[k])
        && nibble_of(c[k]) == nibble_at(inp, k) by {
        lemma_code_bits(nibble_at(inp, k));
        lemma_code_is_unique(nibble_at(inp, k));
    }
    lemma_unpack(c);
    lemma_word_from_bytes(word_of(inp));
    let w = word_from(group(inp));
    assert(w == packed(c));
    assert forall|k: int| 0 <= k < 8 implies is_code(#[trigger] code_at(w, k)) by {
        assert(code_at(w, k) == c[k]);
    }
    assert forall|i: int| 0 <= i < 4 implies #[trigger] ungrouped(group(inp))[i] == inp[i] by {
        assert(code_at(w, 2 * i) == c[2 * i] && code_at(w, 2 * i + 1) == c[2 * i + 1]);
        assert(nibble_of(c[2 * i]) == nibble_at(inp, 2 * i));
        assert(nibble_of(c[2 * i + 1]) == nibble_at(inp, 2 * i + 1));
    }
    assert(ungrouped(group(inp)) =~= inp);
}

/// Packing what was unpacked gives the word back.
proof fn lemma_repack(w: u64, c: Seq<u8>)
    requires
        w < 0x100_0000_0000,
        c.len() == 8,
        forall|k: int| 0 <= k < 8 ==> #[trigger] c[k] == code_at(w, k),
    ensures
        packed(c) == w,
{
    let q7 = w / 0x20;
    let q6 = w / 0x400;
    let q5 = w / 0x8000;
    let q4 = w / 0x10_0000;
    let q3 = w / 0x200_0000;
    let q2 = w / 0x4000_0000;
    let q1 = w / 0x8_0000_0000;
    assert(c[0] == code_at(w, 0) && c[1] == code_at(w, 1) && c[2] == code_at(w, 2)
        && c[3] == code_at(w, 3) && c[4] == code_at(w, 4) && c[5] == code_at(w, 5)
        && c[6] == code_at(w, 6) && c[7] == code_at(w, 7));
    assert(w == 32 * q7 + c[7]);
    assert(q7 == 32 * q6 + c[6]) by {
        assert(q6 == q7 / 32);
    }
    assert(q6 == 32 * q5 + c[5]) by {
        assert(q5 == q6 / 32);
    }
    assert(q5 == 32 * q4 + c[4]) by {
        assert(q4 == q5 / 32);
    }
    assert(q4 == 32 * q3 + c[3]) by {
        assert(q3 == q4 / 32);
    }
    assert(q3 == 32 * q2 + c[2]) by {
        assert(q2 == q3 / 32);
    }
    assert(q2 == 32 * q1 + c[1]) by {
        assert(q1 == q2 / 32);
    }
    assert(q1 == c[0]);
}

/// Cutting the word that five bytes make gives the bytes back.
proof fn lemma_bytes_of_word(g: Seq<u8>)
    requires
        g.len() == 5,
    ensures
        word_from(g) < 0x100_0000_0000,
        Seq::new(5, |i: int| byte_of(word_from(g), i)) == g,
{
    let w = word_from(g);
    let r1 = g[1] * 0x100_0000 + g[2] * 0x1_0000 + g[3] * 0x100 + g[4];
    assert(w == g[0] * 0x1_0000_0000 + r1 && 0 <= r1 < 0x1_0000_0000);
    assert(w / 0x1_0000_0000 == g[0]);
    assert(w / 0x100_0000 == g[0] * 0x100 + g[1]);
    assert(w / 0x1_0000 == (g[0] * 0x100 + g[1]) * 0x100 + g[2]);
    assert(w / 0x100 == ((g[0] * 0x100 + g[1]) * 0x100 + g[2]) * 0x100 + g[3]);
    assert(Seq::new(5, |i: int| byte_of(w, i)) =~= g);
}

/// Decoding and encoding are inverse: whatever decodes is the encoding of what it
/// decodes to, so no two groups stand for the same bytes.
pub proof fn law_decoded_group_encodes_back(g: Seq<u8>)
    requires
        g.len() == 5,
        decodable(g),
    ensures
        group(ungrouped(g)) == g,
{
    let w = word_from(g);
    let inp = ungrouped(g);
    lemma_bytes_of_word(g);
    assert forall|k: int| 0 <= k < 8 implies #[trigger] codes(inp)[k] == code_at(w, k) by {
        let i = k / 2;
        let hi = nibble_of(code_at(w, 2 * i));
        let lo = nibble_of(code_at(w, 2 * i + 1));
        assert(is_code(code_at(w, 2 * i)) && is_code(code_at(w, 2 * i + 1)));
        assert(hi < 16 && code_of(hi) == code_at(w, 2 * i));
        assert(lo < 16 && code_of(lo) == code_at(w, 2 * i + 1));
        assert(inp[i] == 16 * hi + lo);
        assert(k == 2 * i || k == 2 * i + 1);
    }
    lemma_repack(w, codes(inp));
    assert(word_of(inp) == w);
    assert(group(inp) =~= g);
}

/// A word of well-formed codes starts and ends with at most one zero.
proof fn lemma_packed_ends(c0: u64, r: u64, c7: u64)
    by (bit_vector)
    requires
        c0 < 32, c7 < 32, c0 & 24 != 0, c7 & 3 != 0,
        r < 0x4000_0000,
    ensures
        ((c0 * 0x8_0000_0000 + r * 0x20 + c7) as u64) & 3 != 0,
        (((c0 * 0x8_0000_0000 + r * 0x20 + c7) as u64) >> 38) & 3 != 0,
{
}

/// The bit facts of two words in a row.
proof fn lemma_seam(a: u128, b: u128, k: u128)
    by (bit_vector)
    requires
        a < 0x100_0000_0000,
        b < 0x100_0000_0000,
        k <= 77,
        a & 3 != 0,
        (b >> 38) & 3 != 0,
        k <= 37 ==> (b >> k) & 7 != 0,
        k >= 40 ==> (a >> ((k - 40) as u128)) & 7 != 0,
    ensures
        (((a * 0x100_0000_0000 + b) as u128) >> k) & 7 != 0,
{
}

/// Nor does the bitstream have three zero bits in a row where one group follows
/// another.
pub proof fn law_no_three_zero_bits_over_a_seam(first: Seq<u8>, second: Seq<u8>, k: u128)
    requires
        first.len() == 4,
        second.len() == 4,
        k <= 77,
    ensures
        (((word_of(first) as u128 * 0x100_0000_0000 + word_of(second) as u128) as u128) >> k)
            & 7 != 0,
{
    lemma_word_ends(first);
    lemma_word_ends(second);
    let a = word_of(first);
    let b = word_of(second);
    if k <= 37 {
        law_no_three_zero_bits(second, k as u64);
        assert((b >> (k as u64)) & 7 != 0);
        assert((b as u128 >> k) & 7 != 0);
    }
    if k >= 40 {
        law_no_three_zero_bits(first, (k - 40) as u64);
        assert((a as u128 >> ((k - 40) as u128)) & 7 != 0);
    }
    assert(a as u128 & 3 != 0);
    assert((b as u128 >> 38) & 3 != 0);
    lemma_seam(a as u128, b as u128, k);
}

proof fn lemma_word_ends(inp: Seq<u8>)
    requires
        inp.len() == 4,
    ensures
        word_of(inp) < 0x100_0000_0000,
        word_of(inp) & 3 != 0,
        (word_of(inp) >> 38) & 3 != 0,
{
    let c = codes(inp);
    assert forall|k: int| 0 <= k < 8 implies #[trigger] c[k] < 32 by {
        lemma_code_bits(nibble_at(inp, k));
    }
    lemma_unpack(c);
    lemma_code_bits(nibble_at(inp, 0));
    lemma_code_bits(nibble_at(inp, 7));
    let r = (c[1] * 0x200_0000 + c[2] * 0x10_0000 + c[3] * 0x8000 + c[4] * 0x400 + c[5] * 0x20
        + c[6]) as u64;
    assert(c[1] < 32 && c[2] < 32 && c[3] < 32 && c[4] < 32 && c[5] < 32 && c[6] < 32);
    lemma_packed_ends(c[0] as u64, r, c[7] as u64);
}

/// A block of `n` groups takes five bytes for every four, and each of its
/// groups decodes to the four bytes that went in.
pub proof fn law_block_round_trips(block: Seq<u8>, k: int)
    requires
        block.len() % 4 == 0,
        0 <= k < block.len() / 4,
    ensures
        encoded_block(block).len() == block.len() / 4 * 5,
        decodable(encoded_block(block).subrange(5 * k, 5 * k + 5)),
        ungrouped(encoded_block(block).subrange(5 * k, 5 * k + 5))
            == block.subrange(4 * k, 4 * k + 4),
    decreases block.len(),
{
    lemma_block_len(block);
    let first = group(block.take(4));
    let rest = encoded_block(block.skip(4));
    if k == 0 {
        assert(encoded_block(block).subrange(0, 5) =~= first);
        assert(block.subrange(0, 4) =~= block.take(4));
        law_group_round_trips(block.take(4));
    } else {
        law_block_round_trips(block.skip(4), k - 1);
        assert(encoded_block(block).subrange(5 * k, 5 * k + 5)
            =~= rest.subrange(5 * (k - 1), 5 * (k - 1) + 5));
        assert(block.subrange(4 * k, 4 * k + 4)
            =~= block.skip(4).subrange(4 * (k - 1), 4 * (k - 1) + 4));
    }
}

proof fn lemma_block_len(block: Seq<u8>)
    requires
        block.len() % 4 == 0,
    ensures
        encoded_block(block).len() == block.len() / 4 * 5,
    decreases block.len(),
{
    if block.len() >= 4 {
        lemma_block_len(block.skip(4));
    }
}

/// Every sector takes 362 bytes of track.
pub proof fn law_sector_length(data: Seq<u8>, sector: u8, track: u8, id: Seq<u8>)
    requires
        data.len() == 256,
    ensures
        sector_stream(data, sector, track, id).len() == 362,
{
    lemma_block_len(sector_header(sector, track, id));
    lemma_block_len(sector_data(data));
}

/// A track holds its sectors one after the other.
pub proof fn law_track_length(sectors: Seq<Seq<u8>>, track: u8, id: Seq<u8>, n: nat)
    requires
        n <= sectors.len(),
        forall|k: int| 0 <= k < sectors.len() ==> (#[trigger] sectors[k]).len() == 256,
    ensures
        track_stream(sectors, track, id, n).len() == 362 * n,
    decreases n,
{
    if n > 0 {
        law_track_length(sectors, track, id, (n - 1) as nat);
        law_sector_length(sectors[n - 1], ((n - 1) % 256) as u8, track, id);
    }
}

// ---- a whole track ----

/// No three zero bits in a row within a byte.
pub open spec fn byte_clocks(b: u8) -> bool {
    b & 0x07 != 0 && b & 0x0E != 0 && b & 0x1C != 0 && b & 0x38 != 0 && b & 0x70 != 0
        && b & 0xE0 != 0
}

/// No three zero bits in a row where one byte follows another.
pub open spec fn seam_clocks(a: u8, b: u8) -> bool {
    (a & 0x03 != 0 || b & 0x80 != 0) && (a & 0x01 != 0 || b & 0xC0 != 0)
}

/// A run of bytes without three zero bits in a row: the drive can recover its
/// clock from it.
pub open spec fn clocks(s: Seq<u8>) -> bool {
    &&& forall|i: int| 0 <= i < s.len() ==> byte_clocks(#[trigger] s[i])
    &&& forall|i: int, j: int| 0 <= i && j == i + 1 && j < s.len()
        ==> seam_clocks(#[trigger] s[i], #[trigger] s[j])
}

/// A run that may stand between others: it starts and ends with at most one zero
/// bit.
spec fn joins(s: Seq<u8>) -> bool {
    &&& clocks(s)
    &&& s.len() > 0 ==> s[0] & 0xC0 != 0 && s[s.len() - 1] & 0x03 != 0
}

proof fn lemma_join(s: Seq<u8>, t: Seq<u8>)
    requires
        joins(s),
        joins(t),
    ensures
        joins(s + t),
{
    let u = s + t;
    assert forall|i: int| 0 <= i < u.len() implies byte_clocks(#[trigger] u[i]) by {
        if i < s.len() {
            assert(u[i] == s[i]);
        } else {
            assert(u[i] == t[i - s.len()]);
        }
    }
    assert forall|i: int, j: int| 0 <= i && j == i + 1 && j < u.len() implies
        seam_clocks(#[trigger] u[i], #[trigger] u[j]) by {
        if j < s.len() {
            assert(seam_clocks(s[i], s[j]));
        } else if i >= s.len() {
            assert(seam_clocks(t[i - s.len()], t[j - s.len()]));
        } else {
            assert(u[i] == s[s.len() - 1] && u[j] == t[0]);
        }
    }
}

/// The bit facts of the five bytes of a group.
proof fn lemma_group_bits(
    c0: u64, c1: u64, c2: u64, c3: u64, c4: u64, c5: u64, c6: u64, c7: u64,
    b0: u64, b1: u64, b2: u64, b3: u64, b4: u64,
)
    by (bit_vector)
    requires
        c0 < 32, c1 < 32, c2 < 32, c3 < 32, c4 < 32, c5 < 32, c6 < 32, c7 < 32,
        c0 & 3 != 0, c1 & 3 != 0, c2 & 3 != 0, c3 & 3 != 0,
        c4 & 3 != 0, c5 & 3 != 0, c6 & 3 != 0, c7 & 3 != 0,
        c0 & 24 != 0, c1 & 24 != 0, c2 & 24 != 0, c3 & 24 != 0,
        c4 & 24 != 0, c5 & 24 != 0, c6 & 24 != 0, c7 & 24 != 0,
        c0 & 14 != 0, c1 & 14 != 0, c2 & 14 != 0, c3 & 14 != 0,
        c4 & 14 != 0, c5 & 14 != 0, c6 & 14 != 0, c7 & 14 != 0,
        b0 < 256, b1 < 256, b2 < 256, b3 < 256, b4 < 256,
        (b0 * 0x1_0000_0000 + b1 * 0x100_0000 + b2 * 0x1_0000 + b3 * 0x100 + b4) as u64
            == (c0 * 0x8_0000_0000 + c1 * 0x4000_0000 + c2 * 0x200_0000 + c3 * 0x10_0000
                + c4 * 0x8000 + c5 * 0x400 + c6 * 0x20 + c7) as u64,
    ensures
        b0 & 0x07 != 0, b0 & 0x0E != 0, b0 & 0x1C != 0, b0 & 0x38 != 0, b0 & 0x70 != 0, b0 & 0xE0 != 0,
        b1 & 0x07 != 0, b1 & 0x0E != 0, b1 & 0x1C != 0, b1 & 0x38 != 0, b1 & 0x70 != 0, b1 & 0xE0 != 0,
        b2 & 0x07 != 0, b2 & 0x0E != 0, b2 & 0x1C != 0, b2 & 0x38 != 0, b2 & 0x70 != 0, b2 & 0xE0 != 0,
        b3 & 0x07 != 0, b3 & 0x0E != 0, b3 & 0x1C != 0, b3 & 0x38 != 0, b3 & 0x70 != 0, b3 & 0xE0 != 0,
        b4 & 0x07 != 0, b4 & 0x0E != 0, b4 & 0x1C != 0, b4 & 0x38 != 0, b4 & 0x70 != 0, b4 & 0xE0 != 0,
        b0 & 0x03 != 0 || b1 & 0x80 != 0, b0 & 0x01 != 0 || b1 & 0xC0 != 0,
        b1 & 0x03 != 0 || b2 & 0x80 != 0, b1 & 0x01 != 0 || b2 & 0xC0 != 0,
        b2 & 0x03 != 0 || b3 & 0x80 != 0, b2 & 0x01 != 0 || b3 & 0xC0 != 0,
        b3 & 0x03 != 0 || b4 & 0x80 != 0, b3 & 0x01 != 0 || b4 & 0xC0 != 0,
        b0 & 0xC0 != 0, b4 & 0x03 != 0,
{
}

proof fn lemma_group_joins(inp: Seq<u8>)
    requires
        inp.len() == 4,
    ensures
        joins(group(inp)),
{
    let c = codes(inp);
    assert forall|k: int| 0 <= k < 8 implies (#[trigger] c[k]) < 32 && c[k] as u64 & 3 != 0
        && c[k] as u64 & 24 != 0 && c[k] as u64 & 14 != 0 by {
        lemma_code_bits(nibble_at(inp, k));
    }
    let g = group(inp);
    lemma_unpack(c);
    lemma_word_from_bytes(word_of(inp));
    assert(word_from(g) == packed(c));
    lemma_group_bits(
        c[0] as u64, c[1] as u64, c[2] as u64, c[3] as u64,
        c[4] as u64, c[5] as u64, c[6] as u64, c[7] as u64,
        g[0] as u64, g[1] as u64, g[2] as u64, g[3] as u64, g[4] as u64);
    assert forall|i: int| 0 <= i < g.len() implies byte_clocks(#[trigger] g[i]) by {
        assert(i == 0 || i == 1 || i == 2 || i == 3 || i == 4);
    }
    assert forall|i: int, j: int| 0 <= i && j == i + 1 && j < g.len() implies
        seam_clocks(#[trigger] g[i], #[trigger] g[j]) by {
        assert(i == 0 || i == 1 || i == 2 || i == 3);
    }
}

proof fn lemma_block_joins(block: Seq<u8>)
    ensures
        joins(encoded_block(block)),
    decreases block.len(),
{
    if block.len() >= 4 {
        lemma_group_joins(block.take(4));
        lemma_block_joins(block.skip(4));
        lemma_join(group(block.take(4)), encoded_block(block.skip(4)));
    }
}

proof fn lemma_runs_join(n: nat)
    ensures
        joins(run_of(0xFF, n)),
        joins(run_of(GAP, n)),
{
    assert(0xFFu8 & 0x07 != 0 && 0xFFu8 & 0x0E != 0 && 0xFFu8 & 0x1C != 0
        && 0xFFu8 & 0x38 != 0 && 0xFFu8 & 0x70 != 0 && 0xFFu8 & 0xE0 != 0
        && 0xFFu8 & 0xC0 != 0 && 0xFFu8 & 0x03 != 0 && 0xFFu8 & 0x01 != 0
        && 0x55u8 & 0x07 != 0 && 0x55u8 & 0x0E != 0 && 0x55u8 & 0x1C != 0
        && 0x55u8 & 0x38 != 0 && 0x55u8 & 0x70 != 0 && 0x55u8 & 0xE0 != 0
        && 0x55u8 & 0xC0 != 0 && 0x55u8 & 0x03 != 0 && 0x55u8 & 0x01 != 0) by (bit_vector);
}

proof fn lemma_sector_joins(data: Seq<u8>, sector: u8, track: u8, id: Seq<u8>)
    ensures
        joins(sector_stream(data, sector, track, id)),
{
    let sync = run_of(0xFF, SYNC_LEN as nat);
    let header = encoded_block(sector_header(sector, track, id));
    let body = encoded_block(sector_data(data));
    lemma_runs_join(SYNC_LEN as nat);
    lemma_runs_join(9);
    lemma_runs_join(8);
    lemma_block_joins(sector_header(sector, track, id));
    lemma_block_joins(sector_data(data));
    lemma_join(sync, header);
    lemma_join(sync + header, run_of(GAP, 9));
    lemma_join(sync + header + run_of(GAP, 9), sync);
    lemma_join(sync + header + run_of(GAP, 9) + sync, body);
    lemma_join(sync + header + run_of(GAP, 9) + sync + body, run_of(GAP, 8));
}

proof fn lemma_track_joins(sectors: Seq<Seq<u8>>, track: u8, id: Seq<u8>, n: nat)
    ensures
        joins(track_stream(sectors, track, id, n)),
    decreases n,
{
    if n > 0 {
        let k = (n - 1) as nat;
        lemma_track_joins(sectors, track, id, k);
        lemma_sector_joins(sectors[k as int], (k % 256) as u8, track, id);
        lemma_join(
            track_stream(sectors, track, id, k),
            sector_stream(sectors[k as int], (k % 256) as u8, track, id),
        );
    }
}

/// Whatever its sectors hold, a track has no three zero bits in a row anywhere,
/// nor where its end meets its start as the disk turns.
pub proof fn law_track_clocks(sectors: Seq<Seq<u8>>, track: u8, id: Seq<u8>, n: nat)
    ensures
        clocks(track_stream(sectors, track, id, n)),
        ({
            let s = track_stream(sectors, track, id, n);
            s.len() > 0 ==> seam_clocks(s[s.len() - 1], s[0])
        }),
{
    lemma_track_joins(sectors, track, id, n);
}

// ---- sync marks ----

/// A sync mark starts here: two or more all-ones bytes, the first of them.
pub open spec fn sync_starts(s: Seq<u8>, i: int) -> bool {
    &&& 0 <= i && i + 1 < s.len()
    &&& s[i] == 0xFF && s[i + 1] == 0xFF
    &&& i == 0 || s[i - 1] != 0xFF
}

/// The sync mark that starts here is `n` bytes long.
pub open spec fn sync_runs(s: Seq<u8>, i: int, n: nat) -> bool {
    &&& i + n < s.len()
    &&& forall|j: int| i <= j < i + n ==> #[trigger] s[j] == 0xFF
    &&& s[(i + n) as int] != 0xFF
}

/// How many sync marks start in the first `n` bytes.
pub open spec fn sync_marks(s: Seq<u8>, n: int) -> int
    decreases n,
{
    if n <= 0 {
        0
    } else {
        sync_marks(s, n - 1) + (if sync_starts(s, n - 1) { 1int } else { 0 })
    }
}

/// No two all-ones bytes in a row, nor one at either end.
pub open spec fn syncless(s: Seq<u8>) -> bool {
    &&& forall|i: int, j: int| 0 <= i && j == i + 1 && j < s.len()
        ==> !(#[trigger] s[i] == 0xFF && #[trigger] s[j] == 0xFF)
    &&& s.len() > 0 ==> s[0] != 0xFF && s[s.len() - 1] != 0xFF
}

proof fn lemma_syncless_join(s: Seq<u8>, t: Seq<u8>)
    requires
        syncless(s),
        syncless(t),
    ensures
        syncless(s + t),
{
    let u = s + t;
    assert forall|i: int, j: int| 0 <= i && j == i + 1 && j < u.len() implies
        !(#[trigger] u[i] == 0xFF && #[trigger] u[j] == 0xFF) by {
        if j < s.len() {
            assert(!(s[i] == 0xFF && s[j] == 0xFF));
        } else if i >= s.len() {
            assert(!(t[i - s.len()] == 0xFF && t[j - s.len()] == 0xFF));
        } else {
            assert(u[i] == s[s.len() - 1]);
        }
    }
}

/// Of the five bytes of a group only the middle one can be all ones: each of the
/// others holds a whole code.
proof fn lemma_group_syncless(inp: Seq<u8>)
    requires
        inp.len() == 4,
    ensures
        syncless(group(inp)),
{
    let c = codes(inp);
    let g = group(inp);
    assert forall|k: int| 0 <= k < 8 implies (#[trigger] c[k]) < 31 by {
        assert(code_of(nibble_at(inp, k)) < 31);
    }
    lemma_unpack(c);
    lemma_word_from_bytes(word_of(inp));
    assert(word_from(g) == packed(c));
    assert(c[0] < 31 && c[1] < 31 && c[2] < 31 && c[3] < 31 && c[4] < 31 && c[5] < 31
        && c[6] < 31 && c[7] < 31);
    lemma_no_ones(
        c[0] as u64, c[1] as u64, c[2] as u64, c[3] as u64,
        c[4] as u64, c[5] as u64, c[6] as u64, c[7] as u64,
        g[0] as u64, g[1] as u64, g[2] as u64, g[3] as u64, g[4] as u64);
    assert forall|i: int, j: int| 0 <= i && j == i + 1 && j < g.len() implies
        !(#[trigger] g[i] == 0xFF && #[trigger] g[j] == 0xFF) by {
        assert(i == 0 || i == 1 || i == 2 || i == 3);
    }
}

proof fn lemma_no_ones(
    c0: u64, c1: u64, c2: u64, c3: u64, c4: u64, c5: u64, c6: u64, c7: u64,
    b0: u64, b1: u64, b2: u64, b3: u64, b4: u64,
)
    by (bit_vector)
    requires
        c0 < 31, c1 < 31, c2 < 31, c3 < 31, c4 < 31, c5 < 31, c6 < 31, c7 < 31,
        b0 < 256, b1 < 256, b2 < 256, b3 < 256, b4 < 256,
        (b0 * 0x1_0000_0000 + b1 * 0x100_0000 + b2 * 0x1_0000 + b3 * 0x100 + b4) as u64
            == (c0 * 0x8_0000_0000 + c1 * 0x4000_0000 + c2 * 0x200_0000 + c3 * 0x10_0000
                + c4 * 0x8000 + c5 * 0x400 + c6 * 0x20 + c7) as u64,
    ensures
        b0 != 255, b1 != 255, b3 != 255, b4 != 255,
{
}

/// Encoded data never looks like a sync mark.
pub proof fn law_data_holds_no_sync(block: Seq<u8>)
    ensures
        syncless(encoded_block(block)),
    decreases block.len(),
{
    if block.len() >= 4 {
        lemma_group_syncless(block.take(4));
        law_data_holds_no_sync(block.skip(4));
        lemma_syncless_join(group(block.take(4)), encoded_block(block.skip(4)));
    }
}

/// What is all ones in a sector, and what is not.
spec fn sector_marked(x: Seq<u8>) -> bool {
    &&& x.len() == 362
    &&& forall|j: int| 0 <= j < 5 || 24 <= j < 29 ==> #[trigger] x[j] == 0xFF
    &&& x[5] != 0xFF && x[23] != 0xFF && x[29] != 0xFF && x[361] != 0xFF
    &&& forall|i: int, j: int| (5 <= i < 23 || 29 <= i < 361) && j == i + 1
        ==> !(#[trigger] x[i] == 0xFF && #[trigger] x[j] == 0xFF)
}

proof fn lemma_sector_marked(data: Seq<u8>, sector: u8, track: u8, id: Seq<u8>)
    requires
        data.len() == 256,
    ensures
        sector_marked(sector_stream(data, sector, track, id)),
{
    let x = sector_stream(data, sector, track, id);
    let header = encoded_block(sector_header(sector, track, id));
    let body = encoded_block(sector_data(data));
    let h = header + run_of(GAP, 9);
    let d = body + run_of(GAP, 8);
    lemma_block_len(sector_header(sector, track, id));
    lemma_block_len(sector_data(data));
    law_data_holds_no_sync(sector_header(sector, track, id));
    law_data_holds_no_sync(sector_data(data));
    assert(syncless(run_of(GAP, 9)) && syncless(run_of(GAP, 8)));
    lemma_syncless_join(header, run_of(GAP, 9));
    lemma_syncless_join(body, run_of(GAP, 8));
    assert(h.len() == 19 && d.len() == 333);
    assert forall|j: int| 5 <= j < 24 implies #[trigger] x[j] == h[j - 5] by {}
    assert forall|j: int| 29 <= j < 362 implies #[trigger] x[j] == d[j - 29] by {}
    assert(x[5] == h[0] && x[23] == h[18] && x[29] == d[0] && x[361] == d[332]);
    assert forall|i: int, j: int| (5 <= i < 23 || 29 <= i < 361) && j == i + 1 implies
        !(#[trigger] x[i] == 0xFF && #[trigger] x[j] == 0xFF) by {
        if i < 23 {
            assert(!(h[i - 5] == 0xFF && h[j - 5] == 0xFF));
        } else {
            assert(!(d[i - 29] == 0xFF && d[j - 29] == 0xFF));
        }
    }
}

/// Byte `i` of a track is byte `i % 362` of its sector.
proof fn lemma_track_byte(sectors: Seq<Seq<u8>>, track: u8, id: Seq<u8>, n: nat, i: int)
    requires
        n <= sectors.len(),
        forall|k: int| 0 <= k < sectors.len() ==> (#[trigger] sectors[k]).len() == 256,
        0 <= i < 362 * n,
    ensures
        track_stream(sectors, track, id, n)[i]
            == sector_stream(sectors[i / 362], ((i / 362) % 256) as u8, track, id)[i % 362],
    decreases n,
{
    let k = (n - 1) as nat;
    law_track_length(sectors, track, id, k);
    law_sector_length(sectors[k as int], (k % 256) as u8, track, id);
    if i < 362 * k {
        lemma_track_byte(sectors, track, id, k, i);
    } else {
        assert(i / 362 == k && i % 362 == i - 362 * k);
    }
}

/// Where the sync marks of a track are: each sector has one before its header and
/// one before its data, of [`SYNC_LEN`] bytes each, and there is no other.
pub proof fn law_sync_marks(sectors: Seq<Seq<u8>>, track: u8, id: Seq<u8>, n: nat, i: int)
    requires
        n <= sectors.len(),
        forall|k: int| 0 <= k < sectors.len() ==> (#[trigger] sectors[k]).len() == 256,
        0 <= i < 362 * n,
    ensures
        ({
            let s = track_stream(sectors, track, id, n);
            &&& sync_starts(s, i) == (i % 362 == 0 || i % 362 == 24)
            &&& sync_starts(s, i) ==> sync_runs(s, i, SYNC_LEN as nat)
        }),
{
    let s = track_stream(sectors, track, id, n);
    let k = i / 362;
    let at = i % 362;
    let x = sector_stream(sectors[k], (k % 256) as u8, track, id);
    law_track_length(sectors, track, id, n);
    lemma_sector_marked(sectors[k], (k % 256) as u8, track, id);
    assert forall|j: int| 0 <= j < 362 implies #[trigger] s[362 * k + j] == x[j] by {
        assert((362 * k + j) / 362 == k && (362 * k + j) % 362 == j);
        lemma_track_byte(sectors, track, id, n, 362 * k + j);
    }
    assert(i == 362 * k + at);
    assert(s[362 * k + at] == x[at]);
    if at < 361 {
        assert(s[362 * k + (at + 1)] == x[at + 1]);
    }
    if at > 0 {
        assert(s[362 * k + (at - 1)] == x[at - 1]);
    } else if k > 0 {
        lemma_sector_marked(sectors[k - 1], ((k - 1) % 256) as u8, track, id);
        assert((i - 1) / 362 == k - 1 && (i - 1) % 362 == 361);
        lemma_track_byte(sectors, track, id, n, i - 1);
    }
    if at == 0 || at == 24 {
        assert forall|j: int| i <= j < i + 5 implies #[trigger] s[j] == 0xFF by {
            assert(s[362 * k + (j - 362 * k)] == x[j - 362 * k]);
        }
        assert(s[362 * k + (at + 5)] == x[at + 5]);
    }
}

proof fn lemma_marks_below(sectors: Seq<Seq<u8>>, track: u8, id: Seq<u8>, n: nat, m: int)
    requires
        n <= sectors.len(),
        forall|k: int| 0 <= k < sectors.len() ==> (#[trigger] sectors[k]).len() == 256,
        0 <= m <= 362 * n,
    ensures
        sync_marks(track_stream(sectors, track, id, n), m) == 2 * (m / 362)
            + (if m % 362 > 0 { 1int } else { 0 }) + (if m % 362 > 24 { 1int } else { 0 }),
    decreases m,
{
    if m > 0 {
        lemma_marks_below(sectors, track, id, n, m - 1);
        law_sync_marks(sectors, track, id, n, m - 1);
    }
}

/// A track of `n` sectors has exactly two sync marks for each of them.
pub proof fn law_two_sync_marks_per_sector(sectors: Seq<Seq<u8>>, track: u8, id: Seq<u8>, n: nat)
    requires
        n <= sectors.len(),
        forall|k: int| 0 <= k < sectors.len() ==> (#[trigger] sectors[k]).len() == 256,
    ensures
        ({
            let s = track_stream(sectors, track, id, n);
            sync_marks(s, s.len() as int) == 2 * n
        }),
{
    law_track_length(sectors, track, id, n);
    lemma_marks_below(sectors, track, id, n, 362 * n as int);
}

/// A track decodes back to its sectors: behind the first sync mark of a sector
/// stands its header, behind the second its data, group by group.
pub proof fn law_track_decodes(
    sectors: Seq<Seq<u8>>, track: u8, id: Seq<u8>, n: nat, k: int, g: int,
)
    requires
        n <= sectors.len(),
        forall|j: int| 0 <= j < sectors.len() ==> (#[trigger] sectors[j]).len() == 256,
        0 <= k < n,
    ensures
        ({
            let s = track_stream(sectors, track, id, n);
            let header = sector_header((k % 256) as u8, track, id);
            let data = sector_data(sectors[k]);
            let h = s.subrange(362 * k + 5 + 5 * g, 362 * k + 10 + 5 * g);
            let d = s.subrange(362 * k + 29 + 5 * g, 362 * k + 34 + 5 * g);
            &&& 0 <= g < 2 ==> decodable(h) && ungrouped(h) == header.subrange(4 * g, 4 * g + 4)
            &&& 0 <= g < 65 ==> decodable(d) && ungrouped(d) == data.subrange(4 * g, 4 * g + 4)
        }),
{
    let s = track_stream(sectors, track, id, n);
    let header = sector_header((k % 256) as u8, track, id);
    let data = sector_data(sectors[k]);
    let x = sector_stream(sectors[k], (k % 256) as u8, track, id);
    law_track_length(sectors, track, id, n);
    lemma_block_len(header);
    lemma_block_len(data);
    assert forall|j: int| 0 <= j < 362 implies #[trigger] s[362 * k + j] == x[j] by {
        assert((362 * k + j) / 362 == k && (362 * k + j) % 362 == j);
        lemma_track_byte(sectors, track, id, n, 362 * k + j);
    }
    if 0 <= g < 2 {
        law_block_round_trips(header, g);
        let h = s.subrange(362 * k + 5 + 5 * g, 362 * k + 10 + 5 * g);
        assert forall|j: int| 0 <= j < 5 implies
            #[trigger] h[j] == encoded_block(header).subrange(5 * g, 5 * g + 5)[j] by {
            assert(s[362 * k + (5 + 5 * g + j)] == x[5 + 5 * g + j]);
        }
        assert(h =~= encoded_block(header).subrange(5 * g, 5 * g + 5));
    }
    if 0 <= g < 65 {
        law_block_round_trips(data, g);
        let d = s.subrange(362 * k + 29 + 5 * g, 362 * k + 34 + 5 * g);
        assert forall|j: int| 0 <= j < 5 implies
            #[trigger] d[j] == encoded_block(data).subrange(5 * g, 5 * g + 5)[j] by {
            assert(s[362 * k + (29 + 5 * g + j)] == x[29 + 5 * g + j]);
        }
        assert(d =~= encoded_block(data).subrange(5 * g, 5 * g + 5));
    }
}

/// The code, bit by bit: four bytes are eight nibbles, high ones first, and each stands
/// on the track as the five bits of this list.
pub proof fn law_code(inp: Seq<u8>, k: int)
    requires
        inp.len() == 4,
        0 <= k < 8,
    ensures
        ({
            let g = group(inp);
            let w = g[0] * 0x1_0000_0000 + g[1] * 0x100_0000 + g[2] * 0x1_0000 + g[3] * 0x100 + g[4];
            let n = if k % 2 == 0 { inp[k / 2] / 16 } else { inp[k / 2] % 16 };
            &&& g.len() == 5
            &&& five_bits(w, k) == seq![
                0b01010int, 0b01011, 0b10010, 0b10011, 0b01110, 0b01111, 0b10110, 0b10111,
                0b01001, 0b11001, 0b11010, 0b11011, 0b01101, 0b11101, 0b11110, 0b10101,
            ][n as int]
        }),
{
    let c = codes(inp);
    assert forall|k: int| 0 <= k < 8 implies #[trigger] c[k] < 32 by {
        lemma_code_bits(nibble_at(inp, k));
    }
    lemma_unpack(c);
    lemma_word_from_bytes(word_of(inp));
    let g = group(inp);
    let w = g[0] * 0x1_0000_0000 + g[1] * 0x100_0000 + g[2] * 0x1_0000 + g[3] * 0x100 + g[4];
    assert(word_from(g) == packed(c));
    assert(w == packed(c));
    assert(code_at(packed(c), k) == c[k]);
}

/// The five bits of place `k` of a 40-bit word, from the top.
pub open spec fn five_bits(w: int, k: int) -> int {
    if k == 0 { w / 0x8_0000_0000 }
    else if k == 1 { w / 0x4000_0000 % 32 }
    else if k == 2 { w / 0x200_0000 % 32 }
    else if k == 3 { w / 0x10_0000 % 32 }
    else if k == 4 { w / 0x8000 % 32 }
    else if k == 5 { w / 0x400 % 32 }
    else if k == 6 { w / 32 % 32 }
    else { w % 32 }
}

/// What a header holds, byte by byte: the mark $08, a checksum that makes the four bytes
/// behind it come out at zero, the sector, the track, the disk's ID with its second
/// byte first, and two bytes of $0F.
pub proof fn law_header(sector: u8, track: u8, id: Seq<u8>)
    requires
        id.len() == 2,
    ensures
        ({
            let h = sector_header(sector, track, id);
            &&& h.len() == 8
            &&& h[0] == 0x08 && h[2] == sector && h[3] == track
            &&& h[4] == id[1] && h[5] == id[0]
            &&& h[6] == 0x0F && h[7] == 0x0F
            &&& h[1] ^ h[2] ^ h[3] ^ h[4] ^ h[5] == 0
        }),
{
    lemma_cancels(sector, track, id[0], id[1]);
}

proof fn lemma_cancels(a: u8, b: u8, c: u8, d: u8)
    by (bit_vector)
    ensures
        (a ^ b ^ c ^ d) ^ a ^ b ^ d ^ c == 0,
{
}

/// What a data block holds: the mark $07, the sector's bytes, their checksum, and two
/// zeros.
pub proof fn law_data_block(data: Seq<u8>, k: int)
    requires
        data.len() == 256,
        0 <= k < 256,
    ensures
        ({
            let d = sector_data(data);
            &&& d.len() == 260
            &&& d[0] == 0x07 && d[1 + k] == data[k]
            &&& d[257] == checksum(data) && d[258] == 0 && d[259] == 0
        }),
{
}

/// A checksum goes on by each byte: an empty run has 0, and a byte is added without
/// carry.
pub proof fn law_checksum(bytes: Seq<u8>, b: u8)
    ensures
        checksum(Seq::empty()) == 0,
        checksum(bytes.push(b)) == checksum(bytes) ^ b,
{
    assert(bytes.push(b).drop_last() =~= bytes);
}

/// The layout of a sector on the track: five bytes of sync, the header, nine bytes of
/// gap, five of sync, the data, and eight of gap; the gaps are $55, the sync $FF.
pub proof fn law_sector_layout(data: Seq<u8>, sector: u8, track: u8, id: Seq<u8>, k: int)
    requires
        data.len() == 256,
        id.len() == 2,
    ensures
        ({
            let s = sector_stream(data, sector, track, id);
            &&& s.len() == 362
            &&& 0 <= k < 5 || 24 <= k < 29 ==> s[k] == 0xFF
            &&& 15 <= k < 24 || 354 <= k < 362 ==> s[k] == 0x55
            &&& s.subrange(5, 15) == encoded_block(sector_header(sector, track, id))
            &&& s.subrange(29, 354) == encoded_block(sector_data(data))
        }),
{
    let s = sector_stream(data, sector, track, id);
    lemma_block_len(sector_header(sector, track, id));
    lemma_block_len(sector_data(data));
    assert(s.subrange(5, 15) =~= encoded_block(sector_header(sector, track, id)));
    assert(s.subrange(29, 354) =~= encoded_block(sector_data(data)));
}

/// A block is encoded group by group of four bytes.
pub proof fn law_blocks_are_groups(block: Seq<u8>, rest: Seq<u8>)
    requires
        block.len() == 4,
    ensures
        encoded_block(block + rest) == group(block) + encoded_block(rest),
{
    assert((block + rest).take(4) =~= block);
    assert((block + rest).skip(4) =~= rest);
}

/// The speed zones: 21 sectors up to track 17, 19 up to 24, 18 up to 30, and 17 beyond.
pub proof fn law_zones(track: u8)
    requires
        1 <= track <= 35,
    ensures
        zone_sectors(track) as int
            == 17 + (if track <= 30 { 1int } else { 0 }) + (if track <= 24 { 1int } else { 0 })
                + (if track <= 17 { 2int } else { 0 }),
{
}

/// The sectors of a track stand one behind the other, numbered from 0.
pub proof fn law_sectors_in_turn(sectors: Seq<Seq<u8>>, track: u8, id: Seq<u8>, n: nat)
    requires
        n < 256,
    ensures
        track_stream(sectors, track, id, 0) == Seq::<u8>::empty(),
        track_stream(sectors, track, id, n + 1)
            == track_stream(sectors, track, id, n) + sector_stream(sectors[n as int], n as u8, track, id),
{
}

} // verus!
