//! RESTOR and VECTOR: managing the RAM I/O vector table at $0314.
//!
//! The C64 routes its interrupt handlers and I/O calls (IRQ, BRK, NMI, OPEN,
//! CHKIN, CHROUT, ...) through a table of 16 pointers in RAM at $0314-$0333.
//! On boot the KERNAL copies a table of *defaults* into it; a program can read
//! the current vectors back out or install its own, which is exactly how you
//! hook the IRQ or CHROUT. That indirection is why a plain trace of the ROM only
//! reaches a fraction of it: most routines are entered through these RAM slots.
//!
//! The ROM listing:
//!
//! ```text
//! ; RESTOR ($FD15): point at the default table ($FD30) and fall into VECTOR
//! ; in "install" mode (carry clear).
//! FD15:  A2 30     LDX  #$30
//! FD17:  A0 FD     LDY  #$FD        ; X/Y = $FD30 (the default vector table)
//! FD19:  18        CLC              ; carry clear = copy list -> system
//! ; VECTOR ($FD1A): copy 32 bytes between the caller's list ($C3) and $0314.
//! FD1A:  86 C3     STX  $C3
//! FD1C:  84 C4     STY  $C4         ; ($C3) = caller's list
//! FD1E:  A0 1F     LDY  #$1F        ; 32 bytes, $1F..$00
//! FD20:  B9 14 03  LDA  $0314,Y     ; A = current system vector byte
//! FD23:  B0 02     BCS  $FD27       ; carry set (read): keep A = system byte
//! FD25:  B1 C3     LDA  ($C3),Y     ; carry clear (write): A = caller's byte
//! FD27:  91 C3     STA  ($C3),Y     ; store to the caller's list ...
//! FD29:  99 14 03  STA  $0314,Y     ; ... and to the system table
//! FD2C:  88        DEY
//! FD2D:  10 F1     BPL  $FD20
//! FD2F:  60        RTS
//! ```
//!
//! The single store path serves both directions: on a read the system byte is
//! written to both places (the system rewrite is a harmless no-op); on a write
//! the caller's byte is written to both (the list rewrite is the no-op).

use vstd::prelude::*;
use crate::kernal::{C64Mem, Memory, CINV};

verus! {

/// Where the defaults are staged: just past the vector table.
pub const STAGING: u16 = 0x0334;

/// Memory after the last `n` bytes of the table were moved between the list and
/// the system table.
pub open spec fn moved(m: Memory, list: int, read_current: bool, n: nat) -> Memory
    decreases n,
{
    if n == 0 {
        m
    } else {
        let p = moved(m, list, read_current, (n - 1) as nat);
        let y = 32 - n;
        let a = p.peek((if read_current { CINV as int } else { list }) + y);
        p.poke(list + y, a).poke(CINV + y, a)
    }
}

/// The 32 bytes at an address.
pub open spec fn table_at(m: Memory, base: int) -> Seq<u8> {
    Seq::new(32, |i: int| m.peek(base + i))
}

/// The list and the system table do not overlap.
pub open spec fn apart(list: int) -> bool {
    list + 32 <= CINV || CINV + 32 <= list
}

/// VECTOR ($FD1A). Copies the 32-byte (16-pointer) vector table between the
/// caller's `list` in memory and the system table at $0314.
///
/// * `read_current == true`  (carry set):  copy the live system vectors *out*
///   into `list`.
/// * `read_current == false` (carry clear): install `list` *into* the system
///   vectors.
pub fn vector(m: &mut C64Mem, list: u16, read_current: bool)
    requires
        list + 0x1F <= 0xFFFF,
        old(m)@.covered(),
    ensures
        final(m)@ == moved(old(m)@, list as int, read_current, 32),
        final(m)@.rom == old(m)@.rom,
{
    // LDY #$1F down to 0: 16 little-endian pointers = 32 bytes.
    let mut n: u16 = 0;
    while n < 32
        invariant
            n <= 32,
            list + 0x1F <= 0xFFFF,
            m@.covered(),
            m@.rom == old(m)@.rom,
            m@ == moved(old(m)@, list as int, read_current, n as nat),
        decreases 32 - n,
    {
        let y: u16 = 31 - n;
        let a = if read_current {
            m.r(CINV + y) // LDA $0314,Y   (BCS skips the next load)
        } else {
            m.r(list + y) // LDA ($C3),Y
        };
        m.w(list + y, a); // STA ($C3),Y
        m.w(CINV + y, a); // STA $0314,Y
        n += 1;
    }
}

/// RESTOR ($FD15). Installs the KERNAL's default vectors. In the ROM the
/// defaults live at $FD30; here you pass the 32-byte default table so the
/// routine stays self-contained.
pub fn restor(m: &mut C64Mem, default_table: &[u8; 32])
    requires
        old(m)@.covered(),
    ensures
        final(m)@ == restored(old(m)@, default_table@),
{
    // Stage the defaults where VECTOR expects the caller's list, then install.
    // (The ROM points $C3 straight at the in-ROM $FD30 copy.)
    m.w_all(STAGING, default_table.as_slice());
    let ghost staged = m@;
    vector(m, STAGING, false);
    proof {
        lemma_moved(staged, STAGING as int, false, 32);
        assert(m@ =~= restored(old(m)@, default_table@));
    }
}

/// Memory after a default table was installed: it stands in the system table,
/// and right behind it where it was staged.
pub open spec fn restored(m: Memory, table: Seq<u8>) -> Memory {
    m.poke_all(STAGING as int, table).poke_all(CINV as int, table)
}

/// Moving between places that do not overlap leaves the source bytes in both.
proof fn lemma_moved(m: Memory, list: int, read_current: bool, n: nat)
    requires
        n <= 32,
        0 <= list,
        list + 32 <= 0x1_0000,
        m.ram.len() == 0x1_0000,
        apart(list),
    ensures
        ({
            let src = if read_current { CINV as int } else { list };
            let bytes = table_at(m, src).skip(32 - n);
            moved(m, list, read_current, n)
                == m.poke_all(list + 32 - n, bytes).poke_all(CINV + 32 - n, bytes)
        }),
    decreases n,
{
    let src = if read_current { CINV as int } else { list };
    let bytes = table_at(m, src).skip(32 - n);
    if n == 0 {
        assert(m =~= m.poke_all(list + 32 - n, bytes).poke_all(CINV + 32 - n, bytes));
    } else {
        let k = (n - 1) as nat;
        lemma_moved(m, list, read_current, k);
        let tail = table_at(m, src).skip(32 - k);
        let p = moved(m, list, read_current, k);
        let y = 32 - n;
        assert(p.peek(src + y) == m.peek(src + y));
        assert(moved(m, list, read_current, n)
            =~= m.poke_all(list + 32 - n, bytes).poke_all(CINV + 32 - n, bytes));
    }
}

/// No ROM hides any of the list.
pub open spec fn unshadowed(m: Memory, list: int) -> bool {
    m.rom is None || list + 32 <= 0xA000 || 0xC000 <= list <= 0xE000 - 32
}

/// Installing a list from RAM puts it into the system table and changes nothing
/// else; reading the table out puts it into the list and changes nothing else.
pub proof fn law_vector_copies(m: Memory, list: int)
    requires
        0 <= list,
        list + 32 <= 0x1_0000,
        m.ram.len() == 0x1_0000,
        apart(list),
    ensures
        moved(m, list, true, 32) == m.poke_all(list, table_at(m, CINV as int)),
        unshadowed(m, list) ==>
            moved(m, list, false, 32) == m.poke_all(CINV as int, table_at(m, list)),
{
    lemma_moved(m, list, true, 32);
    lemma_moved(m, list, false, 32);
    let out = table_at(m, CINV as int);
    assert(out.skip(0) =~= out);
    assert(m.poke_all(list, out).poke_all(CINV as int, out) =~= m.poke_all(list, out));
    let own = table_at(m, list);
    assert(own.skip(0) =~= own);
    if unshadowed(m, list) {
        assert(m.poke_all(list, own) =~= m);
    }
}

/// What a program installs, it reads back.
pub proof fn law_vectors_read_back(m: Memory, list: int, out: int)
    requires
        0 <= list,
        list + 32 <= 0x1_0000,
        0 <= out,
        out + 32 <= 0xA000,
        m.ram.len() == 0x1_0000,
        apart(list),
        apart(out),
    ensures
        table_at(moved(moved(m, list, false, 32), out, true, 32), out) == table_at(m, list),
{
    lemma_moved(m, list, false, 32);
    let own = table_at(m, list);
    assert(own.skip(0) =~= own);
    let p = moved(m, list, false, 32);
    lemma_moved(p, out, true, 32);
    let sys = table_at(p, CINV as int);
    assert(sys.skip(0) =~= sys);
    assert(sys =~= own);
    assert(table_at(moved(p, out, true, 32), out) =~= own);
}

} // verus!
