//! Bits of a byte, and what the bitwise operators do to them.

use vstd::prelude::*;

verus! {

/// Bit `k` of a byte.
pub open spec fn bit_of(v: u8, k: u8) -> bool {
    (v >> k) & 1 == 1
}

/// The bitwise operators work bit by bit.
pub proof fn lemma_bitwise(a: u8, b: u8, k: u8)
    by (bit_vector)
    requires
        k < 8,
    ensures
        bit_of(a & b, k) == (bit_of(a, k) && bit_of(b, k)),
        bit_of(a | b, k) == (bit_of(a, k) || bit_of(b, k)),
        bit_of(a ^ b, k) == (bit_of(a, k) != bit_of(b, k)),
        bit_of(!a, k) == !bit_of(a, k),
        (a ^ b) ^ b == a,
        a ^ a == 0,
        (a >> k) & 1 == 0 || (a >> k) & 1 == 1,
        bit_of(a | (1u8 << k), k),
        !bit_of(a & !(1u8 << k), k),
        (a & (1u8 << k) != 0) == bit_of(a, k),
{
}

/// The bits of some bytes.
pub proof fn lemma_masks(k: u8)
    by (bit_vector)
    requires
        k < 8,
    ensures
        !bit_of(0x00, k),
        bit_of(0x01, k) == (k == 0),
        bit_of(0x02, k) == (k == 1),
        bit_of(0x03, k) == (k <= 1),
        bit_of(0x04, k) == (k == 2),
        bit_of(0x07, k) == (k <= 2),
        bit_of(0x08, k) == (k == 3),
        bit_of(0x0F, k) == (k <= 3),
        bit_of(0x10, k) == (k == 4),
        bit_of(0x1F, k) == (k <= 4),
        bit_of(0x20, k) == (k == 5),
        bit_of(0x40, k) == (k == 6),
        bit_of(0x70, k) == (4 <= k <= 6),
        bit_of(0x7F, k) == (k <= 6),
        bit_of(0x80, k) == (k == 7),
        bit_of(0xEE, k) == (k != 0 && k != 4),
        bit_of(0xF0, k) == (k >= 4),
        bit_of(0xFF, k),
{
}

/// A byte is the sum of its bits; it is zero where none is set, and its bits are
/// its binary digits.
pub proof fn lemma_digits(v: u8)
    by (bit_vector)
    ensures
        bit_of(v, 0) == (v % 2 == 1),
        bit_of(v, 1) == (v / 2 % 2 == 1),
        bit_of(v, 2) == (v / 4 % 2 == 1),
        bit_of(v, 3) == (v / 8 % 2 == 1),
        bit_of(v, 4) == (v / 16 % 2 == 1),
        bit_of(v, 5) == (v / 32 % 2 == 1),
        bit_of(v, 6) == (v / 64 % 2 == 1),
        bit_of(v, 7) == (v >= 128),
        v == 0 <==> !bit_of(v, 0) && !bit_of(v, 1) && !bit_of(v, 2) && !bit_of(v, 3)
            && !bit_of(v, 4) && !bit_of(v, 5) && !bit_of(v, 6) && !bit_of(v, 7),
        v & 0x0F == v % 16,
        v & 0x3F == v % 64,
{
}

/// A mask of one bit tests that bit.
pub proof fn lemma_tests(v: u8)
    by (bit_vector)
    ensures
        (v & 0x01 != 0) == bit_of(v, 0),
        (v & 0x02 != 0) == bit_of(v, 1),
        (v & 0x04 != 0) == bit_of(v, 2),
        (v & 0x08 != 0) == bit_of(v, 3),
        (v & 0x10 != 0) == bit_of(v, 4),
        (v & 0x20 != 0) == bit_of(v, 5),
        (v & 0x40 != 0) == bit_of(v, 6),
        (v & 0x80 != 0) == bit_of(v, 7),
        (v & 0x60 == 0) == (!bit_of(v, 5) && !bit_of(v, 6)),
        (v & 0x03 != 0) == (bit_of(v, 0) || bit_of(v, 1)),
{
}

} // verus!
