//! Zero-page RAM test, the first thing the 1541 runs after reset.
//!
//! Reached from the reset vector: `RESET ($FFFC) -> $EAA0`, which sets up the
//! stack and then falls into this test at `$EAA7`. For each of the 256 zero-page
//! locations it proves the byte can (a) hold its own address, (b) survive 256
//! increments wrapping cleanly back to the start value, and (c) hold zero. Any
//! failure jumps to the fault handler at `$EA6E` (which flashes the drive LED).
//!
//! ```text
//! EAA7:  E8        INX            ; X = 0 (was $FF after reset)
//! EAA8:  A0 00     LDY  #$00
//! EAAA:  A2 00     LDX  #$00
//! ; fill: zp[X] = X for all 256 bytes
//! EAAC:  8A        TXA
//! EAAD:  95 00     STA  $00,X
//! EAAF:  E8        INX
//! EAB0:  D0 FA     BNE  $EAAC
//! ; per-byte test (X = 0..=255)
//! EAB2:  8A        TXA            ; A = X (expected value)
//! EAB3:  D5 00     CMP  $00,X     ; still holds its index?
//! EAB5:  D0 B7     BNE  $EA6E     ; no -> RAM fault
//! EAB7:  F6 00     INC  $00,X     ; 256 increments must wrap back to X
//! EAB9:  C8        INY
//! EABA:  D0 FB     BNE  $EAB7
//! EABC:  D5 00     CMP  $00,X     ; wrapped back to X?
//! EABE:  D0 AE     BNE  $EA6E     ; no -> RAM fault
//! EAC0:  94 00     STY  $00,X     ; write 0 (Y == 0 here)
//! EAC2:  B5 00     LDA  $00,X
//! EAC4:  D0 A8     BNE  $EA6E     ; must read back 0
//! EAC6:  E8        INX
//! EAC7:  D0 E9     BNE  $EAB2     ; next byte
//! ```

use vstd::prelude::*;

verus! {

/// Byte-addressable zero page ($00-$FF). Implemented by real RAM
/// (`[u8; 256]`) and by models of faulty silicon. Of a memory that leaves
/// `value` and `written` out, nothing is known.
pub trait ZeroPage: Sized {
    /// What a read of `addr` returns.
    open spec fn value(self, addr: u8) -> u8 {
        arbitrary()
    }

    /// The memory after `val` has been written to `addr`.
    open spec fn written(self, addr: u8, val: u8) -> Self {
        arbitrary()
    }

    fn read(&self, addr: u8) -> (v: u8)
        ensures
            v == self.value(addr),
    ;

    fn write(&mut self, addr: u8, val: u8)
        ensures
            *final(self) == old(self).written(addr, val),
    ;
}

impl ZeroPage for [u8; 256] {
    open spec fn value(self, addr: u8) -> u8 {
        self[addr as int]
    }

    open spec fn written(self, addr: u8, val: u8) -> Self {
        vstd::array::spec_array_update(self, addr as int, val)
    }

    fn read(&self, addr: u8) -> (v: u8) {
        self[addr as usize]
    }

    fn write(&mut self, addr: u8, val: u8) {
        self[addr as usize] = val;
    }
}

// ---- the test, as a function on memory ----

/// Every byte below `n` filled with its own address.
pub open spec fn filled<M: ZeroPage>(z: M, n: nat) -> M
    decreases n,
{
    if n == 0 { z } else { filled(z, (n - 1) as nat).written((n - 1) as u8, (n - 1) as u8) }
}

/// A byte incremented `n` times in place.
pub open spec fn bumped<M: ZeroPage>(z: M, x: u8, n: nat) -> M
    decreases n,
{
    if n == 0 {
        z
    } else {
        let p = bumped(z, x, (n - 1) as nat);
        p.written(x, p.value(x).wrapping_add(1))
    }
}

/// The test of one byte: the memory it leaves, and whether the byte passed. It
/// must hold its address, come round after 256 increments, and hold zero.
pub open spec fn byte_tested<M: ZeroPage>(z: M, x: u8) -> (M, bool) {
    let b = bumped(z, x, 256);
    let c = b.written(x, 0);
    if z.value(x) != x {
        (z, false)
    } else if b.value(x) != x {
        (b, false)
    } else {
        (c, c.value(x) == 0)
    }
}

/// The test of all bytes from `x` on, up to the first that fails.
pub open spec fn tested_from<M: ZeroPage>(z: M, x: nat) -> (M, Result<(), u8>)
    decreases 256 - x,
{
    if x >= 256 {
        (z, Ok(()))
    } else {
        let (t, passed) = byte_tested(z, x as u8);
        if passed { tested_from(t, x + 1) } else { (t, Err(x as u8)) }
    }
}

/// The whole test.
pub open spec fn ram_tested<M: ZeroPage>(z: M) -> (M, Result<(), u8>) {
    tested_from(filled(z, 256), 0)
}

/// Run the 1541 zero-page RAM test.
///
/// Returns `Ok(())` if every location passes (the ROM would continue booting),
/// or `Err(addr)` with the first failing address (the ROM would branch to its
/// fault handler at `$EA6E`).
pub fn zero_page_ram_test<M: ZeroPage>(zp: &mut M) -> (r: Result<(), u8>)
    ensures
        (*final(zp), r) == ram_tested(*old(zp)),
{
    // EAAC..EAB0: fill zp[i] = i for all 256 bytes.
    let mut i: u16 = 0;
    while i < 256
        invariant
            i <= 256,
            *zp == filled(*old(zp), i as nat),
        decreases 256 - i,
    {
        zp.write(i as u8, i as u8);
        i += 1;
    }

    // EAB2..EAC7: test each byte in turn.
    let mut n: u16 = 0;
    while n < 256
        invariant
            n <= 256,
            tested_from(*zp, n as nat) == ram_tested(*old(zp)),
        decreases 256 - n,
    {
        let x = n as u8;
        // EAB3/EAB5: still holds its own index?
        if zp.read(x) != x {
            return Err(x);
        }

        // EAB7..EABA: 256 increments (Y wraps 0->0) must return to the start.
        let ghost start = *zp;
        let mut k: u16 = 0;
        while k < 256
            invariant
                k <= 256,
                *zp == bumped(start, x, k as nat),
            decreases 256 - k,
        {
            let v = zp.read(x).wrapping_add(1);
            zp.write(x, v);
            k += 1;
        }
        // EABC/EABE: wrapped cleanly back to x?
        if zp.read(x) != x {
            return Err(x);
        }

        // EAC0..EAC4: write 0 and read it back.
        zp.write(x, 0);
        if zp.read(x) != 0 {
            return Err(x);
        }
        n += 1;
    }
    Ok(())
}

// ---- what holds of the test ----

proof fn lemma_filled(z: [u8; 256], n: nat)
    requires
        n <= 256,
    ensures
        forall|k: int| 0 <= k < 256 ==> #[trigger] filled(z, n)@[k]
            == (if k < n { k as u8 } else { z@[k] }),
    decreases n,
{
    if n > 0 {
        lemma_filled(z, (n - 1) as nat);
        let p = filled(z, (n - 1) as nat);
        assert(filled(z, n)@ == p@.update(n - 1, (n - 1) as u8));
    }
}

proof fn lemma_bumped(z: [u8; 256], x: u8, n: nat)
    ensures
        forall|k: int| 0 <= k < 256 && k != x ==> #[trigger] bumped(z, x, n)@[k] == z@[k],
        bumped(z, x, n)@[x as int] == (z@[x as int] + n) % 256,
    decreases n,
{
    if n > 0 {
        lemma_bumped(z, x, (n - 1) as nat);
    }
}

proof fn lemma_healthy_from(z: [u8; 256], x: nat)
    requires
        x <= 256,
        forall|k: int| 0 <= k < 256 ==> #[trigger] z@[k] == (if k < x { 0 } else { k as u8 }),
    ensures
        tested_from(z, x).1 == Ok::<(), u8>(()),
        forall|k: int| 0 <= k < 256 ==> #[trigger] tested_from(z, x).0@[k] == 0,
    decreases 256 - x,
{
    if x < 256 {
        lemma_bumped(z, x as u8, 256);
        lemma_healthy_from(byte_tested(z, x as u8).0, x + 1);
    }
}

/// Healthy RAM passes, and is left cleared.
pub proof fn law_healthy_ram_passes(z: [u8; 256])
    ensures
        ram_tested(z).1 == Ok::<(), u8>(()),
        forall|k: int| 0 <= k < 256 ==> #[trigger] ram_tested(z).0@[k] == 0,
{
    lemma_filled(z, 256);
    lemma_healthy_from(filled(z, 256), 0);
}

/// A byte that can never hold its own address, or never zero, is detected: the
/// test reports it, or a byte before it that failed first.
pub proof fn law_dead_byte_is_detected<M: ZeroPage>(z: M, x: nat, dead: u8)
    requires
        x <= dead,
        (forall|m: M| #[trigger] m.value(dead) != dead) || (forall|m: M| #[trigger] m.value(dead) != 0),
    ensures
        tested_from(z, x).1 matches Err(addr) && x <= addr <= dead,
    decreases 256 - x,
{
    let (t, passed) = byte_tested(z, x as u8);
    if passed {
        assert(x != dead) by {
            let b = bumped(z, x as u8, 256);
            let c = b.written(x as u8, 0);
            assert(z.value(x as u8) == x && c.value(x as u8) == 0);
        }
        law_dead_byte_is_detected(t, x + 1, dead);
    }
}

/// A byte that has lost its address when its turn comes is the one reported.
pub proof fn law_lost_address_is_reported<M: ZeroPage>(z: M, x: nat)
    requires
        x < 256,
        z.value(x as u8) != x,
    ensures
        tested_from(z, x).1 == Err::<(), u8>(x as u8),
{
}

} // verus!
