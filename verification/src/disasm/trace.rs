//! Recursive-traversal ("tracing") disassembler.
//!
//! Starts from the hardware vectors (and any user-supplied entry points),
//! follows every reachable control-flow edge, and marks which bytes are code.
//! Anything never reached is emitted as data. Jump/call/branch targets that land
//! inside the image become `Lxxxx` labels.
//!
//! Limitation: purely static tracing cannot follow computed jumps (`JMP ($nnnn)`)
//! or data-driven dispatch tables, and a lot of the 1541 DOS is reached that way.
//! Give entry points to seed routines the trace can't discover on its own.

use vstd::prelude::*;
use crate::disasm;
use crate::mos6502::{addr_mode, cpu, instr_len, instruction, AddrMode, Mnemonic};
use crate::{mos6502, text};

verus! {

// ---- control flow ----

/// Does an address lie within an image?
pub open spec fn inside(rom: Seq<u8>, org: u16, addr: u16) -> bool {
    org <= addr < org + rom.len()
}

/// True if `addr` lies within the loaded image.
fn in_rom(rom: &[u8], org: u16, addr: u16) -> (b: bool)
    ensures
        b == inside(rom@, org, addr),
{
    org <= addr && ((addr - org) as usize) < rom.len()
}

/// The word that an indirect jump takes from the image, with the page-wrap bug
/// of the 6502: the high byte comes from the same page as the pointer.
pub open spec fn jump_word(rom: Seq<u8>, org: u16, ptr: u16) -> Option<u16> {
    let hi = cpu::next_in_page(ptr);
    if inside(rom, org, ptr) && inside(rom, org, hi) {
        Some(cpu::word_of(rom[ptr - org], rom[hi - org]))
    } else {
        None
    }
}

/// Read a little-endian word from the image, reproducing the 6502 `JMP (ind)`
/// page-wrap bug: the high byte is fetched from the same page as the pointer.
fn read_word_bug(rom: &[u8], org: u16, ptr: u16) -> (w: Option<u16>)
    ensures
        w == jump_word(rom@, org, ptr),
{
    let hi_ptr: u16 = if ptr % 256 == 255 { ptr - 255 } else { ptr + 1 };
    assert(hi_ptr == cpu::next_in_page(ptr));
    if !in_rom(rom, org, ptr) || !in_rom(rom, org, hi_ptr) {
        return None;
    }
    Some(rom[(ptr - org) as usize] as u16 + 256 * (rom[(hi_ptr - org) as usize] as u16))
}

/// The length of the instruction at an offset.
pub open spec fn len_at(rom: Seq<u8>, off: int) -> int {
    mos6502::mode_len(mos6502::opcode_mode(rom[off])) as int
}

/// Where the instruction at an offset may send control: a branch, a jump or a
/// call, as far as the image shows where it goes.
pub open spec fn target(rom: Seq<u8>, org: u16, off: int) -> Option<u16> {
    let m = mos6502::opcode_mnemonic(rom[off]);
    let mode = mos6502::opcode_mode(rom[off]);
    let w = cpu::word_of(rom[off + 1], rom[off + 2]);
    if mode == AddrMode::Rel {
        Some(disasm::branch_to((org + off) as u16, rom[off + 1]))
    } else if m == Mnemonic::Jmp && mode == AddrMode::Ind {
        jump_word(rom, org, w)
    } else if m == Mnemonic::Jmp || m == Mnemonic::Jsr {
        Some(w)
    } else {
        None
    }
}

/// Does control go on behind the instruction?
pub open spec fn goes_on(rom: Seq<u8>, off: int) -> bool {
    let m = mos6502::opcode_mnemonic(rom[off]);
    m != Mnemonic::Jmp && m != Mnemonic::Rts && m != Mnemonic::Rti && m != Mnemonic::Brk
}

/// Does control flow lead from one offset to another?
pub open spec fn leads(rom: Seq<u8>, org: u16, from: int, to: int) -> bool {
    target(rom, org, from) == Some((org + to) as u16)
        || (goes_on(rom, from) && from + len_at(rom, from) == to)
}

/// Is there an instruction to run at an offset?
pub open spec fn runs(rom: Seq<u8>, off: int) -> bool {
    0 <= off < rom.len() && disasm::decodable(rom, off)
}

/// Is an offset reached from the entry points in at most `k` steps?
pub open spec fn reached(
    rom: Seq<u8>, org: u16, entry: spec_fn(u16) -> bool, off: int, k: nat,
) -> bool
    decreases k,
{
    runs(rom, off) && (entry((org + off) as u16) || (k > 0 && exists|p: int|
        reached(rom, org, entry, p, (k - 1) as nat) && #[trigger] leads(rom, org, p, off)))
}

/// Is an offset the start of an instruction that the entry points reach?
pub open spec fn is_code(rom: Seq<u8>, org: u16, entry: spec_fn(u16) -> bool, off: int) -> bool {
    exists|k: nat| reached(rom, org, entry, off, k)
}

/// Is an address a label: an entry point or where reached code sends control?
pub open spec fn is_label(rom: Seq<u8>, org: u16, entry: spec_fn(u16) -> bool, addr: u16) -> bool {
    entry(addr) || exists|p: int|
        #[trigger] is_code(rom, org, entry, p) && target(rom, org, p) == Some(addr)
}

/// A step on from reached code is reached.
proof fn lemma_step_reached(
    rom: Seq<u8>, org: u16, entry: spec_fn(u16) -> bool, from: int, to: int,
)
    requires
        is_code(rom, org, entry, from),
        leads(rom, org, from, to),
        runs(rom, to),
    ensures
        is_code(rom, org, entry, to),
{
    let k = choose|k: nat| reached(rom, org, entry, from, k);
    assert(reached(rom, org, entry, to, k + 1));
}

proof fn lemma_entry_reached(rom: Seq<u8>, org: u16, entry: spec_fn(u16) -> bool, off: int)
    requires
        runs(rom, off),
        entry((org + off) as u16),
    ensures
        is_code(rom, org, entry, off),
{
    assert(reached(rom, org, entry, off, 0));
}

// ---- the traversal ----

/// How many offsets are not marked yet.
spec fn unmarked(marks: Seq<bool>) -> nat
    decreases marks.len(),
{
    if marks.len() == 0 {
        0
    } else {
        unmarked(marks.drop_last()) + (if marks.last() { 0nat } else { 1 })
    }
}

proof fn lemma_mark_one(marks: Seq<bool>, off: int)
    requires
        0 <= off < marks.len(),
        !marks[off],
    ensures
        unmarked(marks.update(off, true)) + 1 == unmarked(marks),
    decreases marks.len(),
{
    let after = marks.update(off, true);
    if off == marks.len() - 1 {
        assert(after.drop_last() =~= marks.drop_last());
    } else {
        lemma_mark_one(marks.drop_last(), off);
        assert(after.drop_last() =~= marks.drop_last().update(off, true));
    }
}

/// What a trace has found so far.
pub struct Trace {
    /// Which offsets start an instruction that was reached.
    pub starts: Vec<bool>,
    /// Which addresses are labels.
    pub labels: Vec<bool>,
    /// Addresses still to be followed.
    pub work: Vec<u16>,
}

/// What has been found is right: only reached code is marked, only labels are
/// labelled, and what is still to be followed is a label.
spec fn justified(t: Trace, rom: Seq<u8>, org: u16, entry: spec_fn(u16) -> bool) -> bool {
    &&& t.starts@.len() == rom.len()
    &&& t.labels@.len() == 0x1_0000
    &&& forall|p: int| 0 <= p < rom.len() && #[trigger] t.starts@[p] ==> is_code(rom, org, entry, p)
    &&& forall|a: u16| #[trigger] t.labels@[a as int] ==> is_label(rom, org, entry, a)
    &&& forall|i: int| 0 <= i < t.work@.len() ==> t.labels@[(#[trigger] t.work@[i]) as int]
}

/// Nothing was forgotten: every entry point is labelled and marked or still to
/// be followed, and so is whatever marked code leads to, but for the offset
/// `here` that comes next.
spec fn kept(
    t: Trace, rom: Seq<u8>, org: u16, entry: spec_fn(u16) -> bool, here: int,
) -> bool {
    &&& forall|a: u16| #[trigger] entry(a) ==> t.labels@[a as int] && handled(t, rom, org, a, here)
    &&& forall|p: int| 0 <= p < rom.len() && #[trigger] t.starts@[p] ==> settled(t, rom, org, p, here)
}

/// Is an address marked, still to be followed, next in turn, or not code at all?
spec fn handled(t: Trace, rom: Seq<u8>, org: u16, a: u16, here: int) -> bool {
    ||| !inside(rom, org, a)
    ||| !disasm::decodable(rom, a - org)
    ||| t.starts@[a - org]
    ||| t.work@.contains(a)
    ||| a - org == here
}

/// Whatever a marked instruction leads to is handled.
spec fn settled(t: Trace, rom: Seq<u8>, org: u16, p: int, here: int) -> bool {
    &&& runs(rom, p)
    &&& target(rom, org, p) matches Some(a) ==> t.labels@[a as int] && handled(t, rom, org, a, here)
    &&& goes_on(rom, p) && p + len_at(rom, p) < rom.len()
        ==> handled(t, rom, org, (org + p + len_at(rom, p)) as u16, here)
}

/// When nothing is left to follow, just the reached code is marked and just the
/// labels are labelled.
proof fn lemma_complete(t: Trace, rom: Seq<u8>, org: u16, entry: spec_fn(u16) -> bool)
    requires
        org + rom.len() <= 0x1_0000,
        justified(t, rom, org, entry),
        kept(t, rom, org, entry, -1),
        t.work@.len() == 0,
    ensures
        forall|p: int| 0 <= p < rom.len() ==> #[trigger] t.starts@[p] == is_code(rom, org, entry, p),
        forall|a: u16| #[trigger] t.labels@[a as int] == is_label(rom, org, entry, a),
{
    assert forall|p: int| 0 <= p < rom.len() implies
        #[trigger] t.starts@[p] == is_code(rom, org, entry, p) by {
        if is_code(rom, org, entry, p) {
            let k = choose|k: nat| reached(rom, org, entry, p, k);
            lemma_reached_is_marked(t, rom, org, entry, p, k);
        }
    }
    assert forall|a: u16| #[trigger] t.labels@[a as int] == is_label(rom, org, entry, a) by {
        if is_label(rom, org, entry, a) && !entry(a) {
            let p = choose|p: int|
                #[trigger] is_code(rom, org, entry, p) && target(rom, org, p) == Some(a);
            let k = choose|k: nat| reached(rom, org, entry, p, k);
            assert(t.starts@[p]);
            assert(settled(t, rom, org, p, -1));
        }
    }
}

proof fn lemma_reached_is_marked(
    t: Trace, rom: Seq<u8>, org: u16, entry: spec_fn(u16) -> bool, off: int, k: nat,
)
    requires
        org + rom.len() <= 0x1_0000,
        justified(t, rom, org, entry),
        kept(t, rom, org, entry, -1),
        t.work@.len() == 0,
        reached(rom, org, entry, off, k),
    ensures
        t.starts@[off],
    decreases k,
{
    let a = (org + off) as u16;
    if entry(a) {
        assert(handled(t, rom, org, a, -1));
    } else {
        let p = choose|p: int|
            reached(rom, org, entry, p, (k - 1) as nat) && #[trigger] leads(rom, org, p, off);
        lemma_reached_is_marked(t, rom, org, entry, p, (k - 1) as nat);
        assert(settled(t, rom, org, p, -1));
        if target(rom, org, p) == Some(a) {
            assert(handled(t, rom, org, a, -1));
        } else {
            assert(handled(t, rom, org, (org + p + len_at(rom, p)) as u16, -1));
        }
    }
}

/// An offset that is not there, marked or not code needs no turn of its own.
proof fn lemma_turn_is_over(
    t: Trace, rom: Seq<u8>, org: u16, entry: spec_fn(u16) -> bool, here: int,
)
    requires
        justified(t, rom, org, entry),
        kept(t, rom, org, entry, here),
        0 <= here < rom.len() ==> t.starts@[here] || !disasm::decodable(rom, here),
    ensures
        kept(t, rom, org, entry, -1),
{
    assert forall|a: u16| handled(t, rom, org, a, here) implies handled(t, rom, org, a, -1) by {}
    assert forall|p: int| 0 <= p < rom.len() && #[trigger] t.starts@[p] implies
        settled(t, rom, org, p, -1) by {
        assert(settled(t, rom, org, p, here));
    }
}

/// A label inside the image that starts an instruction is reached.
proof fn lemma_label_reached(rom: Seq<u8>, org: u16, entry: spec_fn(u16) -> bool, a: u16)
    requires
        org + rom.len() <= 0x1_0000,
        is_label(rom, org, entry, a),
        inside(rom, org, a),
        runs(rom, a - org),
    ensures
        is_code(rom, org, entry, a - org),
{
    if entry(a) {
        lemma_entry_reached(rom, org, entry, a - org);
    } else {
        let p = choose|p: int|
            #[trigger] is_code(rom, org, entry, p) && target(rom, org, p) == Some(a);
        lemma_step_reached(rom, org, entry, p, a - org);
    }
}

/// Where the instruction at an offset may send control.
fn find_target(rom: &[u8], org: u16, off: usize) -> (t: Option<u16>)
    requires
        org + rom.len() <= 0x1_0000,
        runs(rom@, off as int),
    ensures
        t == target(rom@, org, off as int),
{
    let m = instruction(rom[off]);
    let mode = addr_mode(rom[off]);
    if mode == AddrMode::Rel {
        return Some(disasm::branch_target(org + off as u16, rom[off + 1]));
    }
    if m == Mnemonic::Jmp || m == Mnemonic::Jsr {
        assert(len_at(rom@, off as int) == 3);
        let w: u16 = rom[off + 1] as u16 + 256 * (rom[off + 2] as u16);
        if mode == AddrMode::Ind {
            // Indirect JMP: if the pointer itself is in ROM its value is static,
            // so resolve it (honoring the page-wrap bug) and follow the real
            // target.
            return read_word_bug(rom, org, w);
        }
        return Some(w);
    }
    None
}

impl Trace {
    /// Mark the instruction at an offset and note where it sends control. Tells
    /// whether control goes on behind it.
    fn visit(
        &mut self, rom: &[u8], org: u16, off: usize, Ghost(entry): Ghost<spec_fn(u16) -> bool>,
    ) -> (on: bool)
        requires
            org + rom.len() <= 0x1_0000,
            justified(*old(self), rom@, org, entry),
            kept(*old(self), rom@, org, entry, off as int),
            runs(rom@, off as int),
            !old(self).starts@[off as int],
            is_code(rom@, org, entry, off as int),
        ensures
            on == goes_on(rom@, off as int),
            justified(*final(self), rom@, org, entry),
            kept(*final(self), rom@, org, entry, if on { off + len_at(rom@, off as int) } else { -1 }),
            unmarked(final(self).starts@) + 1 == unmarked(old(self).starts@),
    {
        proof {
            lemma_mark_one(self.starts@, off as int);
        }
        self.starts.set(off, true);
        let t = find_target(rom, org, off);
        if let Some(a) = t {
            self.labels.set(a as usize, true);
            if in_rom(rom, org, a) {
                self.work.push(a);
            }
            assert(is_label(rom@, org, entry, a));
        }
        let m = instruction(rom[off]);
        let on = m != Mnemonic::Jmp && m != Mnemonic::Rts && m != Mnemonic::Rti && m != Mnemonic::Brk;
        proof {
            let next = if on { off + len_at(rom@, off as int) } else { -1 };
            lemma_visited(*old(self), *self, rom@, org, entry, off as int, next);
        }
        on
    }

    /// Follow the straight-line run from an address until a jump, a return, data
    /// or code that was marked before.
    fn follow(
        &mut self, rom: &[u8], org: u16, addr: u16, Ghost(entry): Ghost<spec_fn(u16) -> bool>,
    )
        requires
            org + rom.len() <= 0x1_0000,
            justified(*old(self), rom@, org, entry),
            kept(*old(self), rom@, org, entry, addr - org),
            is_label(rom@, org, entry, addr),
        ensures
            justified(*final(self), rom@, org, entry),
            kept(*final(self), rom@, org, entry, -1),
            unmarked(final(self).starts@) < unmarked(old(self).starts@)
                || final(self).work@.len() == old(self).work@.len()
                    && unmarked(final(self).starts@) == unmarked(old(self).starts@),
    {
        if !in_rom(rom, org, addr) {
            proof {
                lemma_turn_is_over(*self, rom@, org, entry, addr - org);
            }
            return;
        }
        let mut off: usize = (addr - org) as usize;
        let mut on = true;
        proof {
            if runs(rom@, off as int) {
                lemma_label_reached(rom@, org, entry, addr);
            }
        }
        while on && off < rom.len() && !self.starts[off] && Self::can_run(rom, off)
            invariant
                org + rom.len() <= 0x1_0000,
                justified(*self, rom@, org, entry),
                kept(*self, rom@, org, entry, if on { off as int } else { -1 }),
                on && runs(rom@, off as int) ==> is_code(rom@, org, entry, off as int),
                unmarked(self.starts@) < unmarked(old(self).starts@)
                    || self.work@.len() == old(self).work@.len()
                        && unmarked(self.starts@) == unmarked(old(self).starts@),
            decreases unmarked(self.starts@),
        {
            on = self.visit(rom, org, off, Ghost(entry));
            let len = instr_len(addr_mode(rom[off])) as usize;
            proof {
                let next = off + len_at(rom@, off as int);
                if on && runs(rom@, next) {
                    lemma_step_reached(rom@, org, entry, off as int, next);
                }
            }
            off += len;
        }
        proof {
            if on {
                lemma_turn_is_over(*self, rom@, org, entry, off as int);
            }
        }
    }

    fn can_run(rom: &[u8], off: usize) -> (b: bool)
        requires
            off < rom.len(),
        ensures
            b == disasm::decodable(rom@, off as int),
    {
        let mode = addr_mode(rom[off]);
        mode != AddrMode::Ill && rom.len() - off >= instr_len(mode) as usize
    }

    /// Follow everything there is to follow.
    fn traverse(&mut self, rom: &[u8], org: u16, Ghost(entry): Ghost<spec_fn(u16) -> bool>)
        requires
            org + rom.len() <= 0x1_0000,
            justified(*old(self), rom@, org, entry),
            kept(*old(self), rom@, org, entry, -1),
        ensures
            final(self).starts@ == code_map(rom@, org, entry),
            final(self).labels@ == label_map(rom@, org, entry),
    {
        while self.work.len() > 0
            invariant
                org + rom.len() <= 0x1_0000,
                justified(*self, rom@, org, entry),
                kept(*self, rom@, org, entry, -1),
            decreases unmarked(self.starts@), self.work@.len(),
        {
            let ghost before = *self;
            let last = self.work.len() - 1;
            let addr = self.work[last];
            self.work.pop();
            proof {
                assert(self.labels@[addr as int]);
                lemma_popped(before, *self, rom@, org, entry, addr);
            }
            self.follow(rom, org, addr, Ghost(entry));
        }
        proof {
            lemma_complete(*self, rom@, org, entry);
            assert(self.starts@ =~= code_map(rom@, org, entry));
            assert(self.labels@ =~= label_map(rom@, org, entry)) by {
                assert forall|a: int| 0 <= a < 0x1_0000 implies
                    self.labels@[a] == is_label(rom@, org, entry, a as u16) by {
                    assert(self.labels@[(a as u16) as int] == is_label(rom@, org, entry, a as u16));
                }
            }
        }
    }
}

/// Which offsets of an image start an instruction that is reached.
pub open spec fn code_map(rom: Seq<u8>, org: u16, entry: spec_fn(u16) -> bool) -> Seq<bool> {
    Seq::new(rom.len(), |p: int| is_code(rom, org, entry, p))
}

/// Which addresses are labels.
pub open spec fn label_map(rom: Seq<u8>, org: u16, entry: spec_fn(u16) -> bool) -> Seq<bool> {
    Seq::new(0x1_0000, |a: int| is_label(rom, org, entry, a as u16))
}

/// An address taken off the list is next in turn.
proof fn lemma_popped(
    s: Trace, t: Trace, rom: Seq<u8>, org: u16, entry: spec_fn(u16) -> bool, addr: u16,
)
    requires
        justified(s, rom, org, entry),
        kept(s, rom, org, entry, -1),
        s.work@.len() > 0,
        addr == s.work@.last(),
        t.starts@ == s.starts@,
        t.labels@ == s.labels@,
        t.work@ == s.work@.drop_last(),
    ensures
        justified(t, rom, org, entry),
        kept(t, rom, org, entry, addr - org),
{
    assert forall|a: u16| s.work@.contains(a) && a != addr implies #[trigger] t.work@.contains(a) by {
        let i = choose|i: int| 0 <= i < s.work@.len() && s.work@[i] == a;
        assert(t.work@[i] == a);
    }
    let here = addr - org;
    assert forall|a: u16| #[trigger] handled(s, rom, org, a, -1) implies
        handled(t, rom, org, a, here) by {}
    assert forall|p: int| 0 <= p < rom.len() && #[trigger] t.starts@[p] implies
        settled(t, rom, org, p, addr - org) by {
        assert(settled(s, rom, org, p, -1));
    }
    assert forall|i: int| 0 <= i < t.work@.len() implies
        t.labels@[(#[trigger] t.work@[i]) as int] by {
        assert(t.work@[i] == s.work@[i]);
    }
}

/// After an instruction was marked and its target noted, nothing is forgotten.
proof fn lemma_visited(
    s: Trace, t: Trace, rom: Seq<u8>, org: u16, entry: spec_fn(u16) -> bool, off: int, next: int,
)
    requires
        org + rom.len() <= 0x1_0000,
        justified(s, rom, org, entry),
        kept(s, rom, org, entry, off),
        runs(rom, off),
        t.starts@ == s.starts@.update(off, true),
        goes_on(rom, off) ==> next == off + len_at(rom, off),
        match target(rom, org, off) {
            Some(a) => {
                &&& t.labels@ == s.labels@.update(a as int, true)
                &&& t.work@ == (if inside(rom, org, a) { s.work@.push(a) } else { s.work@ })
            },
            None => t.labels@ == s.labels@ && t.work@ == s.work@,
        },
    ensures
        kept(t, rom, org, entry, next),
{
    assert forall|a: u16| s.work@.contains(a) implies #[trigger] t.work@.contains(a) by {
        let i = choose|i: int| 0 <= i < s.work@.len() && s.work@[i] == a;
        assert(t.work@[i] == a);
    }
    assert forall|a: u16| handled(s, rom, org, a, off) implies handled(t, rom, org, a, next) by {}
    if let Some(a) = target(rom, org, off) {
        if inside(rom, org, a) {
            assert(t.work@.last() == a);
        }
        assert(handled(t, rom, org, a, next));
    }
    assert forall|p: int| 0 <= p < rom.len() && #[trigger] t.starts@[p] implies
        settled(t, rom, org, p, next) by {
        if p != off {
            assert(settled(s, rom, org, p, off));
        }
    }
}

// ---- entry points ----

/// Slot `k` of a table.
pub open spec fn slot(addr: u16, k: int, stride: u16) -> u16 {
    ((addr + (k * stride) % 0x1_0000) % 0x1_0000) as u16
}

/// Is an address what one of the three hardware vectors points at?
pub open spec fn from_vectors(rom: Seq<u8>, org: u16, a: u16) -> bool {
    ||| disasm::image_word(rom, org, 0xFFFA) == Some(a)
    ||| disasm::image_word(rom, org, 0xFFFC) == Some(a)
    ||| disasm::image_word(rom, org, 0xFFFE) == Some(a)
}

/// Is an address in the first `n` slots of a pointer table?
pub open spec fn in_table(rom: Seq<u8>, org: u16, table: (u16, u16), n: int, a: u16) -> bool {
    exists|k: int| 0 <= k < n && disasm::image_word(rom, org, #[trigger] slot(table.0, k, 2)) == Some(a)
}

/// Is an address one of the first `n` slots of a code table, and in the image?
pub open spec fn in_code_table(
    rom: Seq<u8>, org: u16, table: (u16, u16, u16), n: int, a: u16,
) -> bool {
    inside(rom, org, a) && exists|k: int| 0 <= k < n && #[trigger] slot(table.0, k, table.2) == a
}

/// The entry points asked for.
pub struct Entries {
    /// Single addresses.
    pub extra: Seq<u16>,
    /// Pointer tables: address and count of the words, each of them an entry.
    pub tables: Seq<(u16, u16)>,
    /// Code tables: address, count and stride of the slots, each of them an
    /// entry.
    pub code_tables: Seq<(u16, u16, u16)>,
}

/// Is an address an entry point?
pub open spec fn is_entry(rom: Seq<u8>, org: u16, e: Entries, a: u16) -> bool {
    ||| from_vectors(rom, org, a)
    ||| exists|i: int| 0 <= i < e.extra.len() && #[trigger] e.extra[i] == a
    ||| exists|i: int| 0 <= i < e.tables.len()
            && in_table(rom, org, #[trigger] e.tables[i], e.tables[i].1 as int, a)
    ||| exists|i: int| 0 <= i < e.code_tables.len()
            && in_code_table(rom, org, #[trigger] e.code_tables[i], e.code_tables[i].1 as int, a)
}

/// The entry points as a predicate.
pub open spec fn entry_of(rom: Seq<u8>, org: u16, e: Entries) -> spec_fn(u16) -> bool {
    |a: u16| is_entry(rom, org, e, a)
}

/// While entry points are collected, just these are labelled and to be followed.
spec fn collecting(t: Trace, rom: Seq<u8>, org: u16, e: Entries) -> bool {
    &&& t.starts@ == Seq::new(rom.len(), |p: int| false)
    &&& t.labels@.len() == 0x1_0000
    &&& forall|i: int| 0 <= i < t.work@.len() ==> is_entry(rom, org, e, #[trigger] t.work@[i])
    &&& forall|a: u16| #[trigger] t.labels@[a as int] == t.work@.contains(a)
}

/// What was collected stays collected.
spec fn grown(s: Trace, t: Trace) -> bool {
    forall|a: u16| s.work@.contains(a) ==> #[trigger] t.work@.contains(a)
}

impl Trace {
    /// Note an entry point.
    fn seed(&mut self, addr: u16, rom: &[u8], org: u16, Ghost(e): Ghost<Entries>)
        requires
            collecting(*old(self), rom@, org, e),
            is_entry(rom@, org, e, addr),
        ensures
            collecting(*final(self), rom@, org, e),
            grown(*old(self), *final(self)),
            final(self).work@.contains(addr),
    {
        self.labels.set(addr as usize, true);
        self.work.push(addr);
        proof {
            let s = *old(self);
            assert forall|a: u16| s.work@.contains(a) implies #[trigger] self.work@.contains(a) by {
                let i = choose|i: int| 0 <= i < s.work@.len() && s.work@[i] == a;
                assert(self.work@[i] == a);
            }
            assert(self.work@[s.work@.len() as int] == addr);
            assert forall|a: u16| #[trigger] self.labels@[a as int] == self.work@.contains(a) by {
                assert(s.labels@[a as int] == s.work@.contains(a));
                if self.work@.contains(a) && a != addr {
                    let i = choose|i: int| 0 <= i < self.work@.len() && self.work@[i] == a;
                    assert(s.work@[i] == a);
                }
            }
        }
    }
}

/// A hardware vector among the entry points.
pub open spec fn vector_entry(rom: Seq<u8>, org: u16, name: Seq<char>, v: u16) -> Seq<char> {
    match disasm::image_word(rom, org, v) {
        Some(t) => " "@ + name + "="@ + disasm::word_text(t),
        None => Seq::empty(),
    }
}

/// The first `n` single addresses.
pub open spec fn extra_text(extra: Seq<u16>, n: int) -> Seq<char>
    decreases n,
{
    if n <= 0 {
        Seq::empty()
    } else {
        extra_text(extra, n - 1) + (" USER="@ + disasm::word_text(extra[n - 1]))
    }
}

/// The first `n` pointer tables.
pub open spec fn tables_text(tables: Seq<(u16, u16)>, n: int) -> Seq<char>
    decreases n,
{
    if n <= 0 {
        Seq::empty()
    } else {
        let (addr, count) = tables[n - 1];
        tables_text(tables, n - 1)
            + (" TABLE="@ + disasm::word_text(addr) + "x"@ + text::decimal(count as nat))
    }
}

/// The first `n` code tables.
pub open spec fn code_tables_text(tables: Seq<(u16, u16, u16)>, n: int) -> Seq<char>
    decreases n,
{
    if n <= 0 {
        Seq::empty()
    } else {
        let (addr, count, stride) = tables[n - 1];
        code_tables_text(tables, n - 1)
            + (" CODETBL="@ + disasm::word_text(addr) + "x"@ + text::decimal(count as nat) + "/"@
                + text::decimal(stride as nat))
    }
}

/// The line that names the entry points.
pub open spec fn entries_text(rom: Seq<u8>, org: u16, e: Entries) -> Seq<char> {
    "; entry points:"@ + vector_entry(rom, org, "NMI"@, 0xFFFA)
        + vector_entry(rom, org, "RESET"@, 0xFFFC) + vector_entry(rom, org, "IRQ"@, 0xFFFE)
        + extra_text(e.extra, e.extra.len() as int)
        + tables_text(e.tables, e.tables.len() as int)
        + code_tables_text(e.code_tables, e.code_tables.len() as int)
}

impl Trace {
    /// Note what a hardware vector points at.
    fn seed_vector(
        &mut self, line: &mut String, name: &str, v: u16, rom: &[u8], org: u16,
        Ghost(e): Ghost<Entries>,
    )
        requires
            v == 0xFFFA || v == 0xFFFC || v == 0xFFFE,
            collecting(*old(self), rom@, org, e),
        ensures
            collecting(*final(self), rom@, org, e),
            grown(*old(self), *final(self)),
            disasm::image_word(rom@, org, v) matches Some(a) ==> final(self).work@.contains(a),
            final(line)@ == old(line)@ + vector_entry(rom@, org, name@, v),
    {
        if let Some(target) = disasm::read_word(rom, org, v) {
            text::push_text(line, " ");
            text::push_text(line, name);
            text::push_text(line, "=");
            disasm::push_word(line, target);
            self.seed(target, rom, org, Ghost(e));
        }
        assert(line@ =~= old(line)@ + vector_entry(rom@, org, name@, v));
    }

    /// Note the single addresses.
    fn seed_extra(
        &mut self, line: &mut String, extra: &[u16], rom: &[u8], org: u16, Ghost(e): Ghost<Entries>,
    )
        requires
            e.extra == extra@,
            collecting(*old(self), rom@, org, e),
        ensures
            collecting(*final(self), rom@, org, e),
            grown(*old(self), *final(self)),
            forall|i: int| 0 <= i < extra.len() ==> final(self).work@.contains(#[trigger] extra@[i]),
            final(line)@ == old(line)@ + extra_text(extra@, extra.len() as int),
    {
        let mut n: usize = 0;
        assert(line@ =~= old(line)@ + extra_text(extra@, 0));
        while n < extra.len()
            invariant
                n <= extra.len(),
                e.extra == extra@,
                collecting(*self, rom@, org, e),
                grown(*old(self), *self),
                forall|i: int| 0 <= i < n ==> self.work@.contains(#[trigger] extra@[i]),
                line@ == old(line)@ + extra_text(extra@, n as int),
            decreases extra.len() - n,
        {
            text::push_text(line, " USER=");
            disasm::push_word(line, extra[n]);
            assert(line@ =~= old(line)@ + extra_text(extra@, n + 1));
            assert(e.extra[n as int] == extra@[n as int]);
            self.seed(extra[n], rom, org, Ghost(e));
            n += 1;
        }
    }

    /// Note the words of a pointer table: COUNT little-endian words starting at
    /// ADDR, each word treated as a code address.
    fn seed_table(
        &mut self, table: (u16, u16), at: usize, rom: &[u8], org: u16, Ghost(e): Ghost<Entries>,
    )
        requires
            at < e.tables.len(),
            e.tables[at as int] == table,
            collecting(*old(self), rom@, org, e),
        ensures
            collecting(*final(self), rom@, org, e),
            grown(*old(self), *final(self)),
            forall|a: u16| in_table(rom@, org, table, table.1 as int, a)
                ==> #[trigger] final(self).work@.contains(a),
    {
        let mut k: u16 = 0;
        while k < table.1
            invariant
                k <= table.1,
                at < e.tables.len(),
                e.tables[at as int] == table,
                collecting(*self, rom@, org, e),
                grown(*old(self), *self),
                forall|a: u16| in_table(rom@, org, table, k as int, a)
                    ==> #[trigger] self.work@.contains(a),
            decreases table.1 - k,
        {
            let step = k.wrapping_mul(2);
            let entry = table.0.wrapping_add(step);
            proof {
                lemma_wrapping_mul(k, 2);
            }
            assert(entry == slot(table.0, k as int, 2));
            let ghost before = *self;
            if let Some(target) = disasm::read_word(rom, org, entry) {
                assert(in_table(rom@, org, e.tables[at as int], table.1 as int, target));
                self.seed(target, rom, org, Ghost(e));
            }
            assert forall|a: u16| in_table(rom@, org, table, k + 1, a) implies
                #[trigger] self.work@.contains(a) by {
                let j = choose|j: int| 0 <= j < k + 1
                    && disasm::image_word(rom@, org, #[trigger] slot(table.0, j, 2)) == Some(a);
                if j < k {
                    assert(in_table(rom@, org, table, k as int, a));
                    assert(before.work@.contains(a));
                }
            }
            k += 1;
        }
    }

    /// Note the slots of a code table (e.g. the KERNAL jump table): COUNT slots
    /// at ADDR spaced STRIDE bytes apart, each slot's *address* an entry, so the
    /// `JMP`/`JMP (ind)` living there gets decoded and followed.
    fn seed_code_table(
        &mut self, table: (u16, u16, u16), at: usize, rom: &[u8], org: u16,
        Ghost(e): Ghost<Entries>,
    )
        requires
            at < e.code_tables.len(),
            e.code_tables[at as int] == table,
            collecting(*old(self), rom@, org, e),
        ensures
            collecting(*final(self), rom@, org, e),
            grown(*old(self), *final(self)),
            forall|a: u16| in_code_table(rom@, org, table, table.1 as int, a)
                ==> #[trigger] final(self).work@.contains(a),
    {
        let mut k: u16 = 0;
        while k < table.1
            invariant
                k <= table.1,
                at < e.code_tables.len(),
                e.code_tables[at as int] == table,
                collecting(*self, rom@, org, e),
                grown(*old(self), *self),
                forall|a: u16| in_code_table(rom@, org, table, k as int, a)
                    ==> #[trigger] self.work@.contains(a),
            decreases table.1 - k,
        {
            let step = k.wrapping_mul(table.2);
            let entry = table.0.wrapping_add(step);
            proof {
                lemma_wrapping_mul(k, table.2);
            }
            assert(entry == slot(table.0, k as int, table.2));
            let ghost before = *self;
            if in_rom(rom, org, entry) {
                assert(in_code_table(rom@, org, e.code_tables[at as int], table.1 as int, entry));
                self.seed(entry, rom, org, Ghost(e));
            }
            assert forall|a: u16| in_code_table(rom@, org, table, k + 1, a) implies
                #[trigger] self.work@.contains(a) by {
                let j = choose|j: int| 0 <= j < k + 1 && #[trigger] slot(table.0, j, table.2) == a;
                if j < k {
                    assert(in_code_table(rom@, org, table, k as int, a));
                    assert(before.work@.contains(a));
                }
            }
            k += 1;
        }
    }
}

proof fn lemma_wrapping_mul(a: u16, b: u16)
    ensures
        a.wrapping_mul(b) == (a * b) % 0x1_0000,
{
    assert(0 <= a * b) by (nonlinear_arith)
        requires
            0 <= a,
            0 <= b,
    ;
}

impl Trace {
    /// Note the pointer tables.
    fn seed_tables(
        &mut self, line: &mut String, tables: &[(u16, u16)], rom: &[u8], org: u16,
        Ghost(e): Ghost<Entries>,
    )
        requires
            e.tables == tables@,
            collecting(*old(self), rom@, org, e),
        ensures
            collecting(*final(self), rom@, org, e),
            grown(*old(self), *final(self)),
            forall|i: int, a: u16| 0 <= i < tables.len()
                && #[trigger] in_table(rom@, org, tables@[i], tables@[i].1 as int, a)
                ==> final(self).work@.contains(a),
            final(line)@ == old(line)@ + tables_text(tables@, tables.len() as int),
    {
        let mut n: usize = 0;
        assert(line@ =~= old(line)@ + tables_text(tables@, 0));
        while n < tables.len()
            invariant
                n <= tables.len(),
                e.tables == tables@,
                collecting(*self, rom@, org, e),
                grown(*old(self), *self),
                forall|i: int, a: u16| 0 <= i < n
                    && #[trigger] in_table(rom@, org, tables@[i], tables@[i].1 as int, a)
                    ==> self.work@.contains(a),
                line@ == old(line)@ + tables_text(tables@, n as int),
            decreases tables.len() - n,
        {
            let (addr, count) = tables[n];
            text::push_text(line, " TABLE=");
            disasm::push_word(line, addr);
            text::push_text(line, "x");
            text::push_decimal(line, count as u64);
            assert(line@ =~= old(line)@ + tables_text(tables@, n + 1));
            self.seed_table((addr, count), n, rom, org, Ghost(e));
            n += 1;
        }
    }

    /// Note the code tables.
    fn seed_code_tables(
        &mut self, line: &mut String, tables: &[(u16, u16, u16)], rom: &[u8], org: u16,
        Ghost(e): Ghost<Entries>,
    )
        requires
            e.code_tables == tables@,
            collecting(*old(self), rom@, org, e),
        ensures
            collecting(*final(self), rom@, org, e),
            grown(*old(self), *final(self)),
            forall|i: int, a: u16| 0 <= i < tables.len()
                && #[trigger] in_code_table(rom@, org, tables@[i], tables@[i].1 as int, a)
                ==> final(self).work@.contains(a),
            final(line)@ == old(line)@ + code_tables_text(tables@, tables.len() as int),
    {
        let mut n: usize = 0;
        assert(line@ =~= old(line)@ + code_tables_text(tables@, 0));
        while n < tables.len()
            invariant
                n <= tables.len(),
                e.code_tables == tables@,
                collecting(*self, rom@, org, e),
                grown(*old(self), *self),
                forall|i: int, a: u16| 0 <= i < n
                    && #[trigger] in_code_table(rom@, org, tables@[i], tables@[i].1 as int, a)
                    ==> self.work@.contains(a),
                line@ == old(line)@ + code_tables_text(tables@, n as int),
            decreases tables.len() - n,
        {
            let (addr, count, stride) = tables[n];
            text::push_text(line, " CODETBL=");
            disasm::push_word(line, addr);
            text::push_text(line, "x");
            text::push_decimal(line, count as u64);
            text::push_text(line, "/");
            text::push_decimal(line, stride as u64);
            assert(line@ =~= old(line)@ + code_tables_text(tables@, n + 1));
            self.seed_code_table((addr, count, stride), n, rom, org, Ghost(e));
            n += 1;
        }
    }

    /// Collect the entry points. Gives the trace and the line that names them.
    fn collect(
        rom: &[u8], org: u16, extra: &[u16], tables: &[(u16, u16)], code_tables: &[(u16, u16, u16)],
    ) -> (r: (Trace, String))
        requires
            org + rom.len() <= 0x1_0000,
        ensures
            ({
                let e = Entries { extra: extra@, tables: tables@, code_tables: code_tables@ };
                &&& justified(r.0, rom@, org, entry_of(rom@, org, e))
                &&& kept(r.0, rom@, org, entry_of(rom@, org, e), -1)
                &&& r.1@ == entries_text(rom@, org, e)
            }),
    {
        let ghost e = Entries { extra: extra@, tables: tables@, code_tables: code_tables@ };
        let mut t = Trace {
            starts: vec![false; rom.len()],
            labels: vec![false; 0x1_0000],
            work: Vec::new(),
        };
        assert(t.starts@ =~= Seq::new(rom@.len(), |p: int| false));
        let mut line = String::new();
        text::push_text(&mut line, "; entry points:");
        t.seed_vector(&mut line, "NMI", 0xFFFA, rom, org, Ghost(e));
        t.seed_vector(&mut line, "RESET", 0xFFFC, rom, org, Ghost(e));
        t.seed_vector(&mut line, "IRQ", 0xFFFE, rom, org, Ghost(e));
        let ghost vectors = t;
        assert forall|a: u16| from_vectors(rom@, org, a) implies #[trigger] t.work@.contains(a) by {}
        t.seed_extra(&mut line, extra, rom, org, Ghost(e));
        let ghost extras = t;
        t.seed_tables(&mut line, tables, rom, org, Ghost(e));
        let ghost pointers = t;
        t.seed_code_tables(&mut line, code_tables, rom, org, Ghost(e));
        assert(line@ =~= entries_text(rom@, org, e));
        proof {
            assert forall|a: u16| is_entry(rom@, org, e, a) implies #[trigger] t.work@.contains(a) by {
                if from_vectors(rom@, org, a) {
                    assert(vectors.work@.contains(a) && extras.work@.contains(a)
                        && pointers.work@.contains(a));
                } else if exists|i: int| 0 <= i < e.extra.len() && #[trigger] e.extra[i] == a {
                    let i = choose|i: int| 0 <= i < e.extra.len() && #[trigger] e.extra[i] == a;
                    assert(extras.work@.contains(extra@[i]) && pointers.work@.contains(a));
                } else if exists|i: int| 0 <= i < e.tables.len()
                    && in_table(rom@, org, #[trigger] e.tables[i], e.tables[i].1 as int, a) {
                    let i = choose|i: int| 0 <= i < e.tables.len()
                        && in_table(rom@, org, #[trigger] e.tables[i], e.tables[i].1 as int, a);
                    assert(in_table(rom@, org, tables@[i], tables@[i].1 as int, a));
                    assert(pointers.work@.contains(a));
                } else {
                    let i = choose|i: int| 0 <= i < e.code_tables.len() && in_code_table(
                        rom@, org, #[trigger] e.code_tables[i], e.code_tables[i].1 as int, a);
                    assert(in_code_table(rom@, org, code_tables@[i], code_tables@[i].1 as int, a));
                }
            }
            lemma_collected(t, rom@, org, e);
        }
        (t, line)
    }
}

proof fn lemma_collected(t: Trace, rom: Seq<u8>, org: u16, e: Entries)
    requires
        collecting(t, rom, org, e),
        forall|a: u16| is_entry(rom, org, e, a) ==> #[trigger] t.work@.contains(a),
    ensures
        justified(t, rom, org, entry_of(rom, org, e)),
        kept(t, rom, org, entry_of(rom, org, e), -1),
{
    let entry = entry_of(rom, org, e);
    assert forall|a: u16| #[trigger] t.labels@[a as int] implies is_label(rom, org, entry, a) by {
        assert(t.work@.contains(a));
        let i = choose|i: int| 0 <= i < t.work@.len() && t.work@[i] == a;
        assert(is_entry(rom, org, e, t.work@[i]));
        assert(entry(a));
    }
    assert forall|i: int| 0 <= i < t.work@.len() implies
        t.labels@[(#[trigger] t.work@[i]) as int] by {
        assert(t.work@.contains(t.work@[i]));
    }
    assert forall|a: u16| #[trigger] entry(a) implies
        t.labels@[a as int] && handled(t, rom, org, a, -1) by {
        assert(t.work@.contains(a));
    }
}

// ---- the listing ----

/// What a trace found, as a listing needs it.
pub struct Found {
    /// Which offsets start an instruction.
    pub starts: Seq<bool>,
    /// Which addresses are labels.
    pub labels: Seq<bool>,
}

/// The lines in front of what stands at an address: a blank one and the label.
pub open spec fn label_lines(f: Found, addr: u16) -> Seq<Seq<char>> {
    if f.labels[addr as int] {
        seq![Seq::empty(), "L"@ + text::hex(addr as nat, 4) + ":"@]
    } else {
        Seq::empty()
    }
}

/// A target of control flow: by its label, if it has one.
pub open spec fn target_text(f: Found, t: u16) -> Seq<char> {
    if f.labels[t as int] { "L"@ + text::hex(t as nat, 4) } else { disasm::word_text(t) }
}

/// The operand of an instruction, with labels for branches, jumps and calls.
pub open spec fn labeled_operand(rom: Seq<u8>, org: u16, f: Found, off: int) -> Seq<char> {
    let addr = (org + off) as u16;
    let m = mos6502::opcode_mnemonic(rom[off]);
    let mode = mos6502::opcode_mode(rom[off]);
    let bytes = disasm::instr_bytes(rom, off);
    if mode == AddrMode::Rel {
        target_text(f, disasm::branch_to(addr, bytes[1]))
    } else if mode == AddrMode::Abs && (m == Mnemonic::Jmp || m == Mnemonic::Jsr) {
        target_text(f, cpu::word_of(bytes[1], bytes[2]))
    } else {
        disasm::operand_text(
            mode, addr, disasm::byte_or_zero(bytes, 1), disasm::byte_or_zero(bytes, 2))
    }
}

/// The line of an instruction.
pub open spec fn code_line(rom: Seq<u8>, org: u16, f: Found, off: int) -> Seq<char> {
    disasm::line_front((org + off) as u16, disasm::instr_bytes(rom, off))
        + disasm::instr_text(rom[off], labeled_operand(rom, org, f, off))
}

/// Where a run of data from `from` ends: at code, at a label, or after eight
/// bytes.
pub open spec fn run_end(rom: Seq<u8>, org: u16, f: Found, from: int, i: int) -> int
    decreases rom.len() - i,
{
    if i < rom.len() && !f.starts[i] && !f.labels[org + i] && i - from < 8 {
        run_end(rom, org, f, from, i + 1)
    } else {
        i
    }
}

/// Bytes as a list of `$xx`.
pub open spec fn data_list(bytes: Seq<u8>) -> Seq<char>
    decreases bytes.len(),
{
    if bytes.len() == 0 {
        Seq::empty()
    } else if bytes.len() == 1 {
        disasm::byte_text(bytes[0])
    } else {
        data_list(bytes.drop_last()) + ","@ + disasm::byte_text(bytes.last())
    }
}

/// Bytes as characters, a dot for what cannot be printed.
pub open spec fn printable(bytes: Seq<u8>) -> Seq<char> {
    bytes.map_values(|b: u8| if 0x20 <= b < 0x7F { b as char } else { '.' })
}

/// The line of a run of data.
pub open spec fn data_line(rom: Seq<u8>, org: u16, from: int, to: int) -> Seq<char> {
    let chunk = rom.subrange(from, to);
    disasm::line_front((org + from) as u16, chunk) + ".byte "@ + text::padded(data_list(chunk), 28)
        + " ; "@ + printable(chunk)
}

/// The end of the item at an offset: of the instruction or of the run of data.
pub open spec fn item_end(rom: Seq<u8>, org: u16, f: Found, off: int) -> int {
    if f.starts[off] { off + len_at(rom, off) } else { run_end(rom, org, f, off, off + 1) }
}

/// The lines of the item at an offset.
pub open spec fn item_lines(rom: Seq<u8>, org: u16, f: Found, off: int) -> Seq<Seq<char>> {
    label_lines(f, (org + off) as u16).push(
        if f.starts[off] {
            code_line(rom, org, f, off)
        } else {
            data_line(rom, org, off, item_end(rom, org, f, off))
        },
    )
}

/// A run ends where it starts or later, and within the image.
proof fn lemma_run_end(rom: Seq<u8>, org: u16, f: Found, from: int, i: int)
    requires
        i <= rom.len(),
    ensures
        i <= run_end(rom, org, f, from, i) <= rom.len(),
    decreases rom.len() - i,
{
    if i < rom.len() && !f.starts[i] && !f.labels[org + i] && i - from < 8 {
        lemma_run_end(rom, org, f, from, i + 1);
    }
}

/// Is there another item at an offset?
pub open spec fn has_item(rom: Seq<u8>, org: u16, f: Found, off: int) -> bool {
    0 <= off < item_end(rom, org, f, off) <= rom.len()
}

/// The lines of a listing from an offset on.
pub open spec fn listing(rom: Seq<u8>, org: u16, f: Found, off: int) -> Seq<Seq<char>>
    decreases rom.len() - off,
{
    if has_item(rom, org, f, off) {
        item_lines(rom, org, f, off) + listing(rom, org, f, item_end(rom, org, f, off))
    } else {
        Seq::empty()
    }
}

/// How many instructions a listing has from an offset on.
pub open spec fn listed_instructions(rom: Seq<u8>, org: u16, f: Found, off: int) -> nat
    decreases rom.len() - off,
{
    if has_item(rom, org, f, off) {
        (if f.starts[off] { 1nat } else { 0 })
            + listed_instructions(rom, org, f, item_end(rom, org, f, off))
    } else {
        0
    }
}

/// How many bytes of code a listing has from an offset on.
pub open spec fn listed_code(rom: Seq<u8>, org: u16, f: Found, off: int) -> nat
    decreases rom.len() - off,
{
    if has_item(rom, org, f, off) {
        (if f.starts[off] { len_at(rom, off) as nat } else { 0 })
            + listed_code(rom, org, f, item_end(rom, org, f, off))
    } else {
        0
    }
}

/// How many of the first `n` addresses of an image are labels.
pub open spec fn labels_inside(f: Found, org: u16, n: int) -> nat
    decreases n,
{
    if n <= 0 {
        0
    } else {
        labels_inside(f, org, n - 1) + (if f.labels[org + n - 1] { 1nat } else { 0 })
    }
}

/// The listing of an image, and its summary.
pub struct Report {
    pub lines: Vec<String>,
    pub instructions: usize,
    pub code_bytes: usize,
    pub data_bytes: usize,
    /// Labels that lie in the image.
    pub labels: usize,
}

/// The lines above the listing.
pub open spec fn heading(rom: Seq<u8>, org: u16, e: Entries) -> Seq<Seq<char>> {
    seq![
        "; tracing disassembly from reset/IRQ/NMI vectors"@,
        Seq::empty(),
        entries_text(rom, org, e),
        Seq::empty(),
        "        * = "@ + disasm::word_text(org),
        Seq::empty(),
    ]
}

/// What a trace of an image finds.
pub open spec fn found(rom: Seq<u8>, org: u16, e: Entries) -> Found {
    Found {
        starts: code_map(rom, org, entry_of(rom, org, e)),
        labels: label_map(rom, org, entry_of(rom, org, e)),
    }
}

/// A target of control flow, by its label if it has one.
fn push_target(out: &mut String, labels: &[bool], t: u16, Ghost(f): Ghost<Found>)
    requires
        f.labels == labels@,
        labels.len() == 0x1_0000,
    ensures
        final(out)@ == old(out)@ + target_text(f, t),
{
    if labels[t as usize] {
        text::push_text(out, "L");
        text::push_hex(out, t as u64, 4);
    } else {
        disasm::push_word(out, t);
    }
    assert(out@ =~= old(out)@ + target_text(f, t));
}

/// Like [`disasm::format_operand`], but substitutes an `Lxxxx` label for
/// control-flow targets (branches, `JMP`/`JSR` absolute) that we labeled.
fn format_operand_labeled(
    rom: &[u8], org: u16, labels: &[bool], off: usize, Ghost(f): Ghost<Found>,
) -> (s: String)
    requires
        org + rom.len() <= 0x1_0000,
        f.labels == labels@,
        labels.len() == 0x1_0000,
        runs(rom@, off as int),
    ensures
        s@ == labeled_operand(rom@, org, f, off as int),
{
    let addr = org + off as u16;
    let m = instruction(rom[off]);
    let mode = addr_mode(rom[off]);
    let len = instr_len(mode) as usize;
    let bytes = vstd::slice::slice_subrange(rom, off, off + len);
    let mut s = String::new();
    if mode == AddrMode::Rel {
        push_target(&mut s, labels, disasm::branch_target(addr, bytes[1]), Ghost(f));
        assert(s@ =~= labeled_operand(rom@, org, f, off as int));
        s
    } else if mode == AddrMode::Abs && (m == Mnemonic::Jmp || m == Mnemonic::Jsr) {
        let t: u16 = bytes[1] as u16 + 256 * (bytes[2] as u16);
        push_target(&mut s, labels, t, Ghost(f));
        assert(s@ =~= labeled_operand(rom@, org, f, off as int));
        s
    } else {
        disasm::format_operand(mode, addr, bytes)
    }
}

/// The label in front of an address, if it has one.
fn push_label(lines: &mut Vec<String>, labels: &[bool], addr: u16, Ghost(f): Ghost<Found>)
    requires
        f.labels == labels@,
        labels.len() == 0x1_0000,
    ensures
        text::texts(final(lines)@) == text::texts(old(lines)@) + label_lines(f, addr),
{
    if labels[addr as usize] {
        text::push_line(lines, String::new());
        let mut label = String::new();
        text::push_text(&mut label, "L");
        text::push_hex(&mut label, addr as u64, 4);
        text::push_text(&mut label, ":");
        assert(label@ =~= "L"@ + text::hex(addr as nat, 4) + ":"@);
        text::push_line(lines, label);
    }
    assert(text::texts(lines@) =~= text::texts(old(lines)@) + label_lines(f, addr));
}

fn code_text(rom: &[u8], org: u16, labels: &[bool], off: usize, Ghost(f): Ghost<Found>) -> (s: String)
    requires
        org + rom.len() <= 0x1_0000,
        f.labels == labels@,
        labels.len() == 0x1_0000,
        runs(rom@, off as int),
    ensures
        s@ == code_line(rom@, org, f, off as int),
{
    let len = instr_len(addr_mode(rom[off])) as usize;
    let mut s = String::new();
    disasm::push_front(&mut s, org + off as u16, vstd::slice::slice_subrange(rom, off, off + len));
    let operand = format_operand_labeled(rom, org, labels, off, Ghost(f));
    disasm::push_instr(&mut s, rom[off], operand.as_str());
    assert(s@ =~= code_line(rom@, org, f, off as int));
    s
}

fn list_bytes(bytes: &[u8]) -> (s: String)
    ensures
        s@ == data_list(bytes@),
{
    let mut s = String::new();
    let mut k: usize = 0;
    while k < bytes.len()
        invariant
            k <= bytes.len(),
            s@ == data_list(bytes@.take(k as int)),
        decreases bytes.len() - k,
    {
        assert(bytes@.take(k + 1).drop_last() =~= bytes@.take(k as int));
        if k > 0 {
            text::push_text(&mut s, ",");
        }
        disasm::push_byte(&mut s, bytes[k]);
        assert(s@ =~= data_list(bytes@.take(k + 1)));
        k += 1;
    }
    assert(bytes@.take(k as int) =~= bytes@);
    s
}

/// Append bytes as characters, a dot for what cannot be printed.
pub fn push_printable(out: &mut String, bytes: &[u8])
    ensures
        final(out)@ == old(out)@ + printable(bytes@),
{
    let mut k: usize = 0;
    while k < bytes.len()
        invariant
            k <= bytes.len(),
            out@ == old(out)@ + printable(bytes@).take(k as int),
        decreases bytes.len() - k,
    {
        let b = bytes[k];
        out.push(if 0x20 <= b && b < 0x7F { b as char } else { '.' });
        assert(out@ =~= old(out)@ + printable(bytes@).take(k + 1));
        k += 1;
    }
    assert(printable(bytes@).take(k as int) =~= printable(bytes@));
}

fn data_text(rom: &[u8], org: u16, from: usize, to: usize) -> (s: String)
    requires
        org + rom.len() <= 0x1_0000,
        from < to <= rom.len(),
    ensures
        s@ == data_line(rom@, org, from as int, to as int),
{
    let chunk = vstd::slice::slice_subrange(rom, from, to);
    let mut s = String::new();
    disasm::push_front(&mut s, org + from as u16, chunk);
    text::push_text(&mut s, ".byte ");
    text::push_padded(&mut s, list_bytes(chunk).as_str(), 28);
    text::push_text(&mut s, " ; ");
    push_printable(&mut s, chunk);
    assert(s@ =~= data_line(rom@, org, from as int, to as int));
    s
}

/// The end of a run of data.
fn find_run_end(
    rom: &[u8], org: u16, starts: &[bool], labels: &[bool], from: usize, Ghost(f): Ghost<Found>,
) -> (e: usize)
    requires
        org + rom.len() <= 0x1_0000,
        f.starts == starts@,
        f.labels == labels@,
        starts.len() == rom.len(),
        labels.len() == 0x1_0000,
        from < rom.len(),
    ensures
        e == run_end(rom@, org, f, from as int, from + 1),
        from < e <= rom.len(),
{
    let mut i: usize = from + 1;
    while i < rom.len() && !starts[i] && !labels[org as usize + i] && i - from < 8
        invariant
            org + rom.len() <= 0x1_0000,
            f.starts == starts@,
            f.labels == labels@,
            starts.len() == rom.len(),
            labels.len() == 0x1_0000,
            from < i <= rom.len(),
            run_end(rom@, org, f, from as int, i as int) == run_end(rom@, org, f, from as int, from + 1),
        decreases rom.len() - i,
    {
        i += 1;
    }
    i
}

/// Count the labels in the image.
fn count_labels(labels: &[bool], org: u16, n: usize, Ghost(f): Ghost<Found>) -> (count: usize)
    requires
        org + n <= 0x1_0000,
        f.labels == labels@,
        labels.len() == 0x1_0000,
    ensures
        count == labels_inside(f, org, n as int),
{
    let mut count: usize = 0;
    let mut k: usize = 0;
    while k < n
        invariant
            k <= n,
            count <= k,
            org + n <= 0x1_0000,
            f.labels == labels@,
            labels.len() == 0x1_0000,
            count == labels_inside(f, org, k as int),
        decreases n - k,
    {
        if labels[org as usize + k] {
            count += 1;
        }
        k += 1;
    }
    count
}

impl Report {
    /// Emit the annotated listing.
    fn list(&mut self, rom: &[u8], org: u16, starts: &[bool], labels: &[bool], Ghost(f): Ghost<Found>)
        requires
            org + rom.len() <= 0x1_0000,
            f.starts == starts@,
            f.labels == labels@,
            starts.len() == rom.len(),
            labels.len() == 0x1_0000,
            forall|p: int| 0 <= p < rom.len() && #[trigger] f.starts[p] ==> runs(rom@, p),
            old(self).instructions == 0,
            old(self).code_bytes == 0,
        ensures
            text::texts(final(self).lines@)
                == text::texts(old(self).lines@) + listing(rom@, org, f, 0),
            final(self).instructions == listed_instructions(rom@, org, f, 0),
            final(self).code_bytes == listed_code(rom@, org, f, 0),
            final(self).code_bytes <= rom.len(),
    {
        let ghost whole = text::texts(old(self).lines@) + listing(rom@, org, f, 0);
        let mut i: usize = 0;
        while i < rom.len()
            invariant
                i <= rom.len(),
                org + rom.len() <= 0x1_0000,
                f.starts == starts@,
                f.labels == labels@,
                starts.len() == rom.len(),
                labels.len() == 0x1_0000,
                forall|p: int| 0 <= p < rom.len() && #[trigger] f.starts[p] ==> runs(rom@, p),
                text::texts(self.lines@) + listing(rom@, org, f, i as int) == whole,
                self.instructions + listed_instructions(rom@, org, f, i as int)
                    == listed_instructions(rom@, org, f, 0),
                self.code_bytes + listed_code(rom@, org, f, i as int)
                    == listed_code(rom@, org, f, 0),
                self.instructions <= i,
                self.code_bytes <= i,
            decreases rom.len() - i,
        {
            let ghost before = text::texts(self.lines@);
            push_label(&mut self.lines, labels, org + i as u16, Ghost(f));
            let end: usize;
            if starts[i] {
                let line = code_text(rom, org, labels, i, Ghost(f));
                text::push_line(&mut self.lines, line);
                let len = instr_len(addr_mode(rom[i])) as usize;
                self.instructions += 1;
                self.code_bytes += len;
                end = i + len;
            } else {
                end = find_run_end(rom, org, starts, labels, i, Ghost(f));
                let line = data_text(rom, org, i, end);
                text::push_line(&mut self.lines, line);
            }
            proof {
                assert(end == item_end(rom@, org, f, i as int));
                assert(has_item(rom@, org, f, i as int));
                let item = item_lines(rom@, org, f, i as int);
                let rest = listing(rom@, org, f, end as int);
                assert(text::texts(self.lines@) =~= before + item);
                assert(before + (item + rest) =~= (before + item) + rest);
            }
            i = end;
        }
        assert(listing(rom@, org, f, i as int) =~= Seq::empty());
        assert(text::texts(self.lines@) =~= whole);
    }
}

/// Trace an image from its vectors and the entry points asked for, and list it.
pub fn disassemble_trace(
    rom: &[u8],
    org: u16,
    extra_entries: &[u16],
    tables: &[(u16, u16)],
    code_tables: &[(u16, u16, u16)],
) -> (r: Report)
    requires
        org + rom.len() <= 0x1_0000,
    ensures
        ({
            let e = Entries { extra: extra_entries@, tables: tables@, code_tables: code_tables@ };
            let f = found(rom@, org, e);
            &&& text::texts(r.lines@) == heading(rom@, org, e) + listing(rom@, org, f, 0)
            &&& r.instructions == listed_instructions(rom@, org, f, 0)
            &&& r.code_bytes == listed_code(rom@, org, f, 0)
            &&& r.code_bytes + r.data_bytes == rom.len()
            &&& r.labels == labels_inside(f, org, rom.len() as int)
        }),
{
    let ghost e = Entries { extra: extra_entries@, tables: tables@, code_tables: code_tables@ };
    let ghost entry = entry_of(rom@, org, e);
    let ghost f = found(rom@, org, e);
    let (mut t, entries) = Trace::collect(rom, org, extra_entries, tables, code_tables);
    t.traverse(rom, org, Ghost(entry));

    let mut lines: Vec<String> = Vec::new();
    assert(text::texts(lines@) =~= Seq::empty());
    text::push_line(&mut lines, line_of("; tracing disassembly from reset/IRQ/NMI vectors"));
    text::push_line(&mut lines, String::new());
    text::push_line(&mut lines, entries);
    text::push_line(&mut lines, String::new());
    let mut start = line_of("        * = ");
    disasm::push_word(&mut start, org);
    text::push_line(&mut lines, start);
    text::push_line(&mut lines, String::new());
    assert(text::texts(lines@) =~= heading(rom@, org, e));

    let mut r = Report { lines, instructions: 0, code_bytes: 0, data_bytes: 0, labels: 0 };
    assert forall|p: int| 0 <= p < rom.len() && #[trigger] f.starts[p] implies runs(rom@, p) by {
        let k = choose|k: nat| reached(rom@, org, entry, p, k);
        assert(reached(rom@, org, entry, p, k));
    }
    r.list(rom, org, t.starts.as_slice(), t.labels.as_slice(), Ghost(f));
    r.data_bytes = rom.len() - r.code_bytes;
    r.labels = count_labels(t.labels.as_slice(), org, rom.len(), Ghost(f));
    r
}

fn line_of(s: &str) -> (line: String)
    ensures
        line@ == s@,
{
    let mut line = String::new();
    text::push_text(&mut line, s);
    assert(line@ =~= s@);
    line
}

// ---- what holds of a trace ----

/// Everything a trace lists as code is an instruction reached from the entry
/// points, and every entry point at an instruction is listed as code: nothing
/// else is.
pub proof fn law_code_is_what_is_reached(rom: Seq<u8>, org: u16, e: Entries, off: int)
    requires
        org + rom.len() <= 0x1_0000,
        runs(rom, off),
    ensures
        ({
            let f = found(rom, org, e);
            f.starts[off] <==> is_entry(rom, org, e, (org + off) as u16)
                || exists|p: int| 0 <= p < rom.len() && f.starts[p]
                    && #[trigger] leads(rom, org, p, off)
        }),
{
    let entry = entry_of(rom, org, e);
    let f = found(rom, org, e);
    if f.starts[off] {
        let k = choose|k: nat| reached(rom, org, entry, off, k);
        if !entry((org + off) as u16) {
            let p = choose|p: int|
                reached(rom, org, entry, p, (k - 1) as nat) && #[trigger] leads(rom, org, p, off);
            assert(reached(rom, org, entry, p, (k - 1) as nat));
            assert(f.starts[p]);
        }
    } else {
        if entry((org + off) as u16) {
            lemma_entry_reached(rom, org, entry, off);
        }
        if exists|p: int| 0 <= p < rom.len() && f.starts[p] && #[trigger] leads(rom, org, p, off) {
            let p = choose|p: int|
                0 <= p < rom.len() && f.starts[p] && #[trigger] leads(rom, org, p, off);
            lemma_step_reached(rom, org, entry, p, off);
        }
    }
}

/// Every byte of the image is listed: where an item of the listing ends the next
/// one starts, and the last one ends with the image.
pub proof fn law_every_byte_is_listed(rom: Seq<u8>, org: u16, e: Entries, off: int)
    requires
        org + rom.len() <= 0x1_0000,
        0 <= off < rom.len(),
    ensures
        has_item(rom, org, found(rom, org, e), off),
        !found(rom, org, e).starts[off]
            ==> item_end(rom, org, found(rom, org, e), off) - off <= 8,
{
    let entry = entry_of(rom, org, e);
    let f = found(rom, org, e);
    if f.starts[off] {
        let k = choose|k: nat| reached(rom, org, entry, off, k);
        assert(reached(rom, org, entry, off, k));
    } else {
        lemma_run_end(rom, org, f, off, off + 1);
        lemma_run_is_short(rom, org, f, off, off + 1);
    }
}

proof fn lemma_run_is_short(rom: Seq<u8>, org: u16, f: Found, from: int, i: int)
    requires
        i <= from + 8,
    ensures
        run_end(rom, org, f, from, i) <= from + 8,
    decreases from + 8 - i,
{
    if i < rom.len() && !f.starts[i] && !f.labels[org + i] && i - from < 8 {
        lemma_run_is_short(rom, org, f, from, i + 1);
    }
}

} // verus!
