//! What holds of the CPU as a whole: instruction lengths and timing, decimal
//! arithmetic, and what the stack gives back.

use vstd::prelude::*;
use crate::mos6502::cpu::{Bus, Core, Cpu};
use crate::mos6502::{cpu, AddrMode, Mnemonic};

verus! {

/// The instructions that may leave the straight line of the program.
pub open spec fn transfers_control(m: Mnemonic) -> bool {
    cpu::branches(m) || m == Mnemonic::Jmp || m == Mnemonic::Jsr || m == Mnemonic::Rts
        || m == Mnemonic::Rti || m == Mnemonic::Brk
}

/// Fetching an operand changes nothing but the program counter, which moves
/// past the operand bytes.
proof fn lemma_effective_registers<B: Bus>(s: Core<B>, mode: AddrMode)
    ensures
        cpu::effective(s, mode).sys.cpu == (Cpu {
            pc: s.cpu.pc.wrapping_add(
                if mode == AddrMode::Rel { 0 } else { (crate::mos6502::mode_len(mode) - 1) as u16 }),
            ..s.cpu
        }),
{
}

/// The addressing modes that occur with each family of instructions.
proof fn lemma_modes_fit(opcode: u8)
    ensures
        ({
            let m = crate::mos6502::opcode_mnemonic(opcode);
            let mode = crate::mos6502::opcode_mode(opcode);
            &&& cpu::reads_operand(m) || cpu::stores(m) || cpu::modifies(m)
                ==> mode != AddrMode::Rel
            &&& cpu::implied(m) || m == Mnemonic::Pha || m == Mnemonic::Php
                || m == Mnemonic::Pla || m == Mnemonic::Plp
                ==> mode == AddrMode::Imp || mode == AddrMode::Ill
            &&& m == Mnemonic::Nop ==> mode != AddrMode::Rel
        }),
{
}

/// No instruction touches the cycle counter by itself.
proof fn lemma_instruction_keeps_counter<B: Bus>(s: Core<B>, m: Mnemonic, mode: AddrMode)
    ensures
        cpu::after_instruction(s, m, mode).0.cpu.cycles == s.cpu.cycles,
        2 <= cpu::after_instruction(s, m, mode).1 <= 8,
{
    lemma_effective_registers(s, mode);
    if cpu::modifies(m) {
        if mode == AddrMode::Acc {
            lemma_modify_keeps_pc(s.cpu, m, s.cpu.a);
        } else {
            let o = cpu::effective(s, mode);
            lemma_modify_keeps_pc(o.sys.cpu, m, o.sys.bus.read_value(o.addr));
        }
    } else if cpu::reads_operand(m) {
        let o = cpu::effective(s, mode);
        lemma_operand_keeps_pc(o.sys.cpu, m, o.sys.bus.read_value(o.addr));
    }
}

/// A reading instruction leaves program counter and cycle counter alone.
proof fn lemma_operand_keeps_pc(c: Cpu, m: Mnemonic, val: u8)
    ensures
        cpu::after_operand(c, m, val).pc == c.pc,
        cpu::after_operand(c, m, val).cycles == c.cycles,
{
}

/// So does a read-modify-write instruction.
proof fn lemma_modify_keeps_pc(c: Cpu, m: Mnemonic, val: u8)
    ensures
        cpu::after_modify(c, m, val).0.pc == c.pc,
        cpu::after_modify(c, m, val).0.cycles == c.cycles,
{
    let half = cpu::modifying_half(m);
    lemma_operand_keeps_pc(
        cpu::after_modify_half(c, half, val),
        cpu::accumulating_half(m),
        cpu::modified_byte(c.c, half, val),
    );
}

/// Every opcode takes between two and eight cycles, and the counter grows by
/// just these.
pub proof fn law_cycles_bounded<B: Bus>(s: Core<B>)
    ensures
        2 <= cpu::after_step(s).1 <= 8,
        cpu::after_step(s).0.cpu.cycles == s.cpu.cycles.wrapping_add(cpu::after_step(s).1 as u64),
{
    let (t, opcode) = cpu::fetch_byte(s);
    lemma_instruction_keeps_counter(
        t, crate::mos6502::opcode_mnemonic(opcode), crate::mos6502::opcode_mode(opcode));
}

/// Whatever its opcode, an instruction that does not transfer control leaves
/// the program counter behind its last byte, so the instruction stream stays
/// aligned.
pub proof fn law_stream_stays_aligned<B: Bus>(s: Core<B>)
    requires
        !transfers_control(crate::mos6502::opcode_mnemonic(s.bus.read_value(s.cpu.pc))),
    ensures
        cpu::after_step(s).0.cpu.pc == s.cpu.pc.wrapping_add(
            crate::mos6502::mode_len(crate::mos6502::opcode_mode(s.bus.read_value(s.cpu.pc))) as u16,
        ),
{
    let (t, opcode) = cpu::fetch_byte(s);
    lemma_modes_fit(opcode);
    lemma_aligned_after(
        t, crate::mos6502::opcode_mnemonic(opcode), crate::mos6502::opcode_mode(opcode));
}

/// The program counter after an instruction that does not transfer control,
/// for the modes that occur with it.
proof fn lemma_aligned_after<B: Bus>(s: Core<B>, m: Mnemonic, mode: AddrMode)
    requires
        !transfers_control(m),
        mode != AddrMode::Rel,
        cpu::implied(m) || m == Mnemonic::Pha || m == Mnemonic::Php
            || m == Mnemonic::Pla || m == Mnemonic::Plp
            ==> mode == AddrMode::Imp || mode == AddrMode::Ill,
    ensures
        cpu::after_instruction(s, m, mode).0.cpu.pc
            == s.cpu.pc.wrapping_add((crate::mos6502::mode_len(mode) - 1) as u16),
{
    lemma_effective_registers(s, mode);
    let o = cpu::effective(s, mode);
    if cpu::reads_operand(m) {
        lemma_operand_keeps_pc(o.sys.cpu, m, o.sys.bus.read_value(o.addr));
    } else if cpu::modifies(m) {
        if mode == AddrMode::Acc {
            lemma_modify_keeps_pc(s.cpu, m, s.cpu.a);
        } else {
            lemma_modify_keeps_pc(o.sys.cpu, m, o.sys.bus.read_value(o.addr));
        }
    }
}

/// A branch that is not taken falls through to the next instruction in two
/// cycles.
pub proof fn law_untaken_branch_falls_through<B: Bus>(s: Core<B>)
    requires
        cpu::branches(crate::mos6502::opcode_mnemonic(s.bus.read_value(s.cpu.pc))),
        !cpu::branch_taken(s.cpu, crate::mos6502::opcode_mnemonic(s.bus.read_value(s.cpu.pc))),
    ensures
        cpu::after_step(s).0.cpu.pc == s.cpu.pc.wrapping_add(2),
        cpu::after_step(s).1 == 2,
{
}

/// Pulling the status that was pushed restores every flag.
pub proof fn law_status_round_trip(a: Cpu, b: Cpu, brk: bool)
    ensures
        cpu::with_status(b, cpu::status_byte(a, brk)) == (Cpu {
            c: a.c, z: a.z, i: a.i, d: a.d, v: a.v, n: a.n, ..b
        }),
{
}

/// Two decimal digits packed in a byte.
pub open spec fn is_bcd(b: u8) -> bool {
    b % 16 <= 9 && b / 16 <= 9
}

/// The number that two packed decimal digits spell.
pub open spec fn bcd_value(b: u8) -> int {
    10 * (b / 16) + b % 16
}

/// In decimal mode `ADC` adds decimal numbers: the digits of the sum, with the
/// carry as the hundred.
pub proof fn law_decimal_add(s: Cpu, val: u8)
    requires
        s.d,
        is_bcd(s.a),
        is_bcd(val),
    ensures
        is_bcd(cpu::add_with_carry(s, val).a),
        bcd_value(cpu::add_with_carry(s, val).a) + 100 * cpu::flag_value(cpu::add_with_carry(s, val).c)
            == bcd_value(s.a) + bcd_value(val) + cpu::flag_value(s.c),
{
    let (a1, a0) = (s.a / 16, s.a % 16);
    let (v1, v0) = (val / 16, val % 16);
    let c = cpu::flag_value(s.c);
    let al = a0 + v0 + c;
    let low = cpu::low_digit_sum(s.a, val, s.c);
    assert(low == (if al >= 10 { al - 10 + 16 } else { al }));
    let carry = if al >= 10 { 1int } else { 0int };
    let digit = if al >= 10 { al - 10 } else { al };
    let mid = s.a / 16 * 16 + val / 16 * 16 + low;
    let h = a1 + v1 + carry;
    assert(mid == 16 * h + digit);
    let sum = if mid >= 0xA0 { mid + 0x60 } else { mid };
    assert(sum == if h >= 10 { 16 * (h - 10) + 256 + digit } else { 16 * h + digit });
    let r = (sum % 256) as u8;
    assert(r == if h >= 10 { 16 * (h - 10) + digit } else { 16 * h + digit });
    assert(r / 16 == (if h >= 10 { h - 10 } else { h }) && r % 16 == digit);
}

/// In decimal mode `SBC` subtracts decimal numbers: the digits of the
/// difference, a hundred borrowed where the carry comes out clear.
pub proof fn law_decimal_sub(s: Cpu, val: u8)
    requires
        s.d,
        is_bcd(s.a),
        is_bcd(val),
    ensures
        is_bcd(cpu::sub_with_carry(s, val).a),
        bcd_value(cpu::sub_with_carry(s, val).a)
            == bcd_value(s.a) - bcd_value(val) - (1 - cpu::flag_value(s.c))
                + 100 * (1 - cpu::flag_value(cpu::sub_with_carry(s, val).c)),
{
    let (a1, a0) = (s.a / 16, s.a % 16);
    let (v1, v0) = (val / 16, val % 16);
    let al = a0 - v0 - (1 - cpu::flag_value(s.c));
    let low = if al < 0 { (al - 6) % 16 - 16 } else { al };
    assert(al < 0 ==> (al - 6) % 16 == al + 10);
    let borrow = if al < 0 { 1int } else { 0int };
    let digit = if al < 0 { al + 10 } else { al };
    let h = a1 - v1 - borrow;
    let diff = s.a / 16 * 16 - val / 16 * 16 + low;
    assert(diff == 16 * h + digit);
    let r = cpu::sub_decimal_digits(s.a, val, s.c);
    assert(diff < 0 <==> h < 0);
    assert(h < 0 ==> (diff - 0x60) % 256 == 16 * (h + 10) + digit);
    assert(r == if h < 0 { 16 * (h + 10) + digit } else { 16 * h + digit });
    assert(r / 16 == (if h < 0 { h + 10 } else { h }) && r % 16 == digit);
}

/// A subtraction undoes the addition of the same value in binary mode, with the
/// carry set before both as a program would set it.
pub proof fn law_sub_undoes_add(s: Cpu, val: u8)
    requires
        !s.d,
        !s.c,
    ensures
        cpu::sub_with_carry(Cpu { c: true, ..cpu::add_with_carry(s, val) }, val).a == s.a,
{
    let r = cpu::add_with_carry(s, val).a;
    assert(r == if s.a + val > 255 { s.a + val - 256 } else { s.a + val });
}

/// Page one behaves as plain memory: a write is read back, leaves the rest of
/// the page alone, and a read changes nothing.
pub open spec fn stack_is_memory<B: Bus>() -> bool {
    &&& forall|b: B, at: u16, val: u8|
        0x100 <= at < 0x200 ==> #[trigger] b.after_write(at, val).read_value(at) == val
    &&& forall|b: B, at: u16, val: u8, other: u16|
        0x100 <= at < 0x200 && 0x100 <= other < 0x200 && at != other
            ==> #[trigger] b.after_write(at, val).read_value(other) == b.read_value(other)
    &&& forall|b: B, at: u16| 0x100 <= at < 0x200 ==> #[trigger] b.after_read(at) == b
}

/// `PLA` brings back what `PHA` pushed, and the stack pointer with it.
pub proof fn law_pha_pla<B: Bus>(s: Core<B>)
    requires
        stack_is_memory::<B>(),
    ensures
        cpu::pull_byte(cpu::push_byte(s, s.cpu.a)).1 == s.cpu.a,
        cpu::pull_byte(cpu::push_byte(s, s.cpu.a)).0.cpu == s.cpu,
{
}

/// Words come off the stack as they went on, whatever the stack pointer.
pub proof fn law_word_round_trip<B: Bus>(s: Core<B>, w: u16)
    requires
        stack_is_memory::<B>(),
    ensures
        cpu::pull_word(cpu::push_word(s, w)).1 == w,
        cpu::pull_word(cpu::push_word(s, w)).0.cpu == s.cpu,
{
    let t = cpu::push_byte(s, cpu::hi_of(w));
    let u = cpu::push_byte(t, cpu::lo_of(w));
    assert(cpu::stack_addr(s.cpu.sp) != cpu::stack_addr(t.cpu.sp));
    assert(u.bus.read_value(cpu::stack_addr(t.cpu.sp)) == cpu::lo_of(w));
    assert(u.bus.read_value(cpu::stack_addr(s.cpu.sp)) == cpu::hi_of(w));
}

/// A subroutine that returns at once comes back behind the call: `RTS` after
/// `JSR` leaves the program counter past the operand and every register as it
/// was.
pub proof fn law_jsr_rts<B: Bus>(s: Core<B>)
    requires
        stack_is_memory::<B>(),
    ensures
        ({
            let called = cpu::after_instruction(s, Mnemonic::Jsr, AddrMode::Abs).0;
            let back = cpu::after_instruction(called, Mnemonic::Rts, AddrMode::Imp).0;
            back.cpu == (Cpu { pc: s.cpu.pc.wrapping_add(2), ..s.cpu })
        }),
{
    let (t, target) = cpu::fetch_word(s);
    let ret = t.cpu.pc.wrapping_sub(1);
    let u = cpu::push_word(t, ret);
    law_word_round_trip(t, ret);
    let called = Core { cpu: Cpu { pc: target, ..u.cpu }, ..u };
    let (v, w) = cpu::pull_word(u);
    let (v2, w2) = cpu::pull_word(called);
    assert(w2 == w);
    assert(v2.cpu == (Cpu { pc: target, ..v.cpu }));
}

/// `RTI` undoes an interrupt: every register and flag is as it was before, the
/// cycle counter aside.
pub proof fn law_interrupt_rti<B: Bus>(s: Core<B>, vector: u16, brk: bool)
    requires
        stack_is_memory::<B>(),
        forall|b: B, at: u16, slot: u16| (at == vector || at == vector.wrapping_add(1))
            && 0x100 <= slot < 0x200
            ==> #[trigger] b.after_read(at).read_value(slot) == b.read_value(slot),
    ensures
        ({
            let inside = cpu::enter_interrupt(s, vector, brk);
            cpu::after_instruction(inside, Mnemonic::Rti, AddrMode::Imp).0.cpu == s.cpu
        }),
{
    let p = cpu::status_byte(s.cpu, brk);
    let w = s.cpu.pc;
    let s1 = cpu::push_byte(s, cpu::hi_of(w));
    let s2 = cpu::push_byte(s1, cpu::lo_of(w));
    let s3 = cpu::push_byte(s2, p);
    let (a0, a1, a2) = (
        cpu::stack_addr(s.cpu.sp), cpu::stack_addr(s1.cpu.sp), cpu::stack_addr(s2.cpu.sp),
    );
    assert(a0 != a1 && a1 != a2 && a0 != a2);
    assert(s3.bus.read_value(a2) == p);
    assert(s3.bus.read_value(a1) == s2.bus.read_value(a1));
    assert(s3.bus.read_value(a0) == s2.bus.read_value(a0));
    assert(s2.bus.read_value(a0) == s1.bus.read_value(a0));
    let inside = cpu::enter_interrupt(s, vector, brk);
    let b1 = s3.bus.after_read(vector);
    assert(inside.bus == b1.after_read(vector.wrapping_add(1)));
    assert(inside.bus.read_value(a2) == b1.read_value(a2));
    assert(inside.bus.read_value(a1) == b1.read_value(a1));
    assert(inside.bus.read_value(a0) == b1.read_value(a0));
    let (t, p2) = cpu::pull_byte(inside);
    assert(p2 == p && t.bus == inside.bus);
    law_status_round_trip(s.cpu, t.cpu, brk);
    let t2 = Core { cpu: cpu::with_status(t.cpu, p2), ..t };
    let (u, w2) = cpu::pull_word(t2);
    assert(w2 == w);
}

// ---- what a bus keeps ----

/// A property of the bus that no single read or write breaks.
pub open spec fn kept_by_accesses<B: Bus>(p: spec_fn(B) -> bool) -> bool {
    &&& forall|b: B, at: u16| p(b) ==> #[trigger] p(b.after_read(at))
    &&& forall|b: B, at: u16, val: u8| p(b) ==> #[trigger] p(b.after_write(at, val))
}

proof fn lemma_effective_keeps<B: Bus>(s: Core<B>, mode: AddrMode, p: spec_fn(B) -> bool)
    requires
        kept_by_accesses(p),
        p(s.bus),
    ensures
        p(cpu::effective(s, mode).sys.bus),
{
    let (t, b) = cpu::fetch_byte(s);
    assert(p(t.bus));
    let (u, b2) = cpu::fetch_byte(t);
    assert(p(u.bus));
    match mode {
        AddrMode::Ind => {
            let ptr = cpu::fetch_word(s).1;
            assert(p(u.bus.after_read(ptr)));
        },
        AddrMode::Izx => {
            assert(p(t.bus.after_read(b.wrapping_add(s.cpu.x) as u16)));
        },
        AddrMode::Izy => {
            assert(p(t.bus.after_read(b as u16)));
        },
        _ => {},
    }
}

proof fn lemma_pushes_keep<B: Bus>(s: Core<B>, w: u16, p: spec_fn(B) -> bool)
    requires
        kept_by_accesses(p),
        p(s.bus),
    ensures
        forall|val: u8| p(#[trigger] cpu::push_byte(s, val).bus),
        p(cpu::push_word(s, w).bus),
        p(cpu::pull_byte(s).0.bus),
        p(cpu::pull_word(s).0.bus),
        p(cpu::fetch_word(s).0.bus),
        p(cpu::read_word(s, w).0.bus),
{
    assert(p(cpu::push_byte(s, cpu::hi_of(w)).bus));
    assert(p(cpu::fetch_byte(s).0.bus));
    assert(p(s.bus.after_read(w)));
}

proof fn lemma_interrupt_keeps<B: Bus>(s: Core<B>, vector: u16, brk: bool, p: spec_fn(B) -> bool)
    requires
        kept_by_accesses(p),
        p(s.bus),
    ensures
        p(cpu::enter_interrupt(s, vector, brk).bus),
{
    lemma_pushes_keep(s, s.cpu.pc, p);
    let t = cpu::push_word(s, s.cpu.pc);
    lemma_pushes_keep(t, 0, p);
    let u = cpu::push_byte(t, cpu::status_byte(s.cpu, brk));
    lemma_pushes_keep(u, vector, p);
}

proof fn lemma_control_keeps<B: Bus>(s: Core<B>, m: Mnemonic, mode: AddrMode, p: spec_fn(B) -> bool)
    requires
        kept_by_accesses(p),
        p(s.bus),
    ensures
        p(cpu::after_control(s, m, mode).0.bus),
{
    lemma_effective_keeps(s, mode, p);
    lemma_pushes_keep(s, 0, p);
    match m {
        Mnemonic::Jsr => {
            let t = cpu::fetch_word(s).0;
            lemma_pushes_keep(t, t.cpu.pc.wrapping_sub(1), p);
        },
        Mnemonic::Rti => {
            let (t, st) = cpu::pull_byte(s);
            lemma_pushes_keep(Core { cpu: cpu::with_status(t.cpu, st), ..t }, 0, p);
        },
        Mnemonic::Brk => {
            let t = Core { cpu: Cpu { pc: s.cpu.pc.wrapping_add(1), ..s.cpu }, ..s };
            lemma_interrupt_keeps(t, cpu::VEC_IRQ, true, p);
        },
        _ => {},
    }
}

/// What no single bus access breaks, no instruction and no interrupt breaks.
pub proof fn law_bus_invariant_kept<B: Bus>(s: Core<B>, vector: u16, p: spec_fn(B) -> bool)
    requires
        kept_by_accesses(p),
        p(s.bus),
    ensures
        p(cpu::after_step(s).0.bus),
        p(cpu::hardware_interrupt(s, vector).bus),
        p(cpu::read_word(s, vector).0.bus),
{
    lemma_interrupt_keeps(s, vector, false, p);
    lemma_pushes_keep(s, vector, p);
    let (t, opcode) = cpu::fetch_byte(s);
    let m = crate::mos6502::opcode_mnemonic(opcode);
    let mode = crate::mos6502::opcode_mode(opcode);
    assert(p(t.bus));
    lemma_effective_keeps(t, mode, p);
    lemma_control_keeps(t, m, mode, p);
    assert(p(cpu::fetch_byte(t).0.bus));
    let o = cpu::effective(t, mode);
    assert(p(o.sys.bus.after_read(o.addr)));
    assert(p(cpu::after_instruction(t, m, mode).0.bus));
}

} // verus!
