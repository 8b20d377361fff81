//! What holds of the 16-bit processor's instructions together.

use vstd::prelude::*;

use super::alu::{sub_outcome_16, sub_outcome_8, wrap_16, Outcome};
use super::cpu::{
    is_word_register, loaded_flags, physical, signed_16, signed_8, Machine, AF, CF, DF, KEPT_FLAGS,
    OF, PF, RESERVED_ONE, SF, ZF,
};
use super::exec::{
    aaa, adc_flags, after, after_arithmetic, after_bits, after_data, after_flags, after_flow,
    after_strings, call, condition, count_flags, das, logic_flags, moving, moving_step, popped_n,
    repeat_moving, repeat_scas, ret, retf, scas_step, shift, wide_flags, xchg, Moving, Shift,
};
use crate::bits::with_flag16;
use crate::bus::word_at;
use crate::decode::{Instruction, Mnemonic, OpKind, Register};

verus! {

// ---------------------------------------------------------------------------
// Comparing
// ---------------------------------------------------------------------------

pub(crate) proof fn lemma_outcome_flags(
    flags: u16,
    carry: bool,
    zero: bool,
    sign: bool,
    parity: bool,
    overflow: bool,
    adjust: bool,
)
    by (bit_vector)
    ensures
        ({
            let a = with_flag16(flags, 0x0001, carry);
            let b = with_flag16(a, 0x0040, zero);
            let c = with_flag16(b, 0x0080, sign);
            let d = with_flag16(c, 0x0004, parity);
            let e = with_flag16(d, 0x0800, overflow);
            let f = with_flag16(e, 0x0010, adjust);
            &&& (f & 0x0001 != 0) == carry
            &&& (f & 0x0040 != 0) == zero
            &&& (f & 0x0080 != 0) == sign
            &&& (f & 0x0800 != 0) == overflow
            &&& f & 0x0400 == flags & 0x0400
            &&& (f & 0x0004 != 0) == parity
            &&& (f & 0x0010 != 0) == adjust
            &&& f & !0x08D5u16 == flags & !0x08D5u16
        }),
        ({
            let a = with_flag16(flags, 0x0040, zero);
            let b = with_flag16(a, 0x0080, sign);
            let c = with_flag16(b, 0x0800, overflow);
            let f = with_flag16(c, 0x0001, carry);
            let g = with_flag16(c, 0x0010, adjust);
            let h = with_flag16(b, 0x0001, carry);
            &&& (f & 0x0001 != 0) == carry
            &&& (f & 0x0040 != 0) == zero
            &&& (f & 0x0080 != 0) == sign
            &&& (f & 0x0800 != 0) == overflow
            &&& f & !0x08C1u16 == flags & !0x08C1u16
            &&& (g & 0x0010 != 0) == adjust
            &&& (g & 0x0040 != 0) == zero
            &&& (g & 0x0080 != 0) == sign
            &&& (g & 0x0800 != 0) == overflow
            &&& g & !0x08D0u16 == flags & !0x08D0u16
            &&& g & 0x0001 == flags & 0x0001
            &&& (h & 0x0001 != 0) == carry
            &&& (h & 0x0040 != 0) == zero
            &&& (h & 0x0080 != 0) == sign
            &&& h & !0x00C1u16 == flags & !0x00C1u16
        }),
        ({
            let a = with_flag16(flags, 0x0001, carry);
            let b = with_flag16(a, 0x0040, zero);
            let c = with_flag16(b, 0x0080, sign);
            let f = with_flag16(c, 0x0800, overflow);
            let g = with_flag16(a, 0x0800, overflow);
            &&& (f & 0x0001 != 0) == carry
            &&& (f & 0x0040 != 0) == zero
            &&& (f & 0x0080 != 0) == sign
            &&& (f & 0x0800 != 0) == overflow
            &&& f & !0x08C1u16 == flags & !0x08C1u16
            &&& (g & 0x0001 != 0) == carry
            &&& (g & 0x0800 != 0) == overflow
            &&& g & !0x0801u16 == flags & !0x0801u16
        }),
        ({
            let a = with_flag16(flags, 0x0010, adjust);
            let f = with_flag16(a, 0x0001, carry);
            let b = with_flag16(f, 0x0040, zero);
            let g = with_flag16(b, 0x0080, sign);
            &&& (f & 0x0001 != 0) == carry
            &&& (f & 0x0010 != 0) == adjust
            &&& f & !0x0011u16 == flags & !0x0011u16
            &&& (g & 0x0001 != 0) == carry
            &&& (g & 0x0010 != 0) == adjust
            &&& (g & 0x0040 != 0) == zero
            &&& (g & 0x0080 != 0) == sign
            &&& g & !0x00D1u16 == flags & !0x00D1u16
        }),
        ({
            let d = with_flag16(flags, 0x0400, sign);
            &&& (d & 0x0400 != 0) == sign
            &&& d & !0x0400u16 == flags & !0x0400u16
            &&& with_flag16(flags, 0x0001, carry) & !0x0001u16 == flags & !0x0001u16
            &&& (with_flag16(flags, 0x0001, carry) & 0x0001 != 0) == carry
        }),
{
}

/// After two words are compared, the conditional jumps tell their order:
/// as unsigned numbers (JB, JBE, JAE) and as signed ones (JL, JLE).
pub proof fn law_words_compare(m: Machine, a: u16, b: u16)
    ensures
        ({
            let n = m.with_outcome(sub_outcome_16(a, b, 0));
            &&& condition(n, Mnemonic::Je) == (a == b)
            &&& condition(n, Mnemonic::Jne) == (a != b)
            &&& condition(n, Mnemonic::Jb) == (a < b)
            &&& condition(n, Mnemonic::Jae) == (a >= b)
            &&& condition(n, Mnemonic::Jbe) == (a <= b)
            &&& condition(n, Mnemonic::Jl) == (signed_16(a) < signed_16(b))
            &&& condition(n, Mnemonic::Jle) == (signed_16(a) <= signed_16(b))
            &&& n == (Machine { flags: n.flags, ..m })
        }),
{
    let o = sub_outcome_16(a, b, 0);
    lemma_outcome_flags(m.flags, o.carry, o.zero, o.sign, o.parity, o.overflow, o.adjust);
}

/// After two bytes are compared, the conditional jumps tell their order:
/// as unsigned numbers (JB, JBE, JAE) and as signed ones (JL, JLE).
pub proof fn law_bytes_compare(m: Machine, a: u8, b: u8)
    ensures
        ({
            let n = m.with_outcome(sub_outcome_8(a, b, 0));
            &&& condition(n, Mnemonic::Je) == (a == b)
            &&& condition(n, Mnemonic::Jne) == (a != b)
            &&& condition(n, Mnemonic::Jb) == (a < b)
            &&& condition(n, Mnemonic::Jae) == (a >= b)
            &&& condition(n, Mnemonic::Jbe) == (a <= b)
            &&& condition(n, Mnemonic::Jl) == (signed_8(a) < signed_8(b))
            &&& condition(n, Mnemonic::Jle) == (signed_8(a) <= signed_8(b))
            &&& n == (Machine { flags: n.flags, ..m })
        }),
{
    let o = sub_outcome_8(a, b, 0);
    lemma_outcome_flags(m.flags, o.carry, o.zero, o.sign, o.parity, o.overflow, o.adjust);
}

// ---------------------------------------------------------------------------
// Calls and exchanges
// ---------------------------------------------------------------------------

/// A near call that returns goes on behind it, with the stack pointer and
/// all other registers as they were.
pub proof fn law_near_call_returns(m: Machine, i: Instruction)
    requires
        i.op0_kind != OpKind::FarBranch16,
        physical(m.ss, m.pushed(m.ip).sp) + 1 < m.ram.len(),
    ensures
        ret(call(m, i)) == (Machine { ram: call(m, i).ram, ..m }),
{
    super::cpu::law_pop_returns_push(m, m.ip);
}

/// A far call that returns goes on behind it in its segment, with the stack
/// pointer and all other registers as they were.
pub proof fn law_far_call_returns(m: Machine, i: Instruction, back: Instruction)
    requires
        i.op0_kind == OpKind::FarBranch16,
        back.op0_kind != OpKind::Immediate16,
        physical(m.ss, m.pushed(m.cs).sp) + 1 < m.ram.len(),
        physical(m.ss, m.pushed(m.cs).pushed(m.ip).sp) + 1 < m.ram.len(),
    ensures
        retf(call(m, i), back) == (Machine { ram: call(m, i).ram, ..m }),
{
    let one = m.pushed(m.cs);
    let two = one.pushed(m.ip);
    let high = physical(m.ss, one.sp);
    let low = physical(m.ss, two.sp);
    super::cpu::law_pop_returns_push(m, m.cs);
    super::cpu::law_pop_returns_push(one, m.ip);
    assert(low != high && low + 1 != high && high + 1 != low);
    assert(word_at(two.ram, high) == word_at(one.ram, high));
}

/// Exchanging two word registers twice leaves the machine as it was.
pub proof fn law_exchange_undoes_itself(m: Machine, i: Instruction)
    requires
        i.op0_kind == OpKind::Register,
        i.op1_kind == OpKind::Register,
        is_word_register(i.op0_register),
        is_word_register(i.op1_register),
    ensures
        xchg(xchg(m, i), i) == m,
        xchg(m, i).reg16(i.op0_register) == m.reg16(i.op1_register),
        xchg(m, i).reg16(i.op1_register) == m.reg16(i.op0_register),
{
    reveal(Machine::with_reg16);
}

// ---------------------------------------------------------------------------
// Repeated string instructions
// ---------------------------------------------------------------------------

/// How many bytes a string instruction steps over.
pub open spec fn step_size(op: Moving) -> int {
    match op {
        Moving::Stosb | Moving::Movsb => 1,
        Moving::Stosw | Moving::Movsw => 2,
    }
}

/// How far an index goes in a number of steps, in the direction that the
/// direction flag says.
pub open spec fn gone(m: Machine, index: u16, steps: int, op: Moving) -> u16 {
    if m.flag(DF) {
        wrap_16(index - steps * step_size(op))
    } else {
        wrap_16(index + steps * step_size(op))
    }
}

proof fn lemma_repeat_frame(m: Machine, i: Instruction, op: Moving)
    ensures
        ({
            let n = repeat_moving(m, i, op);
            &&& n == (Machine { cx: 0, di: n.di, si: n.si, ram: n.ram, ..m })
            &&& n.ram.len() == m.ram.len()
        }),
    decreases m.cx,
{
    if m.cx != 0 {
        let next = Machine { cx: (m.cx - 1) as u16, ..moving_step(m, i, op) };
        lemma_repeat_frame(next, i, op);
    }
}

proof fn lemma_wrapped_twice(index: int, first: int, second: int)
    ensures
        wrap_16(wrap_16(index + first) + second) == wrap_16(index + first + second),
{
}

proof fn lemma_gone(m: Machine, next: Machine, index: u16, steps: int, op: Moving)
    requires
        m.flag(DF) == next.flag(DF),
    ensures
        gone(next, gone(m, index, 1, op), steps - 1, op) == gone(m, index, steps, op),
        gone(m, index, 0, op) == index,
{
    let size = step_size(op);
    let whole = steps * size;
    let rest = (steps - 1) * size;
    assert(rest == whole - size) by (nonlinear_arith)
        requires
            whole == steps * size,
            rest == (steps - 1) * size,
    ;
    assert(0 * size == 0 && 1 * size == size);
    lemma_wrapped_twice(index as int, size, rest);
    lemma_wrapped_twice(index as int, -size, -rest);
}

proof fn lemma_repeat_indices(m: Machine, i: Instruction, op: Moving)
    ensures
        repeat_moving(m, i, op).di == gone(m, m.di, m.cx as int, op),
        repeat_moving(m, i, op).si == (if op == Moving::Movsb || op == Moving::Movsw {
            gone(m, m.si, m.cx as int, op)
        } else {
            m.si
        }),
    decreases m.cx,
{
    if m.cx == 0 {
        lemma_gone(m, m, m.di, 0, op);
        lemma_gone(m, m, m.si, 0, op);
    } else {
        let next = Machine { cx: (m.cx - 1) as u16, ..moving_step(m, i, op) };
        lemma_repeat_indices(next, i, op);
        lemma_gone(m, next, m.di, m.cx as int, op);
        lemma_gone(m, next, m.si, m.cx as int, op);
        assert(next.di == gone(m, m.di, 1, op));
    }
}

/// A repeated STOS or MOVS counts CX down to zero and moves its indices over
/// CX steps; of the registers it changes no others.
pub proof fn law_repeats_count_down(m: Machine, i: Instruction, op: Moving)
    requires
        i.rep_prefix,
    ensures
        ({
            let n = moving(m, i, op);
            &&& n.cx == 0
            &&& n.di == gone(m, m.di, m.cx as int, op)
            &&& n.si == (if op == Moving::Movsb || op == Moving::Movsw {
                gone(m, m.si, m.cx as int, op)
            } else {
                m.si
            })
            &&& n == (Machine { cx: 0, di: n.di, si: n.si, ram: n.ram, ..m })
            &&& n.ram.len() == m.ram.len()
        }),
{
    lemma_repeat_frame(m, i, op);
    lemma_repeat_indices(m, i, op);
}

/// A repeated STOSB fills CX bytes from ES:DI on with AL and changes no
/// others, where the bytes neither leave the segment nor the megabyte.
pub proof fn law_repeated_stosb_fills(m: Machine, i: Instruction)
    requires
        i.rep_prefix,
        !m.flag(DF),
        m.di + m.cx <= 0xFFFF,
        m.es * 16 + m.di + m.cx <= 0x10_0000,
        0x10_0000 <= m.ram.len(),
    ensures
        moving(m, i, Moving::Stosb).ram == Seq::new(
            m.ram.len(),
            |a: int|
                if m.es * 16 + m.di <= a < m.es * 16 + m.di + m.cx {
                    m.reg8(Register::AL)
                } else {
                    m.ram[a]
                },
        ),
    decreases m.cx,
{
    let op = Moving::Stosb;
    let filled = Seq::new(
        m.ram.len(),
        |a: int|
            if m.es * 16 + m.di <= a < m.es * 16 + m.di + m.cx {
                m.reg8(Register::AL)
            } else {
                m.ram[a]
            },
    );
    if m.cx == 0 {
        assert(m.ram =~= filled);
    } else {
        let next = Machine { cx: (m.cx - 1) as u16, ..moving_step(m, i, op) };
        assert(physical(m.es, m.di) == m.es * 16 + m.di);
        assert(next.di == m.di + 1);
        law_repeated_stosb_fills(next, i);
        assert(moving(m, i, op) == moving(next, i, op));
        assert(moving(next, i, op).ram =~= filled);
    }
}

/// REPNE SCASB goes on until a byte equals AL, which the zero flag then
/// tells, or until CX is zero. It writes nothing.
pub proof fn law_search_stops(m: Machine, i: Instruction)
    requires
        i.repne_prefix,
        !i.rep_prefix,
    ensures
        repeat_scas(m, i).cx == 0 || condition(repeat_scas(m, i), Mnemonic::Je),
        repeat_scas(m, i).ram == m.ram,
    decreases m.cx,
{
    if m.cx != 0 {
        let n = Machine { cx: (m.cx - 1) as u16, ..scas_step(m) };
        law_search_stops(n, i);
    }
}

// ---------------------------------------------------------------------------
// What instructions leave alone
// ---------------------------------------------------------------------------

/// The machine has the memory it had and everything else that instructions
/// leave alone.
pub open spec fn same_frame(m: Machine, n: Machine) -> bool {
    &&& n.rest == m.rest
    &&& n.ram.len() == m.ram.len()
}

proof fn lemma_repeat_scas(m: Machine, i: Instruction)
    ensures
        same_frame(m, repeat_scas(m, i)),
        repeat_scas(m, i).ip == m.ip,
        repeat_scas(m, i).cs == m.cs,
    decreases m.cx,
{
    if m.cx != 0 {
        let n = Machine { cx: (m.cx - 1) as u16, ..scas_step(m) };
        lemma_repeat_scas(n, i);
    }
}

proof fn lemma_register_writes()
    ensures
        forall|m: Machine, reg: Register, value: u16|
            {
                let n = #[trigger] m.with_reg16(reg, value);
                same_frame(m, n) && n.ip == m.ip
            },
        forall|m: Machine, reg: Register, value: u8|
            {
                let n = #[trigger] m.with_reg8(reg, value);
                same_frame(m, n) && n.ip == m.ip
            },
{
    reveal(Machine::with_reg8);
    reveal(Machine::with_reg16);
}

proof fn lemma_popped(m: Machine, n: nat)
    ensures
        popped_n(m, n) == (Machine { sp: popped_n(m, n).sp, ..m }),
    decreases n,
{
    if n > 0 {
        lemma_popped(m, (n - 1) as nat);
    }
}

proof fn lemma_strings_frame(m: Machine, i: Instruction)
    ensures
        same_frame(m, after_strings(m, i)),
        after_strings(m, i).ip == m.ip,
{
    lemma_register_writes();
    lemma_repeat_scas(m, i);
    if i.rep_prefix {
        law_repeats_count_down(m, i, Moving::Stosb);
        law_repeats_count_down(m, i, Moving::Stosw);
        law_repeats_count_down(m, i, Moving::Movsb);
        law_repeats_count_down(m, i, Moving::Movsw);
    }
}

proof fn lemma_bits_frame(m: Machine, i: Instruction)
    ensures
        same_frame(m, after_bits(m, i)),
        after_bits(m, i).ip == m.ip,
{
    lemma_register_writes();
}

proof fn lemma_arithmetic_frame(m: Machine, i: Instruction)
    ensures
        same_frame(m, after_arithmetic(m, i)),
        after_arithmetic(m, i).ip == m.ip,
{
    lemma_register_writes();
}

proof fn lemma_data_frame(m: Machine, i: Instruction)
    ensures
        same_frame(m, after_data(m, i)),
        after_data(m, i).ip == m.ip,
{
    lemma_register_writes();
    lemma_popped(m, 8);
}

/// No instruction changes the size of memory, the state of the processor,
/// the floating point unit or the waiting programs.
pub proof fn law_instructions_keep_frame(m: Machine, i: Instruction)
    ensures
        same_frame(m, after(m, i)),
{
    reveal(after);
    lemma_strings_frame(m, i);
    lemma_bits_frame(m, i);
    lemma_arithmetic_frame(m, i);
    lemma_data_frame(m, i);
    assert(same_frame(m, after_flow(m, i)));
    assert(same_frame(m, after_flags(m, i)));
}

/// Whether flags hold none but the bits that are kept, and the reserved one
/// is set.
pub open spec fn declared(flags: u16) -> bool {
    flags & !KEPT_FLAGS == 0 && flags & RESERVED_ONE != 0
}

proof fn lemma_declared_bits(flags: u16, mask: u16, all: u16)
    by (bit_vector)
    ensures
        flags & !0x0FD7u16 == 0 && flags & 2 != 0 && (mask == 0x0001 || mask == 0x0004 || mask
            == 0x0010 || mask == 0x0040 || mask == 0x0080 || mask == 0x0400 || mask == 0x0800)
            ==> (flags | mask) & !0x0FD7u16 == 0 && (flags & !mask) & !0x0FD7u16 == 0 && (flags
            | mask) & 2 != 0 && (flags & !mask) & 2 != 0,
        ((all & 0x0FD5u16) | 2) & !0x0FD7u16 == 0,
        ((all & 0x0FD5u16) | 2) & 2 != 0,
        all & !0x0FD7u16 == 0 && all & 2 != 0 ==> ((all | 2) & 0x0FD5u16) | 2 == all,
{
}

proof fn lemma_declared()
    ensures
        forall|flags: u16, mask: u16, on: bool|
            declared(flags) && (mask == CF || mask == PF || mask == AF || mask == ZF || mask == SF
                || mask == DF || mask == OF) ==> declared(#[trigger] with_flag16(flags, mask, on)),
        forall|flags: u16| declared(#[trigger] loaded_flags(flags)),
{
    assert forall|flags: u16, mask: u16, on: bool|
        declared(flags) && (mask == CF || mask == PF || mask == AF || mask == ZF || mask == SF
            || mask == DF || mask == OF) implies declared(
        #[trigger] with_flag16(flags, mask, on),
    ) by {
        lemma_declared_bits(flags, mask, 0);
    }
    assert forall|flags: u16| declared(#[trigger] loaded_flags(flags)) by {
        lemma_declared_bits(0, 0, flags);
    }
}

/// POPF loads the flags that PUSHF stored, and the stack is as it was.
pub proof fn law_popf_undoes_pushf(m: Machine, push: Instruction, pop: Instruction)
    requires
        push.mnemonic == Mnemonic::Pushf,
        pop.mnemonic == Mnemonic::Popf,
        declared(m.flags),
        physical(m.ss, m.pushed(0).sp) + 1 < m.ram.len(),
    ensures
        after(after(m, push), pop) == (Machine { ram: after(m, push).ram, ..m }),
{
    reveal(after);
    lemma_declared_bits(0, 0, m.flags);
    super::cpu::law_pop_returns_push(m, m.flags | RESERVED_ONE);
}

proof fn lemma_register_flags()
    ensures
        forall|m: Machine, reg: Register, value: u16|
            (#[trigger] m.with_reg16(reg, value)).flags == m.flags,
        forall|m: Machine, reg: Register, value: u8|
            (#[trigger] m.with_reg8(reg, value)).flags == m.flags,
{
    reveal(Machine::with_reg8);
    reveal(Machine::with_reg16);
}

proof fn lemma_scas_declared(m: Machine, i: Instruction)
    requires
        declared(m.flags),
    ensures
        declared(repeat_scas(m, i).flags),
        declared(scas_step(m).flags),
    decreases m.cx,
{
    lemma_declared();
    if m.cx != 0 {
        lemma_scas_declared(Machine { cx: (m.cx - 1) as u16, ..scas_step(m) }, i);
    }
}

proof fn lemma_outcomes_declared()
    ensures
        forall|m: Machine, o: Outcome|
            declared(m.flags) ==> declared((#[trigger] m.with_outcome(o)).flags),
        forall|m: Machine, o: Outcome|
            declared(m.flags) ==> declared((#[trigger] adc_flags(m, o)).flags),
        forall|m: Machine, zero: bool, sign: bool|
            declared(m.flags) ==> declared((#[trigger] logic_flags(m, zero, sign)).flags),
        forall|m: Machine, wide: bool|
            declared(m.flags) ==> declared((#[trigger] wide_flags(m, wide)).flags),
        forall|m: Machine, zero: bool, sign: bool, overflow: bool, adjust: bool|
            declared(m.flags) ==> declared(
                (#[trigger] count_flags(m, zero, sign, overflow, adjust)).flags,
            ),
{
    lemma_declared();
}

proof fn lemma_bits_declared(m: Machine, i: Instruction)
    requires
        declared(m.flags),
    ensures
        declared(after_bits(m, i).flags),
{
    lemma_register_flags();
    lemma_outcomes_declared();
    lemma_declared();
    assert(declared(shift(m, i, Shift::Left).flags));
    assert(declared(shift(m, i, Shift::Right).flags));
    assert(declared(shift(m, i, Shift::Arithmetic).flags));
}

proof fn lemma_decimal_declared(m: Machine)
    requires
        declared(m.flags),
    ensures
        declared(aaa(m).flags),
        declared(das(m).flags),
{
    lemma_register_flags();
    lemma_declared();
}

proof fn lemma_arithmetic_declared(m: Machine, i: Instruction)
    requires
        declared(m.flags),
    ensures
        declared(after_arithmetic(m, i).flags),
{
    lemma_register_flags();
    lemma_outcomes_declared();
    lemma_decimal_declared(m);
}

/// The flags only ever hold the bits that are kept, and the reserved one stays
/// set.
pub proof fn law_flags_stay_declared(m: Machine, i: Instruction)
    requires
        declared(m.flags),
    ensures
        declared(after(m, i).flags),
{
    reveal(after);
    lemma_bits_declared(m, i);
    lemma_arithmetic_declared(m, i);
    lemma_scas_declared(m, i);
    lemma_declared();
    lemma_register_flags();
    lemma_popped(m, 8);
    if i.rep_prefix {
        law_repeats_count_down(m, i, Moving::Stosb);
        law_repeats_count_down(m, i, Moving::Stosw);
        law_repeats_count_down(m, i, Moving::Movsb);
        law_repeats_count_down(m, i, Moving::Movsw);
    }
}

/// Whether an instruction is a jump, a call or a return.
pub open spec fn is_branch(mnemonic: Mnemonic) -> bool {
    match mnemonic {
        Mnemonic::Je | Mnemonic::Jne | Mnemonic::Jcxz | Mnemonic::Jbe | Mnemonic::Jo
        | Mnemonic::Jae | Mnemonic::Jb | Mnemonic::Jl | Mnemonic::Jle | Mnemonic::Jmp
        | Mnemonic::Call | Mnemonic::Ret | Mnemonic::Retf | Mnemonic::Loop => true,
        _ => false,
    }
}

/// Only jumps, calls and returns move the instruction pointer.
pub proof fn law_only_branches_jump(m: Machine, i: Instruction)
    requires
        !is_branch(i.mnemonic),
    ensures
        after(m, i).ip == m.ip,
{
    reveal(after);
    lemma_strings_frame(m, i);
    lemma_bits_frame(m, i);
    lemma_arithmetic_frame(m, i);
    lemma_data_frame(m, i);
}

} // verus!
