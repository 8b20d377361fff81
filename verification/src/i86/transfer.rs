//! What the 16-bit processor's instructions move, and where they go on.

use vstd::prelude::*;

use super::alu::wrap_16;
use super::cpu::{
    is_byte_register, is_word_register, physical, Machine, AF, CF, DF, OF, SF, ZF,
};
use super::exec::{
    aaa, advanced, after, condition, das, effect_of, in_done, logic, logic_flags, moving_step, not,
    popped_n, Effect, Logic, Moving,
};
use super::laws::lemma_outcome_flags;
use super::meaning::{law_operands_read_back, tells_16, tells_8};
use super::operand::{byte_sized, effective, sign_extended, string_segment, writable};
use crate::bits::{law_bits_as_numbers, law_words_as_numbers};
use crate::bus::{byte_at, word_at};
use crate::decode::{Instruction, MemorySize, Mnemonic, OpKind, Register};

verus! {

// ---------------------------------------------------------------------------
// Logic
// ---------------------------------------------------------------------------

proof fn lemma_logic(a: u16, b: u16, c: u8)
    by (bit_vector)
    ensures
        (a & b) + (a | b) == a + b,
        (a ^ b) + (a & b) == (a | b),
        (a & b) <= a && (a & b) <= b,
        !a == 0xFFFFu16 - a,
        !c == 0xFFu8 - c,
{
}

/// The instruction with another mnemonic.
pub open spec fn as_mnemonic(i: Instruction, mnemonic: Mnemonic) -> Instruction {
    Instruction { mnemonic, ..i }
}

proof fn lemma_logic_flags(m: Machine, zero: bool, sign: bool)
    ensures
        ({
            let n = logic_flags(m, zero, sign);
            &&& n.flag(ZF) == zero
            &&& n.flag(SF) == sign
            &&& !n.flag(CF)
            &&& !n.flag(OF)
            &&& n.flags & !0x08C1u16 == m.flags & !0x08C1u16
            &&& n == (Machine { flags: n.flags, ..m })
        }),
{
    lemma_outcome_flags(m.flags, false, zero, sign, false, false, false);
}

proof fn lemma_logic_bytes(m: Machine, i: Instruction, mnemonic: Mnemonic, op: Logic)
    requires
        mnemonic == Mnemonic::And && op == Logic::And || mnemonic == Mnemonic::Or && op == Logic::Or
            || mnemonic == Mnemonic::Xor && op == Logic::Xor || mnemonic == Mnemonic::Test && op
            == Logic::Test,
        byte_sized(i),
        i.op0_kind == OpKind::Memory ==> effective(m, i) + 1 < m.ram.len(),
    ensures
        ({
            let n = after(m, as_mnemonic(i, mnemonic));
            let r = super::exec::logic_8(m.op0_8(i), m.op1_8(i), op);
            &&& n.op0_8(i) == (if op == Logic::Test {
                m.op0_8(i)
            } else {
                r
            })
            &&& tells_8(n, r)
            &&& !n.flag(CF)
            &&& !n.flag(OF)
            &&& n.flags & !0x08C1u16 == m.flags & !0x08C1u16
            &&& op == Logic::Test ==> n == (Machine { flags: n.flags, ..m })
        }),
{
    let r = super::exec::logic_8(m.op0_8(i), m.op1_8(i), op);
    law_bits_as_numbers(0, r);
    law_operands_read_back(m, i, r, 0);
    let p = if op == Logic::Test {
        m
    } else {
        m.put_8(i, r)
    };
    lemma_logic_flags(p, r == 0, r & 0x80 != 0);
    let n = logic(m, i, op);
    assert(after(m, as_mnemonic(i, mnemonic)) == n) by {
        reveal(after);
    }
    assert(n == (Machine { flags: n.flags, ..p }));
    assert(effective(n, i) == effective(p, i));
}

proof fn lemma_logic_words(m: Machine, i: Instruction, mnemonic: Mnemonic, op: Logic)
    requires
        mnemonic == Mnemonic::And && op == Logic::And || mnemonic == Mnemonic::Or && op == Logic::Or
            || mnemonic == Mnemonic::Xor && op == Logic::Xor || mnemonic == Mnemonic::Test && op
            == Logic::Test,
        i.op0_kind == OpKind::Register || i.op0_kind == OpKind::Memory,
        !byte_sized(i),
        writable(i),
        i.op0_kind == OpKind::Memory ==> effective(m, i) + 1 < m.ram.len(),
    ensures
        ({
            let n = after(m, as_mnemonic(i, mnemonic));
            let r = super::exec::logic_16(m.op0_16(i), m.op1_16(i), op);
            &&& n.op0_16(i) == (if op == Logic::Test {
                m.op0_16(i)
            } else {
                r
            })
            &&& tells_16(n, r)
            &&& !n.flag(CF)
            &&& !n.flag(OF)
            &&& n.flags & !0x08C1u16 == m.flags & !0x08C1u16
            &&& op == Logic::Test ==> n == (Machine { flags: n.flags, ..m })
        }),
{
    let r = super::exec::logic_16(m.op0_16(i), m.op1_16(i), op);
    law_bits_as_numbers(r, 0);
    law_operands_read_back(m, i, 0, r);
    let p = if op == Logic::Test {
        m
    } else {
        m.put_16(i, r)
    };
    lemma_logic_flags(p, r == 0, r & 0x8000 != 0);
    let n = logic(m, i, op);
    assert(after(m, as_mnemonic(i, mnemonic)) == n) by {
        reveal(after);
    }
    assert(n == (Machine { flags: n.flags, ..p }));
    assert(effective(n, i) == effective(p, i));
}

/// AND and OR of two bytes add up to their sum; XOR is what OR has more than
/// AND, which is no more than either. TEST tells of the AND and writes
/// nothing. All four clear CF and OF.
pub proof fn law_logic_of_bytes(m: Machine, i: Instruction)
    requires
        byte_sized(i),
        i.op0_kind == OpKind::Memory ==> effective(m, i) + 1 < m.ram.len(),
    ensures
        ({
            let (a, b) = (m.op0_8(i), m.op1_8(i));
            let and = after(m, as_mnemonic(i, Mnemonic::And));
            let or = after(m, as_mnemonic(i, Mnemonic::Or));
            let xor = after(m, as_mnemonic(i, Mnemonic::Xor));
            let test = after(m, as_mnemonic(i, Mnemonic::Test));
            &&& and.op0_8(i) + or.op0_8(i) == a + b
            &&& xor.op0_8(i) + and.op0_8(i) == or.op0_8(i)
            &&& and.op0_8(i) <= a
            &&& and.op0_8(i) <= b
            &&& tells_8(and, and.op0_8(i))
            &&& tells_8(or, or.op0_8(i))
            &&& tells_8(xor, xor.op0_8(i))
            &&& tells_8(test, and.op0_8(i))
            &&& test == (Machine { flags: test.flags, ..m })
            &&& !and.flag(CF) && !or.flag(CF) && !xor.flag(CF) && !test.flag(CF)
            &&& !and.flag(OF) && !or.flag(OF) && !xor.flag(OF) && !test.flag(OF)
        }),
{
    lemma_logic_bytes(m, i, Mnemonic::And, Logic::And);
    lemma_logic_bytes(m, i, Mnemonic::Or, Logic::Or);
    lemma_logic_bytes(m, i, Mnemonic::Xor, Logic::Xor);
    lemma_logic_bytes(m, i, Mnemonic::Test, Logic::Test);
    lemma_logic(m.op0_8(i) as u16, m.op1_8(i) as u16, 0);
}

/// The same of two words.
pub proof fn law_logic_of_words(m: Machine, i: Instruction)
    requires
        i.op0_kind == OpKind::Register || i.op0_kind == OpKind::Memory,
        !byte_sized(i),
        writable(i),
        i.op0_kind == OpKind::Memory ==> effective(m, i) + 1 < m.ram.len(),
    ensures
        ({
            let (a, b) = (m.op0_16(i), m.op1_16(i));
            let and = after(m, as_mnemonic(i, Mnemonic::And));
            let or = after(m, as_mnemonic(i, Mnemonic::Or));
            let xor = after(m, as_mnemonic(i, Mnemonic::Xor));
            let test = after(m, as_mnemonic(i, Mnemonic::Test));
            &&& and.op0_16(i) + or.op0_16(i) == a + b
            &&& xor.op0_16(i) + and.op0_16(i) == or.op0_16(i)
            &&& and.op0_16(i) <= a
            &&& and.op0_16(i) <= b
            &&& tells_16(and, and.op0_16(i))
            &&& tells_16(or, or.op0_16(i))
            &&& tells_16(xor, xor.op0_16(i))
            &&& tells_16(test, and.op0_16(i))
            &&& test == (Machine { flags: test.flags, ..m })
            &&& !and.flag(CF) && !or.flag(CF) && !xor.flag(CF) && !test.flag(CF)
            &&& !and.flag(OF) && !or.flag(OF) && !xor.flag(OF) && !test.flag(OF)
        }),
{
    lemma_logic_words(m, i, Mnemonic::And, Logic::And);
    lemma_logic_words(m, i, Mnemonic::Or, Logic::Or);
    lemma_logic_words(m, i, Mnemonic::Xor, Logic::Xor);
    lemma_logic_words(m, i, Mnemonic::Test, Logic::Test);
    lemma_logic(m.op0_16(i), m.op1_16(i), 0);
}

/// NOT turns every bit over and leaves the flags alone.
pub proof fn law_not(m: Machine, i: Instruction)
    requires
        i.mnemonic == Mnemonic::Not,
        i.op0_kind == OpKind::Register || i.op0_kind == OpKind::Memory,
        writable(i),
        i.op0_kind == OpKind::Memory ==> effective(m, i) + 1 < m.ram.len(),
    ensures
        byte_sized(i) ==> after(m, i).op0_8(i) + m.op0_8(i) == 0xFF,
        !byte_sized(i) ==> after(m, i).op0_16(i) + m.op0_16(i) == 0xFFFF,
        after(m, i).flags == m.flags,
{
    assert(after(m, i) == not(m, i)) by {
        reveal(after);
    }
    lemma_logic(m.op0_16(i), 0, m.op0_8(i));
    law_operands_read_back(m, i, !m.op0_8(i), !m.op0_16(i));
}

// ---------------------------------------------------------------------------
// Decimal numbers
// ---------------------------------------------------------------------------

/// AAA after the addition of two decimal digits: AL is the digit of the sum
/// and AH has counted its carry, which CF and AF tell.
pub proof fn law_aaa_makes_a_digit(m: Machine, i: Instruction, a: u8, b: u8)
    requires
        i.mnemonic == Mnemonic::Aaa,
        a <= 9,
        b <= 9,
        m.reg8(Register::AL) == a + b,
        m.flag(AF) == (a % 16 + b % 16 > 15),
        m.reg8(Register::AH) < 0xFF,
    ensures
        ({
            let n = after(m, i);
            &&& 10 * n.reg8(Register::AH) + n.reg8(Register::AL) == 10 * m.reg8(Register::AH) + a + b
            &&& n.reg8(Register::AL) <= 9
            &&& n.flag(CF) == (a + b >= 10)
            &&& n.flag(AF) == (a + b >= 10)
        }),
{
    assert(after(m, i) == aaa(m)) by {
        reveal(after);
    }
    let al = m.reg8(Register::AL);
    law_bits_as_numbers(0, al);
    if a + b >= 10 {
        let sum = super::alu::wrap_8(al + 6);
        law_bits_as_numbers(0, sum);
        let one = m.with_reg8(Register::AL, sum & 0x0F);
        super::cpu::law_byte_registers(m, Register::AL, Register::AH, sum & 0x0F);
        let high = super::alu::wrap_8(one.reg8(Register::AH) + 1);
        super::cpu::law_byte_registers(one, Register::AH, Register::AL, high);
        let two = one.with_reg8(Register::AH, high);
        lemma_outcome_flags(two.flags, true, false, false, false, false, true);
    } else {
        let one = m.set_flag(AF, false).set_flag(CF, false);
        lemma_outcome_flags(m.flags, false, false, false, false, false, false);
        super::cpu::law_byte_registers(one, Register::AL, Register::AH, al & 0x0F);
        assert(one.with_reg8(Register::AL, al & 0x0F).flags == one.flags) by {
            reveal(Machine::with_reg8);
        }
    }
}

proof fn lemma_digits(high: int, low: int)
    requires
        0 <= low <= 15,
    ensures
        (16 * high + low) % 16 == low,
        (16 * high + low) / 16 == high,
{
}

/// The two steps of a decimal adjustment.
proof fn lemma_decimal_difference(al: int, a: int, b: int, c: int, d: int)
    requires
        0 <= a <= 9,
        0 <= b <= 9,
        0 <= c <= 9,
        0 <= d <= 9,
        al == ((16 * a + b) - (16 * c + d)) % 0x100,
    ensures
        ({
            let low = b < d;
            let high = 16 * a + b < 16 * c + d;
            let first = if low {
                (al - 6) % 0x100
            } else {
                al
            };
            let second = if high {
                (first - 0x60) % 0x100
            } else {
                first
            };
            &&& !low ==> al % 16 <= 9
            &&& !high ==> first <= 0x99
            &&& second % 16 <= 9
            &&& second / 16 <= 9
            &&& 10 * (second / 16) + second % 16 == (10 * a + b) - (10 * c + d) + (if high {
                100int
            } else {
                0
            })
            &&& high == (10 * a + b < 10 * c + d)
        }),
{
    let u = a - c;
    let w = b - d;
    assert((16 * a + b) - (16 * c + d) == 16 * u + w);
    if w >= 0 {
        if u >= 0 {
            assert(al == 16 * u + w);
            lemma_digits(u, w);
        } else {
            assert(al == 16 * (u + 16) + w);
            assert((al - 0x60) % 0x100 == 16 * (u + 10) + w);
            lemma_digits(u + 10, w);
            lemma_digits(u + 16, w);
        }
    } else {
        if u >= 1 {
            assert(al == 16 * u + w);
            assert((al - 6) % 0x100 == 16 * (u - 1) + (w + 10));
            lemma_digits(u - 1, w + 10);
        } else {
            assert(al == 16 * (u + 16) + w);
            assert((al - 6) % 0x100 == 16 * (u + 15) + (w + 10));
            assert((16 * (u + 15) + (w + 10) - 0x60) % 0x100 == 16 * (u + 9) + (w + 10));
            lemma_digits(u + 9, w + 10);
        }
    }
}

/// DAS after the subtraction of two packed decimal numbers of two digits: AL
/// is their decimal difference, from 100 up where CF tells a borrow.
pub proof fn law_das_makes_decimal(m: Machine, i: Instruction, a: int, b: int, c: int, d: int)
    requires
        i.mnemonic == Mnemonic::Das,
        0 <= a <= 9,
        0 <= b <= 9,
        0 <= c <= 9,
        0 <= d <= 9,
        m.reg8(Register::AL) == ((16 * a + b) - (16 * c + d)) % 0x100,
        m.flag(AF) == (b < d),
        m.flag(CF) == (16 * a + b < 16 * c + d),
    ensures
        ({
            let n = after(m, i);
            let r = n.reg8(Register::AL) as int;
            &&& r % 16 <= 9
            &&& r / 16 <= 9
            &&& 10 * (r / 16) + r % 16 == (10 * a + b) - (10 * c + d) + (if n.flag(CF) {
                100int
            } else {
                0
            })
            &&& n.flag(CF) == (10 * a + b < 10 * c + d)
            &&& n.flag(AF) == (b < d)
            &&& n.flag(ZF) == (r == 0)
        }),
{
    assert(after(m, i) == das(m)) by {
        reveal(after);
    }
    let al = m.reg8(Register::AL);
    law_bits_as_numbers(0, al);
    lemma_decimal_difference(al as int, a, b, c, d);
    let low = b < d;
    let high = 16 * a + b < 16 * c + d;
    let first = if low {
        super::alu::wrap_8(al - 6)
    } else {
        al
    };
    let second = if high {
        super::alu::wrap_8(first - 0x60)
    } else {
        first
    };
    let carry = high;
    let one = m.set_flag(AF, low);
    let two = one.with_reg8(Register::AL, second);
    super::cpu::law_byte_registers(one, Register::AL, Register::AH, second);
    assert(two.flags == one.flags) by {
        reveal(Machine::with_reg8);
    }
    lemma_outcome_flags(m.flags, carry, second == 0, second & 0x80 != 0, false, false, low);
}

// ---------------------------------------------------------------------------
// Moving data
// ---------------------------------------------------------------------------

/// MOV makes the first operand the second one: a register, memory, or a
/// number. It changes no flag.
pub proof fn law_mov(m: Machine, i: Instruction)
    requires
        i.mnemonic == Mnemonic::Mov,
        i.op0_kind == OpKind::Register || i.op0_kind == OpKind::Memory,
        i.op0_kind == OpKind::Memory ==> effective(m, i) + 1 < m.ram.len(),
        i.op0_kind == OpKind::Memory && i.op1_kind == OpKind::Register ==> is_byte_register(
            i.op1_register,
        ) == (i.memory_size == MemorySize::UInt8),
        i.op0_kind == OpKind::Memory && i.op1_kind == OpKind::Immediate8 ==> i.memory_size
            == MemorySize::UInt8,
        i.op0_kind == OpKind::Memory && i.op1_kind == OpKind::Immediate16 ==> i.memory_size
            != MemorySize::UInt8,
        i.op0_kind == OpKind::Register && i.op1_kind == OpKind::Immediate8 ==> byte_sized(i),
        i.op0_kind == OpKind::Register && i.op1_kind == OpKind::Immediate16 ==> !byte_sized(i),
        writable(i),
    ensures
        ({
            let n = after(m, i);
            &&& n.flags == m.flags
            &&& byte_sized(i) && i.op1_kind == OpKind::Register ==> n.op0_8(i) == m.reg8(
                i.op1_register,
            )
            &&& byte_sized(i) && i.op1_kind == OpKind::Immediate8 ==> n.op0_8(i) == i.immediate
                % 0x100
            &&& byte_sized(i) && i.op0_kind == OpKind::Register && i.op1_kind == OpKind::Memory
                ==> n.op0_8(i) == byte_at(m.ram, effective(m, i))
            &&& !byte_sized(i) && i.op1_kind == OpKind::Register ==> n.op0_16(i) == m.reg16(
                i.op1_register,
            )
            &&& !byte_sized(i) && i.op1_kind == OpKind::Immediate16 ==> n.op0_16(i) == i.immediate
            &&& !byte_sized(i) && i.op0_kind == OpKind::Register && i.op1_kind == OpKind::Memory
                ==> n.op0_16(i) == word_at(m.ram, effective(m, i))
        }),
{
    assert(after(m, i) == super::exec::mov(m, i)) by {
        reveal(after);
    }
    law_words_as_numbers(i.immediate, 0, 0);
    let b = match i.op1_kind {
        OpKind::Register => m.reg8(i.op1_register),
        OpKind::Memory => byte_at(m.ram, effective(m, i)),
        _ => super::operand::immediate8(i),
    };
    let w = match i.op1_kind {
        OpKind::Register => m.reg16(i.op1_register),
        OpKind::Memory => word_at(m.ram, effective(m, i)),
        _ => i.immediate,
    };
    law_operands_read_back(m, i, b, w);
    assert(m.with_reg16(i.op0_register, sign_extended(super::operand::immediate8(i))).flags
        == m.flags) by {
        reveal(Machine::with_reg16);
    }
}

proof fn lemma_rest_divides(sum: int)
    ensures
        (sum - sum % 0x1_0000) % 0x1_0000 == 0,
{
}

/// LEA loads the offset of its operand, not what is there: base, scaled index
/// and displacement, modulo 64 KB.
pub proof fn law_lea(m: Machine, i: Instruction)
    requires
        i.mnemonic == Mnemonic::Lea,
        is_word_register(i.op0_register),
    ensures
        ({
            let n = after(m, i);
            &&& (m.reg16(i.memory_base) + m.reg16(i.memory_index) * i.memory_index_scale
                + i.memory_displacement - n.reg16(i.op0_register)) % 0x1_0000 == 0
            &&& n.ram == m.ram
            &&& n.flags == m.flags
        }),
{
    assert(after(m, i) == super::exec::lea(m, i)) by {
        reveal(after);
    }
    let sum = m.reg16(i.memory_base) + m.reg16(i.memory_index) * i.memory_index_scale
        + i.memory_displacement;
    let r = (sum % 0x1_0000) as u16;
    assert(m.with_reg16(i.op0_register, r).reg16(i.op0_register) == r && m.with_reg16(
        i.op0_register,
        r,
    ).ram == m.ram && m.with_reg16(i.op0_register, r).flags == m.flags) by {
        reveal(Machine::with_reg16);
    }
    lemma_rest_divides(sum);
}

/// A memory operand lies in the data segment unless a prefix names another
/// one, and addresses wrap at one megabyte.
pub proof fn law_segments_of_operands(m: Machine, i: Instruction, offset: u16)
    ensures
        physical(m.ds, offset) == m.ds * 16 + offset || physical(m.ds, offset) == m.ds * 16 + offset
            - 0x10_0000,
        0 <= physical(m.ds, offset) < 0x10_0000,
        i.segment_prefix == Register::ES ==> m.segment(i.segment_prefix) == m.es
            && string_segment(m, i) == m.es,
        i.segment_prefix == Register::CS ==> m.segment(i.segment_prefix) == m.cs
            && string_segment(m, i) == m.cs,
        i.segment_prefix == Register::SS ==> m.segment(i.segment_prefix) == m.ss
            && string_segment(m, i) == m.ss,
        i.segment_prefix == Register::DS ==> m.segment(i.segment_prefix) == m.ds
            && string_segment(m, i) == m.ds,
        is_byte_register(i.segment_prefix) ==> m.segment(i.segment_prefix) == m.ds
            && string_segment(m, i) == m.ds,
{
}

proof fn lemma_reload(m: Machine, reg: Register, value: u16)
    requires
        is_word_register(reg),
    ensures
        m.with_reg16(reg, value).reg16(reg) == value,
        reg != Register::SP ==> m.with_reg16(reg, value).sp == m.sp,
        value == m.reg16(reg) ==> m.with_reg16(reg, value) == m,
{
    reveal(Machine::with_reg16);
}

proof fn lemma_push(m: Machine, i: Instruction)
    requires
        i.mnemonic == Mnemonic::Push,
        i.op0_kind == OpKind::Register,
    ensures
        after(m, i) == m.pushed(m.reg16(i.op0_register)),
{
    reveal(after);
}

proof fn lemma_pop(m: Machine, i: Instruction)
    requires
        i.mnemonic == Mnemonic::Pop,
        i.op0_kind == OpKind::Register,
    ensures
        after(m, i) == m.popped().with_reg16(i.op0_register, m.top()),
{
    reveal(after);
}

/// What PUSH stores POP loads: into the same register it leaves all of them
/// as they were, into another one it copies.
pub proof fn law_push_and_pop(m: Machine, push: Instruction, pop: Instruction)
    requires
        push.mnemonic == Mnemonic::Push,
        pop.mnemonic == Mnemonic::Pop,
        push.op0_kind == OpKind::Register,
        pop.op0_kind == OpKind::Register,
        is_word_register(push.op0_register),
        is_word_register(pop.op0_register),
        physical(m.ss, m.pushed(0).sp) + 1 < m.ram.len(),
    ensures
        ({
            let half = after(m, push);
            let n = after(half, pop);
            &&& half.sp == m.sp - 2 || half.sp == m.sp + 0xFFFE
            &&& n.reg16(pop.op0_register) == m.reg16(push.op0_register)
            &&& pop.op0_register != Register::SP ==> n.sp == m.sp
            &&& pop.op0_register == push.op0_register ==> n == (Machine { ram: half.ram, ..m })
        }),
{
    let value = m.reg16(push.op0_register);
    let half = after(m, push);
    lemma_push(m, push);
    lemma_pop(half, pop);
    super::cpu::law_pop_returns_push(m, value);
    lemma_reload(half.popped(), pop.op0_register, value);
}

proof fn lemma_popped_n(m: Machine, n: nat)
    requires
        n <= 8,
        m.sp <= 0xFFE0,
    ensures
        popped_n(m, n) == (Machine { sp: (m.sp + 2 * n) as u16, ..m }),
    decreases n,
{
    if n > 0 {
        lemma_popped_n(m, (n - 1) as nat);
    }
}

/// POPA loads seven registers from eight words, DI first and AX last; the
/// fourth word, which is the stack pointer's, is left out.
pub proof fn law_popa(m: Machine, i: Instruction)
    requires
        i.mnemonic == Mnemonic::Popa,
        m.sp <= 0xFFE0,
    ensures
        ({
            let n = after(m, i);
            &&& n.di == word_at(m.ram, physical(m.ss, m.sp))
            &&& n.si == word_at(m.ram, physical(m.ss, (m.sp + 2) as u16))
            &&& n.bp == word_at(m.ram, physical(m.ss, (m.sp + 4) as u16))
            &&& n.bx == word_at(m.ram, physical(m.ss, (m.sp + 8) as u16))
            &&& n.dx == word_at(m.ram, physical(m.ss, (m.sp + 10) as u16))
            &&& n.cx == word_at(m.ram, physical(m.ss, (m.sp + 12) as u16))
            &&& n.ax == word_at(m.ram, physical(m.ss, (m.sp + 14) as u16))
            &&& n.sp == m.sp + 16
            &&& n.flags == m.flags
            &&& n.ram == m.ram
        }),
{
    assert(after(m, i) == super::exec::popa(m)) by {
        reveal(after);
    }
    lemma_popped_n(m, 0);
    lemma_popped_n(m, 1);
    lemma_popped_n(m, 2);
    lemma_popped_n(m, 4);
    lemma_popped_n(m, 5);
    lemma_popped_n(m, 6);
    lemma_popped_n(m, 7);
    lemma_popped_n(m, 8);
}

/// LODS loads AL or AX from the string and moves SI over it.
pub proof fn law_lods(m: Machine, i: Instruction)
    requires
        i.mnemonic == Mnemonic::Lodsb || i.mnemonic == Mnemonic::Lodsw,
    ensures
        ({
            let n = after(m, i);
            let size: int = if i.mnemonic == Mnemonic::Lodsb {
                1
            } else {
                2
            };
            let at = physical(string_segment(m, i), m.si);
            &&& i.mnemonic == Mnemonic::Lodsb ==> n.reg8(Register::AL) == byte_at(m.ram, at)
                && n.reg8(Register::AH) == m.reg8(Register::AH)
            &&& i.mnemonic == Mnemonic::Lodsw ==> n.ax == word_at(m.ram, at)
            &&& !m.flag(DF) && m.si + size <= 0xFFFF ==> n.si == m.si + size
            &&& m.flag(DF) && m.si >= size ==> n.si == m.si - size
            &&& n == (Machine { ax: n.ax, si: n.si, ..m })
        }),
{
    let word = i.mnemonic == Mnemonic::Lodsw;
    assert(after(m, i) == super::exec::lods(m, i, word)) by {
        reveal(after);
    }
    let value = byte_at(m.ram, physical(string_segment(m, i), m.si));
    super::cpu::law_byte_registers(m, Register::AL, Register::AH, value);
    let half = m.with_reg8(Register::AL, value);
    assert(half == (Machine { ax: half.ax, ..m })) by {
        reveal(Machine::with_reg8);
    }
    law_direction(m, m.si, if word {
        2
    } else {
        1
    });
}

/// A string index moves up, or down where the direction flag is set.
pub proof fn law_direction(m: Machine, index: u16, by: int)
    requires
        0 < by <= 2,
    ensures
        !m.flag(DF) ==> (advanced(m, index, by) == index + by || advanced(m, index, by) == index + by
            - 0x1_0000),
        m.flag(DF) ==> (advanced(m, index, by) == index - by || advanced(m, index, by) == index - by
            + 0x1_0000),
{
}

/// One STOS or MOVS: the place that ES:DI points to holds AL, AX or what the
/// source has; nothing else in memory changes.
pub proof fn law_string_step(m: Machine, i: Instruction, op: Moving, other: int)
    requires
        physical(m.es, m.di) + 1 < m.ram.len(),
        op == Moving::Movsw ==> physical(m.es, m.di) != physical(string_segment(m, i), m.si) + 1,
        other != physical(m.es, m.di),
        op == Moving::Stosw || op == Moving::Movsw ==> other != physical(m.es, m.di) + 1,
    ensures
        ({
            let n = moving_step(m, i, op);
            let to = physical(m.es, m.di);
            let from = physical(string_segment(m, i), m.si);
            &&& op == Moving::Stosb ==> byte_at(n.ram, to) == m.ax % 0x100
            &&& op == Moving::Stosw ==> word_at(n.ram, to) == m.ax
            &&& op == Moving::Movsb ==> byte_at(n.ram, to) == byte_at(m.ram, from)
            &&& op == Moving::Movsw ==> word_at(n.ram, to) == word_at(m.ram, from)
            &&& byte_at(n.ram, other) == byte_at(m.ram, other)
            &&& n == (Machine { ram: n.ram, si: n.si, di: n.di, ..m })
        }),
{
    law_words_as_numbers(m.ax, 0, 0);
    crate::bits::lemma_word_of_bytes(m.ax);
}

// ---------------------------------------------------------------------------
// Flow
// ---------------------------------------------------------------------------

/// LOOP counts CX down by one and goes to its target unless that made it
/// zero. It changes no flag.
pub proof fn law_loop(m: Machine, i: Instruction)
    requires
        i.mnemonic == Mnemonic::Loop,
    ensures
        ({
            let n = after(m, i);
            &&& m.cx > 0 ==> n.cx == m.cx - 1
            &&& m.cx == 0 ==> n.cx == 0xFFFF
            &&& m.cx == 1 ==> n.ip == m.ip
            &&& m.cx != 1 ==> n.ip == i.memory_displacement as u16
            &&& n == (Machine { cx: n.cx, ip: n.ip, ..m })
        }),
{
    assert(after(m, i) == super::exec::loop_cx(m, i)) by {
        reveal(after);
    }
}

/// A conditional jump goes to its target if its condition holds and else goes
/// on; either way it changes nothing else.
pub proof fn law_conditional_jumps(m: Machine, i: Instruction)
    requires
        i.mnemonic == Mnemonic::Je || i.mnemonic == Mnemonic::Jne || i.mnemonic == Mnemonic::Jcxz
            || i.mnemonic == Mnemonic::Jbe || i.mnemonic == Mnemonic::Jo || i.mnemonic
            == Mnemonic::Jae || i.mnemonic == Mnemonic::Jb || i.mnemonic == Mnemonic::Jl
            || i.mnemonic == Mnemonic::Jle,
    ensures
        after(m, i) == (Machine {
            ip: if condition(m, i.mnemonic) {
                i.memory_displacement as u16
            } else {
                m.ip
            },
            ..m
        }),
        condition(m, Mnemonic::Jne) == !condition(m, Mnemonic::Je),
        condition(m, Mnemonic::Jae) == !condition(m, Mnemonic::Jb),
        condition(m, Mnemonic::Jbe) == (condition(m, Mnemonic::Jb) || condition(m, Mnemonic::Je)),
        condition(m, Mnemonic::Jle) == (condition(m, Mnemonic::Jl) || condition(m, Mnemonic::Je)),
        condition(m, Mnemonic::Jcxz) == (m.cx == 0),
{
    assert(after(m, i) == super::exec::jump_if(m, i, condition(m, i.mnemonic))) by {
        reveal(after);
    }
}

/// A call leaves the address behind it on the stack and goes where a jump
/// with its operand goes.
pub proof fn law_calls_jump(m: Machine, i: Instruction)
    requires
        i.mnemonic == Mnemonic::Call,
        i.op0_kind == OpKind::FarBranch16 || i.op0_kind == OpKind::Register && is_word_register(
            i.op0_register,
        ) && i.op0_register != Register::SP,
        physical(m.ss, m.pushed(m.ip).sp) + 1 < m.ram.len(),
        physical(m.ss, m.pushed(m.cs).pushed(m.ip).sp) + 1 < m.ram.len(),
    ensures
        ({
            let n = after(m, i);
            let j = after(m, as_mnemonic(i, Mnemonic::Jmp));
            &&& n.cs == j.cs
            &&& n.ip == j.ip
            &&& n.top() == m.ip
            &&& j == (Machine { cs: j.cs, ip: j.ip, ..m })
            &&& i.op0_kind == OpKind::Register ==> n.ip == m.reg16(i.op0_register) && n.cs == m.cs
        }),
{
    reveal(after);
    super::cpu::law_pop_returns_push(m, m.ip);
    super::cpu::law_pop_returns_push(m.pushed(m.cs), m.ip);
}

/// RETF with a number takes so many bytes more off the stack.
pub proof fn law_retf_drops(m: Machine, plain: Instruction, drops: Instruction)
    requires
        plain.mnemonic == Mnemonic::Retf,
        drops.mnemonic == Mnemonic::Retf,
        plain.op0_kind != OpKind::Immediate16,
        drops.op0_kind == OpKind::Immediate16,
    ensures
        ({
            let n = after(m, drops);
            let p = after(m, plain);
            &&& n == (Machine { sp: n.sp, ..p })
            &&& n.sp == wrap_16(p.sp + drops.immediate)
            &&& p.sp == wrap_16(m.sp + 4)
            &&& p.ip == word_at(m.ram, physical(m.ss, m.sp))
            &&& p.cs == word_at(m.ram, physical(m.ss, wrap_16(m.sp + 2)))
        }),
{
    assert(after(m, plain) == super::exec::retf(m, plain)) by {
        reveal(after);
    }
    assert(after(m, drops) == super::exec::retf(m, drops)) by {
        reveal(after);
    }
}

/// STC, CLC, STD and CLD set or clear their flag and leave the others.
pub proof fn law_flag_instructions(m: Machine, i: Instruction)
    requires
        i.mnemonic == Mnemonic::Stc || i.mnemonic == Mnemonic::Clc || i.mnemonic == Mnemonic::Std
            || i.mnemonic == Mnemonic::Cld,
    ensures
        ({
            let n = after(m, i);
            &&& i.mnemonic == Mnemonic::Stc ==> n.flag(CF)
            &&& i.mnemonic == Mnemonic::Clc ==> !n.flag(CF)
            &&& i.mnemonic == Mnemonic::Std ==> n.flag(DF)
            &&& i.mnemonic == Mnemonic::Cld ==> !n.flag(DF)
            &&& i.mnemonic == Mnemonic::Stc || i.mnemonic == Mnemonic::Clc ==> n.flags & !1u16
                == m.flags & !1u16
            &&& i.mnemonic == Mnemonic::Std || i.mnemonic == Mnemonic::Cld ==> n.flags & !0x400u16
                == m.flags & !0x400u16
            &&& n == (Machine { flags: n.flags, ..m })
        }),
{
    reveal(after);
    lemma_outcome_flags(m.flags, true, false, true, false, false, false);
    lemma_outcome_flags(m.flags, false, false, false, false, false, false);
}

/// OUT sends AL to the port in DX or in the instruction; IN asks the same
/// port, and what comes back reads in its register.
pub proof fn law_ports(m: Machine, i: Instruction, value: u8)
    requires
        i.op0_register == Register::AL || i.op0_register == Register::AX,
        i.op1_register == Register::AL || i.op1_register == Register::AX,
    ensures
        i.mnemonic == Mnemonic::Out && i.op0_kind == OpKind::Register ==> effect_of(m, i)
            == Effect::Out(m.dx, (m.ax % 0x100) as u8),
        i.mnemonic == Mnemonic::Out && i.op0_kind == OpKind::Immediate8 ==> effect_of(m, i)
            == Effect::Out((i.immediate % 0x100) as u16, (m.ax % 0x100) as u8),
        i.mnemonic == Mnemonic::In && i.op1_kind == OpKind::Register ==> effect_of(m, i)
            == Effect::In(m.dx, i.op0_register),
        i.mnemonic == Mnemonic::In && i.op1_kind == OpKind::Immediate8 ==> effect_of(m, i)
            == Effect::In((i.immediate % 0x100) as u16, i.op0_register),
        i.mnemonic == Mnemonic::Int ==> effect_of(m, i) == Effect::Interrupt(
            (i.immediate % 0x100) as u8,
        ),
        in_done(m, i.op0_register, value).reg8(Register::AL) == value,
        in_done(m, Register::AL, value).reg8(Register::AH) == m.reg8(Register::AH),
{
    law_words_as_numbers(m.ax, 0, 0);
    law_words_as_numbers(i.immediate, 0, 0);
    law_words_as_numbers(value as u16, 0, 0);
    super::cpu::law_byte_registers(m, Register::AL, Register::AH, value);
    super::cpu::law_word_registers(m, Register::AX, Register::BX, value as u16);
}

} // verus!
