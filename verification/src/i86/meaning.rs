//! What the 16-bit processor's instructions compute, as numbers.

use vstd::arithmetic::div_mod::{
    lemma_fundamental_div_mod, lemma_fundamental_div_mod_converse, lemma_hoist_over_denominator,
    lemma_mod_multiples_vanish,
};
use vstd::arithmetic::power2::{
    lemma2_to64, lemma2_to64_rest, lemma_pow2_adds, lemma_pow2_pos, lemma_pow2_strictly_increases,
    pow2,
};
use vstd::bits::{
    lemma_low_bits_mask_values, lemma_u16_low_bits_mask_is_mod, lemma_u16_shr_is_div,
    lemma_u32_shl_is_mul, lemma_u32_shr_is_div, lemma_u8_low_bits_mask_is_mod, lemma_u8_shr_is_div,
};
use vstd::prelude::*;

use super::alu::{
    add_outcome_16, add_outcome_8, sub_outcome_16, sub_outcome_8, wrap_16, wrap_8, Outcome,
};
use super::cpu::{
    is_byte_register, is_word_register, signed_16, signed_8, Machine, AF, CF, OF, PF, SF,
    ZF,
};
use super::exec::{
    adc, adc_flags, add_or_sub, after, compare, count_flags, multiply_signed, sbb,
    shift, shifted_16, shifted_8, shifted_out_16, shifted_out_8, wide_flags, Shift,
};
use super::laws::lemma_outcome_flags;
use super::operand::{byte_sized, effective, shift_count, writable};
use crate::bits::{even_parity, law_bits_as_numbers, law_words_as_numbers, low_byte};
use crate::cpu::arithmetic::{lemma_last_bit, lemma_lowest_digits, lemma_reduced};
use crate::decode::{Instruction, Mnemonic, OpKind, Register};

verus! {

// ---------------------------------------------------------------------------
// Multiplication
// ---------------------------------------------------------------------------

proof fn lemma_byte_product(a: int, b: int)
    by (nonlinear_arith)
    requires
        0 <= a <= 0xFF,
        0 <= b <= 0xFF,
    ensures
        0 <= a * b <= 0xFE01,
{
}

proof fn lemma_word_product(a: int, b: int)
    by (nonlinear_arith)
    requires
        0 <= a <= 0xFFFF,
        0 <= b <= 0xFFFF,
    ensures
        0 <= a * b <= 0xFFFE_0001,
{
}

proof fn lemma_signed_product(a: int, b: int, half: int)
    by (nonlinear_arith)
    requires
        half > 0,
        -half <= a < half,
        -half <= b < half,
    ensures
        -(half * half) < a * b <= half * half,
{
}

/// After MUL of a byte AX is the whole product of AL and the operand; CF and
/// OF tell whether AH is part of it.
pub proof fn law_mul_bytes(m: Machine, i: Instruction)
    requires
        i.mnemonic == Mnemonic::Mul,
        byte_sized(i),
    ensures
        ({
            let n = after(m, i);
            &&& n.ax == (m.ax % 0x100) * m.op0_8(i)
            &&& n.flag(CF) == (n.ax / 0x100 != 0)
            &&& n.flag(OF) == (n.ax / 0x100 != 0)
            &&& n.flags & !0x0801u16 == m.flags & !0x0801u16
            &&& n == (Machine { ax: n.ax, flags: n.flags, ..m })
        }),
{
    reveal(after);
    law_words_as_numbers(m.ax, 0, 0);
    lemma_byte_product(m.reg8(Register::AL) as int, m.op0_8(i) as int);
    let wide = m.reg8(Register::AL) * m.op0_8(i) > 0xFF;
    lemma_outcome_flags(m.flags, wide, false, false, false, wide, false);
}

/// After MUL of a word DX:AX is the whole product of AX and the operand; CF
/// and OF tell whether DX is part of it.
pub proof fn law_mul_words(m: Machine, i: Instruction)
    requires
        i.mnemonic == Mnemonic::Mul,
        i.op0_kind == OpKind::Register || i.op0_kind == OpKind::Memory,
        !byte_sized(i),
    ensures
        ({
            let n = after(m, i);
            &&& n.dx * 0x1_0000 + n.ax == m.ax * m.op0_16(i)
            &&& n.flag(CF) == (n.dx != 0)
            &&& n.flag(OF) == (n.dx != 0)
            &&& n.flags & !0x0801u16 == m.flags & !0x0801u16
            &&& n == (Machine { ax: n.ax, dx: n.dx, flags: n.flags, ..m })
        }),
{
    reveal(after);
    lemma_word_product(m.ax as int, m.op0_16(i) as int);
    let wide = m.ax * m.op0_16(i) > 0xFFFF;
    lemma_outcome_flags(m.flags, wide, false, false, false, wide, false);
}

proof fn lemma_wide_flags(m: Machine, wide: bool)
    ensures
        wide_flags(m, wide).flag(CF) == wide,
        wide_flags(m, wide).flag(OF) == wide,
        wide_flags(m, wide).flags & !0x0801u16 == m.flags & !0x0801u16,
        wide_flags(m, wide) == (Machine { flags: wide_flags(m, wide).flags, ..m }),
{
    lemma_outcome_flags(m.flags, wide, false, false, false, wide, false);
}

proof fn lemma_signed_words(p: int)
    requires
        -0x4000_0000 < p <= 0x4000_0000,
    ensures
        signed_16(wrap_16(p / 0x1_0000)) * 0x1_0000 + wrap_16(p) == p,
        (signed_16(wrap_16(p)) == p) == (-0x8000 <= p <= 0x7FFF),
        (p - signed_16(wrap_16(p))) % 0x1_0000 == 0,
        -0x4000 < p <= 0x4000 ==> (signed_8((wrap_16(p) % 0x100) as u8) == p) == (-0x80 <= p
            <= 0x7F),
{
}

/// After IMUL of a byte AX is the signed product of AL and the operand; CF
/// and OF tell that it is more than AL holds.
pub proof fn law_imul_bytes(m: Machine, i: Instruction)
    requires
        i.mnemonic == Mnemonic::Imul,
        i.op_count == 1,
        byte_sized(i),
    ensures
        ({
            let n = after(m, i);
            &&& signed_16(n.ax) == signed_8((m.ax % 0x100) as u8) * signed_8(m.op0_8(i))
            &&& n.flag(CF) == (signed_8((n.ax % 0x100) as u8) != signed_16(n.ax))
            &&& n.flag(OF) == n.flag(CF)
            &&& n.flags & !0x0801u16 == m.flags & !0x0801u16
            &&& n == (Machine { ax: n.ax, flags: n.flags, ..m })
        }),
{
    assert(after(m, i) == multiply_signed(m, i)) by {
        reveal(after);
    }
    assert(m.reg8(Register::AL) == (m.ax % 0x100) as u8) by {
        law_words_as_numbers(m.ax, 0, 0);
    }
    let product = signed_8(m.reg8(Register::AL)) * signed_8(m.op0_8(i));
    lemma_signed_product(signed_8(m.reg8(Register::AL)), signed_8(m.op0_8(i)), 0x80);
    lemma_wide_flags(
        Machine { ax: wrap_16(product), ..m },
        !(-0x80 <= product <= 0x7F),
    );
    lemma_signed_words(product);
}

/// After IMUL of a word DX:AX is the signed product of AX and the operand; CF
/// and OF tell that it is more than AX holds.
pub proof fn law_imul_words(m: Machine, i: Instruction)
    requires
        i.mnemonic == Mnemonic::Imul,
        i.op_count == 1,
        i.op0_kind == OpKind::Register || i.op0_kind == OpKind::Memory,
        !byte_sized(i),
    ensures
        ({
            let n = after(m, i);
            &&& signed_16(n.dx) * 0x1_0000 + n.ax == signed_16(m.ax) * signed_16(m.op0_16(i))
            &&& n.flag(CF) == (signed_16(n.ax) != signed_16(n.dx) * 0x1_0000 + n.ax)
            &&& n.flag(OF) == n.flag(CF)
            &&& n.flags & !0x0801u16 == m.flags & !0x0801u16
            &&& n == (Machine { ax: n.ax, dx: n.dx, flags: n.flags, ..m })
        }),
{
    assert(after(m, i) == multiply_signed(m, i)) by {
        reveal(after);
    }
    let product = signed_16(m.ax) * signed_16(m.op0_16(i));
    lemma_signed_product(signed_16(m.ax), signed_16(m.op0_16(i)), 0x8000);
    lemma_wide_flags(
        Machine { ax: wrap_16(product), dx: wrap_16(product / 0x1_0000), ..m },
        !(-0x8000 <= product <= 0x7FFF),
    );
    lemma_signed_words(product);
}

/// After IMUL with two operands the first one is the signed product of both,
/// unless CF and OF tell that it is more than a word holds.
pub proof fn law_imul_into_register(m: Machine, i: Instruction)
    requires
        i.mnemonic == Mnemonic::Imul,
        i.op_count == 2,
        i.op1_kind == OpKind::Register,
        is_word_register(i.op0_register),
    ensures
        ({
            let n = after(m, i);
            let a = signed_16(m.reg16(i.op0_register));
            let b = signed_16(m.reg16(i.op1_register));
            let r = signed_16(n.reg16(i.op0_register));
            &&& (a * b - r) % 0x1_0000 == 0
            &&& n.flag(CF) == (r != a * b)
            &&& n.flag(OF) == (r != a * b)
            &&& n.flags & !0x0801u16 == m.flags & !0x0801u16
            &&& n.ram == m.ram
        }),
{
    assert(after(m, i) == multiply_signed(m, i)) by {
        reveal(after);
    }
    let a = signed_16(m.reg16(i.op0_register));
    let b = signed_16(m.reg16(i.op1_register));
    let product = a * b;
    lemma_signed_product(a, b, 0x8000);
    let n = m.with_reg16(i.op0_register, wrap_16(product));
    assert(n.reg16(i.op0_register) == wrap_16(product) && n.flags == m.flags && n.ram == m.ram) by {
        reveal(Machine::with_reg16);
    }
    lemma_wide_flags(n, !(-0x8000 <= product <= 0x7FFF));
    lemma_signed_words(product);
}

// ---------------------------------------------------------------------------
// Operands
// ---------------------------------------------------------------------------

proof fn lemma_flags_move_nothing(m: Machine, n: Machine, i: Instruction)
    requires
        n == (Machine { flags: n.flags, ..m }),
    ensures
        effective(n, i) == effective(m, i),
        forall|v: u8| (#[trigger] n.put_8(i, v)).flags == n.flags,
        forall|v: u16| (#[trigger] n.put_16(i, v)).flags == n.flags,
{
    reveal(Machine::with_reg8);
    reveal(Machine::with_reg16);
}

/// The first operand reads as it was written, wherever its memory is there.
pub proof fn law_operands_read_back(m: Machine, i: Instruction, byte: u8, word: u16)
    requires
        i.op0_kind == OpKind::Memory ==> effective(m, i) + 1 < m.ram.len(),
        i.op0_kind == OpKind::Register || i.op0_kind == OpKind::Memory,
    ensures
        byte_sized(i) ==> m.put_8(i, byte).op0_8(i) == byte,
        !byte_sized(i) && writable(i) ==> m.put_16(i, word).op0_16(i) == word,
        m.put_8(i, byte).flags == m.flags,
        m.put_16(i, word).flags == m.flags,
{
    reveal(Machine::with_reg8);
    reveal(Machine::with_reg16);
    if i.op0_kind == OpKind::Register {
        if is_byte_register(i.op0_register) {
            super::cpu::law_byte_registers(m, i.op0_register, Register::SS, byte);
        }
    } else {
        assert(effective(m, i) >= 0);
        crate::bus::law_word_reads_back(m.ram, effective(m, i), word);
        assert(effective(m.put_16(i, word), i) == effective(m, i));
        assert(effective(m.put_8(i, byte), i) == effective(m, i));
    }
}

// ---------------------------------------------------------------------------
// Addition and subtraction
// ---------------------------------------------------------------------------

/// What the flags tell of a byte or word with all of them set.
pub open spec fn tells_8(n: Machine, r: u8) -> bool {
    &&& n.flag(ZF) == (r == 0)
    &&& n.flag(SF) == (signed_8(r) < 0)
}

pub open spec fn tells_16(n: Machine, r: u16) -> bool {
    &&& n.flag(ZF) == (r == 0)
    &&& n.flag(SF) == (signed_16(r) < 0)
}

/// With CF as its next bit a byte is the whole sum, and the signed one unless
/// OF is set.
pub open spec fn sums_8(n: Machine, a: u8, b: u8, carry: bool, r: u8) -> bool {
    let c: int = if carry {
        1
    } else {
        0
    };
    &&& r + (if n.flag(CF) {
        0x100int
    } else {
        0
    }) == a + b + c
    &&& n.flag(OF) == (signed_8(r) != signed_8(a) + signed_8(b) + c)
    &&& tells_8(n, r)
}

pub open spec fn sums_16(n: Machine, a: u16, b: u16, carry: bool, r: u16) -> bool {
    let c: int = if carry {
        1
    } else {
        0
    };
    &&& r + (if n.flag(CF) {
        0x1_0000int
    } else {
        0
    }) == a + b + c
    &&& n.flag(OF) == (signed_16(r) != signed_16(a) + signed_16(b) + c)
    &&& tells_16(n, r)
}

/// A byte and what was taken away are what it was taken from, with CF as a
/// borrow, and signed unless OF is set.
pub open spec fn leaves_8(n: Machine, a: u8, b: u8, borrow: bool, r: u8) -> bool {
    let c: int = if borrow {
        1
    } else {
        0
    };
    &&& r + b + c == a + (if n.flag(CF) {
        0x100int
    } else {
        0
    })
    &&& n.flag(OF) == (signed_8(r) + signed_8(b) + c != signed_8(a))
    &&& tells_8(n, r)
}

pub open spec fn leaves_16(n: Machine, a: u16, b: u16, borrow: bool, r: u16) -> bool {
    let c: int = if borrow {
        1
    } else {
        0
    };
    &&& r + b + c == a + (if n.flag(CF) {
        0x1_0000int
    } else {
        0
    })
    &&& n.flag(OF) == (signed_16(r) + signed_16(b) + c != signed_16(a))
    &&& tells_16(n, r)
}

/// AF is the carry out of the lowest four bits, or the borrow into them, and
/// PF tells the parity of the low byte.
pub open spec fn low_digits_tell(n: Machine, a: int, b: int, carry: bool, sub: bool, r: u16) -> bool {
    let c: int = if carry {
        1
    } else {
        0
    };
    let k: int = if n.flag(AF) {
        16
    } else {
        0
    };
    &&& !sub ==> r % 16 + k == a % 16 + b % 16 + c
    &&& sub ==> r % 16 + b % 16 + c == a % 16 + k
    &&& n.flag(PF) == even_parity((r % 0x100) as u8)
}

proof fn lemma_outcome(m: Machine, n: Machine, o: Outcome)
    requires
        n.flags == m.with_outcome(o).flags,
    ensures
        n.flag(CF) == o.carry,
        n.flag(ZF) == o.zero,
        n.flag(SF) == o.sign,
        n.flag(PF) == o.parity,
        n.flag(OF) == o.overflow,
        n.flag(AF) == o.adjust,
        n.flags & !0x08D5u16 == m.flags & !0x08D5u16,
{
    lemma_outcome_flags(m.flags, o.carry, o.zero, o.sign, o.parity, o.overflow, o.adjust);
}

proof fn lemma_written_8(m: Machine, i: Instruction, o: Outcome, r: u8)
    requires
        byte_sized(i),
        i.op0_kind == OpKind::Memory ==> effective(m, i) + 1 < m.ram.len(),
    ensures
        ({
            let n = m.with_outcome(o).put_8(i, r);
            &&& n.op0_8(i) == r
            &&& n.flags == m.with_outcome(o).flags
        }),
{
    let f = m.with_outcome(o);
    lemma_flags_move_nothing(m, f, i);
    law_operands_read_back(f, i, r, 0);
}

proof fn lemma_written_16(m: Machine, i: Instruction, o: Outcome, r: u16)
    requires
        i.op0_kind == OpKind::Register || i.op0_kind == OpKind::Memory,
        !byte_sized(i),
        writable(i),
        i.op0_kind == OpKind::Memory ==> effective(m, i) + 1 < m.ram.len(),
    ensures
        ({
            let n = m.with_outcome(o).put_16(i, r);
            &&& n.op0_16(i) == r
            &&& n.flags == m.with_outcome(o).flags
        }),
{
    let f = m.with_outcome(o);
    lemma_flags_move_nothing(m, f, i);
    law_operands_read_back(f, i, 0, r);
}

/// A machine whose flags are those of an outcome.
spec fn has(n: Machine, o: Outcome) -> bool {
    &&& n.flag(CF) == o.carry
    &&& n.flag(ZF) == o.zero
    &&& n.flag(SF) == o.sign
    &&& n.flag(OF) == o.overflow
}

proof fn lemma_sums_8(n: Machine, a: u8, b: u8, carry: bool)
    requires
        has(n, add_outcome_8(a, b, if carry { 1 } else { 0 })),
    ensures
        sums_8(n, a, b, carry, wrap_8(a + b + (if carry { 1int } else { 0 }))),
{
}

proof fn lemma_sums_16(n: Machine, a: u16, b: u16, carry: bool)
    requires
        has(n, add_outcome_16(a, b, if carry { 1 } else { 0 })),
    ensures
        sums_16(n, a, b, carry, wrap_16(a + b + (if carry { 1int } else { 0 }))),
{
}

proof fn lemma_leaves_8(n: Machine, a: u8, b: u8, carry: bool)
    requires
        has(n, sub_outcome_8(a, b, if carry { 1 } else { 0 })),
    ensures
        leaves_8(n, a, b, carry, wrap_8(a - b - (if carry { 1int } else { 0 }))),
{
}

proof fn lemma_leaves_16(n: Machine, a: u16, b: u16, carry: bool)
    requires
        has(n, sub_outcome_16(a, b, if carry { 1 } else { 0 })),
    ensures
        leaves_16(n, a, b, carry, wrap_16(a - b - (if carry { 1int } else { 0 }))),
{
}

proof fn lemma_low_digits(n: Machine, a: int, b: int, sub: bool, span: int)
    requires
        span == 0x100 || span == 0x1_0000,
        0 <= a < span,
        0 <= b < span,
        n.flag(AF) == (if sub {
            a % 16 - b % 16 < 0
        } else {
            a % 16 + b % 16 > 15
        }),
        n.flag(PF) == even_parity(
            low_byte(((if sub {
                a - b
            } else {
                a + b
            }) % span) as u16),
        ),
    ensures
        low_digits_tell(
            n,
            a,
            b,
            false,
            sub,
            ((if sub {
                a - b
            } else {
                a + b
            }) % span) as u16,
        ),
{
    let r = ((if sub {
        a - b
    } else {
        a + b
    }) % span) as u16;
    law_words_as_numbers(r, 0, 0);
    if sub {
        lemma_reduced(a - b, span);
        let k: int = if a - b < 0 {
            1
        } else {
            0
        };
        assert(k * span == if k == 1 {
            span
        } else {
            0
        });
        lemma_lowest_digits(r as int, b, 0, a, k, span);
    } else {
        lemma_reduced(a + b, span);
        let k: int = if a + b >= span {
            1
        } else {
            0
        };
        assert(k * span == if k == 1 {
            span
        } else {
            0
        });
        lemma_lowest_digits(a, b, 0, r as int, k, span);
    }
}

/// ADD of bytes, and SUB.
pub proof fn law_add_and_sub_bytes(m: Machine, i: Instruction)
    requires
        i.mnemonic == Mnemonic::Add || i.mnemonic == Mnemonic::Sub,
        byte_sized(i),
        i.op0_kind == OpKind::Memory ==> effective(m, i) + 1 < m.ram.len(),
    ensures
        ({
            let n = after(m, i);
            let (a, b, r) = (m.op0_8(i), m.op1_8(i), n.op0_8(i));
            &&& i.mnemonic == Mnemonic::Add ==> sums_8(n, a, b, false, r)
            &&& i.mnemonic == Mnemonic::Sub ==> leaves_8(n, a, b, false, r)
            &&& low_digits_tell(
                n,
                a as int,
                b as int,
                false,
                i.mnemonic == Mnemonic::Sub,
                r as u16,
            )
            &&& n.flags & !0x08D5u16 == m.flags & !0x08D5u16
        }),
{
    let n = after(m, i);
    let (a, b) = (m.op0_8(i), m.op1_8(i));
    let sub = i.mnemonic == Mnemonic::Sub;
    assert(n == add_or_sub(m, i, sub)) by {
        reveal(after);
    }
    if sub {
        let o = sub_outcome_8(a, b, 0);
        lemma_written_8(m, i, o, wrap_8(a - b));
        lemma_outcome(m, n, o);
        lemma_leaves_8(n, a, b, false);
    } else {
        let o = add_outcome_8(a, b, 0);
        lemma_written_8(m, i, o, wrap_8(a + b));
        lemma_outcome(m, n, o);
        lemma_sums_8(n, a, b, false);
    }
    lemma_low_digits(n, a as int, b as int, sub, 0x100);
}

/// ADD of words, and SUB.
pub proof fn law_add_and_sub_words(m: Machine, i: Instruction)
    requires
        i.mnemonic == Mnemonic::Add || i.mnemonic == Mnemonic::Sub,
        i.op0_kind == OpKind::Register || i.op0_kind == OpKind::Memory,
        !byte_sized(i),
        writable(i),
        i.op0_kind == OpKind::Memory ==> effective(m, i) + 1 < m.ram.len(),
    ensures
        ({
            let n = after(m, i);
            let (a, b, r) = (m.op0_16(i), m.op1_16_wide(i), n.op0_16(i));
            &&& i.mnemonic == Mnemonic::Add ==> sums_16(n, a, b, false, r)
            &&& i.mnemonic == Mnemonic::Sub ==> leaves_16(n, a, b, false, r)
            &&& low_digits_tell(n, a as int, b as int, false, i.mnemonic == Mnemonic::Sub, r)
            &&& n.flags & !0x08D5u16 == m.flags & !0x08D5u16
        }),
{
    let n = after(m, i);
    let (a, b) = (m.op0_16(i), m.op1_16_wide(i));
    let sub = i.mnemonic == Mnemonic::Sub;
    assert(n == add_or_sub(m, i, sub)) by {
        reveal(after);
    }
    if sub {
        let o = sub_outcome_16(a, b, 0);
        lemma_written_16(m, i, o, wrap_16(a - b));
        lemma_outcome(m, n, o);
        lemma_leaves_16(n, a, b, false);
    } else {
        let o = add_outcome_16(a, b, 0);
        lemma_written_16(m, i, o, wrap_16(a + b));
        lemma_outcome(m, n, o);
        lemma_sums_16(n, a, b, false);
    }
    lemma_low_digits(n, a as int, b as int, sub, 0x1_0000);
}

/// SBB of bytes and words also takes CF away.
pub proof fn law_sbb(m: Machine, i: Instruction)
    requires
        i.mnemonic == Mnemonic::Sbb,
        i.op0_kind == OpKind::Register || i.op0_kind == OpKind::Memory,
        writable(i),
        i.op0_kind == OpKind::Memory ==> effective(m, i) + 1 < m.ram.len(),
    ensures
        ({
            let n = after(m, i);
            &&& byte_sized(i) ==> leaves_8(n, m.op0_8(i), m.op1_8(i), m.flag(CF), n.op0_8(i))
            &&& !byte_sized(i) ==> leaves_16(n, m.op0_16(i), m.op1_16(i), m.flag(CF), n.op0_16(i))
            &&& n.flags & !0x08D5u16 == m.flags & !0x08D5u16
        }),
{
    let n = after(m, i);
    assert(n == sbb(m, i)) by {
        reveal(after);
    }
    let c = m.carry_in();
    if byte_sized(i) {
        let (a, b) = (m.op0_8(i), m.op1_8(i));
        let o = sub_outcome_8(a, b, c);
        lemma_written_8(m, i, o, wrap_8(a - b - c));
        lemma_outcome(m, n, o);
        lemma_leaves_8(n, a, b, m.flag(CF));
    } else {
        let (a, b) = (m.op0_16(i), m.op1_16(i));
        let o = sub_outcome_16(a, b, c);
        lemma_written_16(m, i, o, wrap_16(a - b - c));
        lemma_outcome(m, n, o);
        lemma_leaves_16(n, a, b, m.flag(CF));
    }
}

proof fn lemma_adc_flags(m: Machine, o: Outcome)
    ensures
        has(adc_flags(m, o), o),
        adc_flags(m, o).flags & !0x08C1u16 == m.flags & !0x08C1u16,
        adc_flags(m, o) == (Machine { flags: adc_flags(m, o).flags, ..m }),
{
    lemma_outcome_flags(m.flags, o.carry, o.zero, o.sign, o.parity, o.overflow, o.adjust);
}

/// ADC into a register also adds CF.
pub proof fn law_adc(m: Machine, i: Instruction)
    requires
        i.mnemonic == Mnemonic::Adc,
        i.op0_kind == OpKind::Register,
        writable(i),
    ensures
        ({
            let n = after(m, i);
            &&& byte_sized(i) ==> sums_8(n, m.op0_8(i), m.op1_8(i), m.flag(CF), n.op0_8(i))
            &&& !byte_sized(i) ==> sums_16(
                n,
                m.op0_16(i),
                m.op1_16_wide(i),
                m.flag(CF),
                n.op0_16(i),
            )
            &&& n.flags & !0x08C1u16 == m.flags & !0x08C1u16
        }),
{
    let n = after(m, i);
    assert(n == adc(m, i)) by {
        reveal(after);
    }
    let c = m.carry_in();
    if byte_sized(i) {
        let (a, b) = (m.op0_8(i), m.op1_8(i));
        let r = wrap_8(a + b + c);
        law_operands_read_back(m, i, r, 0);
        lemma_adc_flags(m.put_8(i, r), add_outcome_8(a, b, c));
        lemma_sums_8(n, a, b, m.flag(CF));
    } else {
        let (a, b) = (m.op0_16(i), m.op1_16_wide(i));
        let r = wrap_16(a + b + c);
        law_operands_read_back(m, i, 0, r);
        lemma_adc_flags(m.put_16(i, r), add_outcome_16(a, b, c));
        lemma_sums_16(n, a, b, m.flag(CF));
    }
}

proof fn lemma_count_flags(m: Machine, zero: bool, sign: bool, overflow: bool, adjust: bool)
    ensures
        ({
            let n = count_flags(m, zero, sign, overflow, adjust);
            &&& n.flag(ZF) == zero
            &&& n.flag(SF) == sign
            &&& n.flag(OF) == overflow
            &&& n.flag(AF) == adjust
            &&& n.flag(CF) == m.flag(CF)
            &&& n.flags & !0x08D0u16 == m.flags & !0x08D0u16
            &&& n == (Machine { flags: n.flags, ..m })
        }),
{
    lemma_outcome_flags(m.flags, false, zero, sign, false, overflow, adjust);
}

proof fn lemma_counted_8(a: u8, by: int)
    requires
        by == 1 || by == -1,
    ensures
        ({
            let r = wrap_8(a + by);
            &&& (r - a - by) % 0x100 == 0
            &&& (r % 16 != a % 16 + by) == (a % 16 == (if by == 1 {
                15int
            } else {
                0
            }))
            &&& (signed_8(r) != signed_8(a) + by) == (r == (if by == 1 {
                0x80int
            } else {
                0x7F
            }))
        }),
{
}

proof fn lemma_counted_16(a: u16, by: int)
    requires
        by == 1 || by == -1,
    ensures
        ({
            let r = wrap_16(a + by);
            &&& (r - a - by) % 0x1_0000 == 0
            &&& (r % 16 != a % 16 + by) == (a % 16 == (if by == 1 {
                15int
            } else {
                0
            }))
            &&& (signed_16(r) != signed_16(a) + by) == (r == (if by == 1 {
                0x8000int
            } else {
                0x7FFF
            }))
        }),
{
}

/// INC and DEC of a byte count by one, keep CF, and tell of the rest as ADD and
/// SUB do.
pub proof fn law_counting_bytes(m: Machine, i: Instruction)
    requires
        i.mnemonic == Mnemonic::Inc || i.mnemonic == Mnemonic::Dec,
        i.op0_kind == OpKind::Register || i.op0_kind == OpKind::Memory,
        byte_sized(i),
        writable(i),
        i.op0_kind == OpKind::Memory ==> effective(m, i) + 1 < m.ram.len(),
    ensures
        ({
            let n = after(m, i);
            let by: int = if i.mnemonic == Mnemonic::Inc {
                1
            } else {
                -1
            };
            let (a, r) = (m.op0_8(i), n.op0_8(i));
            &&& (r - a - by) % 0x100 == 0
            &&& n.flag(OF) == (signed_8(r) != signed_8(a) + by)
            &&& n.flag(AF) == (r % 16 != a % 16 + by)
            &&& tells_8(n, r)
            &&& n.flag(CF) == m.flag(CF)
            &&& n.flags & !0x08D0u16 == m.flags & !0x08D0u16
        }),
{
    let dec = i.mnemonic == Mnemonic::Dec;
    let by: int = if dec {
        -1
    } else {
        1
    };
    let n = after(m, i);
    let a = m.op0_8(i);
    let r = wrap_8(a + by);
    let over = r == (if dec { 0x7F } else { 0x80int });
    let adjust = a & 0x0F == (if dec { 0 } else { 0x0Fint });
    assert(n == count_flags(m.put_8(i, r), r == 0, r & 0x80 != 0, over, adjust)) by {
        reveal(after);
    }
    law_operands_read_back(m, i, r, 0);
    law_bits_as_numbers(0, a);
    law_bits_as_numbers(0, r);
    lemma_counted_8(a, by);
    lemma_count_flags(m.put_8(i, r), r == 0, r & 0x80 != 0, over, adjust);
}

/// INC and DEC of a word count by one, keep CF, and tell of the rest as ADD and
/// SUB do.
pub proof fn law_counting_words(m: Machine, i: Instruction)
    requires
        i.mnemonic == Mnemonic::Inc || i.mnemonic == Mnemonic::Dec,
        i.op0_kind == OpKind::Register || i.op0_kind == OpKind::Memory,
        !byte_sized(i),
        writable(i),
        i.op0_kind == OpKind::Memory ==> effective(m, i) + 1 < m.ram.len(),
    ensures
        ({
            let n = after(m, i);
            let by: int = if i.mnemonic == Mnemonic::Inc {
                1
            } else {
                -1
            };
            let (a, r) = (m.op0_16(i), n.op0_16(i));
            &&& (r - a - by) % 0x1_0000 == 0
            &&& n.flag(OF) == (signed_16(r) != signed_16(a) + by)
            &&& n.flag(AF) == (r % 16 != a % 16 + by)
            &&& tells_16(n, r)
            &&& n.flag(CF) == m.flag(CF)
            &&& n.flags & !0x08D0u16 == m.flags & !0x08D0u16
        }),
{
    let dec = i.mnemonic == Mnemonic::Dec;
    let by: int = if dec {
        -1
    } else {
        1
    };
    let n = after(m, i);
    let a = m.op0_16(i);
    let r = wrap_16(a + by);
    let over = r == (if dec { 0x7FFF } else { 0x8000int });
    let adjust = a & 0x0F == (if dec { 0 } else { 0x0Fint });
    assert(n == count_flags(m.put_16(i, r), r == 0, r & 0x8000 != 0, over, adjust)) by {
        reveal(after);
    }
    law_operands_read_back(m, i, 0, r);
    law_bits_as_numbers(a, 0);
    law_bits_as_numbers(r, 0);
    lemma_counted_16(a, by);
    lemma_count_flags(m.put_16(i, r), r == 0, r & 0x8000 != 0, over, adjust);
}

/// A comparison tells of the difference and changes nothing but the flags.
pub proof fn law_comparing(m: Machine, i: Instruction)
    requires
        i.mnemonic == Mnemonic::Compare,
        i.op0_kind == OpKind::Register,
        i.op1_kind == OpKind::Register,
    ensures
        ({
            let n = after(m, i);
            &&& n == (Machine { flags: n.flags, ..m })
            &&& n.flags & !0x08D5u16 == m.flags & !0x08D5u16
            &&& is_byte_register(i.op0_register) ==> exists|r: u8|
                leaves_8(n, m.reg8(i.op0_register), m.reg8(i.op1_register), false, r)
            &&& !is_byte_register(i.op0_register) ==> exists|r: u16|
                leaves_16(n, m.reg16(i.op0_register), m.reg16(i.op1_register), false, r)
        }),
{
    let n = after(m, i);
    assert(n == compare(m, i)) by {
        reveal(after);
    }
    if is_byte_register(i.op0_register) {
        let (a, b) = (m.reg8(i.op0_register), m.reg8(i.op1_register));
        lemma_outcome(m, n, sub_outcome_8(a, b, 0));
        lemma_leaves_8(n, a, b, false);
    } else {
        let (a, b) = (m.reg16(i.op0_register), m.reg16(i.op1_register));
        lemma_outcome(m, n, sub_outcome_16(a, b, 0));
        lemma_leaves_16(n, a, b, false);
    }
}

// ---------------------------------------------------------------------------
// Shifts
// ---------------------------------------------------------------------------

/// A multiplication by `p` that keeps what is below `all`, which is `p * h`.
proof fn lemma_left(v: int, p: int, h: int, all: int)
    requires
        p >= 1,
        h >= 1,
        p * h == all,
        v >= 0,
    ensures
        (v * p - v * p % all - (if v / h % 2 == 1 {
            all
        } else {
            0
        })) % (2 * all) == 0,
{
    let q = v / h;
    let t = v % h;
    lemma_fundamental_div_mod(v, h);
    let r = t * p;
    assert(v * p == all * q + r && 0 <= r < all && all >= 1) by (nonlinear_arith)
        requires
            v == h * q + t,
            0 <= t < h,
            p * h == all,
            p >= 1,
            h >= 1,
            r == t * p,
    ;
    assert(all * q == q * all) by (nonlinear_arith);
    lemma_fundamental_div_mod_converse(v * p, all, q, r);
    let k = q / 2;
    let top = if q % 2 == 1 {
        all
    } else {
        0
    };
    assert(all * q - top == k * (2 * all)) by (nonlinear_arith)
        requires
            q == 2 * k && top == 0 || q == 2 * k + 1 && top == all,
    ;
    lemma_fundamental_div_mod_converse(k * (2 * all), 2 * all, k, 0);
}

/// Numbers that differ by an even multiple of `h` agree in the bit of `h`.
proof fn lemma_same_bit(v: int, h: int, k: int, all: int)
    requires
        h >= 1,
        k >= 1,
        2 * h * k == all,
    ensures
        (v - all) / h % 2 == v / h % 2,
{
    assert(v - all == v + (-2 * k) * h) by (nonlinear_arith)
        requires
            2 * h * k == all,
    ;
    lemma_hoist_over_denominator(v, -2 * k, h as nat);
}

proof fn lemma_word_shifts(value: u16, n: u32)
    by (bit_vector)
    requires
        n < 16,
    ensures
        (value << n) as u32 == ((value as u32) << n) % 0x1_0000,
        (value >> n) as u32 == (value as u32) >> n,
        value < 0x8000 ==> ((value as i16) >> n) as u16 == value >> n,
        value >= 0x8000 ==> (((value as i16) >> n) as u16) as u32 == ((0xFFFF_0000u32 | (
        value as u32)) >> n) % 0x1_0000,
        (0xFFFF_0000u32 | (value as u32)) == 0xFFFF_0000u32 + (value as u32),
{
}

proof fn lemma_word_shifts_as_numbers(value: u16, n: u32)
    requires
        0 < n < 16,
    ensures
        value >> n == value as int / pow2(n as nat) as int,
        value << n == value * pow2(n as nat) % 0x1_0000,
        signed_16(((value as i16) >> n) as u16) == signed_16(value) / pow2(n as nat) as int,
        ((value >> ((n - 1) as u32)) & 1 != 0) == (value as int / pow2((n - 1) as nat) as int % 2
            == 1),
        ((value >> ((16 - n) as u32)) & 1 != 0) == (value as int / pow2((16 - n) as nat) as int % 2
            == 1),
{
    lemma2_to64();
    lemma_pow2_pos(n as nat);
    lemma_pow2_strictly_increases(n as nat, 16);
    lemma_word_shifts(value, n);
    lemma_u32_shr_is_div(value as u32, n);
    let p = pow2(n as nat) as int;
    assert(0 <= value * p <= 0xFFFF * 0x1_0000) by (nonlinear_arith)
        requires
            1 <= p < 0x1_0000,
            0 <= value < 0x1_0000,
    ;
    lemma_u32_shl_is_mul(value as u32, n);
    if value >= 0x8000 {
        let lifted = (0xFFFF_0000u32 + value) as u32;
        lemma_u32_shr_is_div(lifted, n);
        lemma_pow2_adds(n as nat, (32 - n) as nat);
        lemma2_to64_rest();
        let q = pow2((32 - n) as nat) as int;
        let s = value - 0x1_0000;
        lemma_pow2_strictly_increases(16, (32 - n) as nat);
        lemma_pow2_adds(16, (32 - n - 16) as nat);
        let k = pow2((32 - n - 16) as nat) as int;
        // The quotient of the lifted number is the signed one and a multiple
        // of the operand's values.
        assert(lifted == s + q * p) by (nonlinear_arith)
            requires
                p * q == 0x1_0000_0000,
                lifted == s + 0x1_0000_0000,
        ;
        lemma_hoist_over_denominator(s, q, p as nat);
        let r = s / p;
        assert(-0x8000 <= r < 0) by (nonlinear_arith)
            requires
                r == s / p,
                p >= 1,
                -0x8000 <= s < 0,
        ;
        assert(lifted as int / p == r + 0x1_0000 * k) by (nonlinear_arith)
            requires
                lifted as int / p == r + q,
                q == 0x1_0000 * k,
        ;
        lemma_mod_multiples_vanish(k, r, 0x1_0000);
        lemma_fundamental_div_mod_converse(r, 0x1_0000, -1, r + 0x1_0000);
    } else {
        let r = value as int / p;
        assert(0 <= r < 0x8000) by (nonlinear_arith)
            requires
                r == value as int / p,
                p >= 1,
                0 <= value < 0x8000,
        ;
    }
    lemma_word_bit(value, (n - 1) as u32);
    lemma_word_bit(value, (16 - n) as u32);
}

proof fn lemma_word_bit(value: u16, k: u32)
    requires
        k < 16,
    ensures
        ((value >> k) & 1 != 0) == (value as int / pow2(k as nat) as int % 2 == 1),
{
    lemma2_to64();
    lemma_u16_shr_is_div(value, k as u16);
    lemma_u16_low_bits_mask_is_mod(value >> k, 1);
    lemma_low_bits_mask_values();
}

/// SHR of a word register is unsigned division by a power of two and SAR the
/// signed one, both rounding down, with the last bit shifted out in CF. SHL
/// multiplies, with CF as the bit above the result. SF and ZF tell of the
/// result; the other flags stay.
pub proof fn law_word_shifts(m: Machine, i: Instruction)
    requires
        i.mnemonic == Mnemonic::Shl || i.mnemonic == Mnemonic::Sal || i.mnemonic == Mnemonic::Shr
            || i.mnemonic == Mnemonic::Sar,
        is_word_register(i.op0_register),
        0 < shift_count(m, i) < 16,
    ensures
        ({
            let n = after(m, i);
            let p = pow2(shift_count(m, i) as nat) as int;
            let (v, r) = (m.reg16(i.op0_register), n.reg16(i.op0_register));
            let (sv, sr) = (signed_16(v), signed_16(r));
            &&& i.mnemonic == Mnemonic::Shr ==> r * p <= v < (r + 1) * p && n.flag(CF) == (2 * (v - r
                * p) >= p)
            &&& i.mnemonic == Mnemonic::Sar ==> sr * p <= sv < (sr + 1) * p && n.flag(CF) == (2 * (sv
                - sr * p) >= p)
            &&& i.mnemonic == Mnemonic::Shl || i.mnemonic == Mnemonic::Sal ==> (v * p - r - (
            if n.flag(CF) {
                0x1_0000int
            } else {
                0
            })) % 0x2_0000 == 0
            &&& tells_16(n, r)
            &&& n.flags & !0x00C1u16 == m.flags & !0x00C1u16
            &&& n.ram == m.ram
        }),
{
    let c = shift_count(m, i);
    let reg = i.op0_register;
    let v = m.reg16(reg);
    let how = match i.mnemonic {
        Mnemonic::Shr => Shift::Right,
        Mnemonic::Sar => Shift::Arithmetic,
        _ => Shift::Left,
    };
    let r = shifted_16(v, c, how);
    let out = shifted_out_16(v, c, how);
    let n = after(m, i);
    assert(n == shift(m, i, how)) by {
        reveal(after);
    }
    assert(n.reg16(reg) == r && n.ram == m.ram && n.flag(CF) == out && n.flag(ZF) == (r == 0)
        && n.flag(SF) == (r & 0x8000 != 0) && n.flags & !0x00C1u16 == m.flags & !0x00C1u16) by {
        reveal(Machine::with_reg16);
        lemma_outcome_flags(m.flags, out, r == 0, r & 0x8000 != 0, false, false, false);
    }
    law_bits_as_numbers(r, 0);
    assert(c % 16 == c);
    lemma_word_shifts_as_numbers(v, c);
    lemma2_to64();
    lemma_pow2_pos((c - 1) as nat);
    lemma_pow2_adds(1, (c - 1) as nat);
    lemma_pow2_pos((16 - c) as nat);
    lemma_pow2_adds(c as nat, (16 - c) as nat);
    lemma_last_bit(v as int, pow2((c - 1) as nat) as int);
    lemma_last_bit(signed_16(v), pow2((c - 1) as nat) as int);
    lemma_same_bit(v as int, pow2((c - 1) as nat) as int, pow2((16 - c) as nat) as int, 0x1_0000);
    lemma_left(v as int, pow2(c as nat) as int, pow2((16 - c) as nat) as int, 0x1_0000);
}

proof fn lemma_byte_shifts(value: u8, n: u32)
    by (bit_vector)
    requires
        n < 8,
    ensures
        (value << n) as u32 == ((value as u32) << n) % 0x100,
        (value >> n) as u32 == (value as u32) >> n,
        value < 0x80 ==> ((value as i8) >> n) as u8 == value >> n,
        value >= 0x80 ==> (((value as i8) >> n) as u8) as u32 == ((0xFFFF_FF00u32 | (
        value as u32)) >> n) % 0x100,
        (0xFFFF_FF00u32 | (value as u32)) == 0xFFFF_FF00u32 + (value as u32),
{
}

proof fn lemma_byte_shifts_as_numbers(value: u8, n: u32)
    requires
        0 < n < 8,
    ensures
        value >> n == value as int / pow2(n as nat) as int,
        value << n == value * pow2(n as nat) % 0x100,
        signed_8(((value as i8) >> n) as u8) == signed_8(value) / pow2(n as nat) as int,
        ((value >> ((n - 1) as u32)) & 1 != 0) == (value as int / pow2((n - 1) as nat) as int % 2
            == 1),
        ((value >> ((8 - n) as u32)) & 1 != 0) == (value as int / pow2((8 - n) as nat) as int % 2
            == 1),
{
    lemma2_to64();
    lemma_pow2_pos(n as nat);
    lemma_pow2_strictly_increases(n as nat, 8);
    lemma_byte_shifts(value, n);
    lemma_u32_shr_is_div(value as u32, n);
    let p = pow2(n as nat) as int;
    assert(0 <= value * p <= 0xFF * 0x100) by (nonlinear_arith)
        requires
            1 <= p < 0x100,
            0 <= value < 0x100,
    ;
    lemma_u32_shl_is_mul(value as u32, n);
    if value >= 0x80 {
        let lifted = (0xFFFF_FF00u32 + value) as u32;
        lemma_u32_shr_is_div(lifted, n);
        lemma_pow2_adds(n as nat, (32 - n) as nat);
        lemma2_to64_rest();
        let q = pow2((32 - n) as nat) as int;
        let s = value - 0x100;
        lemma_pow2_strictly_increases(8, (32 - n) as nat);
        lemma_pow2_adds(8, (32 - n - 8) as nat);
        let k = pow2((32 - n - 8) as nat) as int;
        // The quotient of the lifted number is the signed one and a multiple
        // of the operand's values.
        assert(lifted == s + q * p) by (nonlinear_arith)
            requires
                p * q == 0x1_0000_0000,
                lifted == s + 0x1_0000_0000,
        ;
        lemma_hoist_over_denominator(s, q, p as nat);
        let r = s / p;
        assert(-0x80 <= r < 0) by (nonlinear_arith)
            requires
                r == s / p,
                p >= 1,
                -0x80 <= s < 0,
        ;
        assert(lifted as int / p == r + 0x100 * k) by (nonlinear_arith)
            requires
                lifted as int / p == r + q,
                q == 0x100 * k,
        ;
        lemma_mod_multiples_vanish(k, r, 0x100);
        lemma_fundamental_div_mod_converse(r, 0x100, -1, r + 0x100);
    } else {
        let r = value as int / p;
        assert(0 <= r < 0x80) by (nonlinear_arith)
            requires
                r == value as int / p,
                p >= 1,
                0 <= value < 0x80,
        ;
    }
    lemma_byte_bit(value, (n - 1) as u32);
    lemma_byte_bit(value, (8 - n) as u32);
}

proof fn lemma_byte_bit(value: u8, k: u32)
    requires
        k < 8,
    ensures
        ((value >> k) & 1 != 0) == (value as int / pow2(k as nat) as int % 2 == 1),
{
    lemma2_to64();
    lemma_u8_shr_is_div(value, k as u8);
    lemma_u8_low_bits_mask_is_mod(value >> k, 1);
    lemma_low_bits_mask_values();
}

/// SHR of a byte register is unsigned division by a power of two and SAR the
/// signed one, both rounding down, with the last bit shifted out in CF. SHL
/// multiplies, with CF as the bit above the result. SF and ZF tell of the
/// result; the other flags stay.
pub proof fn law_byte_shifts(m: Machine, i: Instruction)
    requires
        i.mnemonic == Mnemonic::Shl || i.mnemonic == Mnemonic::Sal || i.mnemonic == Mnemonic::Shr
            || i.mnemonic == Mnemonic::Sar,
        is_byte_register(i.op0_register),
        0 < shift_count(m, i) < 8,
    ensures
        ({
            let n = after(m, i);
            let p = pow2(shift_count(m, i) as nat) as int;
            let (v, r) = (m.reg8(i.op0_register), n.reg8(i.op0_register));
            let (sv, sr) = (signed_8(v), signed_8(r));
            &&& i.mnemonic == Mnemonic::Shr ==> r * p <= v < (r + 1) * p && n.flag(CF) == (2 * (v - r
                * p) >= p)
            &&& i.mnemonic == Mnemonic::Sar ==> sr * p <= sv < (sr + 1) * p && n.flag(CF) == (2 * (sv
                - sr * p) >= p)
            &&& i.mnemonic == Mnemonic::Shl || i.mnemonic == Mnemonic::Sal ==> (v * p - r - (
            if n.flag(CF) {
                0x100int
            } else {
                0
            })) % 0x200 == 0
            &&& tells_8(n, r)
            &&& n.flags & !0x00C1u16 == m.flags & !0x00C1u16
            &&& n.ram == m.ram
        }),
{
    let c = shift_count(m, i);
    let reg = i.op0_register;
    let v = m.reg8(reg);
    let how = match i.mnemonic {
        Mnemonic::Shr => Shift::Right,
        Mnemonic::Sar => Shift::Arithmetic,
        _ => Shift::Left,
    };
    let r = shifted_8(v, c, how);
    let out = shifted_out_8(v, c, how);
    let n = after(m, i);
    assert(n == shift(m, i, how)) by {
        reveal(after);
    }
    assert(n.reg8(reg) == r && n.ram == m.ram && n.flag(CF) == out && n.flag(ZF) == (r == 0)
        && n.flag(SF) == (r & 0x80 != 0) && n.flags & !0x00C1u16 == m.flags & !0x00C1u16) by {
        reveal(Machine::with_reg8);
        super::cpu::law_byte_registers(m, reg, Register::SS, r);
        lemma_outcome_flags(m.flags, out, r == 0, r & 0x80 != 0, false, false, false);
    }
    law_bits_as_numbers(0, r);
    assert(c % 8 == c);
    lemma_byte_shifts_as_numbers(v, c);
    lemma2_to64();
    lemma_pow2_pos((c - 1) as nat);
    lemma_pow2_adds(1, (c - 1) as nat);
    lemma_pow2_pos((8 - c) as nat);
    lemma_pow2_adds(c as nat, (8 - c) as nat);
    lemma_last_bit(v as int, pow2((c - 1) as nat) as int);
    lemma_last_bit(signed_8(v), pow2((c - 1) as nat) as int);
    lemma_same_bit(v as int, pow2((c - 1) as nat) as int, pow2((8 - c) as nat) as int, 0x100);
    lemma_left(v as int, pow2(c as nat) as int, pow2((8 - c) as nat) as int, 0x100);
}

} // verus!
