//! Arithmetic and logic with flag results, for 8, 16 and 32-bit operands.
//!
//! Operands are passed as u32 holding the zero-extended value; `size` is
//! the operand size in bytes. Results are masked to the operand size.

use vstd::arithmetic::div_mod::{
    lemma_hoist_over_denominator, lemma_mod_add_multiples_vanish, lemma_mod_multiples_vanish,
};
use vstd::arithmetic::power2::{lemma2_to64, lemma2_to64_rest, lemma_pow2_pos, lemma_pow2_strictly_increases, pow2};
use vstd::bits::lemma_u64_shl_is_mul;
use vstd::prelude::*;

use super::mem::is_operand_size;
use super::state::{Core, Cpu, CpuFlags, AF, CF, OF, PF, SF, ZF};
use crate::bits::{even_parity, parity_even};

verus! {

/// The flags arithmetic instructions set.
pub const ARITH: u32 = 0x08D5;

/// The flags shifts set, and those that rotates do.
pub const SHIFT_FLAGS: u32 = 0x08C5;

pub const ROTATE_FLAGS: u32 = 0x0801;

/// Shift and rotate operations.
#[derive(Clone, Copy, Debug, PartialEq, Eq, Structural)]
pub enum ShiftOp {
    Rol,
    Ror,
    Rcl,
    Rcr,
    Shl,
    Shr,
    Sar,
}

/// How many values an operand of `size` bytes has.
pub open spec fn value_count(size: u8) -> int {
    if size == 1 {
        0x100
    } else if size == 2 {
        0x1_0000
    } else {
        0x1_0000_0000
    }
}

/// The number that an operand's bits are in two's complement.
pub open spec fn signed(size: u8, value: u32) -> int {
    let v = value as int % value_count(size);
    if v >= value_count(size) / 2 {
        v - value_count(size)
    } else {
        v
    }
}

/// Whether a number is one of an operand's signed values.
pub open spec fn fits(size: u8, value: int) -> bool {
    -(value_count(size) / 2) <= value < value_count(size) / 2
}

pub open spec fn flag_if(on: bool, mask: u32) -> u32 {
    if on {
        mask
    } else {
        0
    }
}

/// The topmost bit of an operand, and the bit below it.
pub open spec fn top_bit(size: u8, value: u32) -> bool {
    value as int % value_count(size) >= value_count(size) / 2
}

pub open spec fn second_bit(size: u8, value: u32) -> bool {
    value as int % (value_count(size) / 2) >= value_count(size) / 4
}

/// SF, ZF and PF of a result.
pub open spec fn result_flags(size: u8, result: u32) -> u32 {
    flag_if(result as int % value_count(size) == 0, ZF) | flag_if(top_bit(size, result), SF)
        | flag_if(even_parity(result as u8), PF)
}

/// What `a + b + carry` leaves of the operand's bits.
pub open spec fn sum(size: u8, a: u32, b: u32, carry: int) -> u32 {
    ((a + b + carry) % value_count(size)) as u32
}

/// What `a - b - borrow` leaves of the operand's bits.
pub open spec fn difference(size: u8, a: u32, b: u32, borrow: int) -> u32 {
    ((a - b - borrow) % value_count(size)) as u32
}

/// The flags of a sum: it does not fit unsigned (CF), it does not fit signed
/// (OF), its lowest digits carry (AF).
pub open spec fn sum_flags(size: u8, a: u32, b: u32, carry: int) -> u32 {
    result_flags(size, sum(size, a, b, carry)) | flag_if(a + b + carry >= value_count(size), CF)
        | flag_if(!fits(size, signed(size, a) + signed(size, b) + carry), OF) | flag_if(
        a % 16 + b % 16 + carry > 15,
        AF,
    )
}

/// The flags of a difference.
pub open spec fn difference_flags(size: u8, a: u32, b: u32, borrow: int) -> u32 {
    result_flags(size, difference(size, a, b, borrow)) | flag_if(a - b - borrow < 0, CF) | flag_if(
        !fits(size, signed(size, a) - signed(size, b) - borrow),
        OF,
    ) | flag_if(a % 16 - b % 16 - borrow < 0, AF)
}

/// The bits that leave `width` bits on the left come back on the right.
/// `span` is 2 to the power of the width.
pub open spec fn rotated_left(value: int, n: nat, span: int) -> int {
    value * pow2(n) % span + value * pow2(n) / span
}

/// The bits that leave `width` bits on the right come back on the left.
pub open spec fn rotated_right(value: int, n: nat, width: nat) -> int {
    value / pow2(n) as int + value % pow2(n) as int * pow2((width - n) as nat)
}

/// The value, carry and overflow that a shift or rotate gives.
pub struct Shifted {
    pub value: u32,
    pub carry: bool,
    pub overflow: bool,
}

/// How far SHL and SHR go. Shifting a byte or word by a multiple of its width
/// past the width itself leaves CF with the last bit shifted out, as a shift
/// by the width does.
pub open spec fn logical_count(size: u8, count: u32) -> nat {
    if count > 8 * size && count as int % (8 * size) == 0 {
        8 * size as nat
    } else {
        count as nat
    }
}

/// What a shift or rotate by a count other than 0 gives.
pub open spec fn shifted(op: ShiftOp, size: u8, value: u32, count: u32, carry: bool) -> Shifted {
    let all = value_count(size);
    let v = value as int % all;
    let bits = 8 * size as nat;
    let with_carry = if carry {
        all + v
    } else {
        v
    };
    match op {
        ShiftOp::Shl => {
            let wide = v * pow2(logical_count(size, count));
            let r = (wide % all) as u32;
            let c = wide / all % 2 == 1;
            Shifted { value: r, carry: c, overflow: top_bit(size, r) != c }
        },
        ShiftOp::Shr => {
            let n = logical_count(size, count);
            let r = (v / pow2(n) as int) as u32;
            Shifted {
                value: r,
                carry: v / pow2((n - 1) as nat) as int % 2 == 1,
                overflow: top_bit(size, r) != second_bit(size, r),
            }
        },
        ShiftOp::Sar => {
            let s = signed(size, value);
            Shifted {
                value: (s / pow2(count as nat) as int % all) as u32,
                carry: s / pow2((count - 1) as nat) as int % 2 == 1,
                overflow: false,
            }
        },
        ShiftOp::Rol => {
            let r = rotated_left(v, (count as nat % bits) as nat, all) as u32;
            Shifted { value: r, carry: r % 2 == 1, overflow: top_bit(size, r) != (r % 2 == 1) }
        },
        ShiftOp::Ror => {
            let r = rotated_right(v, (count as nat % bits) as nat, bits) as u32;
            Shifted {
                value: r,
                carry: top_bit(size, r),
                overflow: top_bit(size, r) != second_bit(size, r),
            }
        },
        ShiftOp::Rcl => {
            let turned = rotated_left(with_carry, (count as nat % (bits + 1)) as nat, 2 * all);
            let r = (turned % all) as u32;
            let c = turned / all % 2 == 1;
            Shifted { value: r, carry: c, overflow: top_bit(size, r) != c }
        },
        ShiftOp::Rcr => {
            let turned = rotated_right(
                with_carry,
                (count as nat % (bits + 1)) as nat,
                bits + 1,
            );
            let r = (turned % all) as u32;
            let c = turned / all % 2 == 1;
            Shifted {
                value: r,
                carry: c,
                overflow: top_bit(size, r) != second_bit(size, r),
            }
        },
    }
}

/// Whether an operation is a rotate.
pub open spec fn rotates(op: ShiftOp) -> bool {
    op == ShiftOp::Rol || op == ShiftOp::Ror || op == ShiftOp::Rcl || op == ShiftOp::Rcr
}

/// What SHLD and SHRD by a count other than 0 give: the operand with the
/// source twice behind it, or before it, shifted.
pub open spec fn double_shifted(
    left: bool,
    size: u8,
    dest: u32,
    src: u32,
    count: u32,
) -> Shifted {
    let all = value_count(size);
    let d = dest as int % all;
    let s = src as int % all;
    if left {
        let wide = (d * all * all + s * all + s) * pow2(count as nat);
        let r = (wide / (all * all) % all) as u32;
        let c = wide / (all * all * all) % 2 == 1;
        Shifted { value: r, carry: c, overflow: top_bit(size, r) != c }
    } else {
        let wide = s * all * all + s * all + d;
        let r = (wide / pow2(count as nat) as int % all) as u32;
        Shifted {
            value: r,
            carry: wide / pow2((count - 1) as nat) as int % 2 == 1,
            overflow: top_bit(size, r) != second_bit(size, r),
        }
    }
}

impl Core {
    /// The flags in `mask` replaced.
    pub open spec fn with_flag_bits(self, mask: u32, bits: u32) -> Core {
        self.with_flags((self.flags & !mask) | (bits & mask))
    }

    pub open spec fn with_shifted(self, size: u8, s: Shifted, rotate: bool) -> Core {
        let f = flag_if(s.carry, CF) | flag_if(s.overflow, OF);
        if rotate {
            self.with_flag_bits(ROTATE_FLAGS, f)
        } else {
            self.with_flag_bits(SHIFT_FLAGS, f | result_flags(size, s.value))
        }
    }

    /// A shift or rotate: the state it leaves and the value it gives. A count
    /// of 0 changes nothing.
    pub open spec fn shift(self, op: ShiftOp, size: u8, value: u32, count: u32) -> (Core, u32) {
        if count == 0 {
            (self, value)
        } else {
            let s = shifted(op, size, value, count, self.flags & CF != 0);
            (self.with_shifted(size, s, rotates(op)), s.value)
        }
    }
}

/// Mask of an operand of `size` bytes.
pub fn size_mask(size: u8) -> (mask: u32)
    ensures
        mask == value_count(size) - 1,
{
    match size {
        1 => 0xFF,
        2 => 0xFFFF,
        _ => 0xFFFF_FFFF,
    }
}

/// Sign bit of an operand of `size` bytes.
pub fn sign_bit(size: u8) -> (bit: u32)
    requires
        1 <= size <= 4,
    ensures
        bit == pow2((8 * size - 1) as nat),
{
    proof {
        lemma2_to64();
    }
    match size {
        1 => 0x80,
        2 => 0x8000,
        3 => 0x80_0000,
        _ => 0x8000_0000,
    }
}

/// Sign-extend an operand of `size` bytes to 32 bits.
pub fn sign_extend(size: u8, value: u32) -> (wide: u32)
    ensures
        wide == signed(size, value) % 0x1_0000_0000,
{
    match size {
        1 => if value % 0x100 >= 0x80 {
            value % 0x100 + 0xFFFF_FF00
        } else {
            value % 0x100
        },
        2 => if value % 0x1_0000 >= 0x8000 {
            value % 0x1_0000 + 0xFFFF_0000
        } else {
            value % 0x1_0000
        },
        _ => value,
    }
}

fn count_of(size: u8) -> (all: u64)
    ensures
        all == value_count(size),
{
    match size {
        1 => 0x100,
        2 => 0x1_0000,
        _ => 0x1_0000_0000,
    }
}

fn signed_of(size: u8, value: u32) -> (n: i64)
    ensures
        n == signed(size, value),
        -0x8000_0000 <= n <= 0x7FFF_FFFF,
{
    let all: i64 = count_of(size) as i64;
    let v: i64 = value as i64 % all;
    if v >= all / 2 {
        v - all
    } else {
        v
    }
}

fn flag(on: bool, mask: u32) -> (bits: u32)
    ensures
        bits == flag_if(on, mask),
{
    if on {
        mask
    } else {
        0
    }
}

fn top(size: u8, value: u32) -> (on: bool)
    ensures
        on == top_bit(size, value),
{
    let all: u64 = count_of(size);
    value as u64 % all >= all / 2
}

fn below_top(size: u8, value: u32) -> (on: bool)
    ensures
        on == second_bit(size, value),
{
    let all: u64 = count_of(size);
    value as u64 % (all / 2) >= all / 4
}

/// SF, ZF and PF of a result.
fn szp(size: u8, result: u32) -> (flags: u32)
    ensures
        flags == result_flags(size, result),
{
    flag(result as u64 % count_of(size) == 0, ZF) | flag(top(size, result), SF) | flag(
        parity_even(result as u8),
        PF,
    )
}

/// `a - b - borrow`, cut to the operand's bits.
fn subtract(size: u8, a: u32, b: u32, borrow: u64) -> (r: u32)
    requires
        is_operand_size(size),
        borrow <= 1,
    ensures
        r == difference(size, a, b, borrow as int),
{
    // Lifted by a multiple of the operand's values, so that it is not
    // negative.
    let wide: u64 = 0x2_0000_0000 + a as u64 - b as u64 - borrow;
    proof {
        let d = a - b - borrow;
        if size == 1 {
            lemma_mod_multiples_vanish(0x200_0000, d, 0x100);
        } else if size == 2 {
            lemma_mod_multiples_vanish(0x2_0000, d, 0x1_0000);
        } else {
            lemma_mod_multiples_vanish(2, d, 0x1_0000_0000);
        }
    }
    (wide % count_of(size)) as u32
}

/// 2 to the power of `n`.
fn power(n: u32) -> (p: u64)
    requires
        n <= 33,
    ensures
        p == pow2(n as nat),
        1 <= p <= 0x2_0000_0000,
        n <= 31 ==> p <= 0x8000_0000,
{
    proof {
        lemma2_to64();
        lemma2_to64_rest();
        lemma_pow2_pos(n as nat);
        if n < 33 {
            lemma_pow2_strictly_increases(n as nat, 33);
        }
        if n < 31 {
            lemma_pow2_strictly_increases(n as nat, 31);
        }
        assert(1 * pow2(n as nat) <= u64::MAX);
        lemma_u64_shl_is_mul(1, n as u64);
    }
    1u64 << n
}

proof fn lemma_product(a: int, b: int, x: int, y: int)
    by (nonlinear_arith)
    requires
        0 <= a <= x,
        0 <= b <= y,
    ensures
        0 <= a * b <= x * y,
{
}

fn rotate_left(value: u64, n: u32, span: u64) -> (r: u64)
    requires
        n <= 31,
        value < 0x2_0000_0000,
        2 <= span <= 0x2_0000_0000,
    ensures
        r == rotated_left(value as int, n as nat, span as int),
{
    let p: u64 = power(n);
    proof {
        lemma_product(value as int, p as int, 0x1_FFFF_FFFF, 0x8000_0000);
        let wide = value * p;
        assert(wide % (span as int) < span && wide / (span as int) <= wide / 2) by (nonlinear_arith)
            requires
                0 <= wide,
                span >= 2,
        ;
    }
    let wide: u64 = value * p;
    wide % span + wide / span
}

fn rotate_right(value: u64, n: u32, width: u32) -> (r: u64)
    requires
        n <= 31,
        n <= width <= 33,
        value < 0x2_0000_0000,
    ensures
        r == rotated_right(value as int, n as nat, width as nat),
{
    let p: u64 = power(n);
    let q: u64 = power(width - n);
    proof {
        let low = value as int % p as int;
        assert(0 <= low < p && 0 <= value as int / p as int <= value) by (nonlinear_arith)
            requires
                p >= 1,
                low == value as int % p as int,
        ;
        lemma_product(low, q as int, 0x7FFF_FFFF, 0x2_0000_0000);
    }
    value / p + value % p * q
}

/// A signed number divided by a power of two, as the operand's bits hold the
/// result, and whether the result is odd.
fn divide_signed(size: u8, value: u32, n: u32) -> (r: (u32, bool))
    requires
        n <= 31,
    ensures
        r.0 == (signed(size, value) / pow2(n as nat) as int % value_count(size)) as u32,
        r.1 == (signed(size, value) / pow2(n as nat) as int % 2 == 1),
{
    let p: u64 = power(n);
    let all: u64 = count_of(size);
    let s: i64 = signed_of(size, value);
    proof {
        lemma_product(all as int, p as int, 0x1_0000_0000, 0x8000_0000);
        assert(all <= all * p) by (nonlinear_arith)
            requires
                p >= 1,
                all >= 1,
        ;
        lemma_hoist_over_denominator(s as int, all as int, p as nat);
        lemma_mod_add_multiples_vanish(s as int / p as int, all as int);
    }
    // Lifted by a multiple of the divisor, so that it is not negative.
    let lifted: u64 = if s < 0 {
        all * p - (-s) as u64
    } else {
        all * p + s as u64
    };
    assert(lifted == s + all * p);
    let quotient: u64 = lifted / p;
    assert(quotient == s as int / p as int + all);
    ((quotient % all) as u32, quotient % 2 == 1)
}

impl Cpu {
    /// Replace the flags in `mask` with `bits`.
    pub fn set_flag_bits(&mut self, mask: u32, bits: u32)
        ensures
            final(self)@ == old(self)@.with_flag_bits(mask, bits),
    {
        self.flags = CpuFlags { bits: (self.flags.bits & !mask) | (bits & mask) };
    }

    fn flag_bits(&self) -> (bits: u32)
        ensures
            bits == self@.flags,
    {
        self.flags.bits
    }

    /// Set PF from the low byte of `result`.
    pub fn update_pf(&mut self, result: u32)
        ensures
            final(self)@ == old(self)@.with_flag_bits(PF, flag_if(even_parity(result as u8), PF)),
    {
        let pf: u32 = flag(parity_even(result as u8), PF);
        self.set_flag_bits(PF, pf);
    }

    /// Set SF, ZF and PF from `result`, and clear CF, OF and AF, as the
    /// logic instructions do.
    pub fn alu_logic(&mut self, size: u8, result: u32) -> (r: u32)
        requires
            is_operand_size(size),
        ensures
            r == result as int % value_count(size),
            final(self)@ == old(self)@.with_flag_bits(ARITH, result_flags(size, r)),
    {
        let r: u32 = (result as u64 % count_of(size)) as u32;
        self.set_flag_bits(ARITH, szp(size, r));
        r
    }

    /// ADD, and ADC with `carry_in`.
    pub fn alu_add(&mut self, size: u8, a: u32, b: u32, carry_in: bool) -> (r: u32)
        requires
            is_operand_size(size),
        ensures
            r == sum(size, a, b, carry_in as int),
            final(self)@ == old(self)@.with_flag_bits(
                ARITH,
                sum_flags(size, a, b, carry_in as int),
            ),
    {
        let all: u64 = count_of(size);
        let c: u64 = if carry_in {
            1
        } else {
            0
        };
        let wide: u64 = a as u64 + b as u64 + c;
        let r: u32 = (wide % all) as u32;
        let s: i64 = signed_of(size, a) + signed_of(size, b) + c as i64;
        let half: i64 = (all / 2) as i64;
        let f: u32 = szp(size, r) | flag(wide >= all, CF) | flag(s < -half || s >= half, OF) | flag(
            a as u64 % 16 + b as u64 % 16 + c > 15,
            AF,
        );
        self.set_flag_bits(ARITH, f);
        r
    }

    /// SUB and the comparison, and SBB with `borrow_in`.
    pub fn alu_sub(&mut self, size: u8, a: u32, b: u32, borrow_in: bool) -> (r: u32)
        requires
            is_operand_size(size),
        ensures
            r == difference(size, a, b, borrow_in as int),
            final(self)@ == old(self)@.with_flag_bits(
                ARITH,
                difference_flags(size, a, b, borrow_in as int),
            ),
    {
        let all: u64 = count_of(size);
        let c: u64 = if borrow_in {
            1
        } else {
            0
        };
        let r: u32 = subtract(size, a, b, c);
        let s: i64 = signed_of(size, a) - signed_of(size, b) - c as i64;
        let half: i64 = (all / 2) as i64;
        let f: u32 = szp(size, r) | flag((a as u64) < b as u64 + c, CF) | flag(
            s < -half || s >= half,
            OF,
        ) | flag((a as u64 % 16) < b as u64 % 16 + c, AF);
        self.set_flag_bits(ARITH, f);
        r
    }

    /// INC: ADD 1 that leaves CF alone.
    pub fn alu_inc(&mut self, size: u8, a: u32) -> (r: u32)
        requires
            is_operand_size(size),
        ensures
            r == sum(size, a, 1, 0),
            final(self)@ == old(self)@.with_flag_bits(
                ARITH,
                sum_flags(size, a, 1, 0),
            ).with_flag_bits(CF, old(self)@.flags & CF),
    {
        let cf: u32 = self.flag_bits() & CF;
        let r: u32 = self.alu_add(size, a, 1, false);
        self.set_flag_bits(CF, cf);
        r
    }

    /// DEC: SUB 1 that leaves CF alone.
    pub fn alu_dec(&mut self, size: u8, a: u32) -> (r: u32)
        requires
            is_operand_size(size),
        ensures
            r == difference(size, a, 1, 0),
            final(self)@ == old(self)@.with_flag_bits(
                ARITH,
                difference_flags(size, a, 1, 0),
            ).with_flag_bits(CF, old(self)@.flags & CF),
    {
        let cf: u32 = self.flag_bits() & CF;
        let r: u32 = self.alu_sub(size, a, 1, false);
        self.set_flag_bits(CF, cf);
        r
    }

    /// NEG: 0 - a, with CF set unless a is 0.
    pub fn alu_neg(&mut self, size: u8, a: u32) -> (r: u32)
        requires
            is_operand_size(size),
        ensures
            r == difference(size, 0, a, 0),
            final(self)@ == old(self)@.with_flag_bits(ARITH, difference_flags(size, 0, a, 0)),
    {
        self.alu_sub(size, 0, a, false)
    }

    /// Shift or rotate `value` by `count`, which the caller has already
    /// masked to 5 bits. A count of 0 changes neither the value nor flags.
    pub fn alu_shift(&mut self, op: ShiftOp, size: u8, value: u32, count: u32) -> (r: u32)
        requires
            is_operand_size(size),
            count < 32,
        ensures
            (final(self)@, r) == old(self)@.shift(op, size, value, count),
    {
        if count == 0 {
            return value;
        }
        let carry_in = self.flag_bits() & CF != 0;
        let (r, cf, of): (u32, bool, bool) = Cpu::shift_result(op, size, value, count, carry_in);
        let f: u32 = flag(cf, CF) | flag(of, OF);
        match op {
            ShiftOp::Shl | ShiftOp::Shr | ShiftOp::Sar => {
                // Shifts set SF, ZF and PF from the result; AF is undefined.
                self.set_flag_bits(SHIFT_FLAGS, f | szp(size, r));
            },
            _ => {
                // Rotates only change CF and OF.
                self.set_flag_bits(ROTATE_FLAGS, f);
            },
        }
        r
    }

    /// The value, carry and overflow of a shift or rotate.
    fn shift_result(op: ShiftOp, size: u8, value: u32, count: u32, carry_in: bool) -> (r: (
        u32,
        bool,
        bool,
    ))
        requires
            is_operand_size(size),
            0 < count < 32,
        ensures
            ({
                let s = shifted(op, size, value, count, carry_in);
                &&& r.0 == s.value
                &&& r.1 == s.carry
                &&& r.2 == s.overflow
            }),
    {
        let all: u64 = count_of(size);
        let v: u64 = value as u64 % all;
        let bits: u32 = size as u32 * 8;
        // A shift past the width by a multiple of it leaves CF with the last
        // bit shifted out; other counts past the width shift CF out to 0.
        // That's what a 386 does.
        let n: u32 = if count > bits && count % bits == 0 {
            bits
        } else {
            count
        };
        proof {
            assert(count as int % (bits + 1) <= count && count as int % bits as int <= count)
                by (nonlinear_arith)
                requires
                    bits >= 8,
            ;
        }
        match op {
            ShiftOp::Shl => {
                let p: u64 = power(n);
                proof {
                    lemma_product(v as int, p as int, 0xFFFF_FFFF, 0x1_0000_0000);
                }
                let wide: u64 = v * p;
                let r: u32 = (wide % all) as u32;
                let cf = wide / all % 2 == 1;
                (r, cf, top(size, r) != cf)
            },
            ShiftOp::Shr => {
                let r: u32 = (v / power(n)) as u32;
                // The top two bits of the result differ: for a shift by 1,
                // the original sign bit.
                (r, v / power(n - 1) % 2 == 1, top(size, r) != below_top(size, r))
            },
            ShiftOp::Sar => {
                let (r, _): (u32, bool) = divide_signed(size, value, count);
                let (_, cf): (u32, bool) = divide_signed(size, value, count - 1);
                (r, cf, false)
            },
            ShiftOp::Rol => {
                let r: u32 = rotate_left(v, count % bits, all) as u32;
                let cf = r % 2 == 1;
                (r, cf, top(size, r) != cf)
            },
            ShiftOp::Ror => {
                let r: u32 = rotate_right(v, count % bits, bits) as u32;
                let cf = top(size, r);
                (r, cf, cf != below_top(size, r))
            },
            ShiftOp::Rcl => {
                // Rotate through a (bits + 1)-bit value with CF on top.
                let wide: u64 = if carry_in {
                    all + v
                } else {
                    v
                };
                let turned: u64 = rotate_left(wide, count % (bits + 1), 2 * all);
                let r: u32 = (turned % all) as u32;
                let cf = turned / all % 2 == 1;
                (r, cf, top(size, r) != cf)
            },
            ShiftOp::Rcr => {
                let wide: u64 = if carry_in {
                    all + v
                } else {
                    v
                };
                let turned: u64 = rotate_right(wide, count % (bits + 1), bits + 1);
                let r: u32 = (turned % all) as u32;
                (r, turned / all % 2 == 1, top(size, r) != below_top(size, r))
            },
        }
    }

    /// SHLD/SHRD: shift `dest` by `count` (already masked to 5 bits),
    /// filling the vacated bits from `src`.
    pub fn alu_double_shift(&mut self, left: bool, size: u8, dest: u32, src: u32, count: u32) -> (r:
        u32)
        requires
            is_operand_size(size),
            count < 32,
        ensures
            count == 0 ==> r == dest && final(self)@ == old(self)@,
            count != 0 ==> ({
                let s = double_shifted(left, size, dest, src, count);
                &&& r == s.value
                &&& final(self)@ == old(self)@.with_shifted(size, s, false)
            }),
    {
        if count == 0 {
            return dest;
        }
        // A 386 shifts dest:src:src (SHLD) or src:src:dest (SHRD), so a
        // 16-bit operand shifted by 16 to 31 gets the source rotated in.
        let all: u128 = count_of(size) as u128;
        let d: u128 = dest as u128 % all;
        let s: u128 = src as u128 % all;
        let p: u128 = power(count) as u128;
        let (high, low): (u128, u128) = if left {
            (d, s)
        } else {
            (s, d)
        };
        proof {
            lemma_product(high as int, all as int, 0xFFFF_FFFF, 0x1_0000_0000);
            lemma_product(high * all, all as int, 0xFFFF_FFFF_0000_0000, 0x1_0000_0000);
            lemma_product(s as int, all as int, 0xFFFF_FFFF, 0x1_0000_0000);
            lemma_product(all as int, all as int, 0x1_0000_0000, 0x1_0000_0000);
            lemma_product(all * all, all as int, 0x1_0000_0000_0000_0000, 0x1_0000_0000);
            assert(all * all >= 1 && all * all * all >= 1) by (nonlinear_arith)
                requires
                    all >= 1,
            ;
        }
        let wide: u128 = high * all * all + s * all + low;
        let (r, cf, of): (u32, bool, bool) = if left {
            proof {
                lemma_product(wide as int, p as int, 0xFFFF_FFFF_FFFF_FFFF_FFFF_FFFF, 0x8000_0000);
            }
            let moved: u128 = wide * p;
            let r: u32 = (moved / (all * all) % all) as u32;
            let cf = moved / (all * all * all) % 2 == 1;
            (r, cf, top(size, r) != cf)
        } else {
            let r: u32 = (wide / p % all) as u32;
            (
                r,
                wide / (power(count - 1) as u128) % 2 == 1,
                top(size, r) != below_top(size, r),
            )
        };
        self.set_flag_bits(SHIFT_FLAGS, flag(cf, CF) | flag(of, OF) | szp(size, r));
        r
    }
}

/// Subtracting what was added gives the operand back.
pub proof fn law_sub_undoes_add(size: u8, a: u32, b: u32, carry: bool)
    requires
        is_operand_size(size),
        a < value_count(size),
    ensures
        difference(size, sum(size, a, b, carry as int), b, carry as int) == a,
{
    let c = carry as int;
    let n = value_count(size);
    vstd::arithmetic::div_mod::lemma_sub_mod_noop(a + b + c, b + c, n);
    vstd::arithmetic::div_mod::lemma_sub_mod_noop((a + b + c) % n, b + c, n);
    vstd::arithmetic::div_mod::lemma_mod_twice(a + b + c, n);
    vstd::arithmetic::div_mod::lemma_small_mod(a as nat, n as nat);
}

/// A comparison of equal operands, and of no others, sets the zero flag; the
/// carry flag tells which is the greater one unsigned.
pub proof fn law_comparison(size: u8, a: u32, b: u32)
    requires
        is_operand_size(size),
        a < value_count(size),
        b < value_count(size),
    ensures
        (difference(size, a, b, 0) == 0) == (a == b),
        (difference_flags(size, a, b, 0) & ZF != 0) == (a == b),
        (difference_flags(size, a, b, 0) & CF != 0) == (a < b),
{
    let n = value_count(size);
    assert((a - b) % n == (if a >= b {
        a - b
    } else {
        a - b + n
    })) by {
        if size == 1 {
            assert(n == 0x100);
        } else if size == 2 {
            assert(n == 0x1_0000);
        } else {
            assert(n == 0x1_0000_0000);
        }
    }
    let z = flag_if(difference(size, a, b, 0) as int % value_count(size) == 0, ZF);
    let s = flag_if(top_bit(size, difference(size, a, b, 0)), SF);
    let p = flag_if(even_parity(difference(size, a, b, 0) as u8), PF);
    let c = flag_if(a - b - 0 < 0, CF);
    let o = flag_if(!fits(size, signed(size, a) - signed(size, b) - 0), OF);
    let f = flag_if(a % 16 - b % 16 - 0 < 0, AF);
    lemma_flag_parts(z, s, p, c, o, f);
}

pub(crate) proof fn lemma_flag_parts(z: u32, s: u32, p: u32, c: u32, o: u32, f: u32)
    by (bit_vector)
    requires
        z == 0 || z == 0x40,
        s == 0 || s == 0x80,
        p == 0 || p == 4,
        c == 0 || c == 1,
        o == 0 || o == 0x800,
        f == 0 || f == 0x10,
    ensures
        (z | s | p | c | o | f) & 0x40 == z,
        (z | s | p | c | o | f) & 1 == c,
        (z | s | p | c | o | f) & 0x80 == s,
        (z | s | p | c | o | f) & 4 == p,
        (z | s | p | c | o | f) & 0x800 == o,
        (z | s | p | c | o | f) & 0x10 == f,
        (z | s | p | 0 | 0 | 0) == (z | s | p),
        (c | o) & 1 == c,
        (c | o) & 0x800 == o,
        ((c | o) | (z | s | p)) == (z | s | p | c | o | 0),
{
}

/// Turning left and then right by the same count gives the value back.
pub proof fn law_rotations_undo(value: nat, n: nat, width: nat)
    requires
        n <= width,
        value < pow2(width),
    ensures
        rotated_right(rotated_left(value as int, n, pow2(width) as int), n, width) == value,
        0 <= rotated_left(value as int, n, pow2(width) as int) < pow2(width),
{
    let p = pow2(n) as int;
    let q = pow2((width - n) as nat) as int;
    let span = pow2(width) as int;
    lemma_pow2_pos(n);
    lemma_pow2_pos((width - n) as nat);
    vstd::arithmetic::power2::lemma_pow2_adds(n, (width - n) as nat);
    let v = value as int;
    let high = v / q;
    let low = v % q;
    vstd::arithmetic::div_mod::lemma_fundamental_div_mod(v, q);
    assert(span == p * q);
    assert(v * p == span * high + low * p) by (nonlinear_arith)
        requires
            v == q * high + low,
            span == p * q,
    ;
    assert(0 <= low * p < span) by (nonlinear_arith)
        requires
            0 <= low < q,
            p >= 1,
            span == p * q,
    ;
    assert(0 <= high < p) by (nonlinear_arith)
        requires
            v == q * high + low,
            0 <= low,
            0 <= v < p * q,
            q >= 1,
            high == v / q,
    ;
    vstd::arithmetic::div_mod::lemma_fundamental_div_mod_converse(v * p, span, high, low * p);
    assert(high * span == span * high) by (nonlinear_arith);
    let turned = low * p + high;
    assert(rotated_left(v, n, span) == turned);
    assert(0 <= turned < span) by (nonlinear_arith)
        requires
            turned == low * p + high,
            0 <= low < q,
            0 <= high < p,
            span == p * q,
    ;
    assert(turned == p * low + high) by (nonlinear_arith)
        requires
            turned == low * p + high,
    ;
    vstd::arithmetic::div_mod::lemma_fundamental_div_mod_converse(turned, p, low, high);
    assert(low * p == p * low) by (nonlinear_arith);
    assert(low + high * q == v) by (nonlinear_arith)
        requires
            v == q * high + low,
    ;
}

/// Which flags are the new ones and which the old, where the arithmetic
/// flags, those of a shift, those of a rotate or the carry alone are replaced.
pub(crate) proof fn lemma_flags_replaced(flags: u32, bits: u32)
    by (bit_vector)
    ensures
        ({
            let t = (flags & !0x8D5u32) | (bits & 0x8D5);
            &&& t & 1 == bits & 1
            &&& t & 4 == bits & 4
            &&& t & 0x10 == bits & 0x10
            &&& t & 0x40 == bits & 0x40
            &&& t & 0x80 == bits & 0x80
            &&& t & 0x800 == bits & 0x800
            &&& t & !0x8D5u32 == flags & !0x8D5u32
        }),
        ({
            let t = (flags & !0x8C5u32) | (bits & 0x8C5);
            &&& t & 1 == bits & 1
            &&& t & 4 == bits & 4
            &&& t & 0x10 == flags & 0x10
            &&& t & 0x40 == bits & 0x40
            &&& t & 0x80 == bits & 0x80
            &&& t & 0x800 == bits & 0x800
            &&& t & !0x8D5u32 == flags & !0x8D5u32
        }),
        ({
            let t = (flags & !0x801u32) | (bits & 0x801);
            &&& t & 1 == bits & 1
            &&& t & 4 == flags & 4
            &&& t & 0x10 == flags & 0x10
            &&& t & 0x40 == flags & 0x40
            &&& t & 0x80 == flags & 0x80
            &&& t & 0x800 == bits & 0x800
            &&& t & !0x8D5u32 == flags & !0x8D5u32
        }),
        ({
            let t = (flags & !1u32) | (bits & 1);
            &&& t & 1 == bits & 1
            &&& t & !1u32 == flags & !1u32
        }),
        (flags & 1) & 1 == flags & 1,
{
}

proof fn lemma_rotate_flags(flags: u32, c: u32, o: u32)
    requires
        c == 0 || c == 1,
        o == 0 || o == 0x800,
    ensures
        ((flags & !0x801u32) | ((c | o) & 0x801)) & 1 == c,
{
    lemma_flag_parts(0, 0, 0, c, o, 0);
    lemma_flags_replaced(flags, c | o);
}

/// After a rotate the carry flag is the rotate's carry.
proof fn lemma_carry_kept(s: Core, size: u8, r: Shifted)
    ensures
        (s.with_shifted(size, r, true).flags & CF != 0) == r.carry,
{
    lemma_rotate_flags(s.flags, flag_if(r.carry, CF), flag_if(r.overflow, OF));
}

/// RCR undoes RCL by the same count: the operand and the carry flag are as
/// they were. ROR undoes ROL the same way for the operand.
pub proof fn law_rotates_undo(s: Core, size: u8, value: u32, count: u32)
    requires
        is_operand_size(size),
        value < value_count(size),
        count < 32,
    ensures
        ({
            let (t, turned) = s.shift(ShiftOp::Rcl, size, value, count);
            let (u, back) = t.shift(ShiftOp::Rcr, size, turned, count);
            back == value && (u.flags & CF != 0) == (s.flags & CF != 0)
        }),
        ({
            let (t, turned) = s.shift(ShiftOp::Rol, size, value, count);
            t.shift(ShiftOp::Ror, size, turned, count).1 == value
        }),
{
    let bits = 8 * size as nat;
    let all = value_count(size);
    lemma2_to64();
    lemma2_to64_rest();
    assert(pow2(bits) == all && pow2(bits + 1) == 2 * all);
    if count != 0 {
        lemma_rcr_undoes_rcl(s, size, value, count);
        let n = (count as nat % bits) as nat;
        law_rotations_undo(value as nat, n, bits);
        assert(value as int % all == value);
        let l = shifted(ShiftOp::Rol, size, value, count, s.flags & CF != 0);
        assert(l.value == rotated_left(value as int, n, all));
        assert(l.value as int % all == l.value);
    }
}

proof fn lemma_rcr_undoes_rcl(s: Core, size: u8, value: u32, count: u32)
    requires
        is_operand_size(size),
        value < value_count(size),
        0 < count < 32,
        pow2(8 * size as nat + 1) == 2 * value_count(size),
    ensures
        ({
            let (t, turned) = s.shift(ShiftOp::Rcl, size, value, count);
            let (u, back) = t.shift(ShiftOp::Rcr, size, turned, count);
            back == value && (u.flags & CF != 0) == (s.flags & CF != 0)
        }),
{
    let width = 8 * size as nat + 1;
    let all = value_count(size);
    let n = (count as nat % width) as nat;
    let carry = s.flags & CF != 0;
    let wide = if carry {
        all + value
    } else {
        value as int
    };
    law_rotations_undo(wide as nat, n, width);
    let turned = rotated_left(wide, n, 2 * all);
    assert(value as int % all == value);
    let l = shifted(ShiftOp::Rcl, size, value, count, carry);
    lemma_halves(turned, all);
    assert(l.value == turned % all);
    let t = s.with_shifted(size, l, true);
    lemma_carry_kept(s, size, l);
    assert(l.value as int % all == l.value);
    let r = shifted(ShiftOp::Rcr, size, l.value, count, l.carry);
    lemma_halves(wide, all);
    assert(r.value == value && r.carry == carry);
    lemma_carry_kept(t, size, r);
}

/// A number below twice `all` has a carry and a rest below `all`.
pub(crate) proof fn lemma_halves(wide: int, all: int)
    requires
        all > 0,
        0 <= wide < 2 * all,
    ensures
        wide % all == (if wide >= all {
            wide - all
        } else {
            wide
        }),
        (wide / all % 2 == 1) == (wide >= all),
{
    if wide >= all {
        vstd::arithmetic::div_mod::lemma_fundamental_div_mod_converse(wide, all, 1, wide - all);
    } else {
        vstd::arithmetic::div_mod::lemma_fundamental_div_mod_converse(wide, all, 0, wide);
    }
}

} // verus!
