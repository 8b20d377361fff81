//! What shifts, rotates, sums and differences mean as numbers.

use vstd::arithmetic::div_mod::{
    lemma_fundamental_div_mod, lemma_fundamental_div_mod_converse, lemma_small_mod,
};
use vstd::arithmetic::power2::{
    lemma2_to64, lemma2_to64_rest, lemma_pow2_adds, lemma_pow2_pos, lemma_pow2_strictly_increases,
    pow2,
};
use vstd::prelude::*;

use super::alu::{
    difference, difference_flags, double_shifted, flag_if, fits, lemma_flag_parts,
    lemma_flags_replaced, result_flags, rotated_left, rotates, second_bit, shifted, signed, sum,
    sum_flags, top_bit, value_count, Shifted, ShiftOp, ARITH,
};
use super::mem::is_operand_size;
use super::state::{Core, AF, CF, OF, PF, SF, ZF};
use crate::bits::even_parity;

verus! {

proof fn lemma_powers(size: u8, n: u32)
    requires
        is_operand_size(size),
        0 < n <= 8 * size,
    ensures
        pow2(8 * size as nat) == value_count(size),
        pow2(n as nat) == 2 * pow2((n - 1) as nat),
        1 <= pow2((n - 1) as nat),
        pow2(n as nat) <= value_count(size),
        pow2(n as nat) * pow2((8 * size - n) as nat) == value_count(size),
        1 <= pow2((8 * size - n) as nat),
        n < 8 * size ==> pow2(n as nat) < value_count(size),
{
    lemma2_to64();
    lemma2_to64_rest();
    lemma_pow2_pos((n - 1) as nat);
    lemma_pow2_pos((8 * size - n) as nat);
    lemma_pow2_adds(1, (n - 1) as nat);
    lemma_pow2_adds(n as nat, (8 * size - n) as nat);
    if n < 8 * size {
        lemma_pow2_strictly_increases(n as nat, 8 * size as nat);
    }
}

/// The top two bits and the sign of an operand.
proof fn lemma_top_bits(size: u8, r: u32)
    requires
        is_operand_size(size),
        r < value_count(size),
    ensures
        top_bit(size, r) == (r >= value_count(size) / 2),
        second_bit(size, r) == (if r >= value_count(size) / 2 {
            r - value_count(size) / 2 >= value_count(size) / 4
        } else {
            r >= value_count(size) / 4
        }),
        signed(size, r) == (if r >= value_count(size) / 2 {
            r - value_count(size)
        } else {
            r as int
        }),
{
    lemma_small_mod(r as nat, value_count(size) as nat);
    lemma_reduced(r as int, value_count(size) / 2);
}

/// The last bit that a division by `2 * h` drops is the top bit of its rest.
pub(crate) proof fn lemma_last_bit(v: int, h: int)
    requires
        h >= 1,
    ensures
        ({
            let r = v / (2 * h);
            &&& r * (2 * h) <= v < (r + 1) * (2 * h)
            &&& (v / h % 2 == 1) == (v - r * (2 * h) >= h)
        }),
{
    let p = 2 * h;
    let r = v / p;
    let rest = v % p;
    lemma_fundamental_div_mod(v, p);
    assert(p * r == r * p && (r + 1) * p == r * p + p) by (nonlinear_arith);
    if rest >= h {
        assert(v == h * (2 * r + 1) + (rest - h)) by (nonlinear_arith)
            requires
                v == p * r + rest,
                p == 2 * h,
        ;
        assert((2 * r + 1) * h == h * (2 * r + 1)) by (nonlinear_arith);
        lemma_fundamental_div_mod_converse(v, h, 2 * r + 1, rest - h);
    } else {
        assert(v == h * (2 * r) + rest) by (nonlinear_arith)
            requires
                v == p * r + rest,
                p == 2 * h,
        ;
        assert((2 * r) * h == h * (2 * r)) by (nonlinear_arith);
        lemma_fundamental_div_mod_converse(v, h, 2 * r, rest);
    }
}

/// SHR by up to the operand's width is unsigned division: the result times
/// the power is the operand less the bits shifted out, of which the last is
/// the carry. A shift by 1 overflows where the operand was negative.
pub proof fn law_shr_divides(size: u8, value: u32, n: u32, carry: bool)
    requires
        is_operand_size(size),
        value < value_count(size),
        0 < n <= 8 * size,
    ensures
        ({
            let s = shifted(ShiftOp::Shr, size, value, n, carry);
            let p = pow2(n as nat) as int;
            &&& s.value * p <= value < (s.value + 1) * p
            &&& s.carry == (2 * (value - s.value * p) >= p)
            &&& n == 1 ==> s.overflow == (signed(size, value) < 0)
        }),
{
    lemma_powers(size, n);
    lemma_small_mod(value as nat, value_count(size) as nat);
    let p = pow2(n as nat) as int;
    lemma_last_bit(value as int, pow2((n - 1) as nat) as int);
    let r = value as int / p;
    assert(0 <= r <= value) by (nonlinear_arith)
        requires
            p >= 1,
            r == value as int / p,
            value >= 0,
    ;
    if n == 1 {
        lemma2_to64();
        lemma_top_bits(size, value);
        lemma_top_bits(size, r as u32);
    }
}

/// SAR is division of the signed number, rounded down; the last bit shifted
/// out is the carry, and the sign does not change.
pub proof fn law_sar_divides(size: u8, value: u32, n: u32, carry: bool)
    requires
        is_operand_size(size),
        value < value_count(size),
        0 < n < 32,
    ensures
        ({
            let s = shifted(ShiftOp::Sar, size, value, n, carry);
            let p = pow2(n as nat) as int;
            let r = signed(size, s.value);
            &&& s.value < value_count(size)
            &&& r * p <= signed(size, value) < (r + 1) * p
            &&& s.carry == (2 * (signed(size, value) - r * p) >= p)
            &&& (r < 0) == (signed(size, value) < 0)
            &&& !s.overflow
        }),
{
    let all = value_count(size);
    lemma_small_mod(value as nat, all as nat);
    lemma2_to64();
    lemma_pow2_pos((n - 1) as nat);
    lemma_pow2_adds(1, (n - 1) as nat);
    let p = pow2(n as nat) as int;
    let v = signed(size, value);
    lemma_last_bit(v, pow2((n - 1) as nat) as int);
    let q = v / p;
    assert(-(all / 2) <= q < all / 2 && (q < 0) == (v < 0)) by (nonlinear_arith)
        requires
            q * p <= v < (q + 1) * p,
            -(all / 2) <= v < all / 2,
            p >= 1,
            all >= 2,
    ;
    let r = q % all;
    if q >= 0 {
        lemma_fundamental_div_mod_converse(q, all, 0, q);
    } else {
        lemma_fundamental_div_mod_converse(q, all, -1, q + all);
    }
    lemma_small_mod(r as nat, all as nat);
}

/// SHL by up to the operand's width is multiplication: with the carry as one
/// more bit on top, the result is the product with the bits above dropped.
pub proof fn law_shl_multiplies(size: u8, value: u32, n: u32, carry: bool)
    requires
        is_operand_size(size),
        value < value_count(size),
        0 < n <= 8 * size,
    ensures
        ({
            let s = shifted(ShiftOp::Shl, size, value, n, carry);
            let top = if s.carry {
                value_count(size)
            } else {
                0
            };
            &&& s.value < value_count(size)
            &&& (value * pow2(n as nat) - top - s.value) % (2 * value_count(size)) == 0
            &&& n == 1 ==> s.overflow == ((signed(size, value) < 0) != (signed(size,
                s.value) < 0))
        }),
{
    let all = value_count(size);
    lemma_powers(size, n);
    lemma_small_mod(value as nat, all as nat);
    let p = pow2(n as nat) as int;
    let wide = value * p;
    assert(wide >= 0) by (nonlinear_arith)
        requires
            wide == value * p,
            p >= 1,
            value >= 0,
    ;
    lemma_fundamental_div_mod(wide, all);
    let q = wide / all;
    let s = shifted(ShiftOp::Shl, size, value, n, carry);
    lemma_small_mod(s.value as nat, all as nat);
    let k = q / 2;
    let top = if s.carry {
        all
    } else {
        0
    };
    assert(wide - top - s.value == (2 * all) * k) by (nonlinear_arith)
        requires
            wide == all * q + s.value,
            q == 2 * k && top == 0 || q == 2 * k + 1 && top == all,
    ;
    assert(k * (2 * all) == (2 * all) * k) by (nonlinear_arith);
    lemma_fundamental_div_mod_converse((2 * all) * k, 2 * all, k, 0);
    if n == 1 {
        lemma2_to64();
        assert(wide == 2 * value) by (nonlinear_arith)
            requires
                wide == value * p,
                p == 2,
        ;
        lemma_one_step(value as int, all);
        lemma_top_bits(size, value);
        lemma_top_bits(size, s.value);
        assert(s.carry == (value >= all / 2));
    }
}

proof fn lemma_one_step(v: int, all: int)
    requires
        0 <= v < all,
    ensures
        (2 * v) / all == (if 2 * v >= all {
            1int
        } else {
            0
        }),
{
    if 2 * v >= all {
        lemma_fundamental_div_mod_converse(2 * v, all, 1, 2 * v - all);
    } else {
        lemma_fundamental_div_mod_converse(2 * v, all, 0, 2 * v);
    }
}

/// SHL after SHR by the same count clears the low bits, and nothing else.
pub proof fn law_shl_after_shr(size: u8, value: u32, n: u32, carry: bool)
    requires
        is_operand_size(size),
        value < value_count(size),
        0 < n <= 8 * size,
    ensures
        ({
            let down = shifted(ShiftOp::Shr, size, value, n, carry).value;
            let up = shifted(ShiftOp::Shl, size, down, n, carry);
            &&& up.value <= value < up.value + pow2(n as nat)
            &&& up.value as int % pow2(n as nat) as int == 0
            &&& !up.carry
        }),
{
    let all = value_count(size);
    law_shr_divides(size, value, n, carry);
    lemma_powers(size, n);
    let p = pow2(n as nat) as int;
    let down = shifted(ShiftOp::Shr, size, value, n, carry).value;
    assert(down <= value && (down + 1) * p == down * p + p) by (nonlinear_arith)
        requires
            down * p <= value,
            p >= 1,
            down >= 0,
    ;
    lemma_small_mod(down as nat, all as nat);
    let wide = down * p;
    assert(wide >= 0) by (nonlinear_arith)
        requires
            wide == down * p,
            p >= 1,
            down >= 0,
    ;
    lemma_fundamental_div_mod_converse(wide, all, 0, wide);
    lemma_fundamental_div_mod_converse(wide, p, down as int, 0);
    assert(wide == p * down) by (nonlinear_arith)
        requires
            wide == down * p,
    ;
}

/// SHR and SAR by one count and then another shift by their sum, and the last
/// bit out is the same.
pub proof fn law_right_shifts_add_up(op: ShiftOp, size: u8, value: u32, m: u32, n: u32, carry: bool)
    requires
        is_operand_size(size),
        value < value_count(size),
        op == ShiftOp::Shr || op == ShiftOp::Sar,
        0 < m,
        0 < n,
        m + n <= 8 * size,
        m + n < 32,
    ensures
        ({
            let first = shifted(op, size, value, m, carry);
            let then = shifted(op, size, first.value, n, first.carry);
            let both = shifted(op, size, value, (m + n) as u32, carry);
            then.value == both.value && then.carry == both.carry
        }),
{
    let all = value_count(size);
    let k = (m + n) as u32;
    let a = pow2(m as nat) as int;
    let b = pow2(n as nat) as int;
    let c = pow2(k as nat) as int;
    lemma_pow2_adds(m as nat, n as nat);
    lemma_powers(size, m);
    lemma_powers(size, n);
    lemma_powers(size, k);
    let first = shifted(op, size, value, m, carry);
    let (v, x) = if op == ShiftOp::Shr {
        law_shr_divides(size, value, m, carry);
        law_shr_divides(size, value, k, carry);
        assert(first.value <= value) by (nonlinear_arith)
            requires
                first.value * a <= value,
                a >= 1,
                first.value >= 0,
        ;
        law_shr_divides(size, first.value, n, first.carry);
        (value as int, first.value as int)
    } else {
        law_sar_divides(size, value, m, carry);
        law_sar_divides(size, value, k, carry);
        law_sar_divides(size, first.value, n, first.carry);
        (signed(size, value), signed(size, first.value))
    };
    let then = shifted(op, size, first.value, n, first.carry);
    let both = shifted(op, size, value, k, carry);
    let (y, z) = if op == ShiftOp::Shr {
        (then.value as int, both.value as int)
    } else {
        (signed(size, then.value), signed(size, both.value))
    };
    lemma_quotients(v, a, b, x, y, z);
    if op == ShiftOp::Sar {
        lemma_signed_tells(size, then.value, both.value);
    }
}

/// A signed number tells its operand.
proof fn lemma_signed_tells(size: u8, a: u32, b: u32)
    requires
        is_operand_size(size),
        a < value_count(size),
        b < value_count(size),
        signed(size, a) == signed(size, b),
    ensures
        a == b,
{
    lemma_small_mod(a as nat, value_count(size) as nat);
    lemma_small_mod(b as nat, value_count(size) as nat);
}

proof fn lemma_quotients(v: int, a: int, b: int, x: int, y: int, z: int)
    requires
        a >= 1,
        b >= 2,
        b % 2 == 0,
        x * a <= v < (x + 1) * a,
        y * b <= x < (y + 1) * b,
        z * (a * b) <= v < (z + 1) * (a * b),
    ensures
        y == z,
        (2 * (x - y * b) >= b) == (2 * (v - z * (a * b)) >= a * b),
{
    let h = b / 2;
    let t = x - y * b;
    let c = a * b;
    assert(y * c <= v < (y + 1) * c) by (nonlinear_arith)
        requires
            x * a <= v < (x + 1) * a,
            y * b <= x,
            x + 1 <= (y + 1) * b,
            a >= 1,
            c == a * b,
    ;
    assert(c >= 1) by (nonlinear_arith)
        requires
            c == a * b,
            a >= 1,
            b >= 2,
    ;
    assert(y == z) by (nonlinear_arith)
        requires
            y * c <= v < (y + 1) * c,
            z * c <= v < (z + 1) * c,
            c >= 1,
    ;
    assert(t * a <= v - y * c < (t + 1) * a) by (nonlinear_arith)
        requires
            x * a <= v < (x + 1) * a,
            c == a * b,
            t == x - y * b,
    ;
    if t >= h {
        assert(2 * (v - y * c) >= c) by (nonlinear_arith)
            requires
                t * a <= v - y * c,
                t >= h,
                a >= 1,
                c == a * (2 * h),
        ;
    } else {
        assert(2 * (v - y * c) < c) by (nonlinear_arith)
            requires
                v - y * c < (t + 1) * a,
                t + 1 <= h,
                a >= 1,
                c == a * (2 * h),
        ;
    }
}

proof fn lemma_bit_times(bit: int, n: int)
    by (nonlinear_arith)
    requires
        bit == 0 || bit == 1,
    ensures
        bit * n == (if bit == 1 {
            n
        } else {
            0
        }),
{
}

proof fn lemma_unit(size: u8, value: u32)
    requires
        is_operand_size(size),
        value < value_count(size),
    ensures
        value as int % value_count(size) == value,
        1nat % (8 * size as nat) == 1,
        1nat % (8 * size as nat + 1) == 1,
        pow2(1) == 2,
        pow2((8 * size - 1) as nat) == value_count(size) / 2,
        pow2(8 * size as nat) == value_count(size),
        value_count(size) % 2 == 0,
{
    lemma_small_mod(value as nat, value_count(size) as nat);
    lemma2_to64();
    lemma2_to64_rest();
    lemma_small_mod(1, 8 * size as nat);
    lemma_small_mod(1, 8 * size as nat + 1);
}

/// ROL and ROR by 1 turn the operand as a ring: the bit that leaves on one
/// side comes in on the other and is the carry. They overflow where they
/// change the sign.
pub proof fn law_single_rotates(size: u8, value: u32, carry: bool)
    requires
        is_operand_size(size),
        value < value_count(size),
    ensures
        ({
            let all = value_count(size);
            let s = shifted(ShiftOp::Rol, size, value, 1, carry);
            &&& s.value + (if s.carry {
                all - 1
            } else {
                0
            }) == 2 * value
            &&& s.carry == (signed(size, value) < 0)
            &&& s.overflow == ((signed(size, s.value) < 0) != (signed(size, value) < 0))
        }),
        ({
            let all = value_count(size);
            let s = shifted(ShiftOp::Ror, size, value, 1, carry);
            &&& 2 * s.value == value + (if s.carry {
                all - 1
            } else {
                0
            })
            &&& s.carry == (value % 2 == 1)
            &&& s.overflow == ((signed(size, s.value) < 0) != (signed(size, value) < 0))
        }),
{
    let all = value_count(size);
    lemma_unit(size, value);
    lemma_top_bits(size, value);
    lemma_one_step(value as int, all);
    lemma_reduced(2 * value as int, all);
    let l = shifted(ShiftOp::Rol, size, value, 1, carry);
    assert(value * pow2(1) == 2 * value);
    assert(l.value == (if 2 * value >= all {
        2 * value - all + 1
    } else {
        2 * value
    }));
    lemma_top_bits(size, l.value);
    let r = shifted(ShiftOp::Ror, size, value, 1, carry);
    lemma_bit_times(value as int % 2, all / 2);
    assert(r.value == value as int / 2 + (if value % 2 == 1 {
        all / 2
    } else {
        0
    }));
    lemma_top_bits(size, r.value);
}

/// RCL and RCR by 1 turn the operand with the carry flag as one more bit.
/// They overflow where they change the sign.
pub proof fn law_single_rotates_through_carry(size: u8, value: u32, carry: bool)
    requires
        is_operand_size(size),
        value < value_count(size),
    ensures
        ({
            let all = value_count(size);
            let s = shifted(ShiftOp::Rcl, size, value, 1, carry);
            &&& s.value < all
            &&& s.value + (if s.carry {
                all
            } else {
                0
            }) == 2 * value + (if carry {
                1int
            } else {
                0
            })
            &&& s.overflow == ((signed(size, s.value) < 0) != (signed(size, value) < 0))
        }),
        ({
            let all = value_count(size);
            let s = shifted(ShiftOp::Rcr, size, value, 1, carry);
            &&& s.value < all
            &&& 2 * s.value + (if s.carry {
                1int
            } else {
                0
            }) == value + (if carry {
                all
            } else {
                0
            })
            &&& s.overflow == ((signed(size, s.value) < 0) != (signed(size, value) < 0))
        }),
{
    let all = value_count(size);
    lemma_unit(size, value);
    lemma_top_bits(size, value);
    let w = if carry {
        all + value
    } else {
        value as int
    };
    lemma_one_step(w, 2 * all);
    lemma_reduced(2 * w, 2 * all);
    assert(w * pow2(1) == 2 * w);
    let left = rotated_left(w, 1, 2 * all);
    assert(left == 2 * value + (if carry {
        1int
    } else {
        0
    }));
    super::alu::lemma_halves(left, all);
    let l = shifted(ShiftOp::Rcl, size, value, 1, carry);
    lemma_top_bits(size, l.value);
    lemma_bit_times(w % 2, all);
    let right = w / 2 + (if w % 2 == 1 {
        all
    } else {
        0
    });
    super::alu::lemma_halves(right, all);
    let r = shifted(ShiftOp::Rcr, size, value, 1, carry);
    assert(r.value == w / 2);
    lemma_top_bits(size, r.value);
}

proof fn lemma_turn(v: int, p: int, span: int)
    requires
        0 <= v < span,
        1 <= p < span,
        span >= 2,
    ensures
        ({
            let r = v * p % span + v * p / span;
            &&& r >= 0
            &&& (v * p - r) % (span - 1) == 0
            &&& (r == 0) == (v == 0)
        }),
{
    let wide = v * p;
    assert(wide >= 0 && (wide == 0) == (v == 0)) by (nonlinear_arith)
        requires
            wide == v * p,
            p >= 1,
            v >= 0,
    ;
    lemma_fundamental_div_mod(wide, span);
    let q = wide / span;
    let m = wide % span;
    assert(q >= 0) by (nonlinear_arith)
        requires
            q == wide / span,
            wide >= 0,
            span >= 1,
    ;
    assert(wide - (m + q) == (span - 1) * q) by (nonlinear_arith)
        requires
            wide == span * q + m,
    ;
    assert(q * (span - 1) == (span - 1) * q) by (nonlinear_arith);
    if span > 2 {
        lemma_fundamental_div_mod_converse((span - 1) * q, span - 1, q, 0);
    }
    assert(q == 0 && m == 0 ==> wide == 0) by (nonlinear_arith)
        requires
            wide == span * q + m,
    ;
    if v == 0 {
        lemma_fundamental_div_mod_converse(wide, span, 0, 0);
    }
}

/// ROL multiplies by a power of two where the place behind the top bit counts
/// as the lowest, and RCL does so with the carry flag on top of the operand.
/// Neither makes bits out of nothing, or loses them.
pub proof fn law_left_rotates(size: u8, value: u32, n: u32, carry: bool)
    requires
        is_operand_size(size),
        value < value_count(size),
        0 < n < 8 * size,
    ensures
        ({
            let all = value_count(size);
            let s = shifted(ShiftOp::Rol, size, value, n, carry);
            &&& s.value < all
            &&& (value * pow2(n as nat) - s.value) % (all - 1) == 0
            &&& (s.value == 0) == (value == 0)
            &&& s.carry == (s.value % 2 == 1)
        }),
        ({
            let all = value_count(size);
            let s = shifted(ShiftOp::Rcl, size, value, n, carry);
            let before = value + carry as int * all;
            let after = s.value + s.carry as int * all;
            &&& s.value < all
            &&& (before * pow2(n as nat) - after) % (2 * all - 1) == 0
            &&& (after == 0) == (before == 0)
        }),
{
    let all = value_count(size);
    let bits = 8 * size as nat;
    lemma_powers(size, n);
    lemma_small_mod(value as nat, all as nat);
    lemma_small_mod(n as nat, bits);
    lemma_small_mod(n as nat, bits + 1);
    let p = pow2(n as nat) as int;
    lemma2_to64();
    lemma2_to64_rest();
    super::alu::law_rotations_undo(value as nat, n as nat, bits);
    lemma_turn(value as int, p, all);
    let w = if carry {
        all + value
    } else {
        value as int
    };
    assert(pow2(bits + 1) == 2 * all);
    super::alu::law_rotations_undo(w as nat, n as nat, bits + 1);
    lemma_turn(w, p, 2 * all);
    let turned = rotated_left(w, n as nat, 2 * all);
    super::alu::lemma_halves(turned, all);
}

/// A whole turn leaves the operand as it is.
pub proof fn law_whole_turns(op: ShiftOp, size: u8, value: u32, n: u32, carry: bool)
    requires
        is_operand_size(size),
        value < value_count(size),
        op == ShiftOp::Rol || op == ShiftOp::Ror,
        n == 8 * size || n == 16 * size || n == 24 * size,
    ensures
        shifted(op, size, value, n, carry).value == value,
{
    let all = value_count(size);
    lemma_small_mod(value as nat, all as nat);
    lemma2_to64();
    lemma_fundamental_div_mod_converse(value as int, all, 0, value as int);
    let bits = 8 * size as int;
    if n == 8 * size {
        lemma_fundamental_div_mod_converse(n as int, bits, 1, 0);
    } else if n == 16 * size {
        lemma_fundamental_div_mod_converse(n as int, bits, 2, 0);
    } else {
        lemma_fundamental_div_mod_converse(n as int, bits, 3, 0);
    }
    assert(value * pow2(0) == value);
    assert(value as int / 1 == value && value as int % 1 == 0);
    let w = pow2((8 * size - 0) as nat) as int;
    assert(0 * w == 0);
}

/// What the flags tell of a result.
pub open spec fn tells(after: Core, size: u8, r: u32) -> bool {
    &&& (after.flags & ZF != 0) == (r == 0)
    &&& (after.flags & SF != 0) == (signed(size, r) < 0)
    &&& (after.flags & PF != 0) == even_parity(r as u8)
}

/// Whether nothing changed but the flags that arithmetic sets.
pub open spec fn keeps_but_arithmetic(before: Core, after: Core) -> bool {
    &&& after == before.with_flags(after.flags)
    &&& after.flags & !ARITH == before.flags & !ARITH
}

/// `r` is the sum of two operands and a carry: with the carry flag as its
/// next bit the whole sum, signed too unless the overflow flag is set, and
/// the adjust flag is the carry out of the lowest four bits.
pub open spec fn adds(
    before: Core,
    after: Core,
    size: u8,
    a: u32,
    b: u32,
    carry: bool,
    r: u32,
) -> bool {
    let all = value_count(size);
    let c = carry as int;
    &&& r < all
    &&& r + (if after.flags & CF != 0 {
        all
    } else {
        0
    }) == a + b + c
    &&& (after.flags & OF == 0) == (signed(size, r) == signed(size, a) + signed(size, b) + c)
    &&& r % 16 + (if after.flags & AF != 0 {
        16int
    } else {
        0
    }) == a % 16 + b % 16 + c
    &&& tells(after, size, r)
    &&& keeps_but_arithmetic(before, after)
}

/// `r` is what is left of `a` when `b` and a borrow are taken away: with the
/// carry flag as a borrow from its next bit, and likewise signed and in the
/// lowest four bits.
pub open spec fn subtracts(
    before: Core,
    after: Core,
    size: u8,
    a: u32,
    b: u32,
    borrow: bool,
    r: u32,
) -> bool {
    let all = value_count(size);
    let c = borrow as int;
    &&& r < all
    &&& r + b + c == a + (if after.flags & CF != 0 {
        all
    } else {
        0
    })
    &&& (after.flags & OF == 0) == (signed(size, r) + signed(size, b) + c == signed(size, a))
    &&& r % 16 + b % 16 + c == a % 16 + (if after.flags & AF != 0 {
        16int
    } else {
        0
    })
    &&& tells(after, size, r)
    &&& keeps_but_arithmetic(before, after)
}

pub(crate) proof fn lemma_reduced(x: int, all: int)
    requires
        all > 0,
        -all <= x < 2 * all,
    ensures
        x % all == (if x < 0 {
            x + all
        } else if x >= all {
            x - all
        } else {
            x
        }),
{
    if x < 0 {
        lemma_fundamental_div_mod_converse(x, all, -1, x + all);
    } else if x >= all {
        lemma_fundamental_div_mod_converse(x, all, 1, x - all);
    } else {
        lemma_fundamental_div_mod_converse(x, all, 0, x);
    }
}

pub(crate) proof fn lemma_lowest_digits(a: int, b: int, c: int, r: int, k: int, all: int)
    requires
        all == 0x100 || all == 0x1_0000 || all == 0x1_0000_0000,
        r == a + b + c - k * all,
        k == 0 || k == 1,
        0 <= c <= 1,
    ensures
        r % 16 == (if a % 16 + b % 16 + c > 15 {
            a % 16 + b % 16 + c - 16
        } else {
            a % 16 + b % 16 + c
        }),
{
    if all == 0x100 {
        assert(r == a + b + c - 0x100 * k);
    } else if all == 0x1_0000 {
        assert(r == a + b + c - 0x1_0000 * k);
    } else {
        assert(r == a + b + c - 0x1_0000_0000 * k);
    }
}

proof fn lemma_sum(size: u8, a: u32, b: u32, c: int)
    requires
        is_operand_size(size),
        a < value_count(size),
        b < value_count(size),
        0 <= c <= 1,
    ensures
        ({
            let all = value_count(size);
            let r = sum(size, a, b, c);
            &&& r < all
            &&& r + (if a + b + c >= all {
                all
            } else {
                0
            }) == a + b + c
            &&& fits(size, signed(size, a) + signed(size, b) + c) == (signed(size, r) == signed(
                size,
                a,
            ) + signed(size, b) + c)
            &&& r % 16 == (if a % 16 + b % 16 + c > 15 {
                a % 16 + b % 16 + c - 16
            } else {
                a % 16 + b % 16 + c
            })
        }),
{
    let all = value_count(size);
    let r = sum(size, a, b, c);
    lemma_reduced(a + b + c, all);
    lemma_top_bits(size, a);
    lemma_top_bits(size, b);
    lemma_top_bits(size, r);
    let k: int = if a + b + c >= all {
        1
    } else {
        0
    };
    assert(k * all == if k == 1 {
        all
    } else {
        0
    });
    lemma_lowest_digits(a as int, b as int, c, r as int, k, all);
}

proof fn lemma_difference(size: u8, a: u32, b: u32, c: int)
    requires
        is_operand_size(size),
        a < value_count(size),
        b < value_count(size),
        0 <= c <= 1,
    ensures
        ({
            let all = value_count(size);
            let r = difference(size, a, b, c);
            &&& r < all
            &&& r + b + c == a + (if a - b - c < 0 {
                all
            } else {
                0
            })
            &&& fits(size, signed(size, a) - signed(size, b) - c) == (signed(size, r) + signed(
                size,
                b,
            ) + c == signed(size, a))
            &&& r % 16 + b % 16 + c == a % 16 + (if a % 16 - b % 16 - c < 0 {
                16int
            } else {
                0
            })
        }),
{
    let all = value_count(size);
    let r = difference(size, a, b, c);
    lemma_reduced(a - b - c, all);
    lemma_top_bits(size, a);
    lemma_top_bits(size, b);
    lemma_top_bits(size, r);
    let k: int = if a - b - c < 0 {
        1
    } else {
        0
    };
    assert(k * all == if k == 1 {
        all
    } else {
        0
    });
    lemma_lowest_digits(r as int, b as int, c, a as int, k, all);
}

/// Addition is addition.
pub proof fn law_adds(s: Core, size: u8, a: u32, b: u32, carry: bool)
    requires
        is_operand_size(size),
        a < value_count(size),
        b < value_count(size),
    ensures
        adds(
            s,
            s.with_flag_bits(ARITH, sum_flags(size, a, b, carry as int)),
            size,
            a,
            b,
            carry,
            sum(size, a, b, carry as int),
        ),
{
    let all = value_count(size);
    let c = carry as int;
    let r = sum(size, a, b, c);
    lemma_sum(size, a, b, c);
    lemma_top_bits(size, r);
    lemma_small_mod(r as nat, all as nat);
    let z = flag_if(r as int % all == 0, ZF);
    let g = flag_if(top_bit(size, r), SF);
    let p = flag_if(even_parity(r as u8), PF);
    let k = flag_if(a + b + c >= all, CF);
    let o = flag_if(!fits(size, signed(size, a) + signed(size, b) + c), OF);
    let f = flag_if(a % 16 + b % 16 + c > 15, AF);
    lemma_flag_parts(z, g, p, k, o, f);
    lemma_flags_replaced(s.flags, sum_flags(size, a, b, c));
}

/// Subtraction is subtraction.
pub proof fn law_subtracts(s: Core, size: u8, a: u32, b: u32, borrow: bool)
    requires
        is_operand_size(size),
        a < value_count(size),
        b < value_count(size),
    ensures
        subtracts(
            s,
            s.with_flag_bits(ARITH, difference_flags(size, a, b, borrow as int)),
            size,
            a,
            b,
            borrow,
            difference(size, a, b, borrow as int),
        ),
{
    let all = value_count(size);
    let c = borrow as int;
    let r = difference(size, a, b, c);
    lemma_difference(size, a, b, c);
    lemma_top_bits(size, r);
    lemma_small_mod(r as nat, all as nat);
    let z = flag_if(r as int % all == 0, ZF);
    let g = flag_if(top_bit(size, r), SF);
    let p = flag_if(even_parity(r as u8), PF);
    let k = flag_if(a - b - c < 0, CF);
    let o = flag_if(!fits(size, signed(size, a) - signed(size, b) - c), OF);
    let f = flag_if(a % 16 - b % 16 - c < 0, AF);
    lemma_flag_parts(z, g, p, k, o, f);
    lemma_flags_replaced(s.flags, difference_flags(size, a, b, c));
}

/// Logic instructions tell of their result and clear CF, OF and AF.
pub open spec fn tells_of_logic(before: Core, after: Core, size: u8, r: u32) -> bool {
    &&& tells(after, size, r)
    &&& after.flags & CF == 0
    &&& after.flags & OF == 0
    &&& after.flags & AF == 0
    &&& keeps_but_arithmetic(before, after)
}

pub proof fn law_logic_flags(s: Core, size: u8, r: u32)
    requires
        is_operand_size(size),
        r < value_count(size),
    ensures
        tells_of_logic(s, s.with_flag_bits(ARITH, result_flags(size, r)), size, r),
{
    let all = value_count(size);
    lemma_small_mod(r as nat, all as nat);
    let z = flag_if(r as int % all == 0, ZF);
    let g = flag_if(top_bit(size, r), SF);
    let p = flag_if(even_parity(r as u8), PF);
    lemma_flag_parts(z, g, p, 0, 0, 0);
    lemma_flags_replaced(s.flags, result_flags(size, r));
}

/// The carry flag as it was, the others as a sum or difference left them.
pub proof fn law_carry_is_kept(s: Core, mask_flags: u32)
    ensures
        ({
            let t = s.with_flag_bits(ARITH, mask_flags);
            let u = t.with_flag_bits(CF, s.flags & CF);
            &&& u.flags & CF == s.flags & CF
            &&& u.flags & !CF == t.flags & !CF
            &&& u == s.with_flags(u.flags)
        }),
{
    let t = s.with_flag_bits(ARITH, mask_flags);
    lemma_flags_replaced(t.flags, s.flags & CF);
    lemma_flags_replaced(s.flags, s.flags);
}

/// A shift puts the last bit out into CF and tells of its result; a rotate
/// changes CF and OF alone; a count of 0 changes nothing.
pub proof fn law_shift_flags(s: Core, op: ShiftOp, size: u8, value: u32, count: u32)
    requires
        is_operand_size(size),
        shifted(op, size, value, count, s.flags & CF != 0).value < value_count(size),
    ensures
        count == 0 ==> s.shift(op, size, value, count) == (s, value),
        count != 0 ==> ({
            let r = shifted(op, size, value, count, s.flags & CF != 0);
            let (t, v) = s.shift(op, size, value, count);
            &&& v == r.value
            &&& (t.flags & CF != 0) == r.carry
            &&& (t.flags & OF != 0) == r.overflow
            &&& t == s.with_flags(t.flags)
            &&& t.flags & AF == s.flags & AF
            &&& t.flags & !ARITH == s.flags & !ARITH
            &&& rotates(op) ==> t.flags & ZF == s.flags & ZF && t.flags & SF == s.flags & SF
                && t.flags & PF == s.flags & PF
            &&& !rotates(op) ==> tells(t, size, v)
        }),
{
    let r = shifted(op, size, value, count, s.flags & CF != 0);
    lemma_shifted_flags(s, size, r, rotates(op));
}

proof fn lemma_shifted_flags(s: Core, size: u8, r: Shifted, rotate: bool)
    requires
        is_operand_size(size),
        r.value < value_count(size),
    ensures
        ({
            let t = s.with_shifted(size, r, rotate);
            &&& (t.flags & CF != 0) == r.carry
            &&& (t.flags & OF != 0) == r.overflow
            &&& t == s.with_flags(t.flags)
            &&& t.flags & AF == s.flags & AF
            &&& t.flags & !ARITH == s.flags & !ARITH
            &&& rotate ==> t.flags & ZF == s.flags & ZF && t.flags & SF == s.flags & SF
                && t.flags & PF == s.flags & PF
            &&& !rotate ==> tells(t, size, r.value)
        }),
{
    let all = value_count(size);
    lemma_small_mod(r.value as nat, all as nat);
    let c = flag_if(r.carry, CF);
    let o = flag_if(r.overflow, OF);
    let z = flag_if(r.value as int % all == 0, ZF);
    let g = flag_if(top_bit(size, r.value), SF);
    let p = flag_if(even_parity(r.value as u8), PF);
    lemma_flag_parts(z, g, p, c, o, 0);
    lemma_flags_replaced(s.flags, c | o);
    lemma_flags_replaced(s.flags, (c | o) | result_flags(size, r.value));
}

/// SHLD moves the top bits of the source in from the right: with the carry as
/// the bit above it, the result is the operand times the power and the top
/// bits of the source, but for the bits that leave.
pub proof fn law_shld(size: u8, dest: u32, src: u32, n: u32)
    requires
        is_operand_size(size),
        dest < value_count(size),
        src < value_count(size),
        0 < n < 8 * size,
        n < 32,
    ensures
        ({
            let all = value_count(size);
            let s = double_shifted(true, size, dest, src, n);
            let p = pow2(n as nat) as int;
            let q = pow2((8 * size - n) as nat) as int;
            let top = src as int / q;
            let carry = if s.carry {
                all
            } else {
                0
            };
            &&& s.value < all
            &&& 0 <= top < p
            &&& (dest * p + top - carry - s.value) % (2 * all) == 0
        }),
{
    let all = value_count(size);
    lemma_powers(size, n);
    lemma_small_mod(dest as nat, all as nat);
    lemma_small_mod(src as nat, all as nat);
    let (d, s) = (dest as int, src as int);
    let p = pow2(n as nat) as int;
    let q = pow2((8 * size - n) as nat) as int;
    let top = s / q;
    let low = s % q;
    lemma_fundamental_div_mod(s, q);
    assert(0 <= top < p) by (nonlinear_arith)
        requires
            s == q * top + low,
            0 <= low < q,
            0 <= s < p * q,
    ;
    // The source is moved twice; what is below its first copy's top bits is
    // less than the first copy's lowest place.
    let rest = low * p * all + s * p;
    let main = d * p + top;
    let wide = (d * all * all + s * all + s) * p;
    assert(low * p <= all - p && s * p <= all * p - p) by (nonlinear_arith)
        requires
            0 <= low <= q - 1,
            0 <= s <= all - 1,
            p >= 1,
            p * q == all,
    ;
    assert(0 <= rest < all * all) by (nonlinear_arith)
        requires
            rest == low * p * all + s * p,
            0 <= low * p <= all - p,
            0 <= s * p <= all * p - p,
            p >= 1,
            all >= 1,
            low >= 0,
            s >= 0,
    ;
    let sp = s * p;
    assert(q * top * p == all * top) by (nonlinear_arith)
        requires
            p * q == all,
    ;
    assert(sp == all * top + low * p) by (nonlinear_arith)
        requires
            sp == s * p,
            s == q * top + low,
            q * top * p == all * top,
    ;
    assert(wide == d * p * (all * all) + sp * all + sp) by (nonlinear_arith)
        requires
            wide == (d * all * all + s * all + s) * p,
            sp == s * p,
    ;
    assert(sp * all == top * (all * all) + low * p * all) by (nonlinear_arith)
        requires
            sp == all * top + low * p,
    ;
    assert(main * (all * all) == d * p * (all * all) + top * (all * all)) by (nonlinear_arith)
        requires
            main == d * p + top,
    ;
    assert(wide == main * (all * all) + rest);
    let square = all * all;
    assert(square >= 1) by (nonlinear_arith)
        requires
            square == all * all,
            all >= 1,
    ;
    lemma_fundamental_div_mod_converse(wide, square, main, rest);
    assert(main >= 0) by (nonlinear_arith)
        requires
            main == d * p + top,
            d >= 0,
            p >= 1,
            top >= 0,
    ;
    lemma_fundamental_div_mod(main, all);
    let k = main / all;
    let r = main % all;
    assert(wide == k * (all * all * all) + (r * square + rest) && 0 <= r * square + rest < all * all
        * all) by (nonlinear_arith)
        requires
            wide == main * square + rest,
            main == all * k + r,
            0 <= r <= all - 1,
            0 <= rest < square,
            square == all * all,
    ;
    lemma_fundamental_div_mod_converse(wide, all * all * all, k, r * square + rest);
    let shifted = double_shifted(true, size, dest, src, n);
    assert(shifted.value == r);
    let half = k / 2;
    let carry = if k % 2 == 1 {
        all
    } else {
        0
    };
    assert(main - carry - r == half * (2 * all)) by (nonlinear_arith)
        requires
            main == all * k + r,
            k == 2 * half && carry == 0 || k == 2 * half + 1 && carry == all,
    ;
    lemma_fundamental_div_mod_converse(half * (2 * all), 2 * all, half, 0);
}

/// SHRD moves the low bits of the source in from the left: it divides the
/// number that has them above the operand, and the last bit out is the carry.
pub proof fn law_shrd(size: u8, dest: u32, src: u32, n: u32)
    requires
        is_operand_size(size),
        dest < value_count(size),
        src < value_count(size),
        0 < n < 8 * size,
        n < 32,
    ensures
        ({
            let s = double_shifted(false, size, dest, src, n);
            let p = pow2(n as nat) as int;
            let both = dest + (src as int % p) * value_count(size);
            &&& s.value * p <= both < (s.value + 1) * p
            &&& s.carry == (2 * (both - s.value * p) >= p)
        }),
{
    let all = value_count(size);
    lemma_powers(size, n);
    lemma_small_mod(dest as nat, all as nat);
    lemma_small_mod(src as nat, all as nat);
    let (d, s) = (dest as int, src as int);
    let h = pow2((n - 1) as nat) as int;
    let p = pow2(n as nat) as int;
    let q = pow2((8 * size - n) as nat) as int;
    let a = s / p;
    let b = s % p;
    lemma_fundamental_div_mod(s, p);
    let wide = s * all * all + s * all + d;
    let j = s * q * all + s * q;
    let sq = s * q;
    assert(s * all == sq * p) by (nonlinear_arith)
        requires
            p * q == all,
            sq == s * q,
    ;
    assert(s * all * all == sq * all * p) by (nonlinear_arith)
        requires
            s * all == sq * p,
    ;
    assert(j * p == sq * all * p + sq * p) by (nonlinear_arith)
        requires
            j == sq * all + sq,
    ;
    assert(wide == d + j * p);
    assert(wide == d + (2 * j) * h) by (nonlinear_arith)
        requires
            wide == d + j * p,
            p == 2 * h,
    ;
    vstd::arithmetic::div_mod::lemma_hoist_over_denominator(d, j, p as nat);
    vstd::arithmetic::div_mod::lemma_hoist_over_denominator(d, 2 * j, h as nat);
    lemma_last_bit(d, h);
    let t = d / p;
    assert(sq == a * all + b * q) by (nonlinear_arith)
        requires
            sq == s * q,
            s == p * a + b,
            p * q == all,
    ;
    let r = t + b * q;
    let k = sq + a;
    assert(t + j == k * all + r) by (nonlinear_arith)
        requires
            j == sq * all + sq,
            sq == a * all + b * q,
            k == sq + a,
            r == t + b * q,
    ;
    assert(0 <= t < q) by (nonlinear_arith)
        requires
            t * (2 * h) <= d < (t + 1) * (2 * h),
            p == 2 * h,
            0 <= d < p * q,
            h >= 1,
    ;
    assert(0 <= r < all) by (nonlinear_arith)
        requires
            r == t + b * q,
            0 <= t <= q - 1,
            0 <= b <= p - 1,
            p * q == all,
    ;
    lemma_fundamental_div_mod_converse(t + j, all, k, r);
    assert(r * p == t * p + b * all && (r + 1) * p == (t + 1) * p + b * all) by (nonlinear_arith)
        requires
            r == t + b * q,
            p * q == all,
    ;
}

} // verus!
