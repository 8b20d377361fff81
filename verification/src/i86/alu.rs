//! Addition and subtraction with all the flags they set.

use vstd::prelude::*;

use super::cpu::{signed_16, signed_8, Cpu, Machine, AF, CF, OF, PF, SF, ZF};
use crate::bits::{even_parity, low_byte};

verus! {

/// Carry, zero, sign, parity, overflow and auxiliary carry of a result.
pub struct Outcome {
    pub carry: bool,
    pub zero: bool,
    pub sign: bool,
    pub parity: bool,
    pub overflow: bool,
    pub adjust: bool,
}

impl Machine {
    pub open spec fn with_outcome(self, o: Outcome) -> Machine {
        self.set_flag(CF, o.carry).set_flag(ZF, o.zero).set_flag(SF, o.sign).set_flag(
            PF,
            o.parity,
        ).set_flag(OF, o.overflow).set_flag(AF, o.adjust)
    }

    pub open spec fn carry_in(self) -> int {
        if self.flag(CF) {
            1
        } else {
            0
        }
    }
}

/// The low word of a sum or difference.
pub open spec fn wrap_16(value: int) -> u16 {
    (value % 0x1_0000) as u16
}

/// The low byte of a sum or difference.
pub open spec fn wrap_8(value: int) -> u8 {
    (value % 0x100) as u8
}

/// The flags of `dest + src + carry` on words: the unsigned sum does not fit
/// (carry), the signed sum does not (overflow), the low digits carry
/// (adjust).
pub open spec fn add_outcome_16(dest: u16, src: u16, carry: int) -> Outcome {
    let result = wrap_16(dest + src + carry);
    Outcome {
        carry: dest + src + carry > 0xFFFF,
        zero: result == 0,
        sign: result >= 0x8000,
        parity: even_parity(low_byte(result)),
        overflow: !(-0x8000 <= signed_16(dest) + signed_16(src) + carry <= 0x7FFF),
        adjust: dest % 16 + src % 16 + carry > 15,
    }
}

/// The flags of `dest - src - borrow` on words.
pub open spec fn sub_outcome_16(dest: u16, src: u16, borrow: int) -> Outcome {
    let result = wrap_16(dest - src - borrow);
    Outcome {
        carry: dest - src - borrow < 0,
        zero: result == 0,
        sign: result >= 0x8000,
        parity: even_parity(low_byte(result)),
        overflow: !(-0x8000 <= signed_16(dest) - signed_16(src) - borrow <= 0x7FFF),
        adjust: dest % 16 - src % 16 - borrow < 0,
    }
}

/// The flags of `dest + src + carry` on bytes.
pub open spec fn add_outcome_8(dest: u8, src: u8, carry: int) -> Outcome {
    let result = wrap_8(dest + src + carry);
    Outcome {
        carry: dest + src + carry > 0xFF,
        zero: result == 0,
        sign: result >= 0x80,
        parity: even_parity(low_byte(result as u16)),
        overflow: !(-0x80 <= signed_8(dest) + signed_8(src) + carry <= 0x7F),
        adjust: dest % 16 + src % 16 + carry > 15,
    }
}

/// The flags of `dest - src - borrow` on bytes.
pub open spec fn sub_outcome_8(dest: u8, src: u8, borrow: int) -> Outcome {
    let result = wrap_8(dest - src - borrow);
    Outcome {
        carry: dest - src - borrow < 0,
        zero: result == 0,
        sign: result >= 0x80,
        parity: even_parity(low_byte(result as u16)),
        overflow: !(-0x80 <= signed_8(dest) - signed_8(src) - borrow <= 0x7F),
        adjust: dest % 16 - src % 16 - borrow < 0,
    }
}

/// Signs and the low digits tell what does not fit; a signed value is looked
/// at with half the range added.
proof fn lemma_add_16(d: u32, s: u32, c: u32, r: u32)
    by (bit_vector)
    requires
        d < 0x10000,
        s < 0x10000,
        c <= 1,
        r == ((d + s + c) as u32) % 0x10000,
    ensures
        (r & 0x8000 != 0) <==> (r >= 0x8000),
        (d & 0x8000 != 0) <==> (d >= 0x8000),
        d ^ 0x8000 == ((d + 0x8000u32) as u32) % 0x10000,
        s ^ 0x8000 == ((s + 0x8000u32) as u32) % 0x10000,
        ((d & 0x8000 != 0) == (s & 0x8000 != 0) && (r & 0x8000 != 0) != (d & 0x8000 != 0))
            <==> !(0x8000 <= ((d ^ 0x8000) + (s ^ 0x8000) + c) && ((d ^ 0x8000) + (s ^ 0x8000) + c) <= 0x17FFF),
        ((d ^ s ^ r) & 0x10 != 0) <==> (d % 16 + s % 16 + c > 15),
{
}

/// Signs and the low digits tell what does not fit; a signed value is looked
/// at with half the range added.
proof fn lemma_sub_16(d: u32, s: u32, c: u32, r: u32)
    by (bit_vector)
    requires
        d < 0x10000,
        s < 0x10000,
        c <= 1,
        r == ((d + 0x20000u32 - s - c) as u32) % 0x10000,
    ensures
        (r & 0x8000 != 0) <==> (r >= 0x8000),
        (d & 0x8000 != 0) <==> (d >= 0x8000),
        d ^ 0x8000 == ((d + 0x8000u32) as u32) % 0x10000,
        s ^ 0x8000 == ((s + 0x8000u32) as u32) % 0x10000,
        ((d & 0x8000 != 0) != (s & 0x8000 != 0) && (r & 0x8000 != 0) != (d & 0x8000 != 0))
            <==> !(0x10000 <= ((d ^ 0x8000) + 0x18000u32 - (s ^ 0x8000) - c) && ((d ^ 0x8000) + 0x18000u32 - (s ^ 0x8000) - c) <= 0x1FFFF),
        ((d ^ s ^ r) & 0x10 != 0) <==> (d % 16 < s % 16 + c),
{
}

/// Signs and the low digits tell what does not fit; a signed value is looked
/// at with half the range added.
proof fn lemma_add_8(d: u32, s: u32, c: u32, r: u32)
    by (bit_vector)
    requires
        d < 0x100,
        s < 0x100,
        c <= 1,
        r == ((d + s + c) as u32) % 0x100,
    ensures
        (r & 0x80 != 0) <==> (r >= 0x80),
        (d & 0x80 != 0) <==> (d >= 0x80),
        d ^ 0x80 == ((d + 0x80u32) as u32) % 0x100,
        s ^ 0x80 == ((s + 0x80u32) as u32) % 0x100,
        ((d & 0x80 != 0) == (s & 0x80 != 0) && (r & 0x80 != 0) != (d & 0x80 != 0))
            <==> !(0x80 <= ((d ^ 0x80) + (s ^ 0x80) + c) && ((d ^ 0x80) + (s ^ 0x80) + c) <= 0x17F),
        ((d ^ s ^ r) & 0x10 != 0) <==> (d % 16 + s % 16 + c > 15),
{
}

/// Signs and the low digits tell what does not fit; a signed value is looked
/// at with half the range added.
proof fn lemma_sub_8(d: u32, s: u32, c: u32, r: u32)
    by (bit_vector)
    requires
        d < 0x100,
        s < 0x100,
        c <= 1,
        r == ((d + 0x200u32 - s - c) as u32) % 0x100,
    ensures
        (r & 0x80 != 0) <==> (r >= 0x80),
        (d & 0x80 != 0) <==> (d >= 0x80),
        d ^ 0x80 == ((d + 0x80u32) as u32) % 0x100,
        s ^ 0x80 == ((s + 0x80u32) as u32) % 0x100,
        ((d & 0x80 != 0) != (s & 0x80 != 0) && (r & 0x80 != 0) != (d & 0x80 != 0))
            <==> !(0x100 <= ((d ^ 0x80) + 0x180u32 - (s ^ 0x80) - c) && ((d ^ 0x80) + 0x180u32 - (s ^ 0x80) - c) <= 0x1FF),
        ((d ^ s ^ r) & 0x10 != 0) <==> (d % 16 < s % 16 + c),
{
}

proof fn lemma_add_outcome_8(dest: u8, src: u8, carry: u8, result: u8)
    requires
        carry <= 1,
        result == wrap_8(dest + src + carry),
    ensures
        ({
            let o = add_outcome_8(dest, src, carry as int);
            let d = (dest & 0x80) != 0;
            let s = (src & 0x80) != 0;
            let r = (result & 0x80) != 0;
            &&& o.sign == r
            &&& o.overflow == ((d == s) && r != d)
            &&& o.adjust == (((dest ^ src ^ result) & 0x10) != 0)
        }),
{
    lemma_add_8(dest as u32, src as u32, carry as u32, result as u32);
    assert(signed_8(dest) + 0x80 == (dest + 0x80) % 0x100);
    assert(signed_8(src) + 0x80 == (src + 0x80) % 0x100);
}

proof fn lemma_sub_outcome_8(dest: u8, src: u8, borrow: u8, result: u8)
    requires
        borrow <= 1,
        result == wrap_8(dest - src - borrow),
    ensures
        ({
            let o = sub_outcome_8(dest, src, borrow as int);
            let d = (dest & 0x80) != 0;
            let s = (src & 0x80) != 0;
            let r = (result & 0x80) != 0;
            &&& o.sign == r
            &&& o.overflow == ((d != s) && r != d)
            &&& o.adjust == (((dest ^ src ^ result) & 0x10) != 0)
        }),
{
    lemma_sub_8(dest as u32, src as u32, borrow as u32, result as u32);
    assert(signed_8(dest) + 0x80 == (dest + 0x80) % 0x100);
    assert(signed_8(src) + 0x80 == (src + 0x80) % 0x100);
}

impl Cpu {
    fn set_outcome(
        &mut self,
        carry: bool,
        zero: bool,
        sign: bool,
        result: u16,
        overflow: bool,
        adjust: bool,
    )
        ensures
            final(self)@ == old(self)@.with_outcome(
                Outcome {
                    carry,
                    zero,
                    sign,
                    parity: even_parity(low_byte(result)),
                    overflow,
                    adjust,
                },
            ),
    {
        self.set_cpu_flag(CF, carry);
        self.set_cpu_flag(ZF, zero);
        self.set_cpu_flag(SF, sign);
        self.update_pf(result);
        self.set_cpu_flag(OF, overflow);
        self.set_cpu_flag(AF, adjust);
    }

    fn add_16(&mut self, dest: u16, src: u16, carry: u16) -> (result: u16)
        requires
            carry <= 1,
        ensures
            result == wrap_16(dest + src + carry),
            final(self)@ == old(self)@.with_outcome(add_outcome_16(dest, src, carry as int)),
    {
        let result: u16 = dest.wrapping_add(src).wrapping_add(carry);
        let over = dest as u32 + src as u32 + carry as u32 > 0xFFFF;
        let d = (dest & 0x8000) != 0;
        let s = (src & 0x8000) != 0;
        let r = (result & 0x8000) != 0;
        proof {
            lemma_add_16(dest as u32, src as u32, carry as u32, result as u32);
        }
        self.set_outcome(
            over,
            result == 0,
            r,
            result,
            d == s && r != d,
            ((dest ^ src ^ result) & 0x10) != 0,
        );
        result
    }

    fn sub_16(&mut self, dest: u16, src: u16, borrow: u16) -> (result: u16)
        requires
            borrow <= 1,
        ensures
            result == wrap_16(dest - src - borrow),
            final(self)@ == old(self)@.with_outcome(sub_outcome_16(dest, src, borrow as int)),
    {
        let result: u16 = dest.wrapping_sub(src).wrapping_sub(borrow);
        let under = (dest as u32) < src as u32 + borrow as u32;
        let d = (dest & 0x8000) != 0;
        let s = (src & 0x8000) != 0;
        let r = (result & 0x8000) != 0;
        proof {
            lemma_sub_16(dest as u32, src as u32, borrow as u32, result as u32);
        }
        self.set_outcome(
            under,
            result == 0,
            r,
            result,
            d != s && r != d,
            ((dest ^ src ^ result) & 0x10) != 0,
        );
        result
    }

    fn add_8(&mut self, dest: u8, src: u8, carry: u8) -> (result: u8)
        requires
            carry <= 1,
        ensures
            result == wrap_8(dest + src + carry),
            final(self)@ == old(self)@.with_outcome(add_outcome_8(dest, src, carry as int)),
    {
        let result: u8 = ((dest as u16 + src as u16 + carry as u16) % 0x100) as u8;
        let over = dest as u16 + src as u16 + carry as u16 > 0xFF;
        let d = (dest & 0x80) != 0;
        let s = (src & 0x80) != 0;
        let r = (result & 0x80) != 0;
        proof {
            lemma_add_outcome_8(dest, src, carry, result);
        }
        self.set_outcome(
            over,
            result == 0,
            r,
            result as u16,
            d == s && r != d,
            ((dest ^ src ^ result) & 0x10) != 0,
        );
        result
    }

    fn sub_8(&mut self, dest: u8, src: u8, borrow: u8) -> (result: u8)
        requires
            borrow <= 1,
        ensures
            result == wrap_8(dest - src - borrow),
            final(self)@ == old(self)@.with_outcome(sub_outcome_8(dest, src, borrow as int)),
    {
        let result: u8 = ((dest as u16 + 0x200 - src as u16 - borrow as u16) % 0x100) as u8;
        let under = (dest as u16) < src as u16 + borrow as u16;
        let d = (dest & 0x80) != 0;
        let s = (src & 0x80) != 0;
        let r = (result & 0x80) != 0;
        proof {
            lemma_sub_outcome_8(dest, src, borrow, result);
        }
        self.set_outcome(
            under,
            result == 0,
            r,
            result as u16,
            d != s && r != d,
            ((dest ^ src ^ result) & 0x10) != 0,
        );
        result
    }

    /// The sum of two words.
    pub fn alu_add_16(&mut self, dest: u16, src: u16) -> (result: u16)
        ensures
            result == wrap_16(dest + src),
            final(self)@ == old(self)@.with_outcome(add_outcome_16(dest, src, 0)),
    {
        self.add_16(dest, src, 0)
    }

    /// The difference of two words, which comparing takes as well.
    pub fn alu_sub_16(&mut self, dest: u16, src: u16) -> (result: u16)
        ensures
            result == wrap_16(dest - src),
            final(self)@ == old(self)@.with_outcome(sub_outcome_16(dest, src, 0)),
    {
        self.sub_16(dest, src, 0)
    }

    /// The difference of two bytes, which comparing takes as well.
    pub fn alu_sub_8(&mut self, dest: u8, src: u8) -> (result: u8)
        ensures
            result == wrap_8(dest - src),
            final(self)@ == old(self)@.with_outcome(sub_outcome_8(dest, src, 0)),
    {
        self.sub_8(dest, src, 0)
    }

    /// The sum of two bytes.
    pub fn alu_add_8(&mut self, dest: u8, src: u8) -> (result: u8)
        ensures
            result == wrap_8(dest + src),
            final(self)@ == old(self)@.with_outcome(add_outcome_8(dest, src, 0)),
    {
        self.add_8(dest, src, 0)
    }

    /// The difference of two bytes, less the carry flag.
    pub fn alu_sbb_8(&mut self, dest: u8, src: u8) -> (result: u8)
        ensures
            result == wrap_8(dest - src - old(self)@.carry_in()),
            final(self)@ == old(self)@.with_outcome(
                sub_outcome_8(dest, src, old(self)@.carry_in()),
            ),
    {
        let borrow: u8 = if self.get_cpu_flag(CF) {
            1
        } else {
            0
        };
        self.sub_8(dest, src, borrow)
    }

    /// The difference of two words, less the carry flag.
    pub fn alu_sbb_16(&mut self, dest: u16, src: u16) -> (result: u16)
        ensures
            result == wrap_16(dest - src - old(self)@.carry_in()),
            final(self)@ == old(self)@.with_outcome(
                sub_outcome_16(dest, src, old(self)@.carry_in()),
            ),
    {
        let borrow: u16 = if self.get_cpu_flag(CF) {
            1
        } else {
            0
        };
        self.sub_16(dest, src, borrow)
    }

    /// The sum of two bytes and the carry flag.
    pub fn alu_adc_8(&mut self, dest: u8, src: u8) -> (result: u8)
        ensures
            result == wrap_8(dest + src + old(self)@.carry_in()),
            final(self)@ == old(self)@.with_outcome(
                add_outcome_8(dest, src, old(self)@.carry_in()),
            ),
    {
        let carry: u8 = if self.get_cpu_flag(CF) {
            1
        } else {
            0
        };
        self.add_8(dest, src, carry)
    }

    /// The sum of two words and the carry flag.
    pub fn alu_adc_16(&mut self, dest: u16, src: u16) -> (result: u16)
        ensures
            result == wrap_16(dest + src + old(self)@.carry_in()),
            final(self)@ == old(self)@.with_outcome(
                add_outcome_16(dest, src, old(self)@.carry_in()),
            ),
    {
        let carry: u16 = if self.get_cpu_flag(CF) {
            1
        } else {
            0
        };
        self.add_16(dest, src, carry)
    }
}

/// Subtracting what was added gives the first operand back, on words and on
/// bytes.
pub proof fn law_sub_undoes_add(a: u16, b: u16, c: u8, d: u8)
    ensures
        wrap_16(wrap_16(a + b) - b) == a,
        wrap_8(wrap_8(c + d) - d) == c,
{
}

} // verus!
