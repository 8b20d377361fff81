//! The 80-bit numbers of the floating point unit, as bit patterns.

use vstd::arithmetic::power2::pow2;
use vstd::prelude::*;

verus! {

/// The exponent of a number is stored with this added.
pub const EXPONENT_BIAS: u16 = 0x3FFF;

/// An 80-bit extended number: sign and exponent in one word, and the 64-bit
/// significand whose top bit is the integer part.
#[derive(Clone, Copy, Debug, PartialEq, Eq, Structural)]
pub struct F80 {
    pub sign_exponent: u16,
    pub significand: u64,
}

/// The magnitude that a significand and an unbiased exponent stand for is
/// `significand * 2^(exponent - 63)`; this says so for whole numbers.
pub open spec fn stands_for(significand: u64, exponent: nat, magnitude: u64) -> bool {
    exponent <= 63 && significand as nat == magnitude as nat * pow2((63 - exponent) as nat)
}

impl F80 {
    pub open spec fn spec_zero() -> F80 {
        F80 { sign_exponent: 0, significand: 0 }
    }

    /// The quiet NaN that an empty register reads as.
    pub open spec fn spec_real_indefinite() -> F80 {
        F80 { sign_exponent: 0xFFFF, significand: 0xC000_0000_0000_0000 }
    }

    /// Positive zero.
    pub fn new() -> (f: F80)
        ensures
            f == F80::spec_zero(),
    {
        F80 { sign_exponent: 0, significand: 0 }
    }

    pub fn set_real_indefinite(&mut self)
        ensures
            *final(self) == F80::spec_real_indefinite(),
    {
        self.sign_exponent = 0xFFFF;
        self.significand = 0xC000_0000_0000_0000;
    }

    /// The number `magnitude`, negated if `negative`. Zero keeps the sign.
    pub open spec fn encodes(self, magnitude: u64, negative: bool) -> bool {
        let sign: int = if negative { 0x8000 } else { 0 };
        if magnitude == 0 {
            self.sign_exponent == sign && self.significand == 0
        } else {
            &&& self.significand >= 0x8000_0000_0000_0000
            &&& EXPONENT_BIAS + sign <= self.sign_exponent <= EXPONENT_BIAS + sign + 63
            &&& stands_for(
                self.significand,
                (self.sign_exponent - sign - EXPONENT_BIAS) as nat,
                magnitude,
            )
        }
    }

    /// A whole number, exactly.
    pub fn from_integer(magnitude: u64, negative: bool) -> (f: F80)
        ensures
            f.encodes(magnitude, negative),
    {
        let sign: u16 = if negative {
            0x8000
        } else {
            0
        };
        if magnitude == 0 {
            return F80 { sign_exponent: sign, significand: 0 };
        }
        let mut significand: u64 = magnitude;
        let mut exponent: u16 = 63;
        proof {
            vstd::arithmetic::power2::lemma2_to64();
            assert(magnitude as nat * pow2(0) == magnitude) by (nonlinear_arith)
                requires
                    pow2(0) == 1,
            ;
        }
        while significand < 0x8000_0000_0000_0000
            invariant
                magnitude > 0,
                significand > 0,
                exponent <= 63,
                significand as nat == magnitude as nat * pow2((63 - exponent) as nat),
                exponent == 0 ==> significand >= 0x8000_0000_0000_0000,
            decreases exponent,
        {
            proof {
                vstd::arithmetic::power2::lemma_pow2_unfold((64 - exponent) as nat);
                vstd::arithmetic::power2::lemma_pow2_unfold(64);
                vstd::arithmetic::power2::lemma2_to64();
                let m = magnitude as int;
                let p = pow2((63 - exponent) as nat) as int;
                assert(m * (2 * p) == 2 * (m * p)) by (nonlinear_arith);
                if exponent == 1 {
                    assert(m * (2 * p) >= 0x8000_0000_0000_0000) by (nonlinear_arith)
                        requires
                            m >= 1,
                            2 * p == 0x8000_0000_0000_0000,
                    ;
                }
            }
            significand = significand * 2;
            exponent = exponent - 1;
        }
        F80 { sign_exponent: EXPONENT_BIAS + exponent + sign, significand }
    }
}

} // verus!
