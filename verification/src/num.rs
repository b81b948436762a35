//! Numbers of the language.
//!
//! A number is an IEEE 754 single-precision value. The engine keeps its bit
//! pattern and reads from it what its own rules need: whether the number is a
//! NaN, how two numbers compare, and which integer a number truncates to.
//! Arithmetic, parsing and printing are the host's.

use vstd::arithmetic::power2::{lemma2_to64, lemma_pow2_strictly_increases, pow2};
use vstd::prelude::*;

verus! {

/// A single-precision number, held as its bit pattern: one sign bit, eight
/// exponent bits, twenty-three fraction bits.
#[derive(Clone, Copy, Debug, PartialEq, Eq, Structural)]
pub struct FyfthNum {
    pub bits: u32,
}

/// Bit pattern of 1,000,000.
pub const MILLION_BITS: u32 = 0x4974_2400;

/// The sign bit is set.
pub open spec fn sign_of(bits: u32) -> bool {
    bits >= 0x8000_0000
}

/// The biased exponent, `0..=255`.
pub open spec fn exponent_of(bits: u32) -> nat {
    ((bits / 0x80_0000) % 256) as nat
}

/// The fraction field, below `2^23`.
pub open spec fn fraction_of(bits: u32) -> nat {
    (bits % 0x80_0000) as nat
}

/// The pattern is a NaN: all exponent bits set and a fraction that is not zero.
pub open spec fn is_nan_bits(bits: u32) -> bool {
    exponent_of(bits) == 255 && fraction_of(bits) != 0
}

/// A key that orders the patterns that are no NaN as their values are
/// ordered. Both zeros have key 0.
pub open spec fn order_key(bits: u32) -> int {
    if sign_of(bits) {
        0x8000_0000 - bits
    } else {
        bits as int
    }
}

/// `left <= right` as numbers: false as soon as one of them is a NaN.
pub open spec fn num_le(left: u32, right: u32) -> bool {
    !is_nan_bits(left) && !is_nan_bits(right) && order_key(left) <= order_key(right)
}

/// `left == right` as numbers: a NaN equals nothing, and the two zeros are equal.
pub open spec fn num_eq(left: u32, right: u32) -> bool {
    !is_nan_bits(left) && !is_nan_bits(right) && order_key(left) == order_key(right)
}

/// Integer part of the absolute value of a pattern whose exponent is below 158,
/// that is of a value below `2^31`.
pub open spec fn whole_magnitude(bits: u32) -> nat {
    let e = exponent_of(bits);
    let significand = fraction_of(bits) + 0x80_0000;
    if e < 127 {
        0
    } else if e <= 150 {
        significand / pow2((150 - e) as nat)
    } else {
        significand * pow2((e - 150) as nat)
    }
}

/// The integer that a number truncates to: 0 for a NaN, the nearest bound of
/// the 32-bit signed range for a value outside it, and else the value with its
/// fractional part dropped.
pub open spec fn truncated(bits: u32) -> int {
    if is_nan_bits(bits) {
        0
    } else if exponent_of(bits) >= 158 {
        if sign_of(bits) {
            -0x8000_0000
        } else {
            0x7fff_ffff
        }
    } else if sign_of(bits) {
        -(whole_magnitude(bits) as int)
    } else {
        whole_magnitude(bits) as int
    }
}

/// The value is a whole number (an integer, neither infinite nor a NaN).
pub open spec fn is_whole(bits: u32) -> bool {
    let e = exponent_of(bits);
    let significand = fraction_of(bits) + 0x80_0000;
    if e == 255 {
        false
    } else if e >= 150 {
        true
    } else if e >= 127 {
        significand % pow2((150 - e) as nat) == 0
    } else {
        e == 0 && fraction_of(bits) == 0
    }
}

/// `2^exponent` for a small exponent.
fn power_of_two(exponent: u32) -> (power: u64)
    requires
        exponent <= 32,
    ensures
        power == pow2(exponent as nat),
        1 <= power <= 0x1_0000_0000,
{
    let mut power: u64 = 1;
    let mut done: u32 = 0;
    proof {
        lemma2_to64();
    }
    while done < exponent
        invariant
            done <= exponent <= 32,
            power == pow2(done as nat),
            1 <= power <= pow2(32),
            pow2(32) == 0x1_0000_0000,
        decreases exponent - done,
    {
        proof {
            vstd::arithmetic::power2::lemma_pow2_unfold((done + 1) as nat);
            if done + 1 < 32 {
                lemma_pow2_strictly_increases((done + 1) as nat, 32);
            }
        }
        power = power * 2;
        done += 1;
    }
    power
}

impl FyfthNum {
    /// The number with the given bit pattern.
    pub fn from_bits(bits: u32) -> (num: FyfthNum)
        ensures
            num.bits == bits,
    {
        FyfthNum { bits }
    }

    /// Whether the number is a NaN.
    pub fn is_nan(&self) -> (nan: bool)
        ensures
            nan == is_nan_bits(self.bits),
    {
        (self.bits / 0x80_0000) % 256 == 255 && self.bits % 0x80_0000 != 0
    }

    fn key(&self) -> (key: i64)
        ensures
            key == order_key(self.bits),
    {
        if self.bits >= 0x8000_0000 {
            0x8000_0000i64 - (self.bits as i64)
        } else {
            self.bits as i64
        }
    }

    /// `self <= other` as numbers.
    pub fn le(&self, other: &FyfthNum) -> (holds: bool)
        ensures
            holds == num_le(self.bits, other.bits),
    {
        !self.is_nan() && !other.is_nan() && self.key() <= other.key()
    }

    /// `self == other` as numbers.
    pub fn same_value(&self, other: &FyfthNum) -> (holds: bool)
        ensures
            holds == num_eq(self.bits, other.bits),
    {
        !self.is_nan() && !other.is_nan() && self.key() == other.key()
    }

    /// Whether the number is zero or above: `self >= 0` as numbers.
    pub fn is_non_negative(&self) -> (holds: bool)
        ensures
            holds == num_le(0, self.bits),
    {
        !self.is_nan() && self.key() >= 0
    }

    /// The integer that the number truncates to.
    pub fn truncate(&self) -> (whole: i32)
        ensures
            whole == truncated(self.bits),
    {
        let e: u32 = (self.bits / 0x80_0000) % 256;
        let fraction: u32 = self.bits % 0x80_0000;
        let negative = self.bits >= 0x8000_0000;
        if e == 255 && fraction != 0 {
            0
        } else if e >= 158 {
            if negative {
                i32::MIN
            } else {
                i32::MAX
            }
        } else if e < 127 {
            0
        } else {
            let significand: u64 = fraction as u64 + 0x80_0000;
            let magnitude: u64 = if e <= 150 {
                let divisor = power_of_two(150 - e);
                proof {
                    assert(significand / divisor <= significand) by (nonlinear_arith)
                        requires
                            divisor >= 1,
                            significand >= 0,
                    ;
                }
                significand / divisor
            } else {
                let factor = power_of_two(e - 150);
                proof {
                    lemma2_to64();
                    if e - 150 < 7 {
                        lemma_pow2_strictly_increases((e - 150) as nat, 7);
                    }
                    assert(significand * factor < 0x8000_0000) by (nonlinear_arith)
                        requires
                            significand < 0x100_0000,
                            0 <= factor <= 128,
                    ;
                }
                significand * factor
            };
            if negative {
                -(magnitude as i64) as i32
            } else {
                magnitude as i32
            }
        }
    }

    /// The number whose value is `n`, for an `n` that single precision holds
    /// exactly.
    pub fn from_index(n: u32) -> (num: FyfthNum)
        requires
            n < 0x100_0000,
        ensures
            !sign_of(num.bits),
            is_whole(num.bits),
            truncated(num.bits) == n,
    {
        if n == 0 {
            return FyfthNum { bits: 0 };
        }
        let mut top: u32 = 0;
        let mut bound: u64 = 2;
        proof {
            lemma2_to64();
        }
        while bound <= n as u64
            invariant
                top <= 23,
                bound == pow2((top + 1) as nat),
                top > 0 ==> pow2(top as nat) <= n,
                1 <= n < 0x100_0000,
                pow2(24) == 0x100_0000,
                pow2(0) == 1,
            decreases 24 - top,
        {
            proof {
                if top >= 23 {
                    assert(false);
                }
                vstd::arithmetic::power2::lemma_pow2_unfold((top + 2) as nat);
                if top + 2 < 24 {
                    lemma_pow2_strictly_increases((top + 2) as nat, 24);
                }
            }
            top += 1;
            bound = bound * 2;
        }
        let scale = power_of_two(23 - top);
        let low = power_of_two(top);
        proof {
            vstd::arithmetic::power2::lemma_pow2_unfold((top + 1) as nat);
            vstd::arithmetic::power2::lemma_pow2_adds(top as nat, (23 - top) as nat);
            lemma2_to64();
            assert(low <= n < 2 * low);
            assert(low * scale == 0x80_0000);
            assert(0x80_0000 <= n * scale < 0x100_0000) by (nonlinear_arith)
                requires
                    low <= n < 2 * low,
                    low * scale == 0x80_0000,
                    scale >= 1,
            ;
        }
        let significand: u64 = n as u64 * scale;
        let bits: u32 = ((127 + top) * 0x80_0000) + (significand - 0x80_0000) as u32;
        proof {
            assert(exponent_of(bits) == 127 + top);
            assert(fraction_of(bits) == significand - 0x80_0000);
            assert((n * scale) / (scale as int) == n && (n * scale) % (scale as int) == 0)
                by (nonlinear_arith)
                requires
                    scale >= 1,
                    n >= 0,
            ;
        }
        FyfthNum { bits }
    }

    /// The number whose value is the integer `n`, for an `n` that single
    /// precision holds exactly.
    pub fn from_whole(n: i32) -> (num: FyfthNum)
        requires
            -0x100_0000 < n < 0x100_0000,
        ensures
            sign_of(num.bits) <==> n < 0,
            is_whole(num.bits),
            truncated(num.bits) == n,
    {
        if n >= 0 {
            FyfthNum::from_index(n as u32)
        } else {
            let positive = FyfthNum::from_index((-n) as u32);
            assert(positive.bits < 0x8000_0000);
            let bits: u32 = positive.bits + 0x8000_0000;
            assert(exponent_of(bits) == exponent_of(positive.bits));
            assert(fraction_of(bits) == fraction_of(positive.bits));
            FyfthNum { bits }
        }
    }
}

} // verus!
