//! Q1.14 signed fixed-point scalar: a 16-bit integer with 14 fractional
//! bits, representable range [-2, 2).  Addition, subtraction and negation
//! wrap around the 16-bit range (two's complement); multiplication rounds
//! half-up and rescales back to the same format.

use vstd::prelude::*;

verus! {

use vstd::arithmetic::power2::pow2;

/// Two's-complement wraparound of an unbounded integer into the `i16` range.
pub open spec fn wrap16(x: int) -> int {
    if x % 0x10000 > 0x7fff {
        x % 0x10000 - 0x10000
    } else {
        x % 0x10000
    }
}

/// Rescale a double-width fixed-point product back to Q1.14: add half an
/// LSB (round half-up), floor-shift out the fractional bits, and wrap into
/// the 16-bit range.
pub open spec fn unshift(x: int) -> int {
    wrap16((x + 0x2000) / 0x4000)
}

/// A Q1.14 fixed-point scalar; the raw integer is the value times 2^14.
#[derive(Clone, Copy, Debug, PartialEq, Eq, PartialOrd, Ord, Structural)]
pub struct DSPNum(pub i16);

/// Wrap an `i64` into the `i16` range, two's-complement style.
pub(crate) fn wrap_to_i16(x: i64) -> (r: i16)
    ensures
        r as int == wrap16(x as int),
{
    let m: i64 = x.checked_rem_euclid(0x10000).unwrap();
    if m > 0x7fff {
        (m - 0x10000) as i16
    } else {
        m as i16
    }
}

/// As `unshift_fpmul`, over a double-width intermediate value.
pub(crate) fn unshift_i64(a: i64) -> (r: i16)
    requires
        a <= i64::MAX - 0x2000,
    ensures
        r as int == unshift(a as int),
{
    let s: i64 = a + 0x2000;
    let q: i64 = s.checked_div_euclid(0x4000).unwrap();
    wrap_to_i16(q)
}

/// Drop the extra scale factor left by multiplying two raw Q1.14 integers:
/// round half-up and shift the 14 fractional bits out.
pub fn unshift_fpmul(a: i32) -> (r: i16)
    ensures
        r as int == unshift(a as int),
{
    unshift_i64(a as i64)
}

/// Wrapping is the identity on values already in the 16-bit range.
pub proof fn lemma_wrap16_id(x: int)
    requires
        -0x8000 <= x <= 0x7fff,
    ensures
        wrap16(x) == x,
{
    if x >= 0 {
        vstd::arithmetic::div_mod::lemma_small_mod(x as nat, 0x10000);
    } else {
        vstd::arithmetic::div_mod::lemma_mod_add_multiples_vanish(x, 0x10000);
        vstd::arithmetic::div_mod::lemma_small_mod((x + 0x10000) as nat, 0x10000);
    }
}

/// The product of two 16-bit values stays within the 32-bit range.
pub proof fn lemma_i16_product_in_i32(a: int, b: int)
    requires
        -0x8000 <= a <= 0x7fff,
        -0x8000 <= b <= 0x7fff,
    ensures
        -0x4000_0000 <= a * b <= 0x4000_0000,
{
    assert(-0x4000_0000 <= a * b <= 0x4000_0000) by (nonlinear_arith)
        requires
            -0x8000 <= a <= 0x7fff,
            -0x8000 <= b <= 0x7fff,
    ;
}

/// Flooring division by a positive divisor keeps a 16-bit value in range.
pub proof fn lemma_div_small_in_range(x: int, p: int)
    requires
        -0x8000 <= x <= 0x7fff,
        1 <= p,
    ensures
        -0x8000 <= x / p <= 0x7fff,
{
    if x >= 0 {
        vstd::arithmetic::div_mod::lemma_div_nonincreasing(x, p);
        vstd::arithmetic::div_mod::lemma_div_pos_is_pos(x, p);
    } else {
        vstd::arithmetic::div_mod::lemma_fundamental_div_mod(x, p);
        let q = x / p;
        let r = x % p;
        vstd::arithmetic::div_mod::lemma_mod_division_less_than_divisor(x, p);
        assert(q >= x) by (nonlinear_arith)
            requires
                x == p * q + r,
                0 <= r < p,
                x < 0,
                1 <= p,
        ;
        assert(q <= 0) by (nonlinear_arith)
            requires
                x == p * q + r,
                0 <= r < p,
                x < 0,
                1 <= p,
        ;
    }
}

/// Exact power of two as a 64-bit integer.
pub(crate) fn pow2_i64(e: u16) -> (r: i64)
    requires
        e < 16,
    ensures
        r == vstd::arithmetic::power2::pow2(e as nat),
{
    proof {
        vstd::arithmetic::power2::lemma2_to64();
    }
    let mut r: i64 = 1;
    let mut i: u16 = 0;
    while i < e
        invariant
            0 <= i <= e < 16,
            r == vstd::arithmetic::power2::pow2(i as nat),
            1 <= r <= 0x8000,
        decreases e - i,
    {
        proof {
            vstd::arithmetic::power2::lemma_pow2_unfold((i + 1) as nat);
            vstd::arithmetic::power2::lemma_pow2_strictly_increases(i as nat + 1, 16);
            vstd::arithmetic::power2::lemma2_to64();
        }
        r = r * 2;
        i = i + 1;
    }
    r
}

/// Exact power of two as a 32-bit unsigned integer.
pub(crate) fn pow2_u32(e: u32) -> (r: u32)
    requires
        e < 32,
    ensures
        r == pow2(e as nat),
{
    proof {
        vstd::arithmetic::power2::lemma2_to64();
    }
    let mut r: u32 = 1;
    let mut i: u32 = 0;
    while i < e
        invariant
            0 <= i <= e < 32,
            r == pow2(i as nat),
            1 <= r <= 0x8000_0000,
        decreases e - i,
    {
        proof {
            vstd::arithmetic::power2::lemma_pow2_unfold((i + 1) as nat);
            vstd::arithmetic::power2::lemma_pow2_strictly_increases(i as nat + 1, 32);
            vstd::arithmetic::power2::lemma2_to64();
        }
        r = r * 2;
        i = i + 1;
    }
    r
}

impl DSPNum {
    /// Number of fractional bits of the fixed-point format.
    pub const FIXED_POINT: i16 = 14;

    /// Fixed-point sum; wraps on overflow.
    pub fn add(self, other: DSPNum) -> (r: DSPNum)
        ensures
            r.0 as int == wrap16(self.0 + other.0),
    {
        DSPNum(wrap_to_i16(self.0 as i64 + other.0 as i64))
    }

    /// Fixed-point difference; wraps on overflow.
    pub fn sub(self, other: DSPNum) -> (r: DSPNum)
        ensures
            r.0 as int == wrap16(self.0 - other.0),
    {
        DSPNum(wrap_to_i16(self.0 as i64 - other.0 as i64))
    }

    /// Fixed-point negation; wraps at the minimum value.
    pub fn neg(self) -> (r: DSPNum)
        ensures
            r.0 as int == wrap16(-(self.0 as int)),
    {
        DSPNum(wrap_to_i16(-(self.0 as i64)))
    }

    /// Fixed-point product, rounded half-up and rescaled.
    pub fn mul(self, other: DSPNum) -> (r: DSPNum)
        ensures
            r.0 as int == unshift(self.0 * other.0),
    {
        proof {
            lemma_i16_product_in_i32(self.0 as int, other.0 as int);
        }
        DSPNum(unshift_fpmul(self.0 as i32 * other.0 as i32))
    }

    /// Exact scale-up by a power of two; wraps on overflow.
    pub fn shl(self, b: u16) -> (r: DSPNum)
        requires
            b < 16,
        ensures
            r.0 as int == wrap16(self.0 * vstd::arithmetic::power2::pow2(b as nat)),
    {
        let p: i64 = pow2_i64(b);
        proof {
            vstd::arithmetic::power2::lemma_pow2_pos(b as nat);
            vstd::arithmetic::power2::lemma_pow2_strictly_increases(b as nat, 16);
            vstd::arithmetic::power2::lemma2_to64();
            let a = self.0 as int;
            let pp = p as int;
            assert(-0x8000_0000 <= a * pp <= 0x8000_0000) by (nonlinear_arith)
                requires
                    -0x8000 <= a <= 0x7fff,
                    1 <= pp <= 0x10000,
            ;
        }
        DSPNum(wrap_to_i16(self.0 as i64 * p))
    }

    /// Exact scale-down by a power of two (floor division).
    pub fn shr(self, b: u16) -> (r: DSPNum)
        requires
            b < 16,
        ensures
            r.0 as int == self.0 as int / vstd::arithmetic::power2::pow2(b as nat) as int,
    {
        let p: i64 = pow2_i64(b);
        proof {
            vstd::arithmetic::power2::lemma_pow2_pos(b as nat);
            lemma_div_small_in_range(self.0 as int, p as int);
        }
        let q: i64 = (self.0 as i64).checked_div_euclid(p).unwrap();
        DSPNum(q as i16)
    }

    /// Integer square root of the value scaled by the fractional-bit count,
    /// computed two result bits at a time in fixed time.  The result `r`
    /// satisfies `r * r <= (14 * v) / 4 < (r + 1) * (r + 1)`.
    pub fn sqrt(&self) -> (r: DSPNum)
        requires
            self.0 >= 0,
        ensures
            r.0 >= 0,
            r.0 * r.0 <= (14 * self.0) / 4,
            (14 * self.0) / 4 < (r.0 + 1) * (r.0 + 1),
    {
        let b: u32 = (self.0 as u32) * 14;
        let mut result: u32 = 0;
        let mut shift: u32 = 30;
        proof {
            vstd::arithmetic::power2::lemma2_to64();
            assert(b as int / pow2(32) as int == 0) by {
                vstd::arithmetic::div_mod::lemma_basic_div(b as int, pow2(32) as int);
            }
        }
        while shift > 0
            invariant
                shift % 2 == 0,
                shift <= 30,
                b < 0x10_0000,
                result * result <= b as int / pow2((shift + 2) as nat) as int,
                (b as int / pow2((shift + 2) as nat) as int) < (result + 1) * (result + 1),
                result < pow2(((30 - shift) / 2) as nat),
            decreases shift,
        {
            proof {
                vstd::arithmetic::power2::lemma2_to64();
                vstd::arithmetic::power2::lemma_pow2_adds(shift as nat, 2);
                vstd::arithmetic::power2::lemma_pow2_pos(shift as nat);
                vstd::arithmetic::div_mod::lemma_div_denominator(
                    b as int,
                    pow2(shift as nat) as int,
                    4,
                );
                if shift >= 2 {
                    vstd::arithmetic::power2::lemma_pow2_adds(((30 - shift) / 2) as nat, 1);
                }
            }
            let p: u32 = pow2_u32(shift);
            let q: u32 = b / p;
            let ghost r0 = result as int;
            let ghost qq = q as int;
            proof {
                assert(result < 0x8000) by {
                    vstd::arithmetic::power2::lemma_pow2_strictly_increases(
                        ((30 - shift) / 2) as nat,
                        15,
                    );
                    vstd::arithmetic::power2::lemma2_to64();
                }
                assert(4 * (r0 * r0) <= qq && qq < (2 * r0 + 2) * (2 * r0 + 2)) by (nonlinear_arith)
                    requires
                        r0 * r0 <= qq / 4,
                        qq / 4 < (r0 + 1) * (r0 + 1),
                        0 <= r0,
                        0 <= qq,
                ;
            }
            result = result * 2;
            let cand: u32 = result + 1;
            proof {
                assert(cand * cand <= 0xffff_ffffu32) by (nonlinear_arith)
                    requires
                        cand <= 0xffff,
                ;
            }
            if cand * cand <= q {
                result = cand;
            }
            proof {
                assert(result * result <= qq && qq < (result + 1) * (result + 1)) by (nonlinear_arith)
                    requires
                        4 * (r0 * r0) <= qq < (2 * r0 + 2) * (2 * r0 + 2),
                        result == if (2 * r0 + 1) * (2 * r0 + 1) <= qq {
                            2 * r0 + 1
                        } else {
                            2 * r0
                        },
                        0 <= r0,
                ;
            }
            shift = shift - 2;
        }
        proof {
            vstd::arithmetic::power2::lemma2_to64();
            assert(result <= 0x7fff) by (nonlinear_arith)
                requires
                    result * result <= b as int / 4,
                    b < 0x10_0000,
            ;
        }
        DSPNum(result as i16)
    }

    /// Absolute value.
    pub fn abs(&self) -> (r: DSPNum)
        requires
            self.0 > i16::MIN,
        ensures
            r.0 == vstd::math::abs(self.0 as int),
    {
        if self.0 < 0 {
            DSPNum(-self.0)
        } else {
            DSPNum(self.0)
        }
    }
}

} // verus!
