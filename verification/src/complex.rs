//! Complex samples over the Q1.14 fixed-point scalar: exact add/sub/negate,
//! rounded fixed-point multiply, shift-scaling, and the table-driven
//! trigonometry (`expi`, `phase`) used by the FFT and the NCO.
//!
//! Angles are 32-bit integers in which a full turn equals 2^18: the top two
//! of those 18 bits select a quadrant and the lower 16 bits select a
//! rotation inside it, synthesized bit by bit from a 16-entry base table.

use vstd::prelude::*;

use crate::number::DSPNum;
use crate::number::unshift;
use crate::number::unshift_i64;
use crate::number::wrap16;
use crate::number::wrap_to_i16;

verus! {

use vstd::arithmetic::power2::pow2;

/// A complex sample: a pair of Q1.14 fixed-point scalars.
#[derive(Clone, Copy, Debug, PartialEq, Eq, Structural)]
pub struct DSPComplex {
    pub re: DSPNum,
    pub im: DSPNum,
}

/// Complex sum, each component wrapping in the 16-bit range.
pub open spec fn cadd(a: DSPComplex, b: DSPComplex) -> DSPComplex {
    DSPComplex {
        re: DSPNum(wrap16(a.re.0 + b.re.0) as i16),
        im: DSPNum(wrap16(a.im.0 + b.im.0) as i16),
    }
}

/// Complex difference, each component wrapping in the 16-bit range.
pub open spec fn csub(a: DSPComplex, b: DSPComplex) -> DSPComplex {
    DSPComplex {
        re: DSPNum(wrap16(a.re.0 - b.re.0) as i16),
        im: DSPNum(wrap16(a.im.0 - b.im.0) as i16),
    }
}

/// Complex negation.
pub open spec fn cneg(a: DSPComplex) -> DSPComplex {
    DSPComplex {
        re: DSPNum(wrap16(-a.re.0) as i16),
        im: DSPNum(wrap16(-a.im.0) as i16),
    }
}

/// Complex conjugate.  The imaginary part wraps at the minimum value.
pub open spec fn cconj(a: DSPComplex) -> DSPComplex {
    DSPComplex { re: a.re, im: DSPNum(wrap16(-a.im.0) as i16) }
}

/// Fixed-point complex product: each component is the exact double-width
/// product combination, rounded half-up and rescaled to Q1.14.
pub open spec fn cmul(a: DSPComplex, b: DSPComplex) -> DSPComplex {
    DSPComplex {
        re: DSPNum(unshift(a.re.0 * b.re.0 - a.im.0 * b.im.0) as i16),
        im: DSPNum(unshift(a.re.0 * b.im.0 + a.im.0 * b.re.0) as i16),
    }
}

/// Both components scaled down exactly by 2^k (floor).
pub open spec fn cshr(a: DSPComplex, k: nat) -> DSPComplex {
    DSPComplex {
        re: DSPNum((a.re.0 as int / vstd::arithmetic::power2::pow2(k) as int) as i16),
        im: DSPNum((a.im.0 as int / vstd::arithmetic::power2::pow2(k) as int) as i16),
    }
}

/// Both components scaled up by 2^k, wrapping in the 16-bit range.
pub open spec fn cshl(a: DSPComplex, k: nat) -> DSPComplex {
    DSPComplex {
        re: DSPNum(wrap16(a.re.0 * vstd::arithmetic::power2::pow2(k)) as i16),
        im: DSPNum(wrap16(a.im.0 * vstd::arithmetic::power2::pow2(k)) as i16),
    }
}

/// Shorthand constructor for complex constants in specifications.
pub open spec fn cplx(re: int, im: int) -> DSPComplex {
    DSPComplex { re: DSPNum(re as i16), im: DSPNum(im as i16) }
}

/// The 16-entry base rotation table: entry `i` is the unit vector at angle
/// 2^(15-i) in the system's 16-bit quadrant angle unit, i.e. successive
/// square roots of the quarter turn, in Q1.14.
pub open spec fn base_rot_spec(i: int) -> DSPComplex {
    if i == 0 {
        cplx(11585, 11585)
    } else if i == 1 {
        cplx(15137, 6270)
    } else if i == 2 {
        cplx(16069, 3196)
    } else if i == 3 {
        cplx(16305, 1606)
    } else if i == 4 {
        cplx(16364, 804)
    } else if i == 5 {
        cplx(16379, 402)
    } else if i == 6 {
        cplx(16383, 201)
    } else if i == 7 {
        cplx(16384, 101)
    } else if i == 8 {
        cplx(16384, 50)
    } else if i == 9 {
        cplx(16384, 25)
    } else if i == 10 {
        cplx(16384, 13)
    } else if i == 11 {
        cplx(16384, 6)
    } else if i == 12 {
        cplx(16384, 3)
    } else if i == 13 {
        cplx(16384, 2)
    } else if i == 14 {
        cplx(16384, 1)
    } else {
        cplx(16384, 0)
    }
}

/// One entry of the base rotation table.
pub fn base_rot(i: usize) -> (r: DSPComplex)
    requires
        i < 16,
    ensures
        r == base_rot_spec(i as int),
{
    match i {
        0 => DSPComplex::from_i16(11585, 11585),
        1 => DSPComplex::from_i16(15137, 6270),
        2 => DSPComplex::from_i16(16069, 3196),
        3 => DSPComplex::from_i16(16305, 1606),
        4 => DSPComplex::from_i16(16364, 804),
        5 => DSPComplex::from_i16(16379, 402),
        6 => DSPComplex::from_i16(16383, 201),
        7 => DSPComplex::from_i16(16384, 101),
        8 => DSPComplex::from_i16(16384, 50),
        9 => DSPComplex::from_i16(16384, 25),
        10 => DSPComplex::from_i16(16384, 13),
        11 => DSPComplex::from_i16(16384, 6),
        12 => DSPComplex::from_i16(16384, 3),
        13 => DSPComplex::from_i16(16384, 2),
        14 => DSPComplex::from_i16(16384, 1),
        _ => DSPComplex::from_i16(16384, 0),
    }
}

/// Bit `i` of a nonnegative angle value.
pub open spec fn angle_bit(x: int, i: nat) -> bool {
    (x / vstd::arithmetic::power2::pow2(i) as int) % 2 == 1
}

/// Product of the base rotations selected by the low `n` bits of `x`:
/// the bit-by-bit synthesis of cos/sin for a 16-bit quadrant angle.
pub open spec fn sincos_prefix(x: int, n: nat) -> DSPComplex
    decreases n,
{
    if n == 0 {
        cplx(0x4000, 0)
    } else {
        let p = sincos_prefix(x, (n - 1) as nat);
        if angle_bit(x, (n - 1) as nat) {
            cmul(p, base_rot_spec(15 - (n - 1)))
        } else {
            p
        }
    }
}

/// Cosine and sine of a 16-bit quadrant angle (a quarter turn is 2^16).
pub open spec fn sincos_spec(x: int) -> DSPComplex {
    sincos_prefix(x, 16)
}

/// First-quadrant rotation synthesis: multiplies together the base
/// rotations selected by the bits of `x`, in fixed time.
fn sincos_(x: u16) -> (r: DSPComplex)
    ensures
        r == sincos_spec(x as int),
{
    let mut sc = DSPComplex::from_i16(0x4000, 0);
    let mut p: u32 = 1;
    let mut i: usize = 0;
    proof {
        vstd::arithmetic::power2::lemma2_to64();
    }
    while i < 16
        invariant
            i <= 16,
            p == vstd::arithmetic::power2::pow2(i as nat),
            sc == sincos_prefix(x as int, i as nat),
        decreases 16 - i,
    {
        proof {
            vstd::arithmetic::power2::lemma_pow2_strictly_increases(i as nat, 16);
            vstd::arithmetic::power2::lemma_pow2_unfold((i + 1) as nat);
            vstd::arithmetic::power2::lemma2_to64();
        }
        if (x as u32 / p) % 2 == 1 {
            sc = sc.mul(base_rot(15 - i));
        }
        p = p * 2;
        i = i + 1;
    }
    sc
}

/// Unit rotation at the given angle: `expi(theta)` is the fixed-point
/// cos/sin pair at `theta`, where a full turn equals 2^18 (the top two of
/// those bits select the quadrant, the low 16 bits the position in it).
/// Only `theta` modulo 2^18 matters.
pub open spec fn expi_spec(theta: int) -> DSPComplex {
    let t = theta % 0x40000;
    let o = t / 0x10000;
    let c = sincos_spec(t % 0x10000);
    if o == 0 {
        c
    } else if o == 1 {
        DSPComplex { re: DSPNum(wrap16(-c.im.0) as i16), im: c.re }
    } else if o == 2 {
        cneg(c)
    } else {
        DSPComplex { re: c.im, im: DSPNum(wrap16(-c.re.0) as i16) }
    }
}

/// With no angle bits set, the rotation synthesis never leaves one.
pub proof fn lemma_sincos_zero(n: nat)
    requires
        n <= 16,
    ensures
        sincos_prefix(0, n) == cplx(0x4000, 0),
    decreases n,
{
    if n > 0 {
        lemma_sincos_zero((n - 1) as nat);
        vstd::arithmetic::power2::lemma_pow2_pos((n - 1) as nat);
        vstd::arithmetic::div_mod::lemma_div_of0(pow2((n - 1) as nat) as int);
        assert(!angle_bit(0, (n - 1) as nat));
    }
}

/// A whole-turn angle is the unit rotation.
pub proof fn lemma_expi_zero(theta: int)
    requires
        theta % 0x40000 == 0,
    ensures
        expi_spec(theta) == cplx(0x4000, 0),
{
    lemma_sincos_zero(16);
    vstd::arithmetic::div_mod::lemma_div_of0(0x10000);
    vstd::arithmetic::div_mod::lemma_small_mod(0, 0x10000);
}

/// Multiplying a real sample by the unit rotation returns it unchanged.
pub proof fn lemma_cmul_unit(v: int)
    requires
        -0x8000 <= v <= 0x7fff,
    ensures
        cmul(cplx(v, 0), cplx(0x4000, 0)) == cplx(v, 0),
{
    assert(v * 0x4000 == 0x4000 * v && v * 0 == 0 && 0 * 0x4000 == 0 && 0 * 0 == 0)
        by (nonlinear_arith);
    vstd::arithmetic::div_mod::lemma_div_multiples_vanish_fancy(v, 0x2000, 0x4000);
    crate::number::lemma_wrap16_id(v);
    crate::number::lemma_wrap16_id(0);
    assert(0x2000int / 0x4000int == 0);
}

/// Multiplying a real sample whose value is a multiple of four by the
/// quarter-scale real coefficient divides it exactly by four.
pub proof fn lemma_cmul_quarter(v: int)
    requires
        -0x8000 <= v <= 0x7fff,
        v % 4 == 0,
    ensures
        cmul(cplx(v, 0), cplx(0x1000, 0)) == cplx(v / 4, 0),
{
    let w = v / 4;
    vstd::arithmetic::div_mod::lemma_fundamental_div_mod(v, 4);
    assert(v * 0x1000 == 0x4000 * w && v * 0 == 0 && 0 * 0x1000 == 0 && 0 * 0 == 0)
        by (nonlinear_arith)
        requires
            v == 4 * w,
    ;
    vstd::arithmetic::div_mod::lemma_div_multiples_vanish_fancy(w, 0x2000, 0x4000);
    crate::number::lemma_wrap16_id(w);
    crate::number::lemma_wrap16_id(0);
    assert(0x2000int / 0x4000int == 0);
}

impl DSPComplex {
    /// The complex zero.
    pub fn zero() -> (r: DSPComplex)
        ensures
            r == (DSPComplex { re: DSPNum(0i16), im: DSPNum(0i16) }),
    {
        DSPComplex { re: DSPNum(0), im: DSPNum(0) }
    }

    /// The complex one (unit value on the real axis).
    pub fn one() -> (r: DSPComplex)
        ensures
            r == (DSPComplex { re: DSPNum(0x4000i16), im: DSPNum(0i16) }),
    {
        DSPComplex { re: DSPNum(0x4000), im: DSPNum(0) }
    }

    /// The imaginary unit.
    pub fn i() -> (r: DSPComplex)
        ensures
            r == (DSPComplex { re: DSPNum(0i16), im: DSPNum(0x4000i16) }),
    {
        DSPComplex { re: DSPNum(0), im: DSPNum(0x4000) }
    }

    /// Build a sample from raw fixed-point component values.
    pub fn from_i16(re: i16, im: i16) -> (r: DSPComplex)
        ensures
            r == (DSPComplex { re: DSPNum(re), im: DSPNum(im) }),
    {
        DSPComplex { re: DSPNum(re), im: DSPNum(im) }
    }

    /// Complex sum.
    pub fn add(self, other: DSPComplex) -> (r: DSPComplex)
        ensures
            r == cadd(self, other),
    {
        DSPComplex { re: self.re.add(other.re), im: self.im.add(other.im) }
    }

    /// Complex difference.
    pub fn sub(self, other: DSPComplex) -> (r: DSPComplex)
        ensures
            r == csub(self, other),
    {
        DSPComplex { re: self.re.sub(other.re), im: self.im.sub(other.im) }
    }

    /// Complex negation.
    pub fn neg(self) -> (r: DSPComplex)
        ensures
            r == cneg(self),
    {
        DSPComplex { re: self.re.neg(), im: self.im.neg() }
    }

    /// Complex conjugate.
    pub fn conj(&self) -> (r: DSPComplex)
        ensures
            r == cconj(*self),
    {
        DSPComplex { re: self.re, im: self.im.neg() }
    }

    /// Fixed-point complex product.
    pub fn mul(self, other: DSPComplex) -> (r: DSPComplex)
        ensures
            r == cmul(self, other),
    {
        proof {
            crate::number::lemma_i16_product_in_i32(self.re.0 as int, other.re.0 as int);
            crate::number::lemma_i16_product_in_i32(self.im.0 as int, other.im.0 as int);
            crate::number::lemma_i16_product_in_i32(self.re.0 as int, other.im.0 as int);
            crate::number::lemma_i16_product_in_i32(self.im.0 as int, other.re.0 as int);
        }
        let rr: i64 = self.re.0 as i64 * other.re.0 as i64;
        let ii: i64 = self.im.0 as i64 * other.im.0 as i64;
        let ri: i64 = self.re.0 as i64 * other.im.0 as i64;
        let ir: i64 = self.im.0 as i64 * other.re.0 as i64;
        DSPComplex { re: DSPNum(unshift_i64(rr - ii)), im: DSPNum(unshift_i64(ri + ir)) }
    }

    /// Both components scaled down exactly by 2^k.
    pub fn shr(self, k: u16) -> (r: DSPComplex)
        requires
            k < 16,
        ensures
            r == cshr(self, k as nat),
    {
        DSPComplex { re: self.re.shr(k), im: self.im.shr(k) }
    }

    /// Both components scaled up by 2^k, wrapping.
    pub fn shl(self, k: u16) -> (r: DSPComplex)
        requires
            k < 16,
        ensures
            r == cshl(self, k as nat),
    {
        DSPComplex { re: self.re.shl(k), im: self.im.shl(k) }
    }

    /// Squared magnitude, rescaled to Q1.14; wraps for full-scale inputs.
    pub fn norm(&self) -> (r: DSPNum)
        ensures
            r.0 as int == wrap16((self.re.0 * self.re.0 + self.im.0 * self.im.0) / 0x4000),
    {
        proof {
            crate::number::lemma_i16_product_in_i32(self.re.0 as int, self.re.0 as int);
            crate::number::lemma_i16_product_in_i32(self.im.0 as int, self.im.0 as int);
        }
        let s: i64 = self.re.0 as i64 * self.re.0 as i64 + self.im.0 as i64 * self.im.0 as i64;
        let q: i64 = s.checked_div_euclid(0x4000).unwrap();
        DSPNum(wrap_to_i16(q))
    }

    /// Unit rotation at angle `theta` (a full turn is 2^18): quadrant
    /// selection from the top bits, bit-by-bit synthesis of the rest.
    /// Runs in fixed time, independent of the input value.
    pub fn expi(theta: i32) -> (r: DSPComplex)
        ensures
            r == expi_spec(theta as int),
    {
        let t: i32 = theta.checked_rem_euclid(0x40000).unwrap();
        let tu: u32 = t as u32;
        let orthant: u32 = tu / 0x10000;
        let x: u16 = (tu % 0x10000) as u16;
        let c = sincos_(x);
        if orthant == 0 {
            c
        } else if orthant == 1 {
            DSPComplex { re: c.im.neg(), im: c.re }
        } else if orthant == 2 {
            c.neg()
        } else {
            DSPComplex { re: c.im, im: c.re.neg() }
        }
    }

    /// Magnitude approximated as `max(|re|, |im|) + min(|re|, |im|) / 2`;
    /// wraps for full-scale inputs.
    pub fn fast_abs(&self) -> (r: DSPNum)
        ensures
            r.0 as int == fast_abs_spec(*self),
    {
        let ar: i32 = if self.re.0 < 0 {
            -(self.re.0 as i32)
        } else {
            self.re.0 as i32
        };
        let ai: i32 = if self.im.0 < 0 {
            -(self.im.0 as i32)
        } else {
            self.im.0 as i32
        };
        let hi: i32 = if ar >= ai { ar } else { ai };
        let lo: i32 = if ar >= ai { ai } else { ar };
        DSPNum(wrap_to_i16(hi as i64 + (lo / 2) as i64))
    }
}

/// Fast magnitude approximation: the larger absolute component plus half
/// the smaller one, wrapped into the 16-bit range.
pub open spec fn fast_abs_spec(c: DSPComplex) -> int {
    let ar = vstd::math::abs(c.re.0 as int) as int;
    let ai = vstd::math::abs(c.im.0 as int) as int;
    wrap16(vstd::math::max(ar, ai) + vstd::math::min(ar, ai) / 2)
}

/// One step of the binary phase search, from bit `i` down: keeps the
/// candidate rotation `sc` and accumulated angle, taking bit `i` exactly
/// when the candidate still lies below the target direction `xy`
/// (compared by cross product, avoiding division).
pub open spec fn atan2_step(xy: DSPComplex, i: int, angle: int, sc: DSPComplex) -> int
    decreases i + 1,
{
    if i < 0 {
        angle
    } else {
        let sc2 = cmul(sc, base_rot_spec(15 - i));
        if sc2.im.0 * xy.re.0 < sc2.re.0 * xy.im.0 {
            atan2_step(xy, i - 1, angle + vstd::arithmetic::power2::pow2(i as nat), sc2)
        } else {
            atan2_step(xy, i - 1, angle, sc)
        }
    }
}

/// First-quadrant inverse rotation: the 16-bit quadrant angle of `xy`.
pub open spec fn atan2_spec(xy: DSPComplex) -> int {
    atan2_step(xy, 15, 0, cplx(0x4000, 0))
}

/// Binary search for the angle of `xy` over the base rotation table,
/// in fixed time (16 iterations).
fn atan2_(xy: DSPComplex) -> (r: u16)
    ensures
        r as int == atan2_spec(xy),
{
    let mut angle: u16 = 0;
    let mut sc = DSPComplex::from_i16(0x4000, 0);
    let mut p: u32 = 0x8000;
    let mut k: usize = 0;
    proof {
        vstd::arithmetic::power2::lemma2_to64();
    }
    while k < 16
        invariant
            k <= 16,
            p == vstd::arithmetic::power2::pow2((15 - k as int) as nat) || (k == 16 && p == 0),
            angle + 2 * p <= 0x10000,
            atan2_spec(xy) == atan2_step(xy, 15 - k, angle as int, sc),
        decreases 16 - k,
    {
        proof {
            vstd::arithmetic::power2::lemma2_to64();
            if k < 15 {
                vstd::arithmetic::power2::lemma_pow2_unfold((15 - k) as nat);
            }
        }
        let sc2 = sc.mul(base_rot(k));
        proof {
            crate::number::lemma_i16_product_in_i32(sc2.im.0 as int, xy.re.0 as int);
            crate::number::lemma_i16_product_in_i32(sc2.re.0 as int, xy.im.0 as int);
        }
        if (sc2.im.0 as i32) * (xy.re.0 as i32) < (sc2.re.0 as i32) * (xy.im.0 as i32) {
            angle = angle + (p as u16);
            sc = sc2;
        }
        p = p / 2;
        k = k + 1;
    }
    angle
}

/// Signed angle of a complex sample: the binary search runs in the first
/// quadrant and the result is corrected by the signs of the components.
/// A quarter turn is 2^16; the result lies in (-2^17, 2^17].
pub open spec fn phase_spec(c: DSPComplex) -> int {
    if c.re.0 == 0 && c.im.0 == 0 {
        0
    } else if c.re.0 >= 0 {
        if c.im.0 >= 0 {
            atan2_spec(c)
        } else {
            -atan2_spec(DSPComplex { re: c.re, im: DSPNum(wrap16(-c.im.0) as i16) })
        }
    } else {
        if c.im.0 >= 0 {
            0x20000 - atan2_spec(
                DSPComplex { re: DSPNum(wrap16(-c.re.0) as i16), im: c.im },
            )
        } else {
            atan2_spec(cneg(c)) - 0x20000
        }
    }
}

/// Largest power of two not exceeding `k`, for table indices up to 127.
pub open spec fn top_bit(k: int) -> int {
    if k >= 64 {
        64
    } else if k >= 32 {
        32
    } else if k >= 16 {
        16
    } else if k >= 8 {
        8
    } else if k >= 4 {
        4
    } else {
        2
    }
}

/// Table indices whose entries are seeded directly from the base table.
pub open spec fn seeded(k: int) -> bool {
    k == 1 || k == 2 || k == 4 || k == 8 || k == 16 || k == 32 || k == 64
}

/// Entry `k` of the 128-entry rotation table: entries at power-of-two
/// indices are conjugated base rotations (index 64 the conjugated
/// imaginary unit), and every other entry is the product of the entries
/// at its top bit and at the rest, so that `table[k]` approximates the
/// conjugated unit vector at angle `k * 2^10`.
pub open spec fn omega_spec(k: int) -> DSPComplex
    decreases k,
{
    if k <= 0 {
        cplx(0x4000, 0)
    } else if k == 1 {
        cconj(base_rot_spec(5))
    } else if k == 2 {
        cconj(base_rot_spec(4))
    } else if k == 4 {
        cconj(base_rot_spec(3))
    } else if k == 8 {
        cconj(base_rot_spec(2))
    } else if k == 16 {
        cconj(base_rot_spec(1))
    } else if k == 32 {
        cconj(base_rot_spec(0))
    } else if k == 64 {
        cplx(0, -0x4000)
    } else {
        cmul(omega_spec(k - top_bit(k)), omega_spec(top_bit(k)))
    }
}

impl DSPComplex {
    /// Fill the 128-entry rotation table shared by the FFT and the NCO:
    /// seed the power-of-two entries from the base table and combine them
    /// for the rest (entry `k` approximates the conjugated unit vector at
    /// angle `k * 2^10`).
    pub fn make_sequential_expi(arr: &mut Vec<DSPComplex>)
        requires
            old(arr).len() == 128,
        ensures
            final(arr).len() == 128,
            forall|k: int| 0 <= k < 128 ==> final(arr)[k] == omega_spec(k),
    {
        arr[0] = DSPComplex::one();
        arr[64] = DSPComplex::i().conj();
        arr[1] = base_rot(5).conj();
        arr[2] = base_rot(4).conj();
        arr[4] = base_rot(3).conj();
        arr[8] = base_rot(2).conj();
        arr[16] = base_rot(1).conj();
        arr[32] = base_rot(0).conj();

        let mut d: usize = 2;
        while d <= 64
            invariant
                arr.len() == 128,
                d == 2 || d == 4 || d == 8 || d == 16 || d == 32 || d == 64 || d == 128,
                forall|k: int|
                    0 <= k < 128 && (k < d + 1 || seeded(k)) ==> arr[k] == omega_spec(k),
            decreases 128 - d,
        {
            let mut i: usize = d + 1;
            while i < 2 * d
                invariant
                    arr.len() == 128,
                    d == 2 || d == 4 || d == 8 || d == 16 || d == 32 || d == 64,
                    d + 1 <= i <= 2 * d,
                    forall|k: int|
                        0 <= k < 128 && (k < i || seeded(k)) ==> arr[k] == omega_spec(k),
                decreases 2 * d - i,
            {
                let v = arr[i - d].mul(arr[d]);
                proof {
                    assert(arr[i - d] == omega_spec(i - d));
                    assert(seeded(d as int));
                    assert(top_bit(i as int) == d);
                    assert(!seeded(i as int));
                    assert(omega_spec(i as int) == cmul(
                        omega_spec(i - top_bit(i as int)),
                        omega_spec(top_bit(i as int)),
                    ));
                }
                arr[i] = v;
                i = i + 1;
            }
            d = d * 2;
        }
    }

    /// Signed angle of the sample, in the unit where a full turn is 2^18.
    /// Fixed time; the inverse of `expi` up to quantization.
    pub fn phase(&self) -> (r: i32)
        ensures
            r as int == phase_spec(*self),
    {
        if self.re.0 == 0 && self.im.0 == 0 {
            return 0;
        }
        if self.re.0 >= 0 {
            if self.im.0 >= 0 {
                atan2_(*self) as i32
            } else {
                -(atan2_(DSPComplex { re: self.re, im: self.im.neg() }) as i32)
            }
        } else {
            if self.im.0 >= 0 {
                0x20000 - (atan2_(DSPComplex { re: self.re.neg(), im: self.im }) as i32)
            } else {
                (atan2_(self.neg()) as i32) - 0x20000
            }
        }
    }
}

} // verus!
