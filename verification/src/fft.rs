//! Fixed-size 256-point radix-2 decimation-in-time FFT over complex
//! fixed-point samples: a bit-reversal permutation pass, eight butterfly
//! stages whose twiddle factors come straight from the precomputed rotation
//! table, and a final half-buffer swap that restores natural frequency
//! order.  Every butterfly halves both operands before combining, so the
//! result is scaled by 1/256 and intermediate magnitudes cannot grow.

use vstd::prelude::*;

use crate::complex::DSPComplex;
use crate::complex::cadd;
use crate::complex::cmul;
use crate::complex::cshr;
use crate::complex::csub;
use crate::complex::omega_spec;

verus! {

use vstd::arithmetic::power2::pow2;

/// Number of points of the transform.
pub const FFT_SIZE: usize = 256;

/// Base-two logarithm of the transform size: the number of stages.
pub const FFT_SIZE_LOG2: usize = 8;

/// Bit `i` of a nonnegative index.
pub open spec fn idx_bit(x: int, i: nat) -> int {
    (x / pow2(i) as int) % 2
}

/// The low `n` bits of `x` in reversed order.
pub open spec fn rev_prefix(x: int, n: nat) -> int
    decreases n,
{
    if n == 0 {
        0
    } else {
        2 * rev_prefix(x, (n - 1) as nat) + idx_bit(x, (n - 1) as nat)
    }
}

/// An 8-bit index with its bits reversed.
pub open spec fn bitrev8(x: int) -> int {
    rev_prefix(x, 8)
}

/// The reversed low bits stay below the same power of two.
pub proof fn lemma_rev_prefix_bound(x: int, n: nat)
    requires
        x >= 0,
    ensures
        0 <= rev_prefix(x, n) < pow2(n),
    decreases n,
{
    if n == 0 {
        vstd::arithmetic::power2::lemma2_to64();
    } else {
        lemma_rev_prefix_bound(x, (n - 1) as nat);
        vstd::arithmetic::power2::lemma_pow2_unfold(n);
        vstd::arithmetic::power2::lemma_pow2_pos((n - 1) as nat);
    }
}

/// The input sequence reordered so that each element comes from the
/// bit-reversed position.
pub open spec fn bitrev_perm(s: Seq<DSPComplex>) -> Seq<DSPComplex> {
    Seq::new(256, |k: int| s[bitrev8(k)])
}

/// Reverse the low eight bits of an index.
pub fn reverse8(x: usize) -> (r: usize)
    requires
        x < 256,
    ensures
        r == bitrev8(x as int),
        r < 256,
{
    proof {
        vstd::arithmetic::power2::lemma2_to64();
    }
    let mut r: usize = 0;
    let mut p: usize = 1;
    let mut j: usize = 0;
    while j < 8
        invariant
            j <= 8,
            x < 256,
            p == pow2(j as nat),
            r == rev_prefix(x as int, j as nat),
            0 <= r < pow2(j as nat),
        decreases 8 - j,
    {
        proof {
            vstd::arithmetic::power2::lemma_pow2_unfold((j + 1) as nat);
            vstd::arithmetic::power2::lemma_pow2_strictly_increases(j as nat, 8);
            vstd::arithmetic::power2::lemma2_to64();
            lemma_rev_prefix_bound(x as int, (j + 1) as nat);
        }
        r = 2 * r + (x / p) % 2;
        p = p * 2;
        j = j + 1;
    }
    r
}

/// Which butterfly pair (numbered 0..128) an index belongs to in the stage
/// with half-span `b`.
pub open spec fn pair_of(k: int, b: int) -> int {
    (k / (2 * b)) * b + k % b
}

/// One butterfly stage with half-span `b = 2^j`, applied pointwise: the
/// element whose stage bit is clear becomes `s[p]/2 + (s[q]*w)/2` and its
/// partner becomes `s[p]/2 - (s[q]*w)/2`, where `q = p + b` and the
/// twiddle `w` is the table entry at the pair's low bits times `128/b`.
pub open spec fn stage_spec(s: Seq<DSPComplex>, om: Seq<DSPComplex>, j: nat) -> Seq<DSPComplex> {
    let b = pow2(j) as int;
    Seq::new(
        256,
        |k: int|
            {
                let p = (k / (2 * b)) * (2 * b) + k % b;
                let w = om[(k % b) * (128int / b)];
                let a = cshr(s[p], 1);
                let t = cshr(cmul(s[p + b], w), 1);
                if (k / b) % 2 == 0 {
                    cadd(a, t)
                } else {
                    csub(a, t)
                }
            },
    )
}

/// The first `n` butterfly stages, applied in order.
pub open spec fn stages_spec(s: Seq<DSPComplex>, om: Seq<DSPComplex>, n: nat) -> Seq<DSPComplex>
    decreases n,
{
    if n == 0 {
        s
    } else {
        stage_spec(stages_spec(s, om, (n - 1) as nat), om, (n - 1) as nat)
    }
}

/// The two halves of the buffer exchanged: the final frequency-order fix.
pub open spec fn swap_halves(s: Seq<DSPComplex>) -> Seq<DSPComplex> {
    Seq::new(256, |k: int| if k < 128 { s[k + 128] } else { s[k - 128] })
}

/// The whole transform: bit-reversal permutation, eight halving butterfly
/// stages over the given twiddle table, and the half-buffer swap.
pub open spec fn fft_spec(s: Seq<DSPComplex>, om: Seq<DSPComplex>) -> Seq<DSPComplex> {
    swap_halves(stages_spec(bitrev_perm(s), om, 8))
}

/// Reversing the bits of zero gives zero.
pub proof fn lemma_rev_prefix_of_zero(n: nat)
    ensures
        rev_prefix(0, n) == 0,
    decreases n,
{
    if n > 0 {
        lemma_rev_prefix_of_zero((n - 1) as nat);
        vstd::arithmetic::power2::lemma_pow2_pos((n - 1) as nat);
        vstd::arithmetic::div_mod::lemma_div_of0(pow2((n - 1) as nat) as int);
    }
}

/// An index whose reversed low bits are all zero is a multiple of the
/// corresponding power of two — so among 0..256 only zero reverses to zero.
pub proof fn lemma_rev_prefix_zero_divides(x: int, n: nat)
    requires
        x >= 0,
        rev_prefix(x, n) == 0,
    ensures
        x % pow2(n) as int == 0,
    decreases n,
{
    if n == 0 {
        vstd::arithmetic::power2::lemma2_to64();
        vstd::arithmetic::div_mod::lemma_mod_division_less_than_divisor(x, 1);
    } else {
        lemma_rev_prefix_bound(x, (n - 1) as nat);
        assert(rev_prefix(x, (n - 1) as nat) == 0 && idx_bit(x, (n - 1) as nat) == 0);
        lemma_rev_prefix_zero_divides(x, (n - 1) as nat);
        let p = pow2((n - 1) as nat) as int;
        vstd::arithmetic::power2::lemma_pow2_pos((n - 1) as nat);
        vstd::arithmetic::power2::lemma_pow2_unfold(n);
        let q = x / p;
        vstd::arithmetic::div_mod::lemma_fundamental_div_mod(x, p);
        vstd::arithmetic::div_mod::lemma_fundamental_div_mod(q, 2);
        let q2 = q / 2;
        assert(x == (2 * p) * q2) by (nonlinear_arith)
            requires
                x == p * q + x % p,
                x % p == 0,
                q == 2 * q2 + q % 2,
                q % 2 == 0,
        ;
        vstd::arithmetic::div_mod::lemma_mod_multiples_basic(q2, 2 * p);
        assert(q2 * (2 * p) == (2 * p) * q2) by (nonlinear_arith);
    }
}

/// Exact power of two as a `usize`.
fn pow2_usize(e: usize) -> (r: usize)
    requires
        e < 16,
    ensures
        r == pow2(e as nat),
{
    proof {
        vstd::arithmetic::power2::lemma2_to64();
    }
    let mut r: usize = 1;
    let mut i: usize = 0;
    while i < e
        invariant
            0 <= i <= e < 16,
            r == pow2(i as nat),
            1 <= r <= 0x8000,
        decreases e - i,
    {
        proof {
            vstd::arithmetic::power2::lemma_pow2_unfold((i + 1) as nat);
            vstd::arithmetic::power2::lemma_pow2_strictly_increases(i as nat + 1, 16);
            vstd::arithmetic::power2::lemma2_to64();
        }
        r = r * 2;
        i = i + 1;
    }
    r
}

/// An index with butterfly-pair number `t` in the stage with half-span `b`
/// is one of the two indices that pair is made of.
proof fn lemma_pair_unique(k: int, b: int, t: int)
    requires
        1 <= b,
        0 <= k,
        pair_of(k, b) == t,
    ensures
        k == (t / b) * (2 * b) + t % b || k == (t / b) * (2 * b) + t % b + b,
{
    let blk = k / (2 * b);
    let lo = k % b;
    vstd::arithmetic::div_mod::lemma_mod_division_less_than_divisor(k, b);
    vstd::arithmetic::div_mod::lemma_div_pos_is_pos(k, 2 * b);
    vstd::arithmetic::div_mod::lemma_fundamental_div_mod_converse(t, b, blk, lo);
    vstd::arithmetic::div_mod::lemma_breakdown(k, b, 2);
    vstd::arithmetic::div_mod::lemma_fundamental_div_mod(k, 2 * b);
    let bit = (k / b) % 2;
    assert(k == (2 * b) * blk + (b * bit + lo));
    assert(bit == 0 || bit == 1);
    assert(b * 0 == 0 && b * 1 == b) by (nonlinear_arith);
    assert((t / b) * (2 * b) == (2 * b) * blk) by (nonlinear_arith)
        requires
            t / b == blk,
    ;
}

/// Multiplying the complex zero by anything gives the complex zero.
proof fn lemma_cmul_zero(x: DSPComplex)
    ensures
        cmul(crate::complex::cplx(0, 0), x) == crate::complex::cplx(0, 0),
{
    assert(0 * x.re.0 == 0 && 0 * x.im.0 == 0) by (nonlinear_arith);
    assert(0x2000int / 0x4000int == 0);
    crate::number::lemma_wrap16_id(0);
}

/// One stage of the spreading impulse: a buffer that holds `w` on its
/// first `2^j` entries and zero elsewhere becomes one that holds `w / 2`
/// on its first `2^(j+1)` entries and zero elsewhere — the zero partners
/// contribute nothing, whatever the twiddles are.
proof fn lemma_impulse_stage(t: Seq<DSPComplex>, om: Seq<DSPComplex>, j: nat, w: int)
    requires
        t.len() == 256,
        j < 8,
        -0x8000 <= w <= 0x7fff,
        forall|k: int|
            0 <= k < 256 ==> t[k] == (if k < pow2(j) {
                crate::complex::cplx(w, 0)
            } else {
                crate::complex::cplx(0, 0)
            }),
    ensures
        forall|k: int|
            0 <= k < 256 ==> stage_spec(t, om, j)[k] == (if k < pow2((j + 1) as nat) {
                crate::complex::cplx(w / 2, 0)
            } else {
                crate::complex::cplx(0, 0)
            }),
{
    let b = pow2(j) as int;
    vstd::arithmetic::power2::lemma_pow2_pos(j);
    vstd::arithmetic::power2::lemma_pow2_unfold((j + 1) as nat);
    vstd::arithmetic::power2::lemma_pow2_strictly_increases(j, 8);
    vstd::arithmetic::power2::lemma2_to64();
    crate::number::lemma_wrap16_id(0);
    crate::number::lemma_div_small_in_range(w, 2);
    crate::number::lemma_wrap16_id(w / 2);
    vstd::arithmetic::div_mod::lemma_div_of0(2);
    assert forall|k: int| 0 <= k < 256 implies stage_spec(t, om, j)[k] == (if k < 2 * b {
        crate::complex::cplx(w / 2, 0)
    } else {
        crate::complex::cplx(0, 0)
    }) by {
        let c = k / (2 * b);
        let lo = k % b;
        let p = c * (2 * b) + lo;
        let wt = om[lo * (128int / b)];
        vstd::arithmetic::div_mod::lemma_fundamental_div_mod(k, 2 * b);
        vstd::arithmetic::div_mod::lemma_fundamental_div_mod(k, b);
        vstd::arithmetic::div_mod::lemma_mod_division_less_than_divisor(k, 2 * b);
        vstd::arithmetic::div_mod::lemma_mod_division_less_than_divisor(k, b);
        vstd::arithmetic::div_mod::lemma_breakdown(k, b, 2);
        let bitj = (k / b) % 2;
        vstd::arithmetic::div_mod::lemma_mod_division_less_than_divisor(k / b, 2);
        if k < 2 * b {
            vstd::arithmetic::div_mod::lemma_basic_div(k, 2 * b);
            assert(c == 0);
            assert(c * (2 * b) == 0) by (nonlinear_arith)
                requires
                    c == 0,
            ;
            assert(p == lo && lo < b);
            assert(t[p] == crate::complex::cplx(w, 0));
            assert(b <= p + b < 2 * b <= 256);
            assert(t[p + b] == crate::complex::cplx(0, 0));
            lemma_cmul_zero(wt);
            assert(cshr(crate::complex::cplx(0, 0), 1) == crate::complex::cplx(0, 0));
            assert(cshr(crate::complex::cplx(w, 0), 1) == crate::complex::cplx(w / 2, 0));
        } else {
            // the whole pair lies in the zero region
            assert(c >= 1) by (nonlinear_arith)
                requires
                    k == (2 * b) * c + k % (2 * b),
                    0 <= k % (2 * b) < 2 * b,
                    k >= 2 * b,
                    b >= 1,
            ;
            assert(p >= 2 * b) by (nonlinear_arith)
                requires
                    p == c * (2 * b) + lo,
                    c >= 1,
                    lo >= 0,
                    b >= 1,
            ;
            // p never exceeds k, and the pair partner stays inside the
            // buffer because bit j of p is clear
            assert(k == (2 * b) * c + (b * bitj + lo));
            assert(p + b * bitj == k && p <= k) by (nonlinear_arith)
                requires
                    k == (2 * b) * c + (b * bitj + lo),
                    p == c * (2 * b) + lo,
                    0 <= bitj <= 1,
                    b >= 1,
                    lo >= 0,
            ;
            let mm = pow2((7 - j) as nat) as int;
            vstd::arithmetic::power2::lemma_pow2_adds((j + 1) as nat, (7 - j) as nat);
            assert((2 * b) * mm == 256) by (nonlinear_arith)
                requires
                    2 * b == pow2((j + 1) as nat),
                    mm == pow2((7 - j) as nat),
                    pow2((j + 1) as nat) * pow2((7 - j) as nat) == 256,
            ;
            assert(p + b < 256) by (nonlinear_arith)
                requires
                    p + b * bitj == k,
                    k < 256,
                    0 <= bitj <= 1,
                    1 <= b <= 128,
                    p >= 0,
                    k % (2 * b) == b * bitj + lo,
                    0 <= lo < b,
                    k == (2 * b) * c + k % (2 * b),
                    (2 * b) * mm == 256,
            ;
            assert(t[p] == crate::complex::cplx(0, 0));
            assert(t[p + b] == crate::complex::cplx(0, 0));
            lemma_cmul_zero(wt);
            assert(cshr(crate::complex::cplx(0, 0), 1) == crate::complex::cplx(0, 0));
        }
    }
}

/// Flat spectrum of an impulse: transforming a buffer that carries a
/// single impulse at index zero spreads it evenly, every one of the 256
/// bins coming out as exactly the impulse amplitude divided by 256 (on the
/// real axis), whatever the twiddle table holds.
pub proof fn lemma_impulse_flat_spectrum(s: Seq<DSPComplex>, om: Seq<DSPComplex>, v: i16)
    requires
        s.len() == 256,
        s[0] == crate::complex::cplx(v as int, 0),
        forall|k: int| 1 <= k < 256 ==> s[k] == crate::complex::cplx(0, 0),
    ensures
        forall|k: int|
            0 <= k < 256 ==> fft_spec(s, om)[k] == crate::complex::cplx(v as int / 256, 0),
{
    // the permutation leaves an impulse at index zero alone
    let t0 = bitrev_perm(s);
    assert forall|k: int| 0 <= k < 256 implies t0[k] == (if k < pow2(0) {
        crate::complex::cplx(v as int, 0)
    } else {
        crate::complex::cplx(0, 0)
    }) by {
        vstd::arithmetic::power2::lemma2_to64();
        lemma_rev_prefix_bound(k, 8);
        if k == 0 {
            lemma_rev_prefix_of_zero(8);
        } else if bitrev8(k) == 0 {
            lemma_rev_prefix_zero_divides(k, 8);
            vstd::arithmetic::div_mod::lemma_small_mod(k as nat, 256);
            assert(false);
        }
    }

    // each stage halves the value and doubles the occupied prefix; after
    // eight stages every bin holds v / 256, and the half-buffer swap only
    // permutes equal values
    lemma_impulse_stages(t0, om, 8, v);
    vstd::arithmetic::power2::lemma2_to64();
    let t8 = stages_spec(t0, om, 8);
    assert(forall|k: int|
        0 <= k < 256 ==> t8[k] == crate::complex::cplx(v as int / 256, 0));
}

/// Induction over the stages for the spreading impulse.
proof fn lemma_impulse_stages(t0: Seq<DSPComplex>, om: Seq<DSPComplex>, n: nat, v: i16)
    requires
        t0.len() == 256,
        n <= 8,
        forall|k: int|
            0 <= k < 256 ==> t0[k] == (if k < pow2(0) {
                crate::complex::cplx(v as int, 0)
            } else {
                crate::complex::cplx(0, 0)
            }),
    ensures
        forall|k: int|
            0 <= k < 256 ==> stages_spec(t0, om, n)[k] == (if k < pow2(n) {
                crate::complex::cplx(v as int / pow2(n) as int, 0)
            } else {
                crate::complex::cplx(0, 0)
            }),
    decreases n,
{
    vstd::arithmetic::power2::lemma2_to64();
    if n == 0 {
        vstd::arithmetic::div_mod::lemma_div_multiples_vanish(v as int, 1);
        assert(v as int / pow2(0) as int == v as int) by {
            assert(1 * (v as int) == v as int) by (nonlinear_arith);
        }
    } else {
        lemma_impulse_stages(t0, om, (n - 1) as nat, v);
        let w = v as int / pow2((n - 1) as nat) as int;
        crate::number::lemma_div_small_in_range(v as int, pow2((n - 1) as nat) as int);
        vstd::arithmetic::power2::lemma_pow2_pos((n - 1) as nat);
        lemma_impulse_stage(stages_spec(t0, om, (n - 1) as nat), om, (n - 1) as nat, w);
        // halving a quotient deepens the divisor
        lemma_div_div(v as int, pow2((n - 1) as nat) as int, 2);
        vstd::arithmetic::power2::lemma_pow2_unfold(n);
        assert(pow2((n - 1) as nat) as int * 2 == pow2(n)) by (nonlinear_arith)
            requires
                pow2(n) == 2 * pow2((n - 1) as nat),
        ;
    }
}

/// Dividing twice by positive divisors is dividing by their product, for
/// any dividend.
proof fn lemma_div_div(x: int, a: int, b: int)
    requires
        1 <= a,
        1 <= b,
    ensures
        (x / a) / b == x / (a * b),
{
    let q1 = x / a;
    let r1 = x % a;
    let q2 = q1 / b;
    let r2 = q1 % b;
    vstd::arithmetic::div_mod::lemma_fundamental_div_mod(x, a);
    vstd::arithmetic::div_mod::lemma_fundamental_div_mod(q1, b);
    vstd::arithmetic::div_mod::lemma_mod_division_less_than_divisor(x, a);
    vstd::arithmetic::div_mod::lemma_mod_division_less_than_divisor(q1, b);
    assert(x == q2 * (a * b) + (a * r2 + r1) && 0 <= a * r2 + r1 < a * b) by (nonlinear_arith)
        requires
            x == a * q1 + r1,
            q1 == b * q2 + r2,
            0 <= r1 < a,
            0 <= r2 < b,
            1 <= a,
            1 <= b,
    ;
    assert(a * b >= 1) by (nonlinear_arith)
        requires
            1 <= a,
            1 <= b,
    ;
    vstd::arithmetic::div_mod::lemma_fundamental_div_mod_converse(
        x,
        a * b,
        q2,
        a * r2 + r1,
    );
}

/// One butterfly stage, in place.
#[verifier::rlimit(60)]
fn fft_stage(arr: &mut Vec<DSPComplex>, omegas: &Vec<DSPComplex>, j: usize)
    requires
        old(arr).len() == 256,
        omegas.len() == 128,
        j < 8,
    ensures
        final(arr)@ == stage_spec(old(arr)@, omegas@, j as nat),
{
    let ghost s0 = arr@;
    let b: usize = pow2_usize(j);
    proof {
        vstd::arithmetic::power2::lemma_pow2_pos(j as nat);
        vstd::arithmetic::power2::lemma_pow2_strictly_increases(j as nat, 8);
        vstd::arithmetic::power2::lemma_pow2_subtracts(j as nat, 7);
        vstd::arithmetic::power2::lemma_pow2_adds((7 - j) as nat, j as nat);
        vstd::arithmetic::power2::lemma2_to64();
    }
    let m: usize = 128 / b;
    proof {
        vstd::arithmetic::div_mod::lemma_div_multiples_vanish(
            pow2((7 - j) as nat) as int,
            b as int,
        );
        assert(m == pow2((7 - j) as nat));
        assert(m * b == 128) by (nonlinear_arith)
            requires
                m == pow2((7 - j) as nat),
                b == pow2(j as nat),
                pow2((7 - j) as nat) * pow2(j as nat) == 128,
        ;
    }
    let mut t: usize = 0;
    while t < 128
        invariant
            arr.len() == 256,
            omegas.len() == 128,
            j < 8,
            b == pow2(j as nat),
            1 <= b <= 128,
            m == 128int / b as int,
            m * b == 128,
            t <= 128,
            forall|k: int|
                0 <= k < 256 ==> arr@[k] == (if pair_of(k, b as int) < t {
                    stage_spec(s0, omegas@, j as nat)[k]
                } else {
                    s0[k]
                }),
        decreases 128 - t,
    {
        let blk: usize = t / b;
        let i: usize = t % b;
        proof {
            vstd::arithmetic::div_mod::lemma_fundamental_div_mod(t as int, b as int);
            vstd::arithmetic::div_mod::lemma_mod_division_less_than_divisor(t as int, b as int);
            assert(t == b * blk + i);
            assert(b * blk == blk * b) by (nonlinear_arith);
            assert(blk < m) by (nonlinear_arith)
                requires
                    (b as int) * blk + i == t,
                    0 <= i,
                    t < 128,
                    m * (b as int) == 128,
                    1 <= b,
            ;
            assert(blk * (2 * b) + 2 * b <= 256) by (nonlinear_arith)
                requires
                    blk < m,
                    m * (b as int) == 128,
                    1 <= b,
            ;
            assert(i * m < 128) by (nonlinear_arith)
                requires
                    0 <= i < b,
                    m * (b as int) == 128,
                    1 <= m,
            ;
        }
        let p: usize = blk * (2 * b) + i;
        let q: usize = p + b;
        proof {
            let b_ = b as int;
            let blk_ = blk as int;
            assert(blk_ * (2 * b_) == (2 * blk_) * b_ && (2 * blk_ + 1) * b_ == blk_ * (2 * b_)
                + b_ && blk_ * b_ == b_ * blk_) by (nonlinear_arith);
            // p and q are exactly the two indices of pair t
            vstd::arithmetic::div_mod::lemma_fundamental_div_mod_converse(
                p as int,
                2 * b as int,
                blk as int,
                i as int,
            );
            vstd::arithmetic::div_mod::lemma_fundamental_div_mod_converse(
                p as int,
                b as int,
                2 * blk as int,
                i as int,
            );
            vstd::arithmetic::div_mod::lemma_fundamental_div_mod_converse(
                q as int,
                2 * b as int,
                blk as int,
                (i + b) as int,
            );
            vstd::arithmetic::div_mod::lemma_fundamental_div_mod_converse(
                q as int,
                b as int,
                2 * blk as int + 1,
                i as int,
            );
            assert(pair_of(p as int, b as int) == t);
            assert(pair_of(q as int, b as int) == t);
            assert((p as int / b as int) % 2 == 0);
            assert((q as int / b as int) % 2 == 1);
        }
        let w = omegas[i * m];
        let a = arr[p].shr(1);
        let tt = arr[q].mul(w).shr(1);
        arr[p] = a.add(tt);
        arr[q] = a.sub(tt);
        proof {
            let ss = stage_spec(s0, omegas@, j as nat);
            assert(arr@[p as int] == ss[p as int]);
            assert(arr@[q as int] == ss[q as int]);
            assert forall|k: int|
                0 <= k < 256 && pair_of(k, b as int) == t implies k == p || k == q by {
                lemma_pair_unique(k, b as int, t as int);
            }
        }
        t = t + 1;
    }
    proof {
        let ss = stage_spec(s0, omegas@, j as nat);
        assert forall|k: int| 0 <= k < 256 implies arr@[k] == ss[k] by {
            vstd::arithmetic::div_mod::lemma_fundamental_div_mod(k, 2 * b as int);
            vstd::arithmetic::div_mod::lemma_mod_division_less_than_divisor(k, 2 * b as int);
            vstd::arithmetic::div_mod::lemma_mod_division_less_than_divisor(k, b as int);
            assert(pair_of(k, b as int) < 128) by (nonlinear_arith)
                requires
                    k == (2 * (b as int)) * (k / (2 * b as int)) + k % (2 * b as int),
                    0 <= k % (2 * b as int) < 2 * b,
                    0 <= k % (b as int) < b,
                    0 <= k < 256,
                    (m as int) * (b as int) == 128,
                    1 <= b,
                    pair_of(k, b as int) == (k / (2 * b as int)) * (b as int) + k % (b as int),
            ;
        }
        assert(arr@ =~= ss);
    }
}

/// Build the 128-entry rotation table used as FFT twiddle factors (and by
/// the NCO): entry `k` approximates the conjugated unit vector at angle
/// `k * 2^10`.
pub fn make_sequential_expi() -> (r: Vec<DSPComplex>)
    ensures
        r.len() == 128,
        forall|k: int| 0 <= k < 128 ==> r[k] == omega_spec(k),
{
    let mut v: Vec<DSPComplex> = Vec::new();
    let mut i: usize = 0;
    while i < 128
        invariant
            v.len() == i,
            i <= 128,
        decreases 128 - i,
    {
        v.push(DSPComplex::zero());
        i = i + 1;
    }
    DSPComplex::make_sequential_expi(&mut v);
    v
}

/// Transform the 256-element buffer in place; the result is in natural
/// frequency order and scaled by 1/256.  `omegas` is the precomputed
/// rotation table.  Always succeeds for correctly-sized buffers.
pub fn fft(arr: &mut Vec<DSPComplex>, omegas: &Vec<DSPComplex>)
    requires
        old(arr).len() == 256,
        omegas.len() == 128,
    ensures
        final(arr).len() == 256,
        final(arr)@ == fft_spec(old(arr)@, omegas@),
{
    let ghost sin = arr@;

    // Bit-reversal permutation, through a scratch copy of the input.
    let mut src: Vec<DSPComplex> = Vec::new();
    let mut k: usize = 0;
    while k < 256
        invariant
            arr.len() == 256,
            arr@ == sin,
            src@.len() == k,
            k <= 256,
            forall|n: int| 0 <= n < k ==> src@[n] == sin[n],
        decreases 256 - k,
    {
        src.push(arr[k]);
        k = k + 1;
    }
    let mut k: usize = 0;
    while k < 256
        invariant
            arr.len() == 256,
            src@.len() == 256,
            k <= 256,
            forall|n: int| 0 <= n < 256 ==> src@[n] == sin[n],
            forall|n: int| 0 <= n < k ==> arr@[n] == bitrev_perm(sin)[n],
        decreases 256 - k,
    {
        let rk = reverse8(k);
        arr[k] = src[rk];
        k = k + 1;
    }
    proof {
        assert(arr@ =~= bitrev_perm(sin));
    }
    let ghost s0 = bitrev_perm(sin);

    // The eight butterfly stages.
    let mut j: usize = 0;
    while j < 8
        invariant
            arr.len() == 256,
            omegas.len() == 128,
            j <= 8,
            arr@ == stages_spec(s0, omegas@, j as nat),
        decreases 8 - j,
    {
        fft_stage(arr, omegas, j);
        j = j + 1;
    }

    // Fix the frequency order by exchanging the buffer halves.
    let ghost s8 = arr@;
    let mut n: usize = 0;
    while n < 128
        invariant
            arr.len() == 256,
            n <= 128,
            forall|k: int| 0 <= k < n ==> arr@[k] == s8[k + 128],
            forall|k: int| 128 <= k < 128 + n ==> arr@[k] == s8[k - 128],
            forall|k: int| n <= k < 128 ==> arr@[k] == s8[k],
            forall|k: int| 128 + n <= k < 256 ==> arr@[k] == s8[k],
        decreases 128 - n,
    {
        let a = arr[n];
        let bb = arr[n + 128];
        arr[n] = bb;
        arr[n + 128] = a;
        n = n + 1;
    }
    proof {
        assert(arr@ =~= swap_halves(s8));
    }
}

} // verus!
