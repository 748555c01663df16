//! Fraction reduction by a binary subtractive GCD: `reduce(a, b)` returns
//! the fraction `a / b` in lowest terms, computed with subtraction and
//! halving only.  Used to bring synthesizer feedback ratios into range.

use vstd::prelude::*;

verus! {

use vstd::arithmetic::power2::pow2;

/// `d` divides `x`.
pub open spec fn divides(d: nat, x: nat) -> bool {
    exists|k: nat| x == #[trigger] (d * k)
}

/// `x` and `y` have no common divisor above one.
pub open spec fn coprime(x: nat, y: nat) -> bool {
    forall|d: nat| divides(d, x) && divides(d, y) ==> d <= 1
}

/// `(x, y)` is `(a, b)` with their greatest common divisor cancelled: a
/// common factor scales one onto the other, and nothing is left to cancel.
/// These two conditions pin `x` and `y` down uniquely, so they characterize
/// the reduced fraction exactly.
pub open spec fn reduced_form(a: nat, b: nat, x: nat, y: nat) -> bool {
    &&& coprime(x, y)
    &&& exists|g: nat| g >= 1 && #[trigger] (x * g) == a && y * g == b
}

/// A divisor of one is at most one.
proof fn lemma_divides_one(d: nat)
    requires
        divides(d, 1),
    ensures
        d <= 1,
{
    let k = choose|k: nat| 1nat == #[trigger] (d * k);
    assert(d * k == 1 ==> d <= 1) by (nonlinear_arith);
}

/// A common divisor of `x` and `y + x` also divides `y`, so adding one
/// coprime partner onto the other keeps them coprime.
proof fn lemma_coprime_add(x: nat, y: nat)
    requires
        coprime(x, y),
    ensures
        coprime(x, (y + x) as nat),
{
    assert forall|d: nat| divides(d, x) && divides(d, (y + x) as nat) implies d <= 1 by {
        let k1 = choose|k: nat| x == #[trigger] (d * k);
        let k2 = choose|k: nat| (y + x) as nat == #[trigger] (d * k);
        if d == 0 {
            assert(x == 0 && y + x == 0) by (nonlinear_arith)
                requires
                    x == d * k1,
                    y + x == d * k2,
                    d == 0,
            ;
            assert(y == d * 0) by (nonlinear_arith)
                requires
                    y == 0,
            ;
        } else {
            assert(k2 >= k1 && y == d * ((k2 - k1) as nat)) by (nonlinear_arith)
                requires
                    x == d * k1,
                    y + x == d * k2,
                    d >= 1,
            ;
        }
        assert(divides(d, y));
    }
}

/// An odd divisor of `2 * x` divides `x`.
proof fn lemma_odd_divides_half(d: nat, x: nat)
    requires
        d % 2 == 1,
        divides(d, (2 * x) as nat),
    ensures
        divides(d, x),
{
    let k = choose|k: nat| (2 * x) as nat == #[trigger] (d * k);
    vstd::arithmetic::div_mod::lemma_fundamental_div_mod(d as int, 2);
    vstd::arithmetic::div_mod::lemma_fundamental_div_mod(k as int, 2);
    let dh = d / 2;
    let kh = k / 2;
    if k % 2 == 1 {
        assert(d * k == 2 * (2 * dh * kh + dh + kh) + 1) by (nonlinear_arith)
            requires
                d == 2 * dh + 1,
                k == 2 * kh + 1,
        ;
        assert(false);
    }
    assert(x == d * kh) by (nonlinear_arith)
        requires
            2 * x == d * k,
            k == 2 * kh,
    ;
}

/// An odd divisor of `x * 2^e` divides `x`.
proof fn lemma_odd_divides_pow2_times(d: nat, x: nat, e: nat)
    requires
        d % 2 == 1,
        divides(d, (x * pow2(e)) as nat),
    ensures
        divides(d, x),
    decreases e,
{
    if e == 0 {
        vstd::arithmetic::power2::lemma2_to64();
        assert(x * pow2(0) == x) by (nonlinear_arith)
            requires
                pow2(0) == 1,
        ;
    } else {
        vstd::arithmetic::power2::lemma_pow2_unfold(e);
        assert(x * pow2(e) == 2 * (x * pow2((e - 1) as nat))) by (nonlinear_arith)
            requires
                pow2(e) == 2 * pow2((e - 1) as nat),
        ;
        lemma_odd_divides_half(d, (x * pow2((e - 1) as nat)) as nat);
        lemma_odd_divides_pow2_times(d, x, (e - 1) as nat);
    }
}

/// A divisor of an odd number is odd.
proof fn lemma_divisor_of_odd(d: nat, y: nat)
    requires
        y % 2 == 1,
        divides(d, y),
    ensures
        d % 2 == 1,
{
    let k = choose|k: nat| y == #[trigger] (d * k);
    vstd::arithmetic::div_mod::lemma_fundamental_div_mod(d as int, 2);
    let dh = d / 2;
    if d % 2 == 0 {
        assert(y == 2 * (dh * k)) by (nonlinear_arith)
            requires
                y == d * k,
                d == 2 * dh,
        ;
        assert(false);
    }
}

/// A factor of an odd product is odd.
proof fn lemma_factor_of_odd(x: nat, g: nat, y: nat)
    requires
        x * g == y,
        y % 2 == 1,
    ensures
        x % 2 == 1,
{
    vstd::arithmetic::div_mod::lemma_fundamental_div_mod(x as int, 2);
    let xh = x / 2;
    if x % 2 == 0 {
        assert(y == 2 * (xh * g)) by (nonlinear_arith)
            requires
                x * g == y,
                x == 2 * xh,
        ;
        assert(false);
    }
}

/// Scaling one side by a power of two cannot create a common divisor with
/// an odd partner.
proof fn lemma_coprime_scale(x: nat, y: nat, e: nat)
    requires
        coprime(x, y),
        y % 2 == 1,
    ensures
        coprime((x * pow2(e)) as nat, y),
{
    assert forall|d: nat| divides(d, (x * pow2(e)) as nat) && divides(d, y) implies d <= 1 by {
        lemma_divisor_of_odd(d, y);
        lemma_odd_divides_pow2_times(d, x, e);
    }
}

/// The odd part of a value is no larger than the value.
proof fn lemma_part_le(y: nat, e: nat, b: nat)
    requires
        b == y * pow2(e),
    ensures
        y <= b,
{
    vstd::arithmetic::power2::lemma_pow2_pos(e);
    assert(y <= y * pow2(e)) by (nonlinear_arith)
        requires
            pow2(e) >= 1,
    ;
}

/// Both inputs equal after stripping: the reduced fraction is a pure power
/// of two against one.
proof fn lemma_reduce_equal(a: nat, b: nat, x: nat, aa: nat, bb: nat, s_a: nat, s_b: nat)
    requires
        x >= 1,
        a == x * pow2(aa),
        b == x * pow2(bb),
        aa < bb ==> s_a == 1 && s_b == pow2((bb - aa) as nat),
        aa >= bb ==> s_a == pow2((aa - bb) as nat) && s_b == 1,
    ensures
        reduced_form(a, b, s_a, s_b),
{
    if aa < bb {
        let g = x * pow2(aa);
        vstd::arithmetic::power2::lemma_pow2_pos(aa);
        vstd::arithmetic::power2::lemma_pow2_adds((bb - aa) as nat, aa);
        assert(g >= 1) by (nonlinear_arith)
            requires
                x >= 1,
                pow2(aa) >= 1,
                g == x * pow2(aa),
        ;
        assert(s_a * g == a && s_b * g == b) by (nonlinear_arith)
            requires
                s_a == 1,
                s_b == pow2((bb - aa) as nat),
                g == x * pow2(aa),
                a == x * pow2(aa),
                b == x * pow2(bb),
                pow2((bb - aa) as nat) * pow2(aa) == pow2(bb),
        ;
        assert forall|d: nat| divides(d, s_a) && divides(d, s_b) implies d <= 1 by {
            lemma_divides_one(d);
        }
    } else {
        let g = x * pow2(bb);
        vstd::arithmetic::power2::lemma_pow2_pos(bb);
        vstd::arithmetic::power2::lemma_pow2_adds((aa - bb) as nat, bb);
        assert(g >= 1) by (nonlinear_arith)
            requires
                x >= 1,
                pow2(bb) >= 1,
                g == x * pow2(bb),
        ;
        assert(s_a * g == a && s_b * g == b) by (nonlinear_arith)
            requires
                s_b == 1,
                s_a == pow2((aa - bb) as nat),
                g == x * pow2(bb),
                a == x * pow2(aa),
                b == x * pow2(bb),
                pow2((aa - bb) as nat) * pow2(bb) == pow2(aa),
        ;
        assert forall|d: nat| divides(d, s_a) && divides(d, s_b) implies d <= 1 by {
            lemma_divides_one(d);
        }
    }
}

/// Undo one subtraction step on the right: the reduced form of `(x, d)` is
/// also a reduced form of `(x, d + x)` with the right part grown back.
proof fn lemma_unsubtract(x: nat, d: nat, u: nat, v: nat)
    requires
        reduced_form(x, d, u, v),
    ensures
        reduced_form(x, (d + x) as nat, u, (v + u) as nat),
        v + u <= d + x,
{
    let g = choose|g: nat| g >= 1 && #[trigger] (u * g) == x && v * g == d;
    assert((v + u) * g == d + x && v + u <= d + x) by (nonlinear_arith)
        requires
            u * g == x,
            v * g == d,
            g >= 1,
    ;
    lemma_coprime_add(u, v);
    assert(u * g == x);
}

/// Undo one subtraction step on the left.
proof fn lemma_unsubtract_left(d: nat, y: nat, u: nat, v: nat)
    requires
        reduced_form(d, y, u, v),
    ensures
        reduced_form((d + y) as nat, y, (u + v) as nat, v),
        u + v <= d + y,
{
    let g = choose|g: nat| g >= 1 && #[trigger] (u * g) == d && v * g == y;
    assert((u + v) * g == d + y && u + v <= d + y) by (nonlinear_arith)
        requires
            u * g == d,
            v * g == y,
            g >= 1,
    ;
    assert(coprime(v, u));
    lemma_coprime_add(v, u);
    assert(coprime((u + v) as nat, v));
    assert((u + v) * g == d + y);
}

/// Put the stripped powers of two back: scale the side that had more of
/// them and fold the shared power into the common factor.
proof fn lemma_rescale(a: nat, b: nat, x: nat, y: nat, aa: nat, bb: nat, u: nat, v: nat)
    requires
        x >= 1,
        y >= 1,
        x % 2 == 1,
        y % 2 == 1,
        a == x * pow2(aa),
        b == y * pow2(bb),
        reduced_form(x, y, u, v),
    ensures
        aa < bb ==> reduced_form(a, b, u, (v * pow2((bb - aa) as nat)) as nat) && v * pow2(
            (bb - aa) as nat,
        ) <= b,
        aa >= bb ==> reduced_form(a, b, (u * pow2((aa - bb) as nat)) as nat, v) && u * pow2(
            (aa - bb) as nat,
        ) <= a,
{
    let g = choose|g: nat| g >= 1 && #[trigger] (u * g) == x && v * g == y;
    if aa < bb {
        let e = (bb - aa) as nat;
        let g2 = g * pow2(aa);
        vstd::arithmetic::power2::lemma_pow2_pos(aa);
        vstd::arithmetic::power2::lemma_pow2_adds(e, aa);
        assert(g2 >= 1) by (nonlinear_arith)
            requires
                g >= 1,
                pow2(aa) >= 1,
                g2 == g * pow2(aa),
        ;
        assert(u * g2 == a && (v * pow2(e)) * g2 == b && v * pow2(e) <= b) by (nonlinear_arith)
            requires
                u * g == x,
                v * g == y,
                g >= 1,
                g2 == g * pow2(aa),
                a == x * pow2(aa),
                b == y * pow2(bb),
                pow2(e) * pow2(aa) == pow2(bb),
                pow2(aa) >= 1,
        ;
        lemma_factor_of_odd(u, g, x);
        lemma_coprime_scale(v, u, e);
        assert(coprime(u, (v * pow2(e)) as nat));
    } else {
        let e = (aa - bb) as nat;
        let g2 = g * pow2(bb);
        vstd::arithmetic::power2::lemma_pow2_pos(bb);
        vstd::arithmetic::power2::lemma_pow2_adds(e, bb);
        assert(g2 >= 1) by (nonlinear_arith)
            requires
                g >= 1,
                pow2(bb) >= 1,
                g2 == g * pow2(bb),
        ;
        assert((u * pow2(e)) * g2 == a && v * g2 == b && u * pow2(e) <= a) by (nonlinear_arith)
            requires
                u * g == x,
                v * g == y,
                g >= 1,
                g2 == g * pow2(bb),
                a == x * pow2(aa),
                b == y * pow2(bb),
                pow2(e) * pow2(bb) == pow2(aa),
                pow2(bb) >= 1,
        ;
        lemma_factor_of_odd(v, g, y);
        lemma_coprime_scale(u, v, e);
        assert(coprime((u * pow2(e)) as nat, v));
    }
}

/// Strip the factors of two from a positive value: the odd part and the
/// count of stripped twos.
fn strip_twos(a: u32) -> (r: (u32, u32))
    requires
        a >= 1,
    ensures
        r.0 >= 1,
        r.0 % 2 == 1,
        r.1 < 32,
        a as nat == r.0 as nat * pow2(r.1 as nat),
{
    let mut x: u32 = a;
    let mut s: u32 = 0;
    proof {
        vstd::arithmetic::power2::lemma2_to64();
        assert(x as nat * pow2(0) == x as nat) by (nonlinear_arith)
            requires
                pow2(0) == 1,
        ;
    }
    while x % 2 == 0
        invariant
            x >= 1,
            s < 32,
            a as nat == x as nat * pow2(s as nat),
        decreases x,
    {
        proof {
            vstd::arithmetic::power2::lemma_pow2_unfold((s + 1) as nat);
            assert((x as nat / 2) * pow2((s + 1) as nat) == x as nat * pow2(s as nat))
                by (nonlinear_arith)
                requires
                    x as nat % 2 == 0,
                    pow2((s + 1) as nat) == 2 * pow2(s as nat),
            ;
            if s + 1 >= 32 {
                vstd::arithmetic::power2::lemma_pow2_strictly_increases(31, (s + 1) as nat);
                vstd::arithmetic::power2::lemma2_to64();
                assert((x as nat / 2) * pow2((s + 1) as nat) > 0xffff_ffff) by (nonlinear_arith)
                    requires
                        x as nat / 2 >= 1,
                        pow2((s + 1) as nat) > 0xffff_ffff,
                ;
            }
        }
        x = x / 2;
        s = s + 1;
    }
    (x, s)
}

/// Exact power of two as a `u32`.
fn pow2_u32_exact(e: u32) -> (r: u32)
    requires
        e < 32,
    ensures
        r as nat == pow2(e as nat),
        r >= 1,
{
    proof {
        vstd::arithmetic::power2::lemma2_to64();
    }
    let mut r: u32 = 1;
    let mut i: u32 = 0;
    while i < e
        invariant
            0 <= i <= e < 32,
            r as nat == pow2(i as nat),
            1 <= r <= 0x8000_0000,
        decreases e - i,
    {
        proof {
            vstd::arithmetic::power2::lemma_pow2_unfold((i + 1) as nat);
            vstd::arithmetic::power2::lemma_pow2_strictly_increases(i as nat + 1, 32);
            vstd::arithmetic::power2::lemma2_to64();
        }
        r = r * 2;
        i = i + 1;
    }
    r
}

/// Cancel the greatest common divisor of `a` and `b`: for positive inputs
/// the result is the fraction `a / b` in lowest terms; if either input is
/// zero, both come back unchanged.  Runs on subtraction and halving only.
pub fn reduce(a: u32, b: u32) -> (r: (u32, u32))
    ensures
        (a == 0 || b == 0) ==> r == (a, b),
        (a > 0 && b > 0) ==> reduced_form(a as nat, b as nat, r.0 as nat, r.1 as nat),
    decreases a + b,
{
    if a == 0 || b == 0 {
        return (a, b);
    }

    let (x, aa) = strip_twos(a);
    let (y, bb) = strip_twos(b);
    proof {
        lemma_part_le(x as nat, aa as nat, a as nat);
        lemma_part_le(y as nat, bb as nat, b as nat);
    }

    let mut a_s: u32 = 1;
    let mut b_s: u32 = 1;
    if aa < bb {
        b_s = pow2_u32_exact(bb - aa);
    } else {
        a_s = pow2_u32_exact(aa - bb);
    }

    if x == y {
        proof {
            lemma_reduce_equal(
                a as nat,
                b as nat,
                x as nat,
                aa as nat,
                bb as nat,
                a_s as nat,
                b_s as nat,
            );
        }
        return (a_s, b_s);
    }

    // x and y are now odd and distinct: one subtractive step, then recurse
    let rr: (u32, u32);
    if x < y {
        let sub = reduce(x, y - x);
        proof {
            lemma_unsubtract(x as nat, (y - x) as nat, sub.0 as nat, sub.1 as nat);
        }
        rr = (sub.0, sub.1 + sub.0);
    } else {
        let sub = reduce(x - y, y);
        proof {
            lemma_unsubtract_left((x - y) as nat, y as nat, sub.0 as nat, sub.1 as nat);
        }
        rr = (sub.0 + sub.1, sub.1);
    }

    // rr is the reduced form of (x, y); put the stripped twos back
    proof {
        lemma_rescale(
            a as nat,
            b as nat,
            x as nat,
            y as nat,
            aa as nat,
            bb as nat,
            rr.0 as nat,
            rr.1 as nat,
        );
    }
    if aa < bb {
        (rr.0, rr.1 * b_s)
    } else {
        (rr.0 * a_s, rr.1)
    }
}

} // verus!
