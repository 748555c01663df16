use sdr_core::complex::DSPComplex;
use sdr_core::number::DSPNum;
use sdr_core::number::unshift_fpmul;

#[test]
fn fixed_point_mul_rounds_half_up() {
    // 1.0 * 1.0 == 1.0 in Q1.14
    assert_eq!(unshift_fpmul(16384 * 16384), 16384);
    // half an LSB rounds up
    assert_eq!(unshift_fpmul(8192), 1);
    assert_eq!(unshift_fpmul(8191), 0);
    assert_eq!(unshift_fpmul(-8192), 0);
    assert_eq!(unshift_fpmul(-8193), -1);
}

#[test]
fn scalar_ops() {
    let a = DSPNum(12000);
    let b = DSPNum(5000);
    assert_eq!(a.add(b).0, 17000);
    assert_eq!(a.sub(b).0, 7000);
    assert_eq!(a.neg().0, -12000);
    // (12000 * 5000 + 8192) >> 14
    assert_eq!(a.mul(b).0, 3662);
    // wraparound at the top of the range
    assert_eq!(DSPNum(32767).add(DSPNum(1)).0, -32768);
    assert_eq!(DSPNum(-32768).sub(DSPNum(1)).0, 32767);
    assert_eq!(DSPNum(-32768).neg().0, -32768);
}

#[test]
fn scalar_shifts() {
    assert_eq!(DSPNum(100).shl(3).0, 800);
    assert_eq!(DSPNum(-100).shr(2).0, -25);
    // floor, not truncation, on negative values
    assert_eq!(DSPNum(-101).shr(2).0, -26);
    assert_eq!(DSPNum(101).shr(2).0, 25);
}

#[test]
fn scalar_abs_and_sqrt() {
    assert_eq!(DSPNum(-123).abs().0, 123);
    assert_eq!(DSPNum(123).abs().0, 123);
    // sqrt returns the integer square root of (14 * v) / 4
    let r = DSPNum(16384).sqrt().0 as i64;
    let m = (14i64 * 16384) / 4;
    assert!(r * r <= m && m < (r + 1) * (r + 1));
    assert_eq!(DSPNum(0).sqrt().0, 0);
}

#[test]
fn complex_ops() {
    let a = DSPComplex::from_i16(16384, 0);
    let b = DSPComplex::from_i16(0, 16384);
    let s = a.add(b);
    assert_eq!((s.re.0, s.im.0), (16384, 16384));
    let d = a.sub(b);
    assert_eq!((d.re.0, d.im.0), (16384, -16384));
    // 1 * i == i
    let p = a.mul(b);
    assert_eq!((p.re.0, p.im.0), (0, 16384));
    // i * i == -1
    let q = b.mul(b);
    assert_eq!((q.re.0, q.im.0), (-16384, 0));
    let c = b.conj();
    assert_eq!((c.re.0, c.im.0), (0, -16384));
    let n = b.neg();
    assert_eq!((n.re.0, n.im.0), (0, -16384));
    let h = a.shr(1);
    assert_eq!((h.re.0, h.im.0), (8192, 0));
}

#[test]
fn complex_norm_and_fast_abs() {
    assert_eq!(DSPComplex::from_i16(16384, 0).norm().0, 16384);
    assert_eq!(DSPComplex::from_i16(128, 0).norm().0, 1);
    // fast magnitude: max + min/2
    assert_eq!(DSPComplex::from_i16(-1000, 300).fast_abs().0, 1150);
    assert_eq!(DSPComplex::from_i16(0, -700).fast_abs().0, 700);
    assert_eq!(DSPComplex::from_i16(0, 0).fast_abs().0, 0);
}

#[test]
fn complex_constants() {
    let z = DSPComplex::zero();
    assert_eq!((z.re.0, z.im.0), (0, 0));
    let o = DSPComplex::one();
    assert_eq!((o.re.0, o.im.0), (16384, 0));
    let i = DSPComplex::i();
    assert_eq!((i.re.0, i.im.0), (0, 16384));
}
