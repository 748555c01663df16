use sdr_core::complex::DSPComplex;
use sdr_core::fft::make_sequential_expi;

// Squared magnitude of a sample, exactly, as a 64-bit integer.
fn mag2(c: DSPComplex) -> i64 {
    let re = c.re.0 as i64;
    let im = c.im.0 as i64;
    re * re + im * im
}

// Circular distance between two angles, where a full turn is 2^18.
fn angle_dist(a: i64, b: i64) -> i64 {
    let d = (a - b).rem_euclid(1 << 18);
    d.min((1 << 18) - d)
}

#[test]
fn expi_cardinal_points() {
    let e0 = DSPComplex::expi(0);
    assert_eq!((e0.re.0, e0.im.0), (16384, 0));
    let e90 = DSPComplex::expi(1 << 16);
    assert_eq!((e90.re.0, e90.im.0), (0, 16384));
    let e180 = DSPComplex::expi(2 << 16);
    assert_eq!((e180.re.0, e180.im.0), (-16384, 0));
    let e270 = DSPComplex::expi(3 << 16);
    assert_eq!((e270.re.0, e270.im.0), (0, -16384));
    // only the angle modulo a full turn matters
    let wrapped = DSPComplex::expi((1 << 18) + 12345);
    let plain = DSPComplex::expi(12345);
    assert_eq!((wrapped.re.0, wrapped.im.0), (plain.re.0, plain.im.0));
    let neg = DSPComplex::expi(-(1 << 16));
    assert_eq!((neg.re.0, neg.im.0), (0, -16384));
}

#[test]
fn expi_magnitude_stays_unit() {
    // |expi(theta)| must stay within a few LSBs of one (16384) over the
    // whole angle range
    let lo = 16384 - 48;
    let hi = 16384 + 48;
    let mut theta: i32 = 0;
    while theta < (1 << 18) {
        let c = DSPComplex::expi(theta);
        let m2 = mag2(c);
        assert!(
            (lo as i64) * (lo as i64) <= m2 && m2 <= (hi as i64) * (hi as i64),
            "magnitude off at theta={}: {}",
            theta,
            m2
        );
        theta += 7;
    }
}

#[test]
fn expi_adds_angles() {
    // expi(t1) * expi(t2) tracks expi(t1 + t2) within a few LSBs
    let mut t1: i32 = 100;
    while t1 < (1 << 18) {
        let t2 = (3 * t1 + 40961) % (1 << 18);
        let p = DSPComplex::expi(t1).mul(DSPComplex::expi(t2));
        let d = DSPComplex::expi(t1 + t2);
        assert!(
            (p.re.0 - d.re.0).abs() <= 24 && (p.im.0 - d.im.0).abs() <= 24,
            "product off at t1={} t2={}: ({}, {}) vs ({}, {})",
            t1,
            t2,
            p.re.0,
            p.im.0,
            d.re.0,
            d.im.0
        );
        t1 += 1777;
    }
}

#[test]
fn phase_cardinal_points() {
    assert_eq!(DSPComplex::from_i16(0, 0).phase(), 0);
    assert_eq!(DSPComplex::from_i16(16384, 0).phase(), 0);
    assert_eq!(DSPComplex::from_i16(-16384, 0).phase(), 1 << 17);
    // straight up and down approach the quadrant boundary from inside
    let up = DSPComplex::from_i16(0, 16384).phase();
    assert!((1 << 16) - up <= 8 && up < (1 << 16), "up: {}", up);
    let down = DSPComplex::from_i16(0, -16384).phase();
    assert_eq!(down, -up);
}

#[test]
fn phase_of_expi_round_trips() {
    // phase(expi(theta)) stays close to theta in all four quadrants
    let mut theta: i32 = -(1 << 17) + 11;
    while theta < (1 << 17) {
        let p = DSPComplex::expi(theta).phase();
        let d = angle_dist(p as i64, theta as i64);
        assert!(d <= 96, "round trip off at theta={}: phase={} dist={}", theta, p, d);
        theta += 997;
    }
}

#[test]
fn rotation_table_entries() {
    let t = make_sequential_expi();
    assert_eq!(t.len(), 128);
    // index 0 is one, index 64 the conjugated imaginary unit
    assert_eq!((t[0].re.0, t[0].im.0), (16384, 0));
    assert_eq!((t[64].re.0, t[64].im.0), (0, -16384));
    // entry k approximates the conjugate of expi(k * 2^10)
    for k in 0..128usize {
        let e = DSPComplex::expi((k as i32) << 10).conj();
        assert!(
            (t[k].re.0 - e.re.0).abs() <= 24 && (t[k].im.0 - e.im.0).abs() <= 24,
            "table off at {}: ({}, {}) vs ({}, {})",
            k,
            t[k].re.0,
            t[k].im.0,
            e.re.0,
            e.im.0
        );
    }
}
