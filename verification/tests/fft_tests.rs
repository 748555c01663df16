use sdr_core::complex::DSPComplex;
use sdr_core::fft::fft;
use sdr_core::fft::make_sequential_expi;

fn zeros(n: usize) -> Vec<DSPComplex> {
    let mut v = Vec::new();
    for _ in 0..n {
        v.push(DSPComplex::zero());
    }
    v
}

// Small deterministic pseudo-random sample stream.
fn noise(seed: u32, n: usize, amp: i16) -> Vec<DSPComplex> {
    let mut v = Vec::new();
    let mut s = seed;
    for _ in 0..n {
        s = s.wrapping_mul(1664525).wrapping_add(1013904223);
        let re = ((s >> 16) as i16) % amp;
        s = s.wrapping_mul(1664525).wrapping_add(1013904223);
        let im = ((s >> 16) as i16) % amp;
        v.push(DSPComplex::from_i16(re, im));
    }
    v
}

#[test]
fn unit_impulse_gives_flat_spectrum() {
    // an impulse at index 0 spreads evenly: every bin is the impulse
    // amplitude divided by 256, exactly
    let om = make_sequential_expi();
    let mut buf = zeros(256);
    buf[0] = DSPComplex::from_i16(16384, 0);
    fft(&mut buf, &om);
    for k in 0..256usize {
        assert_eq!((buf[k].re.0, buf[k].im.0), (64, 0), "bin {}", k);
    }
}

#[test]
fn constant_input_concentrates_in_one_bin() {
    // a DC input lands in the centre bin after the final half-buffer swap;
    // all other bins hold only rounding residue
    let om = make_sequential_expi();
    let mut buf = zeros(256);
    for k in 0..256usize {
        buf[k] = DSPComplex::from_i16(16384, 0);
    }
    fft(&mut buf, &om);
    assert_eq!((buf[128].re.0, buf[128].im.0), (16384, 0));
    for k in 0..256usize {
        if k != 128 {
            assert!(
                buf[k].re.0.abs() <= 8 && buf[k].im.0.abs() <= 8,
                "bin {} not small: ({}, {})",
                k,
                buf[k].re.0,
                buf[k].im.0
            );
        }
    }
}

#[test]
fn transform_is_linear() {
    // FFT(a*x + b*y) tracks a*FFT(x) + b*FFT(y) within rounding accumulated
    // over the eight stages
    let om = make_sequential_expi();
    let a = DSPComplex::from_i16(8192, 0);
    let b = DSPComplex::from_i16(4096, 0);
    let x = noise(1, 256, 8000);
    let y = noise(2, 256, 8000);

    let mut combined = zeros(256);
    for k in 0..256usize {
        combined[k] = x[k].mul(a).add(y[k].mul(b));
    }
    fft(&mut combined, &om);

    let mut fx = x.clone();
    fft(&mut fx, &om);
    let mut fy = y.clone();
    fft(&mut fy, &om);

    for k in 0..256usize {
        let want = fx[k].mul(a).add(fy[k].mul(b));
        assert!(
            (combined[k].re.0 - want.re.0).abs() <= 16
                && (combined[k].im.0 - want.im.0).abs() <= 16,
            "bin {}: ({}, {}) vs ({}, {})",
            k,
            combined[k].re.0,
            combined[k].im.0,
            want.re.0,
            want.im.0
        );
    }
}
