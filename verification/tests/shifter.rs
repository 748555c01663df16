use sdr_core::complex::DSPComplex;
use sdr_core::shift::Shifter;

fn constant(n: usize, re: i16, im: i16) -> Vec<DSPComplex> {
    let mut v = Vec::new();
    for _ in 0..n {
        v.push(DSPComplex::from_i16(re, im));
    }
    v
}

#[test]
fn zero_offset_reproduces_dc() {
    // with offset 0 and a constant input, every output sample is the input
    // value (DC gain one: four samples each attenuated by four), across
    // call boundaries
    let mut s = Shifter::new();
    s.set_freq(0);
    let input = constant(192, 8192, 0);
    let mut out = constant(48, 0, 0);
    s.apply(&input, &mut out);
    for k in 0..48usize {
        assert_eq!((out[k].re.0, out[k].im.0), (8192, 0), "first call, sample {}", k);
    }
    // a second block continues identically: no phase restart artifact
    s.apply(&input, &mut out);
    for k in 0..48usize {
        assert_eq!((out[k].re.0, out[k].im.0), (8192, 0), "second call, sample {}", k);
    }
}

#[test]
fn phase_accumulates_across_blocks() {
    // the accumulator advances by omega * 192 per block, wrapping
    let mut s = Shifter::new();
    s.set_freq(12000);
    // 12000 * 512 / 375
    assert_eq!(s.omega, 16384);
    let input = constant(192, 4096, 0);
    let mut out = constant(48, 0, 0);
    assert_eq!(s.phase, 0);
    s.apply(&input, &mut out);
    assert_eq!(s.phase, 16384u32.wrapping_mul(192));
    s.apply(&input, &mut out);
    assert_eq!(s.phase, 16384u32.wrapping_mul(384));
    // retuning keeps the accumulator
    s.set_freq(-3000);
    assert_eq!(s.phase, 16384u32.wrapping_mul(384));
    assert_eq!(s.omega, -4096);
}

#[test]
fn coefficient_tables_follow_the_offset() {
    let mut s = Shifter::new();
    s.set_freq(750);
    // 750 * 512 / 375 == 1024: one table-resolution step per input sample
    assert_eq!(s.omega, 1024);
    for i in 0..48usize {
        let e = DSPComplex::expi((i as i32) * 1024 * 4);
        assert_eq!((s.rot_buf_a[i].re.0, s.rot_buf_a[i].im.0), (e.re.0, e.im.0));
    }
    for i in 0..4usize {
        let e = DSPComplex::expi((i as i32) * 1024).shr(2);
        assert_eq!((s.rot_buf_b[i].re.0, s.rot_buf_b[i].im.0), (e.re.0, e.im.0));
    }
}

#[test]
fn extreme_offsets_stay_in_range() {
    // the angle increment at half the sample rate is exactly half a turn
    let mut s = Shifter::new();
    s.set_freq(96000);
    assert_eq!(s.omega, 131072);
    s.set_freq(-96000);
    assert_eq!(s.omega, -131072);
    // truncating division: -1 Hz rounds toward zero
    s.set_freq(-1);
    assert_eq!(s.omega, -1);
    s.set_freq(1);
    assert_eq!(s.omega, 1);
}

#[test]
fn shifts_a_tone_to_baseband() {
    // a tone at the tuned offset comes out of the shifter as near-DC with
    // near-constant magnitude
    let mut s = Shifter::new();
    s.set_freq(-12000);
    // the input advances 16384 angle units per sample; mixing by -16384
    // brings it to zero frequency
    let mut input = Vec::new();
    for k in 0..192i32 {
        input.push(DSPComplex::expi(k * 16384).shr(1));
    }
    let mut out = constant(48, 0, 0);
    s.apply(&input, &mut out);
    for k in 0..48usize {
        let m2 = (out[k].re.0 as i64) * (out[k].re.0 as i64)
            + (out[k].im.0 as i64) * (out[k].im.0 as i64);
        // magnitude stays near the tone's 8192
        assert!(
            (8192i64 - 128) * (8192 - 128) <= m2 && m2 <= (8192i64 + 128) * (8192 + 128),
            "sample {}: ({}, {})",
            k,
            out[k].re.0,
            out[k].im.0
        );
    }
}
