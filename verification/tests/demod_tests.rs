use sdr_core::complex::DSPComplex;
use sdr_core::demod::DemodMethod;
use sdr_core::demod::demod_am;
use sdr_core::demod::demod_fm;

#[test]
fn method_decoding() {
    assert!(matches!(DemodMethod::from_u8(0), Some(DemodMethod::AM)));
    assert!(matches!(DemodMethod::from_u8(1), Some(DemodMethod::FM)));
    assert!(DemodMethod::from_u8(2).is_none());
    assert!(DemodMethod::from_u8(255).is_none());
}

#[test]
fn am_takes_magnitudes() {
    let mut buf = vec![
        DSPComplex::from_i16(-1000, 300),
        DSPComplex::from_i16(0, 0),
        DSPComplex::from_i16(120, -500),
    ];
    demod_am(&mut buf);
    assert_eq!((buf[0].re.0, buf[0].im.0), (1150, 0));
    assert_eq!((buf[1].re.0, buf[1].im.0), (0, 0));
    assert_eq!((buf[2].re.0, buf[2].im.0), (560, 0));
}

#[test]
fn fm_detects_constant_frequency() {
    // a complex exponential at a constant offset produces a constant
    // discriminator output proportional to the per-sample phase advance
    let step: i32 = 3000;
    let mut buf = Vec::new();
    for k in 0..192i32 {
        buf.push(DSPComplex::expi(k * step));
    }
    let mut last: i32 = 0;
    demod_fm(&mut buf, &mut last);
    let want = step / 4;
    for k in 1..192usize {
        let d = (buf[k].re.0 as i32 - want).abs();
        assert!(d <= 16, "sample {}: {} vs {}", k, buf[k].re.0, want);
    }
}

#[test]
fn fm_handles_wraparound_without_glitch() {
    // choose an offset whose rescaled phase difference sits close to the
    // 16-bit half-scale, so the raw differences cross the wrap point; the
    // wrapping subtraction must keep the output constant, with no spike
    let step: i32 = 126976;  // 31744 in discriminator units, near +2^15
    let mut buf = Vec::new();
    for k in 0..192i32 {
        buf.push(DSPComplex::expi(k * step));
    }
    let mut last: i32 = 0;
    demod_fm(&mut buf, &mut last);
    let want: i32 = 31744;
    for k in 1..192usize {
        let got = buf[k].re.0 as i32;
        // compare on the 16-bit circle
        let mut d = (got - want).rem_euclid(65536);
        if d > 32768 {
            d = 65536 - d;
        }
        assert!(d <= 16, "sample {}: {} vs {}", k, got, want);
    }
}

#[test]
fn fm_empty_block_keeps_state() {
    let mut buf: Vec<DSPComplex> = Vec::new();
    let mut last: i32 = 777;
    demod_fm(&mut buf, &mut last);
    assert_eq!(last, 777);
    assert!(buf.is_empty());
}

#[test]
fn fm_state_carries_across_blocks() {
    // the discriminator must stay continuous across block boundaries
    let step: i32 = 2048;
    let mut first = Vec::new();
    let mut second = Vec::new();
    for k in 0..192i32 {
        first.push(DSPComplex::expi(k * step));
        second.push(DSPComplex::expi((k + 192) * step));
    }
    let mut last: i32 = 0;
    demod_fm(&mut first, &mut last);
    demod_fm(&mut second, &mut last);
    let want = step / 4;
    // the first sample of the second block sees no discontinuity
    for k in 0..192usize {
        let d = (second[k].re.0 as i32 - want).abs();
        assert!(d <= 16, "sample {}: {} vs {}", k, second[k].re.0, want);
    }
}
