use sdr_core::capture::CaptureAction;
use sdr_core::capture::CaptureState;
use sdr_core::complex::DSPComplex;
use sdr_core::demod::DemodMethod;
use sdr_core::dispatch::Message;
use sdr_core::dispatch::PipelineState;
use sdr_core::dispatch::decode;
use sdr_core::dispatch::encode;
use sdr_core::dispatch::pack_word;

#[test]
fn dispatch_round_trips_boundary_offsets() {
    for f in [0i32, (1 << 23) - 1, -(1 << 23), 12345, -1, -54321] {
        let m = Message::Tune(f);
        assert_eq!(decode(encode(m)), Some(m), "offset {}", f);
    }
}

#[test]
fn dispatch_round_trips_buffers_and_methods() {
    for a in [0u32, 1, 0x2000_0000, 0x7fff_ffff] {
        let m = Message::Buffer(a);
        assert_eq!(decode(encode(m)), Some(m));
    }
    for mm in [DemodMethod::AM, DemodMethod::FM] {
        let m = Message::Method(mm);
        assert_eq!(decode(encode(m)), Some(m));
    }
}

#[test]
fn unknown_tags_are_dropped() {
    assert_eq!(decode(0x8200_0000), None);
    assert_eq!(decode(0x9000_1234), None);
    assert_eq!(decode(0xffff_ffff), None);
    // a method message with an out-of-range ordinal is dropped too
    assert_eq!(decode(0x8100_0002), None);
    assert_eq!(decode(0x8100_00ff), None);
}

#[test]
fn tune_wire_format_is_bit_exact() {
    assert_eq!(encode(Message::Tune(0)), 0x8000_0000);
    assert_eq!(encode(Message::Tune(1)), 0x8000_0001);
    assert_eq!(encode(Message::Tune(-1)), 0x80ff_ffff);
    assert_eq!(encode(Message::Tune(-(1 << 23))), 0x8080_0000);
    assert_eq!(encode(Message::Method(DemodMethod::FM)), 0x8100_0001);
}

#[test]
fn commands_update_pipeline_state() {
    let mut st = PipelineState::new();
    assert!(matches!(st.method, DemodMethod::AM));
    st.apply_command(Message::Method(DemodMethod::FM));
    assert!(matches!(st.method, DemodMethod::FM));
    // a tune command retunes the shifter to the negated offset
    st.apply_command(Message::Tune(12000));
    assert_eq!(st.shifter.freq, -12000);
    assert_eq!(st.shifter.omega, -16384);
    // a buffer message leaves the control state alone
    st.apply_command(Message::Buffer(0x1000));
    assert!(matches!(st.method, DemodMethod::FM));
    assert_eq!(st.shifter.freq, -12000);
}

#[test]
fn packing_duplicates_the_sample() {
    assert_eq!(pack_word(0), 0);
    assert_eq!(pack_word(3), 0x0003_0003);
    assert_eq!(pack_word(0x7fff), 0x7fff_7fff);
    // for negative samples the high half saturates to all ones
    assert_eq!(pack_word(-2), 0xffff_fffe);
    assert_eq!(pack_word(-32768), 0xffff_8000);
}

#[test]
fn capture_wraps_and_raises_ready() {
    let mut cs = CaptureState::new();
    // five chunks advance; the sixth fills the buffer, raises ready and
    // wraps the index
    for n in 1..6usize {
        let act = cs.on_chunk_complete(true);
        assert_eq!(act, CaptureAction::Rearm(n * 64, false));
    }
    let act = cs.on_chunk_complete(true);
    assert_eq!(act, CaptureAction::Rearm(0, true));
    assert_eq!(cs.idx, 0);
    // a spurious completion changes nothing and re-arms nothing
    let act = cs.on_chunk_complete(false);
    assert_eq!(act, CaptureAction::Spurious);
    assert_eq!(cs.idx, 0);
}

#[test]
fn end_to_end_tone_demodulates_to_steady_amplitude() {
    // a pure tone 12 kHz above centre, tuned out by the dispatch path and
    // AM-demodulated, gives a near-constant output amplitude matching the
    // tone's magnitude
    let mut st = PipelineState::new();
    st.apply_command(Message::Tune(12000));
    let mut input = Vec::new();
    for k in 0..192i32 {
        input.push(DSPComplex::expi(k * 16384));
    }
    let out = st.process_block(&input);
    assert_eq!(out.len(), 192);
    for i in 0..192usize {
        let v = (out[i] & 0xffff) as i16 as i32;
        assert!(
            15500 <= v && v <= 19000,
            "word {}: amplitude {} out of range",
            i,
            v
        );
        // both channels carry the same nonnegative sample
        assert_eq!(out[i] >> 16, out[i] & 0xffff, "word {}", i);
    }
}

#[test]
fn end_to_end_silence_stays_silent() {
    let mut st = PipelineState::new();
    let mut input = Vec::new();
    for _ in 0..192usize {
        input.push(DSPComplex::zero());
    }
    let out = st.process_block(&input);
    assert_eq!(out.len(), 192);
    for i in 0..192usize {
        assert_eq!(out[i], 0, "word {}", i);
    }
}

#[test]
fn fm_blocks_update_carried_phase() {
    let mut st = PipelineState::new();
    st.apply_command(Message::Method(DemodMethod::FM));
    let step: i32 = 3000;
    let mut input = Vec::new();
    for k in 0..192i32 {
        input.push(DSPComplex::expi(k * step));
    }
    let before = st.shifter.phase;
    let out = st.process_block(&input);
    // FM does not touch the shifter
    assert_eq!(st.shifter.phase, before);
    // the carried phase is the last sample's rescaled phase
    assert_eq!(st.fm_last, input[191].phase() / 4);
    // away from the block start the output is the constant offset
    for i in 8..192usize {
        let v = (out[i] & 0xffff) as i16 as i32;
        assert!((v - 750).abs() <= 16, "word {}: {}", i, v);
    }
}
