//! The cross-core dispatch protocol and the worker's pipeline state.
//!
//! A message is a single 32-bit word.  Bit 31 clear: the word is the
//! address of a completed sample block.  Top byte 0x80: the low 24 bits are
//! a sign-extended tuning offset in Hz.  Top byte 0x81: the low 8 bits
//! select the demodulation method.  Any other tag is silently ignored.
//! Messages are delivered and handled strictly in send order, so a command
//! sent after a buffer applies only to later buffers.

use vstd::prelude::*;

use crate::complex::DSPComplex;
use crate::complex::fast_abs_spec;
use crate::demod::DemodMethod;
use crate::demod::demod_am;
use crate::demod::demod_fm;
use crate::demod::fm_out;
use crate::number::DSPNum;
use crate::shift::Shifter;
use crate::shift::shifter_out;

verus! {

/// A decoded dispatch message.
#[derive(Clone, Copy, Debug, PartialEq, Eq, Structural)]
pub enum Message {
    /// A completed 192-sample block is ready at this address.
    Buffer(u32),
    /// Retune the shifter to this offset, in Hz.
    Tune(i32),
    /// Select the demodulation method.
    Method(DemodMethod),
}

/// The messages the wire format can carry: a buffer address has bit 31
/// clear, a tuning offset fits in 24 bits, sign included.
pub open spec fn valid_message(m: Message) -> bool {
    match m {
        Message::Buffer(a) => a < 0x8000_0000,
        Message::Tune(f) => -0x80_0000 <= f < 0x80_0000,
        Message::Method(_) => true,
    }
}

/// The ordinal of a demodulation method on the wire.
pub open spec fn method_ordinal(m: DemodMethod) -> int {
    match m {
        DemodMethod::AM => 0,
        DemodMethod::FM => 1,
    }
}

/// Encoding of a message as one 32-bit word.
pub open spec fn encode_spec(m: Message) -> int {
    match m {
        Message::Buffer(a) => a as int,
        Message::Tune(f) => 0x8000_0000 + (if f >= 0 {
            f as int
        } else {
            f + 0x100_0000
        }),
        Message::Method(mm) => 0x8100_0000 + method_ordinal(mm),
    }
}

/// Decoding of a received word: bit 31 clear is a buffer address, top byte
/// 0x80 a sign-extended 24-bit tuning offset, top byte 0x81 a method
/// ordinal; anything else is dropped.
pub open spec fn decode_spec(w: int) -> Option<Message> {
    if w < 0x8000_0000 {
        Some(Message::Buffer(w as u32))
    } else {
        let top = w / 0x100_0000;
        let low24 = w % 0x100_0000;
        if top == 0x80 {
            Some(
                Message::Tune(
                    (if low24 < 0x80_0000 {
                        low24
                    } else {
                        low24 - 0x100_0000
                    }) as i32,
                ),
            )
        } else if top == 0x81 && w % 0x100 == 0 {
            Some(Message::Method(DemodMethod::AM))
        } else if top == 0x81 && w % 0x100 == 1 {
            Some(Message::Method(DemodMethod::FM))
        } else {
            None
        }
    }
}

/// Encode a message for the hardware queue.
pub fn encode(m: Message) -> (r: u32)
    requires
        valid_message(m),
    ensures
        r as int == encode_spec(m),
{
    match m {
        Message::Buffer(a) => a,
        Message::Tune(f) => {
            let low24: u32 = if f >= 0 {
                f as u32
            } else {
                (f + 0x100_0000) as u32
            };
            0x8000_0000u32 + low24
        },
        Message::Method(mm) => {
            let ord: u32 = match mm {
                DemodMethod::AM => 0,
                DemodMethod::FM => 1,
            };
            0x8100_0000u32 + ord
        },
    }
}

/// Decode one received word; unrecognized tags decode to nothing.
pub fn decode(w: u32) -> (r: Option<Message>)
    ensures
        r == decode_spec(w as int),
        r matches Some(m) ==> valid_message(m),
{
    if w < 0x8000_0000 {
        Some(Message::Buffer(w))
    } else {
        let top: u32 = w / 0x100_0000;
        let low24: u32 = w % 0x100_0000;
        if top == 0x80 {
            let f: i32 = if low24 < 0x80_0000 {
                low24 as i32
            } else {
                (low24 as i32) - 0x100_0000
            };
            Some(Message::Tune(f))
        } else if top == 0x81 {
            let b: u32 = w % 0x100;
            match crate::demod::DemodMethod::from_u8(b as u8) {
                Some(mm) => Some(Message::Method(mm)),
                None => None,
            }
        } else {
            None
        }
    }
}

/// Every valid message survives the wire exactly: decoding its encoding
/// yields the same message, for buffer addresses, the whole 24-bit signed
/// range of tuning offsets, and both methods.
pub proof fn lemma_message_round_trip(m: Message)
    requires
        valid_message(m),
    ensures
        decode_spec(encode_spec(m)) == Some(m),
{
    match m {
        Message::Buffer(a) => {},
        Message::Tune(f) => {
            let low = if f >= 0 {
                f as int
            } else {
                f + 0x100_0000
            };
            let w = 0x8000_0000 + low;
            vstd::arithmetic::div_mod::lemma_fundamental_div_mod_converse(
                w,
                0x100_0000,
                0x80,
                low,
            );
        },
        Message::Method(mm) => {
            let w = 0x8100_0000 + method_ordinal(mm);
            vstd::arithmetic::div_mod::lemma_fundamental_div_mod_converse(
                w,
                0x100_0000,
                0x81,
                method_ordinal(mm),
            );
            vstd::arithmetic::div_mod::lemma_fundamental_div_mod_converse(
                w,
                0x100,
                0x810000,
                method_ordinal(mm),
            );
        },
    }
}

/// A demodulated sample packed as one stereo output word: the sample in
/// the high half and, ORed over it, its sign extension — so negative
/// samples saturate the high half to all ones.
pub open spec fn pack_word_spec(v: int) -> int {
    if v >= 0 {
        v * 0x1_0000 + v
    } else {
        0xFFFF_0000 + (v + 0x1_0000)
    }
}

/// Pack one demodulated sample into a 32-bit stereo word.
pub fn pack_word(v: i16) -> (r: u32)
    ensures
        r as int == pack_word_spec(v as int),
{
    if v >= 0 {
        let u: u32 = v as u32;
        u * 0x1_0000 + u
    } else {
        0xFFFF_0000u32 + ((v as i32 + 0x1_0000) as u32)
    }
}

/// Truncating division by the decimation ratio, as the box average uses.
pub open spec fn tdiv4(x: int) -> int {
    if x >= 0 {
        x / 4
    } else {
        -((-x) / 4)
    }
}

/// The FM path's downsampled output sample `k`: the box average (truncating)
/// of four consecutive discriminator outputs.
pub open spec fn fm_avg(s: Seq<DSPComplex>, last0: int, k: int) -> int {
    tdiv4(
        fm_out(s, last0, 4 * k) + fm_out(s, last0, 4 * k + 1) + fm_out(s, last0, 4 * k + 2)
            + fm_out(s, last0, 4 * k + 3),
    )
}

/// Two shifters with equal state.
pub open spec fn shifter_eq(a: Shifter, b: Shifter) -> bool {
    &&& a.phase == b.phase
    &&& a.freq == b.freq
    &&& a.omega == b.omega
    &&& a.rot_buf_a@ == b.rot_buf_a@
    &&& a.rot_buf_b@ == b.rot_buf_b@
}

/// A tuning command stays within half the sample rate, as the control loop
/// guarantees; other messages are unconstrained.
pub open spec fn tune_in_range(m: Message) -> bool {
    match m {
        Message::Tune(f) => -96000 <= f <= 96000,
        _ => true,
    }
}

/// The worker's private pipeline state: the shifter (phase accumulator,
/// offset and coefficient tables), the selected demodulation method, and
/// the FM discriminator's carried-over phase.
pub struct PipelineState {
    pub shifter: Shifter,
    pub method: DemodMethod,
    pub fm_last: i32,
}

impl PipelineState {
    /// Structural well-formedness, inherited from the shifter.
    pub open spec fn wf(self) -> bool {
        self.shifter.wf()
    }

    /// Fresh worker state: shifter tuned to offset zero, AM demodulation,
    /// no carried-over phase.
    pub fn new() -> (r: PipelineState)
        ensures
            r.wf(),
            r.shifter.tables_set(),
            r.shifter.freq == 0,
            r.shifter.phase == 0,
            r.method == DemodMethod::AM,
            r.fm_last == 0,
    {
        let mut s = Shifter::new();
        s.set_freq(0);
        PipelineState { shifter: s, method: DemodMethod::AM, fm_last: 0 }
    }

    /// Apply one control message: a tune command retunes the shifter to the
    /// negated offset (mixing the wanted signal down to baseband), a method
    /// command selects the demodulator, and a buffer message changes
    /// nothing here (its block is handled by `process_block`).
    pub fn apply_command(&mut self, m: Message)
        requires
            old(self).wf(),
            tune_in_range(m),
        ensures
            final(self).wf(),
            m matches Message::Tune(f) ==> {
                &&& final(self).shifter.freq == -f
                &&& final(self).shifter.tables_set()
                &&& final(self).shifter.phase == old(self).shifter.phase
                &&& final(self).method == old(self).method
                &&& final(self).fm_last == old(self).fm_last
            },
            m matches Message::Method(mm) ==> {
                &&& final(self).method == mm
                &&& shifter_eq(final(self).shifter, old(self).shifter)
                &&& final(self).fm_last == old(self).fm_last
            },
            m matches Message::Buffer(_) ==> {
                &&& shifter_eq(final(self).shifter, old(self).shifter)
                &&& final(self).method == old(self).method
                &&& final(self).fm_last == old(self).fm_last
            },
    {
        match m {
            Message::Tune(f) => {
                self.shifter.set_freq(-f);
            },
            Message::Method(mm) => {
                self.method = mm;
            },
            Message::Buffer(_) => {},
        }
    }

    /// Process one 192-sample block end to end and return the packed
    /// 192-word stereo output block.  Under AM the block is shifted and
    /// decimated, then each output sample is the fast magnitude; the NCO
    /// phase advances by one block.  Under FM the discriminator runs at the
    /// full input rate (the shifter is not used) and its output is box-
    /// averaged down by the decimation ratio; the carried-over phase is
    /// updated to the block's last sample.  Each output sample fills four
    /// consecutive words, matching the input and output rates.
    pub fn process_block(&mut self, input: &Vec<DSPComplex>) -> (out: Vec<u32>)
        requires
            old(self).wf(),
            input.len() == 192,
        ensures
            final(self).wf(),
            final(self).method == old(self).method,
            final(self).shifter.freq == old(self).shifter.freq,
            final(self).shifter.omega == old(self).shifter.omega,
            final(self).shifter.rot_buf_a@ == old(self).shifter.rot_buf_a@,
            final(self).shifter.rot_buf_b@ == old(self).shifter.rot_buf_b@,
            out.len() == 192,
            old(self).method == DemodMethod::AM ==> {
                &&& final(self).shifter.phase == crate::shift::u32_wrap(
                    old(self).shifter.phase + 192 * old(self).shifter.omega,
                )
                &&& final(self).fm_last == old(self).fm_last
                &&& forall|i: int|
                    0 <= i < 192 ==> out@[i] as int == pack_word_spec(
                        fast_abs_spec(shifter_out(old(self).shifter, input@, i / 4)),
                    )
            },
            old(self).method == DemodMethod::FM ==> {
                &&& final(self).shifter.phase == old(self).shifter.phase
                &&& final(self).fm_last as int == crate::demod::disc_phase(input@[191])
                &&& forall|i: int|
                    0 <= i < 192 ==> out@[i] as int == pack_word_spec(
                        fm_avg(input@, old(self).fm_last as int, i / 4),
                    )
            },
    {
        let mut buf_ds: Vec<DSPComplex> = Vec::new();
        let mut i: usize = 0;
        while i < 48
            invariant
                buf_ds.len() == i,
                i <= 48,
            decreases 48 - i,
        {
            buf_ds.push(DSPComplex::zero());
            i = i + 1;
        }
        match self.method {
            DemodMethod::AM => {
                self.shifter.apply(input, &mut buf_ds);
                demod_am(&mut buf_ds);
                proof {
                    assert(forall|k: int|
                        0 <= k < 48 ==> buf_ds@[k].re.0 as int == fast_abs_spec(
                            shifter_out(old(self).shifter, input@, k),
                        ));
                }
            },
            DemodMethod::FM => {
                let mut buf: Vec<DSPComplex> = Vec::new();
                let mut i: usize = 0;
                while i < 192
                    invariant
                        input.len() == 192,
                        buf.len() == i,
                        i <= 192,
                        forall|m: int| 0 <= m < i ==> buf@[m] == input@[m],
                    decreases 192 - i,
                {
                    buf.push(input[i]);
                    i = i + 1;
                }
                proof {
                    assert(buf@ =~= input@);
                }
                let mut last: i32 = self.fm_last;
                demod_fm(&mut buf, &mut last);
                self.fm_last = last;
                let ghost last0 = old(self).fm_last as int;
                let mut k: usize = 0;
                while k < 48
                    invariant
                        buf.len() == 192,
                        buf_ds.len() == 48,
                        k <= 48,
                        forall|m: int|
                            0 <= m < 192 ==> buf@[m].re.0 as int == fm_out(input@, last0, m),
                        forall|m: int|
                            0 <= m < k ==> buf_ds@[m].re.0 as int == fm_avg(input@, last0, m),
                    decreases 48 - k,
                {
                    let s: i32 = buf[4 * k].re.0 as i32 + buf[4 * k + 1].re.0 as i32 + buf[4 * k
                        + 2].re.0 as i32 + buf[4 * k + 3].re.0 as i32;
                    proof {
                        if s < 0 {
                            vstd::arithmetic::div_mod::lemma_div_is_ordered(
                                -(s as int),
                                0x20000,
                                4,
                            );
                            vstd::arithmetic::div_mod::lemma_div_pos_is_pos(-(s as int), 4);
                        } else {
                            vstd::arithmetic::div_mod::lemma_div_is_ordered(s as int, 0x20000, 4);
                            vstd::arithmetic::div_mod::lemma_div_pos_is_pos(s as int, 4);
                        }
                        assert(0x20000int / 4int == 0x8000int);
                    }
                    let a: i32 = s.checked_div(4).unwrap();
                    buf_ds[k] = DSPComplex { re: DSPNum(a as i16), im: DSPNum(0) };
                    k = k + 1;
                }
            },
        }
        let ghost vals = buf_ds@;
        let mut out: Vec<u32> = Vec::new();
        let mut k: usize = 0;
        while k < 48
            invariant
                buf_ds.len() == 48,
                buf_ds@ == vals,
                out.len() == 4 * k,
                k <= 48,
                forall|i: int|
                    0 <= i < 4 * k ==> out@[i] as int == pack_word_spec(vals[i / 4].re.0 as int),
            decreases 48 - k,
        {
            let w = pack_word(buf_ds[k].re.0);
            out.push(w);
            out.push(w);
            out.push(w);
            out.push(w);
            k = k + 1;
        }
        out
    }
}

} // verus!
