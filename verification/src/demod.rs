//! AM and FM demodulators.  AM is stateless: each sample becomes its fast
//! magnitude approximation, placed in the real component.  FM is a phase
//! discriminator: it keeps the previous sample's phase and emits the
//! wrapping 16-bit difference, which implements the modulo-full-turn phase
//! derivative without branching.

use vstd::prelude::*;

use crate::complex::DSPComplex;
use crate::complex::cplx;
use crate::complex::fast_abs_spec;
use crate::complex::phase_spec;
use crate::number::DSPNum;
use crate::number::wrap16;
use crate::number::wrap_to_i16;

verus! {

/// Demodulation method selector.
#[derive(Clone, Copy, Debug, PartialEq, Eq, Structural)]
pub enum DemodMethod {
    AM,
    FM,
}

impl DemodMethod {
    /// Number of selectable methods.
    pub const METHOD_COUNT: u8 = 2;

    /// Decode a method from its wire ordinal; out-of-range values decode
    /// to nothing (and such a message is dropped by the dispatcher).
    pub fn from_u8(value: u8) -> (r: Option<DemodMethod>)
        ensures
            r == (if value == 0 {
                Some(DemodMethod::AM)
            } else if value == 1 {
                Some(DemodMethod::FM)
            } else {
                None::<DemodMethod>
            }),
    {
        match value {
            0 => Some(DemodMethod::AM),
            1 => Some(DemodMethod::FM),
            _ => None,
        }
    }
}

/// AM detection of one sample: its fast magnitude, as a real sample.
pub open spec fn am_out(c: DSPComplex) -> DSPComplex {
    cplx(fast_abs_spec(c), 0)
}

/// AM-demodulate a block in place: every sample is replaced by its fast
/// magnitude approximation in the real component.
pub fn demod_am(buf: &mut Vec<DSPComplex>)
    ensures
        final(buf).len() == old(buf).len(),
        forall|k: int| 0 <= k < old(buf).len() ==> final(buf)@[k] == am_out(old(buf)@[k]),
{
    let n = buf.len();
    let mut i: usize = 0;
    while i < n
        invariant
            buf.len() == n == old(buf).len(),
            i <= n,
            forall|k: int| 0 <= k < i ==> buf@[k] == am_out(old(buf)@[k]),
            forall|k: int| i <= k < n ==> buf@[k] == old(buf)@[k],
        decreases n - i,
    {
        let v = buf[i].fast_abs();
        buf[i] = DSPComplex { re: v, im: DSPNum(0) };
        i = i + 1;
    }
}

/// The discriminator's rescaled phase of one sample: the full-turn angle
/// unit (2^18) brought down to the 16-bit discriminator unit.
pub open spec fn disc_phase(c: DSPComplex) -> int {
    phase_spec(c) / 4
}

/// The FM discriminator output for sample `k` of a block, given the phase
/// carried over from before the block: the wrapping 16-bit difference
/// between this sample's rescaled phase and the previous one.
pub open spec fn fm_out(s: Seq<DSPComplex>, last0: int, k: int) -> int {
    wrap16(disc_phase(s[k]) - (if k == 0 {
        last0
    } else {
        disc_phase(s[k - 1])
    }))
}

/// FM-demodulate a block in place.  `last` carries the previous rescaled
/// phase across block boundaries; each output is the wrapping 16-bit phase
/// difference, in the real component.
pub fn demod_fm(buf: &mut Vec<DSPComplex>, last: &mut i32)
    ensures
        final(buf).len() == old(buf).len(),
        forall|k: int|
            0 <= k < old(buf).len() ==> final(buf)@[k] == cplx(
                fm_out(old(buf)@, *old(last) as int, k),
                0,
            ),
        *final(last) as int == (if old(buf).len() == 0 {
            *old(last) as int
        } else {
            disc_phase(old(buf)@[old(buf).len() - 1])
        }),
{
    let n = buf.len();
    let mut i: usize = 0;
    while i < n
        invariant
            buf.len() == n == old(buf).len(),
            i <= n,
            *last as int == (if i == 0 {
                *old(last) as int
            } else {
                disc_phase(old(buf)@[i - 1])
            }),
            forall|k: int|
                0 <= k < i ==> buf@[k] == cplx(fm_out(old(buf)@, *old(last) as int, k), 0),
            forall|k: int| i <= k < n ==> buf@[k] == old(buf)@[k],
        decreases n - i,
    {
        let p: i32 = buf[i].phase().checked_div_euclid(4).unwrap();
        let diff: i16 = wrap_to_i16(p as i64 - *last as i64);
        *last = p;
        buf[i] = DSPComplex { re: DSPNum(diff), im: DSPNum(0) };
        i = i + 1;
    }
}

} // verus!
