//! NCO-based frequency shifter with integrated decimation: mixes a
//! 192-sample block down to baseband at a caller-set offset and decimates
//! by 4.  `set_freq` precomputes one rotation per output sample (the NCO
//! advance across decimated outputs) and one attenuated rotation per input
//! sample within an output period (the boxcar filter combined with fine
//! mixing).  A persistent phase accumulator advances by the per-block angle
//! on every `apply`, so consecutive blocks stay phase-continuous even
//! though the coefficient tables restart at index zero each call.

use vstd::prelude::*;

use crate::complex::DSPComplex;
use crate::complex::cadd;
use crate::complex::cmul;
use crate::complex::cplx;
use crate::complex::cshr;
use crate::complex::expi_spec;

verus! {

/// Fixed decimation ratio of the shifter.
pub const DS_RATIO: usize = 4;

/// Frequency shifter and downsampler.
pub struct Shifter {
    /// NCO phase accumulator, in the angle unit where a full turn is 2^18
    /// (kept modulo 2^32; only the low 18 bits matter).
    pub phase: u32,
    /// Tuned offset in Hz.
    pub freq: i32,
    /// Per-input-sample angle increment derived from the offset.
    pub omega: i32,
    /// Rotation per output sample: entry `i` is `expi(i * omega * 4)`.
    pub rot_buf_a: Vec<DSPComplex>,
    /// Rotation per input sample within one output period, attenuated by
    /// the decimation ratio: entry `i` is `expi(i * omega) >> 2`.
    pub rot_buf_b: Vec<DSPComplex>,
}

/// Per-sample angle increment for a tuning offset in Hz: `freq * 512 / 375`
/// (truncating division), i.e. `freq << 18` divided by the sample rate.
pub open spec fn omega_of(freq: int) -> int {
    let x = freq * 512;
    if x >= 0 {
        x / 375
    } else {
        -((-x) / 375)
    }
}

/// Wraparound of an unbounded value into the `u32` range (single wrap).
pub open spec fn u32_wrap(x: int) -> int {
    if x > u32::MAX {
        x - 0x1_0000_0000
    } else if x < 0 {
        x + 0x1_0000_0000
    } else {
        x
    }
}

/// Sum of the first `n` of the four weighted input samples that make up
/// output sample `k`: each input is rotated by the fine per-input
/// coefficient before the boxcar accumulation.
pub open spec fn dot_prefix(
    inp: Seq<DSPComplex>,
    bc: Seq<DSPComplex>,
    k: int,
    n: nat,
) -> DSPComplex
    decreases n,
{
    if n == 0 {
        cplx(0, 0)
    } else {
        cadd(dot_prefix(inp, bc, k, (n - 1) as nat), cmul(inp[4 * k + n - 1], bc[n - 1]))
    }
}

/// Output sample `k` of one shifter block: four weighted inputs summed,
/// then rotated by the accumulated NCO phase and by the coarse per-output
/// rotation.
pub open spec fn shifter_out(s: Shifter, inp: Seq<DSPComplex>, k: int) -> DSPComplex {
    cmul(
        cmul(dot_prefix(inp, s.rot_buf_b@, k, 4), expi_spec(s.phase as int)),
        s.rot_buf_a@[k],
    )
}

impl Shifter {
    /// Samples per input block.
    pub const INPUT_SIZE: usize = 192;

    /// Samples per output block.
    pub const OUTPUT_SIZE: usize = 48;

    /// Structural well-formedness: table lengths and the angle-increment
    /// range that keeps per-block phase arithmetic in bounds.
    pub open spec fn wf(self) -> bool {
        &&& self.rot_buf_a.len() == 48
        &&& self.rot_buf_b.len() == 4
        &&& -0x20000 <= self.omega <= 0x20000
    }

    /// The coefficient tables hold the rotations for the stored offset.
    pub open spec fn tables_set(self) -> bool {
        &&& self.omega == omega_of(self.freq as int)
        &&& forall|i: int|
            0 <= i < 48 ==> self.rot_buf_a@[i] == expi_spec(i * self.omega * 4)
        &&& forall|i: int|
            0 <= i < 4 ==> self.rot_buf_b@[i] == cshr(expi_spec(i * self.omega), 2)
    }

    /// A fresh shifter: zero phase, zero offset, zeroed tables.
    pub fn new() -> (r: Shifter)
        ensures
            r.wf(),
            r.phase == 0,
            r.freq == 0,
            r.omega == 0,
            forall|i: int| 0 <= i < 48 ==> r.rot_buf_a@[i] == cplx(0, 0),
            forall|i: int| 0 <= i < 4 ==> r.rot_buf_b@[i] == cplx(0, 0),
    {
        let mut a: Vec<DSPComplex> = Vec::new();
        let mut i: usize = 0;
        while i < 48
            invariant
                a.len() == i,
                i <= 48,
                forall|m: int| 0 <= m < i ==> a@[m] == cplx(0, 0),
            decreases 48 - i,
        {
            a.push(DSPComplex::zero());
            i = i + 1;
        }
        let mut b: Vec<DSPComplex> = Vec::new();
        let mut i: usize = 0;
        while i < 4
            invariant
                b.len() == i,
                i <= 4,
                forall|m: int| 0 <= m < i ==> b@[m] == cplx(0, 0),
            decreases 4 - i,
        {
            b.push(DSPComplex::zero());
            i = i + 1;
        }
        Shifter { phase: 0, freq: 0, omega: 0, rot_buf_a: a, rot_buf_b: b }
    }

    /// Retune to a new offset: recompute the per-input angle increment and
    /// both coefficient tables.  The phase accumulator is kept, so the
    /// mixed output stays continuous across the retune.
    pub fn set_freq(&mut self, freq: i32)
        requires
            old(self).wf(),
            -96000 <= freq <= 96000,
        ensures
            final(self).wf(),
            final(self).tables_set(),
            final(self).freq == freq,
            final(self).phase == old(self).phase,
    {
        self.freq = freq;
        let num: i32 = freq * 512;
        proof {
            let n = num as int;
            assert(49152000int / 375int == 131072int);
            if n >= 0 {
                vstd::arithmetic::div_mod::lemma_div_is_ordered(n, 49152000, 375);
                vstd::arithmetic::div_mod::lemma_div_pos_is_pos(n, 375);
            } else {
                vstd::arithmetic::div_mod::lemma_div_is_ordered(-n, 49152000, 375);
                vstd::arithmetic::div_mod::lemma_div_pos_is_pos(-n, 375);
            }
        }
        self.omega = num.checked_div(375).unwrap();
        let om: i32 = self.omega;
        let mut i: usize = 0;
        while i < 48
            invariant
                self.rot_buf_a.len() == 48,
                self.rot_buf_b.len() == 4,
                self.phase == old(self).phase,
                self.freq == freq,
                self.omega == om,
                -0x20000 <= om <= 0x20000,
                i <= 48,
                forall|m: int| 0 <= m < i ==> self.rot_buf_a@[m] == expi_spec(m * om * 4),
            decreases 48 - i,
        {
            proof {
                assert(-0x20000 * 47 <= (i as int) * om <= 0x20000 * 47) by (nonlinear_arith)
                    requires
                        0 <= i < 48,
                        -0x20000 <= om <= 0x20000,
                ;
            }
            let v = DSPComplex::expi((i as i32) * om * 4);
            self.rot_buf_a[i] = v;
            i = i + 1;
        }
        let mut i: usize = 0;
        while i < 4
            invariant
                self.rot_buf_a.len() == 48,
                self.rot_buf_b.len() == 4,
                self.phase == old(self).phase,
                self.freq == freq,
                self.omega == om,
                -0x20000 <= om <= 0x20000,
                i <= 4,
                forall|m: int| 0 <= m < 48 ==> self.rot_buf_a@[m] == expi_spec(m * om * 4),
                forall|m: int|
                    0 <= m < i ==> self.rot_buf_b@[m] == cshr(expi_spec(m * om), 2),
            decreases 4 - i,
        {
            proof {
                assert(-0x20000 * 3 <= (i as int) * om <= 0x20000 * 3) by (nonlinear_arith)
                    requires
                        0 <= i < 4,
                        -0x20000 <= om <= 0x20000,
                ;
            }
            let v = DSPComplex::expi((i as i32) * om).shr(2);
            self.rot_buf_b[i] = v;
            i = i + 1;
        }
    }

    /// Mix one 192-sample block down by the tuned offset and decimate by 4:
    /// each output sample sums four inputs weighted by the fine rotations,
    /// then applies the accumulated-phase and per-output rotations.  The
    /// phase accumulator advances by the whole block's angle (wrapping), so
    /// a following call continues where this one left off.
    pub fn apply(&mut self, input: &Vec<DSPComplex>, output: &mut Vec<DSPComplex>)
        requires
            old(self).wf(),
            input.len() == 192,
            old(output).len() == 48,
        ensures
            final(self).wf(),
            final(self).freq == old(self).freq,
            final(self).omega == old(self).omega,
            final(self).rot_buf_a@ == old(self).rot_buf_a@,
            final(self).rot_buf_b@ == old(self).rot_buf_b@,
            final(self).phase == u32_wrap(old(self).phase + 192 * old(self).omega),
            final(output).len() == 48,
            forall|k: int|
                0 <= k < 48 ==> final(output)@[k] == shifter_out(*old(self), input@, k),
    {
        let ph: u32 = self.phase % 0x40000;
        let p = DSPComplex::expi(ph as i32);
        proof {
            vstd::arithmetic::div_mod::lemma_small_mod(ph as nat, 0x40000);
            assert(expi_spec(ph as int) == expi_spec(self.phase as int));
        }
        let mut k: usize = 0;
        while k < 48
            invariant
                self.wf(),
                *self == *old(self),
                input.len() == 192,
                output.len() == 48,
                p == expi_spec(old(self).phase as int),
                k <= 48,
                forall|m: int|
                    0 <= m < k ==> output@[m] == shifter_out(*old(self), input@, m),
            decreases 48 - k,
        {
            let mut acc = DSPComplex::zero();
            let mut j: usize = 0;
            while j < 4
                invariant
                    self.wf(),
                    *self == *old(self),
                    input.len() == 192,
                    output.len() == 48,
                    k < 48,
                    j <= 4,
                    acc == dot_prefix(input@, self.rot_buf_b@, k as int, j as nat),
                    p == expi_spec(old(self).phase as int),
                    forall|m: int|
                        0 <= m < k ==> output@[m] == shifter_out(*old(self), input@, m),
                decreases 4 - j,
            {
                acc = acc.add(input[4 * k + j].mul(self.rot_buf_b[j]));
                j = j + 1;
            }
            acc = acc.mul(p);
            acc = acc.mul(self.rot_buf_a[k]);
            output[k] = acc;
            k = k + 1;
        }
        let adv: i32 = self.omega * 192;
        self.phase = self.phase.wrapping_add_signed(adv);
    }
}

/// Phase continuity at offset zero: with a zero angle increment the
/// accumulator never moves across a block, so a state that has absorbed one
/// block produces exactly the same outputs as the state before it — block
/// boundaries are invisible, for every input.
pub proof fn lemma_zero_offset_blocks_agree(s0: Shifter, s1: Shifter, inp: Seq<DSPComplex>)
    requires
        s0.omega == 0,
        s1.phase == u32_wrap(s0.phase + 192 * s0.omega),
        s1.rot_buf_a@ == s0.rot_buf_a@,
        s1.rot_buf_b@ == s0.rot_buf_b@,
    ensures
        forall|k: int| shifter_out(s1, inp, k) == shifter_out(s0, inp, k),
{
    assert(s1.phase == s0.phase);
}

/// DC reproduction at offset zero: for a shifter tuned to offset zero whose
/// accumulator sits on a whole turn (as it does forever, by the law above),
/// a constant real input whose value is a multiple of the decimation ratio
/// comes back unchanged at every output sample — the boxcar filter's four
/// quarter-scale taps have DC gain exactly one.
pub proof fn lemma_dc_reproduction(s: Shifter, inp: Seq<DSPComplex>, v: i16, k: int)
    requires
        s.wf(),
        s.tables_set(),
        s.freq == 0,
        s.phase % 0x40000 == 0,
        v % 4 == 0,
        forall|m: int| 0 <= m < 192 ==> inp[m] == cplx(v as int, 0),
        0 <= k < 48,
    ensures
        shifter_out(s, inp, k) == cplx(v as int, 0),
{
    // zero offset means a zero angle increment
    vstd::arithmetic::div_mod::lemma_div_of0(375);
    assert(s.omega == 0);

    // all coefficients are unit rotations (the fine taps scaled to 1/4)
    let one = cplx(0x4000, 0);
    let quarter = cplx(0x1000, 0);
    assert forall|i: int| 0 <= i < 48 implies s.rot_buf_a@[i] == one by {
        assert(i * s.omega * 4 == 0) by (nonlinear_arith)
            requires
                s.omega == 0,
        ;
        vstd::arithmetic::div_mod::lemma_small_mod(0, 0x40000);
        crate::complex::lemma_expi_zero(0);
    }
    assert forall|i: int| 0 <= i < 4 implies s.rot_buf_b@[i] == quarter by {
        assert(i * s.omega == 0) by (nonlinear_arith)
            requires
                s.omega == 0,
        ;
        vstd::arithmetic::div_mod::lemma_small_mod(0, 0x40000);
        crate::complex::lemma_expi_zero(0);
        vstd::arithmetic::power2::lemma2_to64();
        assert(0x4000int / 4int == 0x1000int);
        assert(0int / 4int == 0) by {
            vstd::arithmetic::div_mod::lemma_div_of0(4);
        }
    }

    // the boxcar sum of four quarter-scale copies of v is exactly v
    let vv = v as int;
    let w = vv / 4;
    let bc = s.rot_buf_b@;
    vstd::arithmetic::div_mod::lemma_fundamental_div_mod(vv, 4);
    crate::complex::lemma_cmul_quarter(vv);
    crate::number::lemma_wrap16_id(w);
    crate::number::lemma_wrap16_id(2 * w);
    crate::number::lemma_wrap16_id(3 * w);
    crate::number::lemma_wrap16_id(4 * w);
    assert(dot_prefix(inp, bc, k, 0) == cplx(0, 0));
    assert(dot_prefix(inp, bc, k, 1) == cplx(w, 0));
    assert(dot_prefix(inp, bc, k, 2) == cplx(2 * w, 0));
    assert(dot_prefix(inp, bc, k, 3) == cplx(3 * w, 0));
    assert(dot_prefix(inp, bc, k, 4) == cplx(vv, 0));

    // both outer rotations are the unit
    crate::complex::lemma_expi_zero(s.phase as int);
    crate::complex::lemma_cmul_unit(vv);
}

impl Default for Shifter {
    /// Same as `Shifter::new`.
    fn default() -> (r: Shifter)
        ensures
            r.wf(),
            r.phase == 0,
            r.freq == 0,
            r.omega == 0,
            forall|i: int| 0 <= i < 48 ==> r.rot_buf_a@[i] == cplx(0, 0),
            forall|i: int| 0 <= i < 4 ==> r.rot_buf_b@[i] == cplx(0, 0),
    {
        Shifter::new()
    }
}

} // verus!
