//! # MonoResampler
//!
//! Transcodes a recorded monophonic track from its source sampling rate to
//! the rate the engine runs at, with an adjustable playback speed and an
//! optional loop window.
//!
//! The fractional read index, the per-sample increment and the playback
//! speed are unsigned 32.32 fixed-point values: [`IDX_ONE`] represents an
//! advance of exactly one source sample per engine sample.

use vstd::prelude::*;
use crate::sample_format::{Sample, sat_i64, tdiv};

verus! {

/// The 32.32 fixed-point representation of an index advance of one source
/// sample per engine sample: `1 << 32`.
pub const IDX_ONE: u64 = 4294967296;

/// The mathematical state of a [`MonoResampler`]: the source track, the
/// fractional read index, the index increment, the playback speed and the
/// loop window.
pub ghost struct ResamplerModel {
    /// The source track.
    pub data: Seq<Sample>,
    /// The 32.32 fixed-point read index into `data`.
    pub ind: u64,
    /// The 32.32 fixed-point index increment per engine sample.
    pub inc: u64,
    /// The 32.32 fixed-point playback speed multiplier.
    pub speed: u64,
    /// The first sample of the loop window.
    pub loop_start: usize,
    /// The sample one past the loop window; zero disables looping.
    pub loop_end: usize,
}

/// Clamps an unbounded integer into the range representable by `u64`.
pub open spec fn sat_u64(x: int) -> int {
    if x > u64::MAX as int {
        u64::MAX as int
    } else {
        x
    }
}

/// Wraps a read index back into the loop window by repeatedly subtracting
/// the window length until the index lies below the window's end.
pub open spec fn wrap_index(ind: nat, window: nat, bound: nat) -> nat
    recommends
        0 < window <= bound,
    decreases ind,
{
    if window == 0 || ind < bound || ind < window {
        ind
    } else {
        wrap_index((ind - window) as nat, window, bound)
    }
}

/// Wrapping an index never increases it.
pub proof fn lemma_wrap_index_le(ind: nat, window: nat, bound: nat)
    ensures
        wrap_index(ind, window, bound) <= ind,
    decreases ind,
{
    if !(window == 0 || ind < bound || ind < window) {
        lemma_wrap_index_le((ind - window) as nat, window, bound);
    }
}

/// With a nonempty window inside the bound, a wrapped index lies below the
/// bound.
pub proof fn lemma_wrap_index_below(ind: nat, window: nat, bound: nat)
    requires
        0 < window <= bound,
    ensures
        wrap_index(ind, window, bound) < bound,
    decreases ind,
{
    if !(window == 0 || ind < bound || ind < window) {
        lemma_wrap_index_below((ind - window) as nat, window, bound);
    }
}

impl ResamplerModel {
    /// The model is well formed: the track is addressable by a 32.32 index,
    /// and an enabled loop window lies inside the track with the read index
    /// below its end.
    pub open spec fn wf(self) -> bool {
        &&& self.data.len() < IDX_ONE
        &&& self.loop_end != 0 ==> {
            &&& self.loop_start < self.loop_end
            &&& self.loop_end <= self.data.len()
            &&& (self.ind as int) < (self.loop_end as int) * (IDX_ONE as int)
        }
    }

    /// Whether the resampler has run past the end of a loop-free track and
    /// produces silence without advancing.
    pub open spec fn exhausted(self) -> bool {
        self.ind as int / IDX_ONE as int >= self.data.len() && self.loop_end == 0
    }

    /// The whole-sample part of the read index.
    pub open spec fn trunc(self) -> int {
        self.ind as int / IDX_ONE as int
    }

    /// The fractional part of the read index.
    pub open spec fn frac(self) -> int {
        self.ind as int % IDX_ONE as int
    }

    /// The sample interpolation reaches toward: the next source sample,
    /// wrapped to the loop start when the next step would cross the loop
    /// end, or the current sample held when the track ends without a loop.
    pub open spec fn next_sample(self) -> Sample
        recommends
            !self.exhausted(),
            self.wf(),
            self.trunc() < self.data.len(),
    {
        if self.loop_end != 0 && self.trunc() + 1 >= self.loop_end {
            self.data[self.loop_start as int]
        } else if self.trunc() + 1 >= self.data.len() {
            self.data[self.trunc()]
        } else {
            self.data[self.trunc() + 1]
        }
    }

    /// The sample one call of `process` returns: silence when exhausted,
    /// otherwise the linear interpolation between the current and the next
    /// source sample at the index's fractional position.
    pub open spec fn output(self) -> Sample {
        if self.exhausted() {
            Sample::spec_zero()
        } else {
            let x1 = self.data[self.trunc()].v as int;
            let x2 = self.next_sample().v as int;
            Sample { v: sat_i64(x1 + tdiv((x2 - x1) * self.frac(), IDX_ONE as int)) as i64 }
        }
    }

    /// The state after one call of `process`: unchanged when exhausted,
    /// otherwise the index advanced by the speed-scaled increment and
    /// wrapped back into an enabled loop window.
    pub open spec fn stepped(self) -> ResamplerModel {
        if self.exhausted() {
            self
        } else {
            let step = sat_u64(tdiv(self.inc as int * self.speed as int, IDX_ONE as int));
            let advanced = sat_u64(self.ind + step) as nat;
            let ind2 = if self.loop_end != 0 {
                wrap_index(
                    advanced,
                    (self.loop_end - self.loop_start) as nat * IDX_ONE as nat,
                    self.loop_end as nat * IDX_ONE as nat,
                )
            } else {
                advanced
            };
            ResamplerModel { ind: ind2 as u64, ..self }
        }
    }
}

/// The resampler state after `n` calls of `process`.
pub open spec fn stepped_n(m: ResamplerModel, n: nat) -> ResamplerModel
    decreases n,
{
    if n == 0 {
        m
    } else {
        stepped_n(m, (n - 1) as nat).stepped()
    }
}

/// The samples the first `n` calls of `process` return, in order.
pub open spec fn resampler_outputs(m: ResamplerModel, n: nat) -> Seq<Sample>
    decreases n,
{
    if n == 0 {
        Seq::empty()
    } else {
        resampler_outputs(m, (n - 1) as nat).push(stepped_n(m, (n - 1) as nat).output())
    }
}

/// Resampling at the recorded rate and speed reads the track in place: with
/// an increment and speed of exactly one and no loop window, a whole read
/// index `k` inside the track yields the source sample `k` unchanged, and
/// the index advances to exactly `k + 1`.
pub proof fn lemma_resampler_identity_step(m: ResamplerModel, k: nat)
    requires
        m.wf(),
        m.inc == IDX_ONE,
        m.speed == IDX_ONE,
        m.loop_end == 0,
        m.ind == k * IDX_ONE,
        k < m.data.len(),
    ensures
        m.output() == m.data[k as int],
        m.stepped() == (ResamplerModel { ind: ((k + 1) * IDX_ONE) as u64, ..m }),
{
    assert(k * IDX_ONE as int / IDX_ONE as int == k) by (nonlinear_arith);
    assert(k * IDX_ONE as int % IDX_ONE as int == 0) by (nonlinear_arith);
    assert(!m.exhausted());
    assert(m.output().v == sat_i64(m.data[k as int].v + tdiv(
        (m.next_sample().v - m.data[k as int].v) * 0,
        IDX_ONE as int,
    )));
    assert(m.output() == m.data[k as int]);
    assert(tdiv(IDX_ONE as int * IDX_ONE as int, IDX_ONE as int) == IDX_ONE as int)
        by (nonlinear_arith);
    assert((k + 1) * IDX_ONE == k * IDX_ONE + IDX_ONE) by (nonlinear_arith);
    assert(k + 1 < IDX_ONE);
    assert((k + 1) * IDX_ONE <= (IDX_ONE - 1) * IDX_ONE < u64::MAX) by (nonlinear_arith)
        requires
            k + 1 < IDX_ONE,
    ;
}

/// Resampler identity: with an increment and speed of exactly one and no
/// loop window, starting at index zero, the first `n` outputs are the first
/// `n` source samples, unchanged and in order.
pub proof fn lemma_resampler_identity(m: ResamplerModel, n: nat)
    requires
        m.wf(),
        m.inc == IDX_ONE,
        m.speed == IDX_ONE,
        m.loop_end == 0,
        m.ind == 0,
        n <= m.data.len(),
    ensures
        resampler_outputs(m, n) == m.data.take(n as int),
    decreases n,
{
    if n == 0 {
        assert(resampler_outputs(m, 0) =~= m.data.take(0));
    } else {
        lemma_resampler_identity(m, (n - 1) as nat);
        lemma_stepped_n_identity(m, (n - 1) as nat);
        lemma_resampler_identity_step(stepped_n(m, (n - 1) as nat), (n - 1) as nat);
        assert(resampler_outputs(m, n) =~= m.data.take(n as int));
    }
}

/// Under the identity conditions, `n` calls leave the read index at exactly
/// `n` whole samples.
proof fn lemma_stepped_n_identity(m: ResamplerModel, n: nat)
    requires
        m.wf(),
        m.inc == IDX_ONE,
        m.speed == IDX_ONE,
        m.loop_end == 0,
        m.ind == 0,
        n <= m.data.len(),
    ensures
        stepped_n(m, n) == (ResamplerModel { ind: (n * IDX_ONE) as u64, ..m }),
    decreases n,
{
    if n == 0 {
        assert(stepped_n(m, 0) == m);
        assert(m == (ResamplerModel { ind: (0 * IDX_ONE) as u64, ..m }));
    } else {
        lemma_stepped_n_identity(m, (n - 1) as nat);
        lemma_resampler_identity_step(stepped_n(m, (n - 1) as nat), (n - 1) as nat);
    }
}

/// Resamples a recorded track to the engine's sampling rate, with playback
/// speed control and an optional loop window.
#[derive(Debug)]
pub struct MonoResampler {
    data: Vec<Sample>,
    ind: u64,
    inc: u64,
    speed: u64,
    loop_start: usize,
    loop_end: usize,
}

impl View for MonoResampler {
    type V = ResamplerModel;

    closed spec fn view(&self) -> ResamplerModel {
        ResamplerModel {
            data: self.data@,
            ind: self.ind,
            inc: self.inc,
            speed: self.speed,
            loop_start: self.loop_start,
            loop_end: self.loop_end,
        }
    }
}

impl MonoResampler {
    #[verifier::type_invariant]
    spec fn type_wf(self) -> bool {
        self@.wf()
    }

    /// Creates a new resampler over the given track.
    ///
    /// `sample_rate` is the engine rate to resample to and
    /// `source_sample_rate` the rate the track was recorded at. The loop
    /// window `[loop_start, loop_end)` is swapped if given in reverse and
    /// clamped to the track; `loop_end == 0`, or a window that is empty
    /// after normalization, disables looping.
    pub fn new(
        data: Vec<Sample>,
        sample_rate: u32,
        source_sample_rate: u32,
        loop_start: usize,
        loop_end: usize,
    ) -> (r: MonoResampler)
        requires
            sample_rate > 0,
            data@.len() < IDX_ONE,
        ensures
            r@.data == data@,
            r@.ind == 0,
            r@.speed == IDX_ONE,
            r@.inc == source_sample_rate as int * IDX_ONE as int / sample_rate as int,
            ({
                let lo = if loop_end < loop_start { loop_end } else { loop_start };
                let hi = if loop_end < loop_start { loop_start } else { loop_end };
                let hi2 = if hi > data@.len() { data@.len() as int } else { hi as int };
                if ((lo as int) < hi2) {
                    r@.loop_start == lo && r@.loop_end == hi2
                } else {
                    r@.loop_start == 0 && r@.loop_end == 0
                }
            }),
    {
        let (mut lo, mut hi) = if loop_end < loop_start {
            (loop_end, loop_start)
        } else {
            (loop_start, loop_end)
        };
        if hi > data.len() {
            hi = data.len();
        }
        if lo >= hi {
            lo = 0;
            hi = 0;
        }
        MonoResampler {
            data,
            ind: 0,
            inc: ((source_sample_rate as u64) * IDX_ONE) / (sample_rate as u64),
            speed: IDX_ONE,
            loop_start: lo,
            loop_end: hi,
        }
    }

    /// Sets the playback speed, a 32.32 fixed-point multiplier where
    /// [`IDX_ONE`] is the recorded speed.
    pub fn set_playback_speed(&mut self, speed: u64)
        ensures
            final(self)@ == (ResamplerModel { speed, ..old(self)@ }),
    {
        proof {
            use_type_invariant(&*self);
        }
        self.speed = speed;
    }

    /// Returns the playback speed.
    pub fn get_playback_speed(&self) -> (r: u64)
        ensures
            r == self@.speed,
    {
        self.speed
    }

    /// Calculates and returns the next engine sample: the interpolated
    /// source value at the current read index, after which the index
    /// advances by the speed-scaled increment and wraps inside an enabled
    /// loop window. A loop-free track that has run out yields silence
    /// forever after.
    pub fn process(&mut self) -> (r: Sample)
        ensures
            r == old(self)@.output(),
            final(self)@ == old(self)@.stepped(),
    {
        proof {
            use_type_invariant(&*self);
        }
        let t: usize = (self.ind / IDX_ONE) as usize;
        if t >= self.data.len() && self.loop_end == 0 {
            return Sample::zero();
        }
        let x1: Sample = self.data[t];
        let x2: Sample = if self.loop_end != 0 && t + 1 >= self.loop_end {
            self.data[self.loop_start]
        } else if t + 1 >= self.data.len() {
            self.data[t]
        } else {
            self.data[t + 1]
        };
        let frac: u64 = self.ind % IDX_ONE;
        let diff: i128 = (x2.v as i128) - (x1.v as i128);
        assert(diff * frac <= i128::MAX && diff * frac >= i128::MIN) by (nonlinear_arith)
            requires
                -18446744073709551616 <= diff <= 18446744073709551615,
                0 <= frac < 4294967296,
        ;
        let interp_off: i128 = (diff * (frac as i128)) / (IDX_ONE as i128);
        let y128: i128 = (x1.v as i128) + interp_off;
        let y: Sample = if y128 > i64::MAX as i128 {
            Sample { v: i64::MAX }
        } else if y128 < i64::MIN as i128 {
            Sample { v: i64::MIN }
        } else {
            Sample { v: y128 as i64 }
        };

        assert(self.inc as int * self.speed as int <= u128::MAX) by (nonlinear_arith)
            requires
                0 <= self.inc <= u64::MAX,
                0 <= self.speed <= u64::MAX,
        ;
        let step128: u128 = ((self.inc as u128) * (self.speed as u128)) / (IDX_ONE as u128);
        let step: u64 = if step128 > u64::MAX as u128 {
            u64::MAX
        } else {
            step128 as u64
        };
        let mut advanced: u64 = if self.ind > u64::MAX - step {
            u64::MAX
        } else {
            self.ind + step
        };
        proof {
            assert(step as int == sat_u64(tdiv(self@.inc as int * self@.speed as int, IDX_ONE as int)));
            assert(advanced as int == sat_u64(self@.ind + step));
        }
        if self.loop_end != 0 {
            let window: u64 = ((self.loop_end - self.loop_start) as u64) * IDX_ONE;
            let bound: u64 = (self.loop_end as u64) * IDX_ONE;
            proof {
                let m = old(self)@;
                assert(!m.exhausted());
                assert(window as nat == ((m.loop_end - m.loop_start) as nat) * (IDX_ONE as nat));
                assert(bound as nat == (m.loop_end as nat) * (IDX_ONE as nat));
                assert(advanced as nat == sat_u64(
                    m.ind + sat_u64(tdiv(m.inc as int * m.speed as int, IDX_ONE as int)),
                ) as nat);
                lemma_wrap_index_le(advanced as nat, window as nat, bound as nat);
                assert(m.stepped().ind as nat == wrap_index(
                    advanced as nat,
                    window as nat,
                    bound as nat,
                ));
            }
            while advanced >= bound
                invariant
                    window == (self@.loop_end - self@.loop_start) * IDX_ONE,
                    bound == self@.loop_end * IDX_ONE,
                    0 < window <= bound,
                    old(self)@.stepped().ind as nat == wrap_index(
                        advanced as nat,
                        window as nat,
                        bound as nat,
                    ),
                decreases advanced,
            {
                advanced = advanced - window;
            }
            proof {
                assert(wrap_index(advanced as nat, window as nat, bound as nat) == advanced as nat);
            }
        }
        self.ind = advanced;
        y
    }
}

} // verus!
