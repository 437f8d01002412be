//! # Modifiers
//!
//! Stateful filters: each consumes one sample and produces one sample per
//! call, carrying its own filter memory. Every filter's behaviour is given
//! by a step function over its mathematical state, and `process` is proved
//! to follow that step function exactly.

use vstd::prelude::*;
use std::collections::VecDeque;
use crate::sample_format::{Sample, FP_ONE, sat_i64, fp_mul};

verus! {

/// The interface every filter implements: one sample in, one sample out,
/// exactly once per engine sample, in input order.
pub trait Modifier: Sized {
    /// Filters one sample, advancing the filter's internal state.
    fn process(&mut self, x: Sample) -> Sample;
}

/// A filter that does nothing: its output is its input.
#[derive(Clone, Copy, PartialEq, Eq, Structural, Debug)]
pub struct Empty {}

impl Empty {
    /// Creates a new Empty filter.
    pub fn new() -> (r: Empty)
        ensures
            r == (Empty {  }),
    {
        Empty {  }
    }
}

impl Modifier for Empty {
    fn process(&mut self, x: Sample) -> (r: Sample)
        ensures
            r == x,
            *final(self) == *old(self),
    {
        x
    }
}

/// A passthrough filter: like [`Empty`], its output is its input.
#[derive(Clone, Copy, PartialEq, Eq, Structural, Debug)]
pub struct Passthrough {}

impl Passthrough {
    /// Creates a new Passthrough filter.
    pub fn new() -> (r: Passthrough)
        ensures
            r == (Passthrough {  }),
    {
        Passthrough {  }
    }
}

impl Modifier for Passthrough {
    fn process(&mut self, x: Sample) -> (r: Sample)
        ensures
            r == x,
            *final(self) == *old(self),
    {
        x
    }
}

/// A pure gain: every sample is scaled by a constant amplitude.
#[derive(Clone, Copy, PartialEq, Eq, Structural, Debug)]
pub struct Gain {
    /// The gain applied to each sample; [`FP_ONE`] leaves samples unchanged.
    pub a: Sample,
}

impl Gain {
    /// Constructs a new gain filter with the given gain.
    pub fn new(a: Sample) -> (r: Gain)
        ensures
            r.a == a,
    {
        Gain { a }
    }
}

impl Modifier for Gain {
    fn process(&mut self, x: Sample) -> (r: Sample)
        ensures
            r.v as int == fp_mul(x.v as int, old(self).a.v as int),
            *final(self) == *old(self),
    {
        x.mul(self.a)
    }
}

/// What one step of a pure delay line does: the incoming sample joins the
/// back of the buffer and the front leaves as the output. An empty buffer
/// (a zero-sample delay) passes the input straight through.
pub open spec fn delay_step(q: Seq<Sample>, x: Sample) -> (Seq<Sample>, Sample) {
    let q1 = q.push(x);
    (q1.drop_first(), q1[0])
}

/// A pure delay line: each sample emerges unchanged after as many calls as
/// the line is long.
#[derive(Clone, Debug)]
pub struct Delay {
    delay: VecDeque<Sample>,
}

impl View for Delay {
    type V = Seq<Sample>;

    closed spec fn view(&self) -> Seq<Sample> {
        self.delay@
    }
}

impl Delay {
    /// Creates a delay line of the given length in samples, initially
    /// holding silence.
    pub fn new(samples: usize) -> (r: Delay)
        ensures
            r@.len() == samples,
            forall|i: int| 0 <= i < samples ==> r@[i] == Sample::spec_zero(),
    {
        let mut v: VecDeque<Sample> = VecDeque::new();
        let mut i: usize = 0;
        while i < samples
            invariant
                i <= samples,
                v@.len() == i,
                forall|k: int| 0 <= k < i ==> v@[k] == Sample::spec_zero(),
            decreases samples - i,
        {
            v.push_back(Sample::zero());
            i = i + 1;
        }
        Delay { delay: v }
    }

    /// Returns the length of the delay line in samples.
    pub fn get_delay(&self) -> (r: usize)
        ensures
            r == self@.len(),
    {
        self.delay.len()
    }
}

impl Modifier for Delay {
    fn process(&mut self, x: Sample) -> (r: Sample)
        ensures
            final(self)@ == delay_step(old(self)@, x).0,
            r == delay_step(old(self)@, x).1,
    {
        self.delay.push_back(x);
        let front = self.delay.pop_front();
        proof {
            assert(old(self)@.push(x).drop_first() =~= final(self)@);
        }
        front.unwrap()
    }
}

/// The mathematical state of an [`Echo`]: the feedback buffer and the
/// feedback gain.
pub ghost struct EchoModel {
    /// The delayed samples awaiting feedback.
    pub buf: Seq<Sample>,
    /// The gain applied to each fed-back sample.
    pub gain: Sample,
}

/// What one step of an echo does: the oldest buffered sample is scaled by
/// the feedback gain, the input is added, and the wet result both leaves as
/// the output and rejoins the back of the buffer. An empty buffer passes
/// the input straight through.
pub open spec fn echo_step(m: EchoModel, x: Sample) -> (EchoModel, Sample) {
    if m.buf.len() == 0 {
        (m, x)
    } else {
        let wet = Sample { v: sat_i64(fp_mul(m.buf[0].v as int, m.gain.v as int) + x.v) as i64 };
        (EchoModel { buf: m.buf.drop_first().push(wet), gain: m.gain }, wet)
    }
}

/// An echo: a delay line fed back onto itself through a gain.
#[derive(Clone, Debug)]
pub struct Echo {
    delay: VecDeque<Sample>,
    gain: Sample,
}

impl View for Echo {
    type V = EchoModel;

    closed spec fn view(&self) -> EchoModel {
        EchoModel { buf: self.delay@, gain: self.gain }
    }
}

impl Echo {
    /// Creates an echo with the given delay length in samples and feedback
    /// gain, its buffer initially holding silence.
    pub fn new(samples: usize, gain: Sample) -> (r: Echo)
        ensures
            r@.buf.len() == samples,
            forall|i: int| 0 <= i < samples ==> r@.buf[i] == Sample::spec_zero(),
            r@.gain == gain,
    {
        let mut v: VecDeque<Sample> = VecDeque::new();
        let mut i: usize = 0;
        while i < samples
            invariant
                i <= samples,
                v@.len() == i,
                forall|k: int| 0 <= k < i ==> v@[k] == Sample::spec_zero(),
            decreases samples - i,
        {
            v.push_back(Sample::zero());
            i = i + 1;
        }
        Echo { delay: v, gain }
    }
}

impl Modifier for Echo {
    fn process(&mut self, x: Sample) -> (r: Sample)
        ensures
            final(self)@ == echo_step(old(self)@, x).0,
            r == echo_step(old(self)@, x).1,
    {
        match self.delay.pop_front() {
            None => x,
            Some(front) => {
                let wet = front.mul(self.gain).add(x);
                self.delay.push_back(wet);
                proof {
                    assert(old(self)@.buf.drop_first().push(wet) =~= final(self)@.buf);
                }
                wet
            },
        }
    }
}

/// The phase an [`ADSR`] envelope is in.
#[derive(Clone, Copy, PartialEq, Eq, Structural, Debug)]
pub enum ADSRState {
    /// Attack state: the envelope gain ramps up to full scale.
    Attack,
    /// Decay state: the gain falls toward the sustain level.
    Decay,
    /// Sustain state: the gain holds at the sustain level.
    Sustain,
    /// Release state: the gain falls toward silence.
    Release,
    /// State for when the envelope has completed its processing.
    Stopped,
}

/// An attack-decay-sustain-release envelope: a time-varying gain driven by
/// a five-phase state machine. All rates are per-sample gain increments.
#[derive(Clone, Copy, PartialEq, Eq, Structural, Debug)]
pub struct ADSR {
    /// The gain added per sample while attacking (positive).
    pub a: Sample,
    /// The gain added per sample while decaying (negative).
    pub d: Sample,
    /// The gain held while sustaining.
    pub s: Sample,
    /// The gain added per sample while releasing (negative).
    pub r: Sample,
    /// The phase the envelope is in.
    pub state: ADSRState,
    /// The envelope's current gain.
    pub g: Sample,
}

/// What one step of an ADSR envelope does: the gain ramps by the phase's
/// increment, phases hand over at their boundary (full scale ends the
/// attack, the sustain level ends the decay, silence ends the release),
/// and the input is scaled by the resulting gain. A stopped envelope
/// yields silence.
pub open spec fn adsr_step(m: ADSR, x: Sample) -> (ADSR, Sample) {
    match m.state {
        ADSRState::Attack => {
            let g1 = sat_i64(m.g.v + m.a.v);
            let (st, g2): (ADSRState, int) = if g1 >= FP_ONE as int {
                (ADSRState::Decay, FP_ONE as int)
            } else {
                (ADSRState::Attack, g1)
            };
            (
                ADSR { state: st, g: Sample { v: g2 as i64 }, ..m },
                Sample { v: fp_mul(x.v as int, g2) as i64 },
            )
        },
        ADSRState::Decay => {
            let g1 = sat_i64(m.g.v + m.d.v);
            let (st, g2): (ADSRState, int) = if g1 <= m.s.v as int {
                (ADSRState::Sustain, m.s.v as int)
            } else {
                (ADSRState::Decay, g1)
            };
            (
                ADSR { state: st, g: Sample { v: g2 as i64 }, ..m },
                Sample { v: fp_mul(x.v as int, g2) as i64 },
            )
        },
        ADSRState::Sustain => (m, Sample { v: fp_mul(x.v as int, m.g.v as int) as i64 }),
        ADSRState::Release => {
            let g1 = sat_i64(m.g.v + m.r.v);
            let (st, g2): (ADSRState, int) = if g1 <= 0 {
                (ADSRState::Stopped, 0)
            } else {
                (ADSRState::Release, g1)
            };
            (
                ADSR { state: st, g: Sample { v: g2 as i64 }, ..m },
                Sample { v: fp_mul(x.v as int, g2) as i64 },
            )
        },
        ADSRState::Stopped => (m, Sample::spec_zero()),
    }
}

impl ADSR {
    /// Constructs an ADSR envelope from its per-sample gain increments and
    /// the sustain level; the envelope starts attacking from silence.
    ///
    /// An attack that takes `t` samples to reach full scale has increment
    /// `FP_ONE / t`; decay and release increments are negative.
    pub fn new(a: Sample, d: Sample, s: Sample, r: Sample) -> (m: ADSR)
        ensures
            m == (ADSR { a, d, s, r, state: ADSRState::Attack, g: Sample::spec_zero() }),
    {
        ADSR { a, d, s, r, state: ADSRState::Attack, g: Sample::zero() }
    }

    /// Sets the per-sample attack increment.
    pub fn attack(&mut self, a: Sample)
        ensures
            *final(self) == (ADSR { a, ..*old(self) }),
    {
        self.a = a;
    }

    /// Sets the per-sample decay increment.
    pub fn decay(&mut self, d: Sample)
        ensures
            *final(self) == (ADSR { d, ..*old(self) }),
    {
        self.d = d;
    }

    /// Sets the sustain level.
    pub fn sustain(&mut self, s: Sample)
        ensures
            *final(self) == (ADSR { s, ..*old(self) }),
    {
        self.s = s;
    }

    /// Sets the per-sample release increment.
    pub fn release(&mut self, r: Sample)
        ensures
            *final(self) == (ADSR { r, ..*old(self) }),
    {
        self.r = r;
    }

    /// Moves the envelope into its release phase.
    pub fn trigger_release(&mut self)
        ensures
            *final(self) == (ADSR { state: ADSRState::Release, ..*old(self) }),
    {
        self.state = ADSRState::Release;
    }
}

impl Modifier for ADSR {
    fn process(&mut self, x: Sample) -> (r: Sample)
        ensures
            *final(self) == adsr_step(*old(self), x).0,
            r == adsr_step(*old(self), x).1,
    {
        match self.state {
            ADSRState::Attack => {
                let g1 = self.g.add(self.a);
                self.g = if g1.v >= FP_ONE {
                    self.state = ADSRState::Decay;
                    Sample { v: FP_ONE }
                } else {
                    g1
                };
                x.mul(self.g)
            },
            ADSRState::Decay => {
                let g1 = self.g.add(self.d);
                self.g = if g1.v <= self.s.v {
                    self.state = ADSRState::Sustain;
                    self.s
                } else {
                    g1
                };
                x.mul(self.g)
            },
            ADSRState::Sustain => x.mul(self.g),
            ADSRState::Release => {
                let g1 = self.g.add(self.r);
                self.g = if g1.v <= 0 {
                    self.state = ADSRState::Stopped;
                    Sample { v: 0 }
                } else {
                    g1
                };
                x.mul(self.g)
            },
            ADSRState::Stopped => Sample::zero(),
        }
    }
}


/// The mathematical state of a [`Generic`] filter: the zero and pole taps
/// and the remembered input and output samples.
pub ghost struct GenericModel {
    /// The zero taps: pairs of an input-history index and a gain.
    pub zeros: Seq<(usize, Sample)>,
    /// The pole taps: pairs of an output-history index and a gain.
    pub poles: Seq<(usize, Sample)>,
    /// The remembered inputs, most recent first.
    pub inputs: Seq<Sample>,
    /// The remembered outputs, most recent first.
    pub outputs: Seq<Sample>,
}

/// A history buffer after one step: the new sample enters at the front and
/// the oldest leaves at the back, keeping the length.
pub open spec fn shift_front(q: Seq<Sample>, x: Sample) -> Seq<Sample> {
    (seq![x] + q).drop_last()
}

/// Accumulates the first `k` taps onto `base`: each tap scales the history
/// sample at its index by its gain and adds it in, in tap order. A tap
/// whose index lies outside the history contributes nothing.
pub open spec fn taps_fold(
    taps: Seq<(usize, Sample)>,
    buf: Seq<Sample>,
    base: Sample,
    k: nat,
) -> Sample
    decreases k,
{
    if k == 0 {
        base
    } else {
        let prev = taps_fold(taps, buf, base, (k - 1) as nat);
        let idx = taps[k - 1].0;
        let g = taps[k - 1].1;
        if idx < buf.len() {
            Sample { v: sat_i64(prev.v + fp_mul(buf[idx as int].v as int, g.v as int)) as i64 }
        } else {
            prev
        }
    }
}

/// What one step of a generic filter does: the input enters the input
/// history, the zero taps accumulate over the inputs and the pole taps
/// over the past outputs, and the result both leaves as the output and
/// enters the output history.
pub open spec fn generic_step(m: GenericModel, x: Sample) -> (GenericModel, Sample) {
    let inputs2 = shift_front(m.inputs, x);
    let zsum = taps_fold(m.zeros, inputs2, Sample::spec_zero(), m.zeros.len());
    let y = taps_fold(m.poles, m.outputs, zsum, m.poles.len());
    let outputs2 = shift_front(m.outputs, y);
    (GenericModel { inputs: inputs2, outputs: outputs2, ..m }, y)
}

/// The history length a tap list needs: one past its largest index.
pub open spec fn needed_len(taps: Seq<(usize, Sample)>) -> int
    decreases taps.len(),
{
    if taps.len() == 0 {
        0
    } else {
        let rest = needed_len(taps.drop_last());
        let cand = taps.last().0 + 1;
        if cand > rest {
            cand
        } else {
            rest
        }
    }
}

/// A generic direct-form filter: a list of zero taps over remembered
/// inputs and pole taps over remembered outputs, with arbitrary gains.
#[derive(Debug)]
pub struct Generic {
    zeros: VecDeque<(usize, Sample)>,
    poles: VecDeque<(usize, Sample)>,
    inputs: VecDeque<Sample>,
    outputs: VecDeque<Sample>,
}

impl View for Generic {
    type V = GenericModel;

    closed spec fn view(&self) -> GenericModel {
        GenericModel { zeros: self.zeros@, poles: self.poles@, inputs: self.inputs@, outputs: self.outputs@ }
    }
}

impl Generic {
    /// Creates a new generic filter from the given zero and pole taps,
    /// with input and output histories just long enough for every tap,
    /// initially holding silence.
    #[verifier::loop_isolation(false)]
    pub fn new(zeros: VecDeque<(usize, Sample)>, poles: VecDeque<(usize, Sample)>) -> (r: Generic)
        requires
            forall|j: int| 0 <= j < zeros@.len() ==> (#[trigger] zeros@[j]).0 < usize::MAX,
            forall|j: int| 0 <= j < poles@.len() ==> (#[trigger] poles@[j]).0 < usize::MAX,
        ensures
            r@.zeros == zeros@,
            r@.poles == poles@,
            r@.inputs.len() == needed_len(zeros@),
            forall|j: int| 0 <= j < r@.inputs.len() ==> r@.inputs[j] == Sample::spec_zero(),
            r@.outputs.len() == needed_len(poles@),
            forall|j: int| 0 <= j < r@.outputs.len() ==> r@.outputs[j] == Sample::spec_zero(),
    {
        let zlen = history_len(&zeros);
        let plen = history_len(&poles);
        Generic {
            zeros,
            poles,
            inputs: silence(zlen),
            outputs: silence(plen),
        }
    }
}

/// Computes the history length a tap list needs.
#[verifier::loop_isolation(false)]
fn history_len(taps: &VecDeque<(usize, Sample)>) -> (r: usize)
    requires
        forall|j: int| 0 <= j < taps@.len() ==> (#[trigger] taps@[j]).0 < usize::MAX,
    ensures
        r == needed_len(taps@),
{
    let mut m: usize = 0;
    let mut j: usize = 0;
    while j < taps.len()
        invariant
            j <= taps@.len(),
            m == needed_len(taps@.take(j as int)),
        decreases taps@.len() - j,
    {
        proof {
            assert(taps@.take(j as int + 1).drop_last() =~= taps@.take(j as int));
        }
        let idx = taps[j].0;
        if idx + 1 > m {
            m = idx + 1;
        }
        j = j + 1;
    }
    proof {
        assert(taps@.take(taps@.len() as int) =~= taps@);
    }
    m
}

/// A history buffer of the given length holding silence.
fn silence(n: usize) -> (r: VecDeque<Sample>)
    ensures
        r@.len() == n,
        forall|j: int| 0 <= j < n ==> r@[j] == Sample::spec_zero(),
{
    let mut v: VecDeque<Sample> = VecDeque::new();
    let mut i: usize = 0;
    while i < n
        invariant
            i <= n,
            v@.len() == i,
            forall|k: int| 0 <= k < i ==> v@[k] == Sample::spec_zero(),
        decreases n - i,
    {
        v.push_back(Sample::zero());
        i = i + 1;
    }
    v
}

impl Modifier for Generic {
    #[verifier::loop_isolation(false)]
    fn process(&mut self, x: Sample) -> (r: Sample)
        ensures
            final(self)@ == generic_step(old(self)@, x).0,
            r == generic_step(old(self)@, x).1,
    {
        let ghost m0 = self@;
        self.inputs.push_front(x);
        let _ = self.inputs.pop_back();
        proof {
            assert(self.inputs@ =~= shift_front(m0.inputs, x));
        }
        let mut y = Sample::zero();
        let mut j: usize = 0;
        while j < self.zeros.len()
            invariant
                j <= self.zeros@.len(),
                y == taps_fold(m0.zeros, shift_front(m0.inputs, x), Sample::spec_zero(), j as nat),
            decreases self.zeros@.len() - j,
        {
            let idx = self.zeros[j].0;
            let g = self.zeros[j].1;
            if idx < self.inputs.len() {
                y = y.add(self.inputs[idx].mul(g));
            }
            j = j + 1;
        }
        let ghost zsum = y;
        let mut k: usize = 0;
        while k < self.poles.len()
            invariant
                k <= self.poles@.len(),
                y == taps_fold(m0.poles, m0.outputs, zsum, k as nat),
            decreases self.poles@.len() - k,
        {
            let idx = self.poles[k].0;
            let g = self.poles[k].1;
            if idx < self.outputs.len() {
                y = y.add(self.outputs[idx].mul(g));
            }
            k = k + 1;
        }
        self.outputs.push_front(y);
        let _ = self.outputs.pop_back();
        proof {
            assert(self.outputs@ =~= shift_front(m0.outputs, y));
        }
        y
    }
}

} // verus!
