//! # StandardBlock
//!
//! The indivisible unit of a signal graph: a [`StandardBlock`] pairs one
//! generator with one modifier and combines their outputs through an
//! interactor. Upstream blocks contribute to a block's input accumulator
//! ("priming"); processing consumes the accumulator and resets it to
//! silence, so no input state ever crosses a sample boundary.

use vstd::prelude::*;
use crate::sample_format::{Sample, fp_mul, sat_i64};
use crate::generators::{Generator, Zero, Empty, MonoWav};
use crate::modifiers::{Modifier, Passthrough, Gain, Delay, Echo, ADSR, Generic, GenericModel, adsr_step, delay_step, echo_step, generic_step, EchoModel};
use crate::mono_resampler::ResamplerModel;

verus! {

/// The rule a block uses to combine its generator's and its modifier's
/// outputs into one sample.
#[derive(Clone, Copy, PartialEq, Eq, Structural, Debug)]
pub enum Interactor {
    /// Multiplies the two samples (amplitude modulation).
    Multiply,
    /// Passes the generator's sample through unchanged.
    GeneratorPassthrough,
    /// Passes the modifier's sample through unchanged.
    ModifierPassthrough,
}

/// The sample an interactor combines a generator output `g` and a modifier
/// output `m` into.
pub open spec fn interact(i: Interactor, g: Sample, m: Sample) -> Sample {
    match i {
        Interactor::Multiply => Sample { v: fp_mul(g.v as int, m.v as int) as i64 },
        Interactor::GeneratorPassthrough => g,
        Interactor::ModifierPassthrough => m,
    }
}

/// A generator a block can hold: one of the engine's sound sources.
#[derive(Debug)]
pub enum GeneratorUnit {
    /// A silent generator.
    Zero(Zero),
    /// A generator that does nothing.
    Empty(Empty),
    /// A recorded-track player.
    Wav(MonoWav),
}

/// The mathematical state of a [`GeneratorUnit`].
pub ghost enum GenUnitModel {
    /// A silent generator.
    Zero(Zero),
    /// A generator that does nothing.
    Empty(Empty),
    /// A recorded-track player.
    Wav(ResamplerModel),
}

impl View for GeneratorUnit {
    type V = GenUnitModel;

    open spec fn view(&self) -> GenUnitModel {
        match self {
            GeneratorUnit::Zero(z) => GenUnitModel::Zero(*z),
            GeneratorUnit::Empty(e) => GenUnitModel::Empty(*e),
            GeneratorUnit::Wav(w) => GenUnitModel::Wav(w@),
        }
    }
}

/// What one call of a generator unit produces and how its state advances.
pub open spec fn gen_unit_step(g: GenUnitModel) -> (GenUnitModel, Sample) {
    match g {
        GenUnitModel::Zero(z) => (g, Sample::spec_zero()),
        GenUnitModel::Empty(e) => (g, Sample::spec_zero()),
        GenUnitModel::Wav(r) => (GenUnitModel::Wav(r.stepped()), r.output()),
    }
}

impl Generator for GeneratorUnit {
    fn process(&mut self) -> (r: Sample)
        ensures
            final(self)@ == gen_unit_step(old(self)@).0,
            r == gen_unit_step(old(self)@).1,
    {
        match self {
            GeneratorUnit::Zero(z) => z.process(),
            GeneratorUnit::Empty(e) => e.process(),
            GeneratorUnit::Wav(w) => w.process(),
        }
    }
}

/// A modifier a block can hold: one of the engine's filters.
#[derive(Debug)]
pub enum ModifierUnit {
    /// A filter that does nothing.
    Empty(crate::modifiers::Empty),
    /// A passthrough filter.
    Passthrough(Passthrough),
    /// A pure gain.
    Gain(Gain),
    /// A pure delay line.
    Delay(Delay),
    /// A fed-back delay line.
    Echo(Echo),
    /// An attack-decay-sustain-release envelope.
    Adsr(ADSR),
    /// A generic direct-form filter.
    Generic(Generic),
}

/// The mathematical state of a [`ModifierUnit`].
pub ghost enum ModUnitModel {
    /// A filter that does nothing.
    Empty(crate::modifiers::Empty),
    /// A passthrough filter.
    Passthrough(Passthrough),
    /// A pure gain.
    Gain(Gain),
    /// A pure delay line.
    Delay(Seq<Sample>),
    /// A fed-back delay line.
    Echo(EchoModel),
    /// An attack-decay-sustain-release envelope.
    Adsr(ADSR),
    /// A generic direct-form filter.
    Generic(GenericModel),
}

impl View for ModifierUnit {
    type V = ModUnitModel;

    open spec fn view(&self) -> ModUnitModel {
        match self {
            ModifierUnit::Empty(e) => ModUnitModel::Empty(*e),
            ModifierUnit::Passthrough(p) => ModUnitModel::Passthrough(*p),
            ModifierUnit::Gain(g) => ModUnitModel::Gain(*g),
            ModifierUnit::Delay(d) => ModUnitModel::Delay(d@),
            ModifierUnit::Echo(e) => ModUnitModel::Echo(e@),
            ModifierUnit::Adsr(a) => ModUnitModel::Adsr(*a),
            ModifierUnit::Generic(g) => ModUnitModel::Generic(g@),
        }
    }
}

/// What one call of a modifier unit on the input `x` produces and how its
/// state advances.
pub open spec fn mod_unit_step(m: ModUnitModel, x: Sample) -> (ModUnitModel, Sample) {
    match m {
        ModUnitModel::Empty(e) => (m, x),
        ModUnitModel::Passthrough(p) => (m, x),
        ModUnitModel::Gain(g) => (m, Sample { v: fp_mul(x.v as int, g.a.v as int) as i64 }),
        ModUnitModel::Delay(q) => {
            let (q2, y) = delay_step(q, x);
            (ModUnitModel::Delay(q2), y)
        },
        ModUnitModel::Echo(e) => {
            let (e2, y) = echo_step(e, x);
            (ModUnitModel::Echo(e2), y)
        },
        ModUnitModel::Adsr(a) => {
            let (a2, y) = adsr_step(a, x);
            (ModUnitModel::Adsr(a2), y)
        },
        ModUnitModel::Generic(g) => {
            let (g2, y) = generic_step(g, x);
            (ModUnitModel::Generic(g2), y)
        },
    }
}

impl Modifier for ModifierUnit {
    fn process(&mut self, x: Sample) -> (r: Sample)
        ensures
            final(self)@ == mod_unit_step(old(self)@, x).0,
            r == mod_unit_step(old(self)@, x).1,
    {
        match self {
            ModifierUnit::Empty(e) => e.process(x),
            ModifierUnit::Passthrough(p) => p.process(x),
            ModifierUnit::Gain(g) => g.process(x),
            ModifierUnit::Delay(d) => d.process(x),
            ModifierUnit::Echo(e) => e.process(x),
            ModifierUnit::Adsr(a) => a.process(x),
            ModifierUnit::Generic(g) => g.process(x),
        }
    }
}

/// The interface a graph node offers: accumulate upstream contributions,
/// then process them into one output sample. Processing always leaves the
/// accumulator silent, so a block never carries input state across sample
/// boundaries.
pub trait Block: Sized {
    /// The block's input accumulator.
    spec fn accum(&self) -> Sample;

    /// Adds the given sample into the input accumulator; contributions from
    /// several upstream edges sum.
    fn prime_input(&mut self, x: Sample)
        ensures
            final(self).accum().v as int == sat_i64(old(self).accum().v + x.v),
    ;

    /// Processes the block, consuming the accumulated input and resetting
    /// the accumulator to silence.
    fn process(&mut self) -> (r: Sample)
        ensures
            final(self).accum() == Sample::spec_zero(),
    ;
}

/// The mathematical state of a [`StandardBlock`].
pub ghost struct BlockModel {
    /// The generator's state.
    pub g: GenUnitModel,
    /// The modifier's state.
    pub m: ModUnitModel,
    /// The combining rule.
    pub i: Interactor,
    /// The input accumulator.
    pub input: Sample,
}

/// What one call of `process` on a block does: the generator produces a
/// sample, the modifier filters the accumulated input, the interactor
/// combines the two, and the accumulator resets to silence.
pub open spec fn block_step(b: BlockModel) -> (BlockModel, Sample) {
    let (g2, gy) = gen_unit_step(b.g);
    let (m2, my) = mod_unit_step(b.m, b.input);
    (
        BlockModel { g: g2, m: m2, i: b.i, input: Sample::spec_zero() },
        interact(b.i, gy, my),
    )
}

/// Priming adds a contribution into a block's accumulator and touches
/// nothing else.
pub open spec fn block_primed(b: BlockModel, x: Sample) -> BlockModel {
    BlockModel { input: Sample { v: sat_i64(b.input.v + x.v) as i64 }, ..b }
}

/// A signal-graph node: one generator, one modifier, an interactor that
/// combines their outputs, and the input accumulator upstream nodes prime.
#[derive(Debug)]
pub struct StandardBlock {
    g: GeneratorUnit,
    m: ModifierUnit,
    i: Interactor,
    input: Sample,
}

impl View for StandardBlock {
    type V = BlockModel;

    closed spec fn view(&self) -> BlockModel {
        BlockModel { g: self.g@, m: self.m@, i: self.i, input: self.input }
    }
}

impl StandardBlock {
    /// Creates a new block from the given generator, modifier and
    /// interactor, with a silent accumulator.
    pub fn new(g: GeneratorUnit, m: ModifierUnit, i: Interactor) -> (r: StandardBlock)
        ensures
            r@ == (BlockModel { g: g@, m: m@, i, input: Sample::spec_zero() }),
    {
        StandardBlock { g, m, i, input: Sample::zero() }
    }

    /// Creates a block whose output is the given generator's sample
    /// unchanged, pairing it with a passthrough modifier.
    pub fn from_generator(g: GeneratorUnit) -> (r: StandardBlock)
        ensures
            r@ == (BlockModel {
                g: g@,
                m: ModUnitModel::Passthrough(Passthrough {  }),
                i: Interactor::GeneratorPassthrough,
                input: Sample::spec_zero(),
            }),
    {
        StandardBlock {
            g,
            m: ModifierUnit::Passthrough(Passthrough::new()),
            i: Interactor::GeneratorPassthrough,
            input: Sample::zero(),
        }
    }

    /// Creates a block whose output is the given modifier's response to the
    /// accumulated input, pairing it with a silent generator.
    pub fn from_modifier(m: ModifierUnit) -> (r: StandardBlock)
        ensures
            r@ == (BlockModel {
                g: GenUnitModel::Zero(Zero {  }),
                m: m@,
                i: Interactor::ModifierPassthrough,
                input: Sample::spec_zero(),
            }),
    {
        StandardBlock {
            g: GeneratorUnit::Zero(Zero::new()),
            m,
            i: Interactor::ModifierPassthrough,
            input: Sample::zero(),
        }
    }

    /// The default interactor: multiplies the generator and modifier
    /// samples together.
    pub fn default_interactor() -> (r: Interactor)
        ensures
            r == Interactor::Multiply,
    {
        Interactor::Multiply
    }

    /// An interactor that passes the generator sample through.
    pub fn generator_passthrough() -> (r: Interactor)
        ensures
            r == Interactor::GeneratorPassthrough,
    {
        Interactor::GeneratorPassthrough
    }

    /// An interactor that passes the modifier sample through.
    pub fn modifier_passthrough() -> (r: Interactor)
        ensures
            r == Interactor::ModifierPassthrough,
    {
        Interactor::ModifierPassthrough
    }

    /// Returns a reference to the block's generator.
    pub fn get_g(&self) -> (r: &GeneratorUnit)
        ensures
            r@ == self@.g,
    {
        &self.g
    }

    /// Returns a reference to the block's modifier.
    pub fn get_m(&self) -> (r: &ModifierUnit)
        ensures
            r@ == self@.m,
    {
        &self.m
    }

    /// Returns a mutable reference to the block's generator.
    pub fn get_g_mut(&mut self) -> (r: &mut GeneratorUnit)
        ensures
            r@ == old(self)@.g,
            final(self)@ == (BlockModel { g: final(r)@, ..old(self)@ }),
    {
        &mut self.g
    }

    /// Returns a mutable reference to the block's modifier.
    pub fn get_m_mut(&mut self) -> (r: &mut ModifierUnit)
        ensures
            r@ == old(self)@.m,
            final(self)@ == (BlockModel { m: final(r)@, ..old(self)@ }),
    {
        &mut self.m
    }
}

impl Block for StandardBlock {
    open spec fn accum(&self) -> Sample {
        self@.input
    }

    fn prime_input(&mut self, x: Sample)
        ensures
            final(self)@ == block_primed(old(self)@, x),
    {
        self.input = self.input.add(x);
    }

    fn process(&mut self) -> (r: Sample)
        ensures
            final(self)@ == block_step(old(self)@).0,
            r == block_step(old(self)@).1,
    {
        let gy = self.g.process();
        let my = self.m.process(self.input);
        let y = match self.i {
            Interactor::Multiply => gy.mul(my),
            Interactor::GeneratorPassthrough => gy,
            Interactor::ModifierPassthrough => my,
        };
        self.input = Sample::zero();
        y
    }
}


/// Zero-accumulator idempotence: processing a block always leaves its
/// accumulator silent, so a second `process` with no priming in between
/// combines the generator's next sample with the modifier's response to
/// silence.
pub proof fn lemma_process_resets_accumulator(b: BlockModel)
    ensures
        block_step(b).0.input == Sample::spec_zero(),
        block_step(block_step(b).0).1 == interact(
            b.i,
            gen_unit_step(block_step(b).0.g).1,
            mod_unit_step(block_step(b).0.m, Sample::spec_zero()).1,
        ),
{
}

} // verus!
