//! # Simple Sound
//!
//! A sound backed by a linear chain: one generator block followed by a
//! sequence of modifier blocks, processed front to back with no order
//! computation. This is the fast path when no branching or merging of the
//! signal is needed.

use vstd::prelude::*;
use crate::sample_format::{Sample, fp_mul};
use crate::standard_block::{StandardBlock, BlockModel, Block, block_step, block_primed};
use crate::complex_sound::blocks_view;
use crate::sounds::Sound;

verus! {

/// The mathematical state of a [`SimpleSound`].
pub ghost struct SimpleSoundModel {
    /// The generator block at the head of the chain.
    pub generator: BlockModel,
    /// The modifier blocks, applied in order.
    pub modifiers: Seq<BlockModel>,
    /// The gain applied to external input before the chain.
    pub input_gain: Sample,
    /// The gain applied to the chain's result.
    pub output_gain: Sample,
    /// The registration id, if the sound is registered with a channel.
    pub id: Option<usize>,
    /// Whether the sound is muted.
    pub is_muted: bool,
    /// Whether the sound is paused.
    pub is_paused: bool,
}

/// Runs the first `k` modifier blocks of the chain on the running sample
/// `x`: each block is primed with the previous block's output and then
/// processed.
pub open spec fn chain_fold(mods: Seq<BlockModel>, x: Sample, k: nat) -> (Seq<BlockModel>, Sample)
    decreases k,
{
    if k == 0 {
        (mods, x)
    } else {
        let prev = chain_fold(mods, x, (k - 1) as nat);
        let primed = block_primed(prev.0[k - 1], prev.1);
        let (b2, y) = block_step(primed);
        (prev.0.update(k - 1, b2), y)
    }
}

/// What one call of `process` on a simple sound does: a paused sound is
/// untouched and yields silence; otherwise the input-gain-scaled input
/// primes the generator block, the chain runs front to back, and the
/// output gain scales the result — silenced if the sound is muted.
pub open spec fn simple_step(m: SimpleSoundModel, input: Sample) -> (SimpleSoundModel, Sample) {
    if m.is_paused {
        (m, Sample::spec_zero())
    } else {
        let gin = Sample { v: fp_mul(input.v as int, m.input_gain.v as int) as i64 };
        let (g2, gy) = block_step(block_primed(m.generator, gin));
        let (mods2, out) = chain_fold(m.modifiers, gy, m.modifiers.len());
        (
            SimpleSoundModel { generator: g2, modifiers: mods2, ..m },
            if m.is_muted {
                Sample::spec_zero()
            } else {
                Sample { v: fp_mul(out.v as int, m.output_gain.v as int) as i64 }
            },
        )
    }
}

/// A sound made of one generator block and a series of modifier blocks.
#[derive(Debug)]
pub struct SimpleSound {
    generator: StandardBlock,
    modifier_list: Vec<StandardBlock>,
    input_gain: Sample,
    output_gain: Sample,
    id: Option<usize>,
    is_muted: bool,
    is_paused: bool,
}

impl View for SimpleSound {
    type V = SimpleSoundModel;

    closed spec fn view(&self) -> SimpleSoundModel {
        SimpleSoundModel {
            generator: self.generator@,
            modifiers: blocks_view(self.modifier_list@),
            input_gain: self.input_gain,
            output_gain: self.output_gain,
            id: self.id,
            is_muted: self.is_muted,
            is_paused: self.is_paused,
        }
    }
}

impl SimpleSound {
    /// Constructs a new simple sound around the given generator block, with
    /// an empty modifier chain.
    pub fn new(input_gain: Sample, output_gain: Sample, generator: StandardBlock) -> (r:
        SimpleSound)
        ensures
            r@ == (SimpleSoundModel {
                generator: generator@,
                modifiers: Seq::<BlockModel>::empty(),
                input_gain,
                output_gain,
                id: None,
                is_muted: false,
                is_paused: false,
            }),
    {
        let r = SimpleSound {
            generator,
            modifier_list: Vec::new(),
            input_gain,
            output_gain,
            id: None,
            is_muted: false,
            is_paused: false,
        };
        proof {
            assert(blocks_view(r.modifier_list@) =~= Seq::<BlockModel>::empty());
        }
        r
    }

    /// Appends a single modifier block to the chain.
    pub fn add_modifier(&mut self, m: StandardBlock)
        ensures
            final(self)@ == (SimpleSoundModel {
                modifiers: old(self)@.modifiers.push(m@),
                ..old(self)@
            }),
    {
        let ghost oldlist = self.modifier_list@;
        self.modifier_list.push(m);
        proof {
            assert(blocks_view(self.modifier_list@) =~= blocks_view(oldlist).push(m@));
        }
    }

    /// Appends every block of the given list to the chain, in order.
    pub fn extend_modifiers(&mut self, m_list: Vec<StandardBlock>)
        ensures
            final(self)@ == (SimpleSoundModel {
                modifiers: old(self)@.modifiers + blocks_view(m_list@),
                ..old(self)@
            }),
    {
        let ghost oldlist = self.modifier_list@;
        let mut m_list = m_list;
        let ghost addlist = m_list@;
        self.modifier_list.append(&mut m_list);
        proof {
            assert(blocks_view(self.modifier_list@) =~= blocks_view(oldlist) + blocks_view(
                addlist,
            ));
        }
    }

    /// Returns the gain applied to external input before the chain.
    pub fn get_input_gain(&self) -> (r: Sample)
        ensures
            r == self@.input_gain,
    {
        self.input_gain
    }

    /// Returns the gain applied to the chain's result.
    pub fn get_output_gain(&self) -> (r: Sample)
        ensures
            r == self@.output_gain,
    {
        self.output_gain
    }

    /// Sets the gain applied to external input before the chain.
    pub fn set_input_gain(&mut self, g: Sample)
        ensures
            final(self)@ == (SimpleSoundModel { input_gain: g, ..old(self)@ }),
    {
        self.input_gain = g;
    }

    /// Sets the gain applied to the chain's result.
    pub fn set_output_gain(&mut self, g: Sample)
        ensures
            final(self)@ == (SimpleSoundModel { output_gain: g, ..old(self)@ }),
    {
        self.output_gain = g;
    }
}

impl Sound for SimpleSound {
    open spec fn muted(&self) -> bool {
        self@.is_muted
    }

    open spec fn paused(&self) -> bool {
        self@.is_paused
    }

    open spec fn reg_id(&self) -> Option<usize> {
        self@.id
    }

    fn toggle_pause(&mut self)
        ensures
            final(self)@ == (SimpleSoundModel { is_paused: !old(self)@.is_paused, ..old(self)@ }),
    {
        self.is_paused = !self.is_paused;
    }

    fn is_paused(&self) -> (r: bool)
        ensures
            r == self.paused(),
    {
        self.is_paused
    }

    fn toggle_mute(&mut self)
        ensures
            final(self)@ == (SimpleSoundModel { is_muted: !old(self)@.is_muted, ..old(self)@ }),
    {
        self.is_muted = !self.is_muted;
    }

    fn is_muted(&self) -> (r: bool)
        ensures
            r == self.muted(),
    {
        self.is_muted
    }

    fn register(&mut self, id: usize)
        ensures
            final(self)@ == (SimpleSoundModel { id: Some(id), ..old(self)@ }),
    {
        self.id = Some(id);
    }

    fn unregister(&mut self)
        ensures
            final(self)@ == (SimpleSoundModel { id: None, ..old(self)@ }),
    {
        self.id = None;
    }

    fn get_id(&self) -> (r: Option<usize>)
        ensures
            r == self.reg_id(),
    {
        self.id
    }

    /// Runs the chain once: the gain-scaled input primes the generator
    /// block, each modifier block filters the running sample in turn, and
    /// the output gain scales the result, silenced if the sound is muted.
    fn process(&mut self, input: Sample) -> (out: Sample)
        ensures
            final(self)@ == simple_step(old(self)@, input).0,
            out == simple_step(old(self)@, input).1,
    {
        if self.is_paused {
            return Sample::zero();
        }
        let ghost m0 = self@;
        let gin = input.mul(self.input_gain);
        self.generator.prime_input(gin);
        let mut out = self.generator.process();
        let mut i: usize = 0;
        while i < self.modifier_list.len()
            invariant
                i <= self.modifier_list@.len(),
                self.generator@ == simple_step(m0, input).0.generator,
                self.input_gain == m0.input_gain,
                self.output_gain == m0.output_gain,
                self.id == m0.id,
                self.is_muted == m0.is_muted,
                self.is_paused == m0.is_paused,
                !m0.is_paused,
                self.modifier_list@.len() == m0.modifiers.len(),
                blocks_view(self.modifier_list@) == chain_fold(
                    m0.modifiers,
                    block_step(block_primed(m0.generator, gin)).1,
                    i as nat,
                ).0,
                out == chain_fold(
                    m0.modifiers,
                    block_step(block_primed(m0.generator, gin)).1,
                    i as nat,
                ).1,
            decreases self.modifier_list@.len() - i,
        {
            let ghost raw_before = self.modifier_list@;
            self.modifier_list[i].prime_input(out);
            proof {
                assert(blocks_view(self.modifier_list@) =~= blocks_view(raw_before).update(
                    i as int,
                    self.modifier_list@[i as int]@,
                ));
            }
            let ghost raw_before2 = self.modifier_list@;
            out = self.modifier_list[i].process();
            proof {
                assert(blocks_view(self.modifier_list@) =~= blocks_view(raw_before2).update(
                    i as int,
                    self.modifier_list@[i as int]@,
                ));
            }
            i = i + 1;
        }
        if self.is_muted {
            Sample::zero()
        } else {
            out.mul(self.output_gain)
        }
    }
}

} // verus!
