//! # Generators
//!
//! Sources of sound: each produces one sample per call with no input,
//! advancing only its own internal state.

use vstd::prelude::*;
use crate::sample_format::Sample;
use crate::mono_resampler::{MonoResampler, ResamplerModel, IDX_ONE};

verus! {

/// The interface every sound source implements: one sample out per call,
/// exactly once per engine sample.
pub trait Generator: Sized {
    /// Produces the next sample, advancing the generator's internal state.
    fn process(&mut self) -> Sample;
}

/// A generator that produces silence.
#[derive(Clone, Copy, PartialEq, Eq, Structural, Debug)]
pub struct Zero {}

impl Zero {
    /// Returns a new Zero generator.
    pub fn new() -> (r: Zero)
        ensures
            r == (Zero {  }),
    {
        Zero {  }
    }
}

impl Generator for Zero {
    fn process(&mut self) -> (r: Sample)
        ensures
            r == Sample::spec_zero(),
            *final(self) == *old(self),
    {
        Sample::zero()
    }
}

/// A generator that does nothing: like [`Zero`], it produces silence.
#[derive(Clone, Copy, PartialEq, Eq, Structural, Debug)]
pub struct Empty {}

impl Empty {
    /// Returns a new Empty generator.
    pub fn new() -> (r: Empty)
        ensures
            r == (Empty {  }),
    {
        Empty {  }
    }
}

impl Generator for Empty {
    fn process(&mut self) -> (r: Sample)
        ensures
            r == Sample::spec_zero(),
            *final(self) == *old(self),
    {
        Sample::zero()
    }
}

/// A recorded-track player: a generator that reads a monophonic track
/// through a [`MonoResampler`], so a recording at any source rate plays at
/// the engine's rate.
#[derive(Debug)]
pub struct MonoWav {
    resam: MonoResampler,
}

impl View for MonoWav {
    type V = ResamplerModel;

    closed spec fn view(&self) -> ResamplerModel {
        self.resam@
    }
}

impl MonoWav {
    /// Builds a player from a recorded track: `sample_rate` is the engine's
    /// rate and `source_sampling_rate` the rate the track was recorded at.
    pub fn from_track(sample_rate: u32, source_sampling_rate: u32, t: Vec<Sample>) -> (r: MonoWav)
        requires
            sample_rate > 0,
            t@.len() < IDX_ONE,
        ensures
            r@.data == t@,
            r@.ind == 0,
            r@.speed == IDX_ONE,
            r@.inc == source_sampling_rate as int * IDX_ONE as int / sample_rate as int,
            r@.loop_start == 0,
            r@.loop_end == 0,
    {
        MonoWav { resam: MonoResampler::new(t, sample_rate, source_sampling_rate, 0, 0) }
    }

    /// Borrows the resampler object.
    pub fn get(&self) -> (r: &MonoResampler)
        ensures
            r@ == self@,
    {
        &self.resam
    }

    /// Mutably borrows the resampler object.
    pub fn get_mut(&mut self) -> (r: &mut MonoResampler)
        ensures
            r@ == old(self)@,
            final(self)@ == final(r)@,
    {
        &mut self.resam
    }
}

impl Generator for MonoWav {
    fn process(&mut self) -> (r: Sample)
        ensures
            r == old(self)@.output(),
            final(self)@ == old(self)@.stepped(),
    {
        self.resam.process()
    }
}

} // verus!
