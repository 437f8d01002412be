//! # Sound Channels
//!
//! The interfaces for mixing a group of registered sounds into a single
//! output track, one batch of samples at a time.

use vstd::prelude::*;
use crate::sample_format::Sample;
use crate::standard_channel::SoundUnit;

verus! {

/// The simplest interface of a channel: configure how many samples one
/// batch covers, process a batch, and read the mixed output track.
pub trait Channel: Sized {
    /// Sets the number of engine samples one call of `process` computes.
    fn set_process_time(&mut self, samples: usize);

    /// Returns a reference to the internal track of mixed samples.
    fn get_output(&self) -> &Vec<Sample>;

    /// Sets the gain applied to the channel's mixed output.
    fn set_gain(&mut self, gain: Sample);

    /// Processes one batch of samples, mixing every registered sound into
    /// the internal output track.
    fn process(&mut self);
}

/// The interface of a channel that owns registrable sounds: sounds enter
/// with a freshly issued id and leave by that id.
pub trait SoundChannel: Sized {
    /// Whether the channel can still issue a fresh registration id.
    spec fn can_issue(&self) -> bool;

    /// Adds a sound to the channel for processing, registering it under a
    /// freshly issued id, which is returned. A sound that already carries a
    /// registration id is re-registering: any entry still held under that
    /// id is dropped first, so no dangling prior registration remains.
    fn add_sound(&mut self, sound: SoundUnit) -> usize
        requires
            old(self).can_issue(),
    ;

    /// Removes the sound registered under the given id and returns it;
    /// removing an unknown id is a no-op yielding `None`.
    fn remove_sound(&mut self, id: usize) -> Option<SoundUnit>;
}

} // verus!
