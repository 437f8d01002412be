//! # Sounds
//!
//! The interface of everything that produces sound for a channel: a
//! registrable, pausable and mutable unit that yields one sample per call.

use vstd::prelude::*;
use crate::sample_format::Sample;

verus! {

/// The interface anything producing sound for a channel implements.
///
/// Pausing freezes the unit: a paused sound's `process` returns silence and
/// advances no internal state at all. Muting only silences the output: a
/// muted sound still processes (and so advances) its internals, which keeps
/// filters and envelopes in time for a click-free unmute.
pub trait Sound: Sized {
    /// Whether the sound is muted.
    spec fn muted(&self) -> bool;

    /// Whether the sound is paused.
    spec fn paused(&self) -> bool;

    /// The registration id the sound holds, if any.
    spec fn reg_id(&self) -> Option<usize>;

    /// Toggles the pause state of the sound.
    fn toggle_pause(&mut self)
        ensures
            final(self).paused() == !old(self).paused(),
            final(self).muted() == old(self).muted(),
            final(self).reg_id() == old(self).reg_id(),
    ;

    /// Returns the pause state of the sound.
    fn is_paused(&self) -> (r: bool)
        ensures
            r == self.paused(),
    ;

    /// Toggles the mute state of the sound.
    fn toggle_mute(&mut self)
        ensures
            final(self).muted() == !old(self).muted(),
            final(self).paused() == old(self).paused(),
            final(self).reg_id() == old(self).reg_id(),
    ;

    /// Returns the mute state of the sound.
    fn is_muted(&self) -> (r: bool)
        ensures
            r == self.muted(),
    ;

    /// Processes the sound and its internal structures, returning the
    /// resulting audio sample.
    ///
    /// A paused sound returns silence and is left exactly as it was; a
    /// muted sound processes its internals as usual but returns silence.
    fn process(&mut self, input: Sample) -> (out: Sample)
        ensures
            old(self).paused() ==> out == Sample::spec_zero() && *final(self) == *old(self),
            old(self).muted() ==> out == Sample::spec_zero(),
            final(self).muted() == old(self).muted(),
            final(self).paused() == old(self).paused(),
            final(self).reg_id() == old(self).reg_id(),
    ;

    /// Sets the sound as registered under the given id. Registration should
    /// go through a channel's `add_sound`, which issues the id.
    fn register(&mut self, id: usize)
        ensures
            final(self).reg_id() == Some(id),
            final(self).muted() == old(self).muted(),
            final(self).paused() == old(self).paused(),
    ;

    /// Clears the sound's registration. Deregistration should go through a
    /// channel's `remove_sound`.
    fn unregister(&mut self)
        ensures
            final(self).reg_id() == None::<usize>,
            final(self).muted() == old(self).muted(),
            final(self).paused() == old(self).paused(),
    ;

    /// Returns the id given to the sound during registration with a
    /// channel, or `None` if the sound is unregistered.
    fn get_id(&self) -> (r: Option<usize>)
        ensures
            r == self.reg_id(),
    ;
}

} // verus!
