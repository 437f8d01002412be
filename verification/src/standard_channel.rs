//! # Standard Channel
//!
//! The standard mixing channel: it owns a set of registered sounds keyed by
//! ids it issues itself, and one call of `process` mixes every sound's
//! per-sample output into a gain-staged output track.
//!
//! Ids grow monotonically and are never reused for the lifetime of the
//! channel, so every registered sound holds a distinct id.

use vstd::prelude::*;
use crate::sample_format::{Sample, sat_i64, fp_mul};
use crate::sounds::Sound;
use crate::simple_sound::{SimpleSound, SimpleSoundModel, simple_step};
use crate::complex_sound::{ComplexSound, ComplexSoundModel, sound_step, lemma_sound_step_wf};
use crate::channels::{Channel, SoundChannel};

verus! {

/// A sound a channel can own: either chain-backed or graph-backed.
#[derive(Debug)]
pub enum SoundUnit {
    /// A linear-chain sound.
    Simple(SimpleSound),
    /// A graph-backed sound.
    Complex(ComplexSound),
}

/// The mathematical state of a [`SoundUnit`].
pub ghost enum SoundUnitModel {
    /// A linear-chain sound.
    Simple(SimpleSoundModel),
    /// A graph-backed sound.
    Complex(ComplexSoundModel),
}

impl View for SoundUnit {
    type V = SoundUnitModel;

    open spec fn view(&self) -> SoundUnitModel {
        match self {
            SoundUnit::Simple(s) => SoundUnitModel::Simple(s@),
            SoundUnit::Complex(c) => SoundUnitModel::Complex(c@),
        }
    }
}

/// Whether a sound is well formed: chain-backed sounds always are, and a
/// graph-backed sound is well formed when its graph is.
pub open spec fn sound_unit_wf(s: SoundUnitModel) -> bool {
    match s {
        SoundUnitModel::Simple(m) => true,
        SoundUnitModel::Complex(c) => c.wf(),
    }
}

/// The mute flag of a sound.
pub open spec fn sound_unit_muted(s: SoundUnitModel) -> bool {
    match s {
        SoundUnitModel::Simple(m) => m.is_muted,
        SoundUnitModel::Complex(c) => c.is_muted,
    }
}

/// The pause flag of a sound.
pub open spec fn sound_unit_paused(s: SoundUnitModel) -> bool {
    match s {
        SoundUnitModel::Simple(m) => m.is_paused,
        SoundUnitModel::Complex(c) => c.is_paused,
    }
}

/// The registration id of a sound.
pub open spec fn sound_unit_id(s: SoundUnitModel) -> Option<usize> {
    match s {
        SoundUnitModel::Simple(m) => m.id,
        SoundUnitModel::Complex(c) => c.id,
    }
}

/// What one call of `process` does to a sound of either kind.
pub open spec fn sound_unit_step(s: SoundUnitModel, input: Sample) -> (SoundUnitModel, Sample) {
    match s {
        SoundUnitModel::Simple(m) => {
            let (m2, y) = simple_step(m, input);
            (SoundUnitModel::Simple(m2), y)
        },
        SoundUnitModel::Complex(c) => {
            let (c2, y) = sound_step(c, input);
            (SoundUnitModel::Complex(c2), y)
        },
    }
}

/// A sound registered under the given id.
pub open spec fn sound_unit_registered(s: SoundUnitModel, id: usize) -> SoundUnitModel {
    match s {
        SoundUnitModel::Simple(m) => SoundUnitModel::Simple(
            SimpleSoundModel { id: Some(id), ..m },
        ),
        SoundUnitModel::Complex(c) => SoundUnitModel::Complex(
            ComplexSoundModel { id: Some(id), ..c },
        ),
    }
}

/// Processing a well-formed sound leaves it well formed.
pub proof fn lemma_sound_unit_step_wf(s: SoundUnitModel, input: Sample)
    requires
        sound_unit_wf(s),
    ensures
        sound_unit_wf(sound_unit_step(s, input).0),
{
    match s {
        SoundUnitModel::Simple(m) => {
        },
        SoundUnitModel::Complex(c) => {
            lemma_sound_step_wf(c, input);
        },
    }
}

impl Sound for SoundUnit {
    open spec fn muted(&self) -> bool {
        sound_unit_muted(self@)
    }

    open spec fn paused(&self) -> bool {
        sound_unit_paused(self@)
    }

    open spec fn reg_id(&self) -> Option<usize> {
        sound_unit_id(self@)
    }

    fn toggle_pause(&mut self)
        ensures
            final(self).paused() == !old(self).paused(),
            final(self).muted() == old(self).muted(),
            final(self).reg_id() == old(self).reg_id(),
            sound_unit_wf(old(self)@) ==> sound_unit_wf(final(self)@),
    {
        match self {
            SoundUnit::Simple(s) => s.toggle_pause(),
            SoundUnit::Complex(c) => c.toggle_pause(),
        }
    }

    fn is_paused(&self) -> (r: bool)
        ensures
            r == self.paused(),
    {
        match self {
            SoundUnit::Simple(s) => s.is_paused(),
            SoundUnit::Complex(c) => c.is_paused(),
        }
    }

    fn toggle_mute(&mut self)
        ensures
            final(self).muted() == !old(self).muted(),
            final(self).paused() == old(self).paused(),
            final(self).reg_id() == old(self).reg_id(),
            sound_unit_wf(old(self)@) ==> sound_unit_wf(final(self)@),
    {
        match self {
            SoundUnit::Simple(s) => s.toggle_mute(),
            SoundUnit::Complex(c) => c.toggle_mute(),
        }
    }

    fn is_muted(&self) -> (r: bool)
        ensures
            r == self.muted(),
    {
        match self {
            SoundUnit::Simple(s) => s.is_muted(),
            SoundUnit::Complex(c) => c.is_muted(),
        }
    }

    fn register(&mut self, id: usize)
        ensures
            final(self)@ == sound_unit_registered(old(self)@, id),
            sound_unit_wf(old(self)@) ==> sound_unit_wf(final(self)@),
    {
        match self {
            SoundUnit::Simple(s) => s.register(id),
            SoundUnit::Complex(c) => c.register(id),
        }
    }

    fn unregister(&mut self)
        ensures
            final(self).reg_id() == None::<usize>,
            final(self).muted() == old(self).muted(),
            final(self).paused() == old(self).paused(),
            sound_unit_wf(old(self)@) ==> sound_unit_wf(final(self)@),
    {
        match self {
            SoundUnit::Simple(s) => s.unregister(),
            SoundUnit::Complex(c) => c.unregister(),
        }
    }

    fn get_id(&self) -> (r: Option<usize>)
        ensures
            r == self.reg_id(),
    {
        match self {
            SoundUnit::Simple(s) => s.get_id(),
            SoundUnit::Complex(c) => c.get_id(),
        }
    }

    fn process(&mut self, input: Sample) -> (out: Sample)
        ensures
            sound_unit_wf(old(self)@) ==> final(self)@ == sound_unit_step(old(self)@, input).0,
            sound_unit_wf(old(self)@) ==> out == sound_unit_step(old(self)@, input).1,
    {
        match self {
            SoundUnit::Simple(s) => s.process(input),
            SoundUnit::Complex(c) => c.process(input),
        }
    }
}

/// The mathematical state of a [`StandardChannel`]: the mixed output
/// track, the registered sounds with their ids in registration order, the
/// channel gain, the id counter and the configured batch length.
pub ghost struct ChannelModel {
    /// The mixed output track of the last processed batch.
    pub output: Seq<Sample>,
    /// The registered sounds, each under the id it was issued.
    pub sounds: Seq<(usize, SoundUnitModel)>,
    /// The gain applied to the mixed output.
    pub gain: Sample,
    /// The next id to issue; ids are never reused.
    pub id_counter: usize,
    /// How many samples one `process` call computes.
    pub process_samples: usize,
}

impl ChannelModel {
    /// The channel is well formed: every registered id was issued by the
    /// counter, no id repeats, and every registered sound is well formed.
    pub open spec fn wf(self) -> bool {
        &&& forall|i: int|
            0 <= i < self.sounds.len() ==> (#[trigger] self.sounds[i]).0 < self.id_counter
        &&& forall|i: int, j: int|
            0 <= i < j < self.sounds.len() ==> self.sounds[i].0 != self.sounds[j].0
        &&& forall|i: int|
            0 <= i < self.sounds.len() ==> sound_unit_wf((#[trigger] self.sounds[i]).1)
    }
}

/// Mixes one engine sample from the first `k` registered sounds: each
/// sound processes a silent input and the outputs sum in registration
/// order.
pub open spec fn mix_fold(sounds: Seq<(usize, SoundUnitModel)>, k: nat) -> (
    Seq<(usize, SoundUnitModel)>,
    Sample,
)
    decreases k,
{
    if k == 0 {
        (sounds, Sample::spec_zero())
    } else {
        let prev = mix_fold(sounds, (k - 1) as nat);
        let (s2, y) = sound_unit_step(prev.0[k - 1].1, Sample::spec_zero());
        (
            prev.0.update(k - 1, (prev.0[k - 1].0, s2)),
            Sample { v: sat_i64(prev.1.v + y.v) as i64 },
        )
    }
}

/// Mixing preserves the sounds' ids and count and their well-formedness.
pub proof fn lemma_mix_fold_wf(sounds: Seq<(usize, SoundUnitModel)>, k: nat)
    requires
        k <= sounds.len(),
        forall|i: int| 0 <= i < sounds.len() ==> sound_unit_wf((#[trigger] sounds[i]).1),
    ensures
        mix_fold(sounds, k).0.len() == sounds.len(),
        forall|i: int|
            0 <= i < sounds.len() ==> (#[trigger] mix_fold(sounds, k).0[i]).0 == sounds[i].0,
        forall|i: int|
            0 <= i < sounds.len() ==> sound_unit_wf((#[trigger] mix_fold(sounds, k).0[i]).1),
    decreases k,
{
    if k > 0 {
        lemma_mix_fold_wf(sounds, (k - 1) as nat);
        let prev = mix_fold(sounds, (k - 1) as nat);
        lemma_sound_unit_step_wf(prev.0[k - 1].1, Sample::spec_zero());
    }
}

/// Computes the first `n` samples of a batch: each sample is the mix of
/// every registered sound's output, scaled by the channel gain.
pub open spec fn channel_run(sounds: Seq<(usize, SoundUnitModel)>, gain: Sample, n: nat) -> (
    Seq<(usize, SoundUnitModel)>,
    Seq<Sample>,
)
    decreases n,
{
    if n == 0 {
        (sounds, Seq::empty())
    } else {
        let prev = channel_run(sounds, gain, (n - 1) as nat);
        let m = mix_fold(prev.0, prev.0.len());
        (m.0, prev.1.push(Sample { v: fp_mul(m.1.v as int, gain.v as int) as i64 }))
    }
}

/// A whole batch preserves the sounds' ids and count and their
/// well-formedness.
pub proof fn lemma_channel_run_wf(sounds: Seq<(usize, SoundUnitModel)>, gain: Sample, n: nat)
    requires
        forall|i: int| 0 <= i < sounds.len() ==> sound_unit_wf((#[trigger] sounds[i]).1),
    ensures
        channel_run(sounds, gain, n).0.len() == sounds.len(),
        forall|i: int|
            0 <= i < sounds.len() ==> (#[trigger] channel_run(sounds, gain, n).0[i]).0
                == sounds[i].0,
        forall|i: int|
            0 <= i < sounds.len() ==> sound_unit_wf(
                (#[trigger] channel_run(sounds, gain, n).0[i]).1,
            ),
    decreases n,
{
    if n > 0 {
        lemma_channel_run_wf(sounds, gain, (n - 1) as nat);
        lemma_mix_fold_wf(
            channel_run(sounds, gain, (n - 1) as nat).0,
            channel_run(sounds, gain, (n - 1) as nat).0.len(),
        );
    }
}

/// The first index at which a sound is registered under `id`, or -1 when
/// no sound is.
pub open spec fn find_id(sounds: Seq<(usize, SoundUnitModel)>, id: usize) -> int
    decreases sounds.len(),
{
    if sounds.len() == 0 {
        -1
    } else if sounds[0].0 == id {
        0
    } else {
        let r = find_id(sounds.drop_first(), id);
        if r < 0 {
            -1
        } else {
            r + 1
        }
    }
}

/// What `find_id` finds: a valid index holding `id`, or the assurance
/// that no entry holds `id`.
pub proof fn lemma_find_id(sounds: Seq<(usize, SoundUnitModel)>, id: usize)
    ensures
        find_id(sounds, id) >= 0 ==> 0 <= find_id(sounds, id) < sounds.len() && sounds[find_id(
            sounds,
            id,
        )].0 == id,
        find_id(sounds, id) < 0 ==> forall|i: int|
            0 <= i < sounds.len() ==> (#[trigger] sounds[i]).0 != id,
    decreases sounds.len(),
{
    if sounds.len() > 0 && sounds[0].0 != id {
        lemma_find_id(sounds.drop_first(), id);
        let r = find_id(sounds.drop_first(), id);
        if r >= 0 {
            assert(sounds[r + 1] == sounds.drop_first()[r]);
        } else {
            assert forall|i: int| 0 <= i < sounds.len() implies (#[trigger] sounds[i]).0
                != id by {
                if i > 0 {
                    assert(sounds.drop_first()[i - 1] == sounds[i]);
                }
            }
        }
    }
}

/// The registered sounds once any stale entry is dropped: when a sound
/// joining the channel still carries a registration id, the entry holding
/// that id leaves the map first, so no dangling prior registration
/// remains.
pub open spec fn drop_stale(sounds: Seq<(usize, SoundUnitModel)>, id: Option<usize>) -> Seq<
    (usize, SoundUnitModel),
> {
    match id {
        Some(k) => if find_id(sounds, k) >= 0 {
            sounds.remove(find_id(sounds, k))
        } else {
            sounds
        },
        None => sounds,
    }
}

/// The views of a sequence of id/sound pairs.
pub open spec fn sounds_view(s: Seq<(usize, SoundUnit)>) -> Seq<(usize, SoundUnitModel)> {
    s.map_values(|p: (usize, SoundUnit)| (p.0, p.1@))
}

/// The standard implementation of [`Channel`] and [`SoundChannel`]: owned
/// sounds mixed into a monophonic output track.
#[derive(Debug)]
pub struct StandardChannel {
    output: Vec<Sample>,
    sounds: Vec<(usize, SoundUnit)>,
    gain: Sample,
    id_counter: usize,
    process_samples: usize,
}

impl View for StandardChannel {
    type V = ChannelModel;

    closed spec fn view(&self) -> ChannelModel {
        ChannelModel {
            output: self.output@,
            sounds: sounds_view(self.sounds@),
            gain: self.gain,
            id_counter: self.id_counter,
            process_samples: self.process_samples,
        }
    }
}

impl StandardChannel {
    /// Creates a new channel with the given gain, no registered sounds and
    /// an empty output track.
    pub fn new(gain: Sample) -> (r: StandardChannel)
        ensures
            r@.wf(),
            r@.output.len() == 0,
            r@.sounds.len() == 0,
            r@.gain == gain,
            r@.id_counter == 0,
            r@.process_samples == 0,
    {
        let r = StandardChannel {
            output: Vec::new(),
            sounds: Vec::new(),
            gain,
            id_counter: 0,
            process_samples: 0,
        };
        proof {
            assert(sounds_view(r.sounds@) =~= Seq::<(usize, SoundUnitModel)>::empty());
        }
        r
    }
}

impl Channel for StandardChannel {
    fn set_process_time(&mut self, samples: usize)
        ensures
            final(self)@ == (ChannelModel { process_samples: samples, ..old(self)@ }),
    {
        self.process_samples = samples;
    }

    fn get_output(&self) -> (r: &Vec<Sample>)
        ensures
            r@ == self@.output,
    {
        &self.output
    }

    fn set_gain(&mut self, gain: Sample)
        ensures
            final(self)@ == (ChannelModel { gain, ..old(self)@ }),
    {
        self.gain = gain;
    }

    /// Computes one batch: for each of the configured number of samples,
    /// every registered sound processes a silent input, the outputs sum in
    /// registration order, and the gain-scaled mix is appended to the fresh
    /// output track.
    #[verifier::loop_isolation(false)]
    #[verifier::rlimit(60)]
    fn process(&mut self)
        ensures
            old(self)@.wf() ==> final(self)@ == (ChannelModel {
                output: channel_run(
                    old(self)@.sounds,
                    old(self)@.gain,
                    old(self)@.process_samples as nat,
                ).1,
                sounds: channel_run(
                    old(self)@.sounds,
                    old(self)@.gain,
                    old(self)@.process_samples as nat,
                ).0,
                ..old(self)@
            }),
            old(self)@.wf() ==> final(self)@.wf(),
    {
        let ghost m0 = self@;
        self.output.clear();
        let n = self.process_samples;
        let mut s: usize = 0;
        while s < n
            invariant
                s <= n,
                n == m0.process_samples,
                self.gain == m0.gain,
                self.id_counter == m0.id_counter,
                self.process_samples == m0.process_samples,
                self.sounds@.len() == m0.sounds.len(),
                m0.wf() ==> sounds_view(self.sounds@) == channel_run(
                    m0.sounds,
                    m0.gain,
                    s as nat,
                ).0,
                m0.wf() ==> self.output@ == channel_run(m0.sounds, m0.gain, s as nat).1,
                m0.wf() ==> forall|i: int|
                    0 <= i < self.sounds@.len() ==> sound_unit_wf(
                        (#[trigger] sounds_view(self.sounds@)[i]).1,
                    ),
            decreases n - s,
        {
            proof {
                if m0.wf() {
                    lemma_channel_run_wf(m0.sounds, m0.gain, s as nat);
                }
            }
            let ghost sounds_at = sounds_view(self.sounds@);
            proof {
                if m0.wf() {
                    lemma_channel_run_wf(m0.sounds, m0.gain, s as nat);
                }
            }
            let ghost out_at = self.output@;
            let mut acc = Sample::zero();
            let mut j: usize = 0;
            while j < self.sounds.len()
                invariant
                    j <= self.sounds@.len(),
                    self.output@ == out_at,
                    self.gain == m0.gain,
                    self.id_counter == m0.id_counter,
                    self.process_samples == m0.process_samples,
                    self.sounds@.len() == sounds_at.len(),
                    m0.wf() ==> sounds_view(self.sounds@) == mix_fold(sounds_at, j as nat).0,
                    m0.wf() ==> acc == mix_fold(sounds_at, j as nat).1,
                decreases self.sounds@.len() - j,
            {
                proof {
                    if m0.wf() {
                        lemma_mix_fold_wf(sounds_at, j as nat);
                    }
                }
                let ghost raw_before = self.sounds@;
                let y = self.sounds[j].1.process(Sample::zero());
                proof {
                    assert(self.sounds@[j as int].0 == raw_before[j as int].0);
                    if m0.wf() {
                        assert(sounds_view(self.sounds@) =~= sounds_view(raw_before).update(
                            j as int,
                            (raw_before[j as int].0, self.sounds@[j as int].1@),
                        ));
                    }
                }
                acc = acc.add(y);
                j = j + 1;
            }
            let pushed = acc.mul(self.gain);
            proof {
                if m0.wf() {
                    let prev = channel_run(m0.sounds, m0.gain, s as nat);
                    let m = mix_fold(prev.0, prev.0.len());
                    assert(pushed.v as int == fp_mul(m.1.v as int, m0.gain.v as int));
                    assert(pushed == (Sample { v: fp_mul(m.1.v as int, m0.gain.v as int) as i64 }));
                }
            }
            let ghost out_before = self.output@;
            self.output.push(pushed);
            proof {
                if m0.wf() {
                    lemma_mix_fold_wf(sounds_at, sounds_at.len());
                    let prev = channel_run(m0.sounds, m0.gain, s as nat);
                    let m = mix_fold(prev.0, prev.0.len());
                    assert(out_before == prev.1);
                    assert(self.output@ == out_before.push(pushed));
                    assert(channel_run(m0.sounds, m0.gain, s as nat + 1).1 == prev.1.push(
                        Sample { v: fp_mul(m.1.v as int, m0.gain.v as int) as i64 },
                    ));
                    assert(self.output@ =~= channel_run(m0.sounds, m0.gain, s as nat + 1).1);
                }
            }
            s = s + 1;
        }
        proof {
            if m0.wf() {
                lemma_channel_run_wf(m0.sounds, m0.gain, n as nat);
            }
        }
    }
}

impl SoundChannel for StandardChannel {
    open spec fn can_issue(&self) -> bool {
        self@.id_counter < usize::MAX
    }

    /// Registers the sound under a freshly issued id, appends it and
    /// returns the id. A sound that still carries a registration id is
    /// re-registering: the stale entry under that id is dropped first, so
    /// the sound ends registered under exactly one id and no dangling
    /// prior registration remains. A fresh id is distinct from every id
    /// ever issued, so all registered ids stay distinct.
    fn add_sound(&mut self, sound: SoundUnit) -> (r: usize)
        ensures
            r == old(self)@.id_counter,
            old(self)@.wf() ==> final(self)@ == (ChannelModel {
                sounds: drop_stale(old(self)@.sounds, sound_unit_id(sound@)).push(
                    (r, sound_unit_registered(sound@, r)),
                ),
                id_counter: (old(self)@.id_counter + 1) as usize,
                ..old(self)@
            }),
            old(self)@.wf() ==> forall|i: int|
                0 <= i < old(self)@.sounds.len() ==> (#[trigger] old(self)@.sounds[i]).0 != r,
            old(self)@.wf() && sound_unit_wf(sound@) ==> final(self)@.wf(),
    {
        let mut sound = sound;
        match sound.get_id() {
            Some(stale) => {
                let _ = self.remove_sound(stale);
            },
            None => {},
        }
        let ghost mid = self@;
        let id = self.id_counter;
        self.id_counter = self.id_counter + 1;
        sound.register(id);
        let ghost regd = sound@;
        let ghost raw_before = self.sounds@;
        self.sounds.push((id, sound));
        proof {
            assert(sounds_view(self.sounds@) =~= sounds_view(raw_before).push((id, regd)));
            if old(self)@.wf() {
                assert(mid.wf());
                assert(mid.id_counter == id);
                let snds = final(self)@.sounds;
                assert(snds =~= mid.sounds.push((id, regd)));
                assert forall|i: int|
                    0 <= i < snds.len() implies (#[trigger] snds[i]).0 < final(self)@.id_counter by {
                    if i < mid.sounds.len() {
                        assert(mid.sounds[i].0 < mid.id_counter);
                    }
                }
                assert forall|i: int, j: int|
                    0 <= i < j < snds.len() implies snds[i].0 != snds[j].0 by {
                    if j == snds.len() - 1 {
                        assert(mid.sounds[i].0 < mid.id_counter);
                    }
                }
            }
        }
        id
    }

    /// Removes and returns the sound registered under `id`, or `None` when
    /// no sound holds that id.
    fn remove_sound(&mut self, id: usize) -> (r: Option<SoundUnit>)
        ensures
            final(self)@.id_counter == old(self)@.id_counter,
            final(self)@.gain == old(self)@.gain,
            final(self)@.output == old(self)@.output,
            final(self)@.process_samples == old(self)@.process_samples,
            old(self)@.wf() ==> {
                let k = find_id(old(self)@.sounds, id);
                if k >= 0 {
                    &&& r.is_some()
                    &&& r->0@ == old(self)@.sounds[k].1
                    &&& final(self)@ == (ChannelModel {
                        sounds: old(self)@.sounds.remove(k),
                        ..old(self)@
                    })
                } else {
                    &&& r.is_none()
                    &&& *final(self) == *old(self)
                }
            },
            old(self)@.wf() ==> final(self)@.wf(),
    {
        proof {
            lemma_find_id(self@.sounds, id);
        }
        let mut j: usize = 0;
        let mut hit: usize = self.sounds.len();
        while j < self.sounds.len()
            invariant
                j <= self.sounds@.len(),
                hit <= self.sounds@.len(),
                hit == self.sounds@.len() ==> forall|i: int|
                    0 <= i < j ==> (#[trigger] self.sounds@[i]).0 != id,
                hit < self.sounds@.len() ==> self.sounds@[hit as int].0 == id && (forall|i: int|
                    0 <= i < hit ==> (#[trigger] self.sounds@[i]).0 != id),
                hit < self.sounds@.len() ==> hit < j || hit == j,
            decreases self.sounds@.len() - j,
        {
            if hit == self.sounds.len() && self.sounds[j].0 == id {
                hit = j;
            }
            j = j + 1;
        }
        if hit < self.sounds.len() {
            proof {
                lemma_find_id_first(self@.sounds, id, hit as int);
            }
            let ghost raw_before = self.sounds@;
            let (_, sound) = self.sounds.remove(hit);
            proof {
                assert(sounds_view(self.sounds@) =~= sounds_view(raw_before).remove(hit as int));
            }
            Some(sound)
        } else {
            proof {
                if find_id(self@.sounds, id) >= 0 {
                    assert(self@.sounds[find_id(self@.sounds, id)].0 == id);
                    assert(false);
                }
            }
            None
        }
    }
}

/// `find_id` finds exactly the first index holding `id`.
proof fn lemma_find_id_first(sounds: Seq<(usize, SoundUnitModel)>, id: usize, k: int)
    requires
        0 <= k < sounds.len(),
        sounds[k].0 == id,
        forall|i: int| 0 <= i < k ==> (#[trigger] sounds[i]).0 != id,
    ensures
        find_id(sounds, id) == k,
    decreases sounds.len(),
{
    if sounds[0].0 != id {
        assert(sounds.drop_first()[k - 1].0 == id);
        lemma_find_id_first(sounds.drop_first(), id, k - 1);
    }
}


/// Registration uniqueness: in a well-formed channel every live id was
/// issued by the channel's own counter and no two registered sounds share
/// an id.
pub proof fn lemma_registration_uniqueness(m: ChannelModel)
    requires
        m.wf(),
    ensures
        forall|i: int, j: int| 0 <= i < j < m.sounds.len() ==> m.sounds[i].0 != m.sounds[j].0,
        forall|i: int| 0 <= i < m.sounds.len() ==> (#[trigger] m.sounds[i]).0 < m.id_counter,
{
}

} // verus!
