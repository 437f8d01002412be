use bae_rs::sample_format::{Sample, FP_ONE};
use bae_rs::generators::{Generator, Zero, Empty, MonoWav};
use bae_rs::modifiers::{Modifier, Gain, Delay, Echo, ADSR, ADSRState, Generic, Passthrough};
use bae_rs::standard_block::{StandardBlock, GeneratorUnit, ModifierUnit, Interactor, Block};
use bae_rs::complex_sound::ComplexSound;
use bae_rs::simple_sound::SimpleSound;
use bae_rs::sounds::Sound;
use bae_rs::standard_channel::{StandardChannel, SoundUnit};
use bae_rs::channels::{Channel, SoundChannel};
use std::collections::VecDeque;

fn s(x: f64) -> Sample {
    Sample::from_bits((x * FP_ONE as f64).round() as i64)
}

const RATE: u32 = 48000;

fn wav_gen(track: Vec<Sample>) -> GeneratorUnit {
    GeneratorUnit::Wav(MonoWav::from_track(RATE, RATE, track))
}

fn player_sound(track: Vec<Sample>) -> SoundUnit {
    SoundUnit::Simple(SimpleSound::new(s(1.0), s(1.0), StandardBlock::from_generator(wav_gen(track))))
}

#[test]
fn test_zero() {
    let mut z = Zero::new();
    for _ in 0..16 {
        assert_eq!(z.process(), Sample::zero());
    }
}

#[test]
fn test_empty() {
    let mut e = Empty::new();
    for _ in 0..16 {
        assert_eq!(e.process(), Sample::zero());
    }
}

#[test]
fn test_gain_and_passthrough() {
    let mut g = Gain::new(s(0.5));
    assert_eq!(g.process(s(0.5)), s(0.25));
    let mut p = Passthrough::new();
    assert_eq!(p.process(s(0.3)), s(0.3));
}

#[test]
fn test_delay() {
    let mut d = Delay::new(2);
    assert_eq!(d.get_delay(), 2);
    assert_eq!(d.process(s(0.1)), s(0.0));
    assert_eq!(d.process(s(0.2)), s(0.0));
    assert_eq!(d.process(s(0.3)), s(0.1));
    assert_eq!(d.process(s(0.4)), s(0.2));

    // A zero-sample delay passes the input straight through.
    let mut d0 = Delay::new(0);
    assert_eq!(d0.process(s(0.7)), s(0.7));
}

#[test]
fn test_echo() {
    let mut e = Echo::new(1, s(0.5));
    assert_eq!(e.process(s(1.0)), s(1.0));
    assert_eq!(e.process(s(0.0)), s(0.5));
    assert_eq!(e.process(s(0.0)), s(0.25));
    assert_eq!(e.process(s(0.0)), s(0.125));
}

#[test]
fn test_adsr() {
    let mut env = ADSR::new(s(0.25), s(-0.25), s(0.5), s(-0.5));
    let full = s(1.0);
    // Attack ramps to full scale.
    assert_eq!(env.process(full), s(0.25));
    assert_eq!(env.process(full), s(0.5));
    assert_eq!(env.process(full), s(0.75));
    assert_eq!(env.process(full), s(1.0));
    // Decay falls to the sustain level and holds.
    assert_eq!(env.process(full), s(0.75));
    assert_eq!(env.process(full), s(0.5));
    assert_eq!(env.process(full), s(0.5));
    assert_eq!(env.process(full), s(0.5));
    // Release falls to silence and stops.
    env.trigger_release();
    assert_eq!(env.process(full), s(0.0));
    assert_eq!(env.process(full), s(0.0));
    assert_eq!(env.state, ADSRState::Stopped);
}

#[test]
fn test_generic() {
    let mut zeros: VecDeque<(usize, Sample)> = VecDeque::new();
    zeros.push_back((0, s(1.0)));
    let mut poles: VecDeque<(usize, Sample)> = VecDeque::new();
    poles.push_back((0, s(0.5)));
    let mut f = Generic::new(zeros, poles);
    assert_eq!(f.process(s(1.0)), s(1.0));
    assert_eq!(f.process(s(0.0)), s(0.5));
    assert_eq!(f.process(s(0.0)), s(0.25));
}

#[test]
fn test_block_accumulator_reset() {
    // Priming sums contributions; processing consumes them and resets the
    // accumulator, so a second process sees silence.
    let mut b = StandardBlock::from_modifier(ModifierUnit::Gain(Gain::new(s(1.0))));
    b.prime_input(s(0.25));
    b.prime_input(s(0.25));
    assert_eq!(b.process(), s(0.5));
    assert_eq!(b.process(), s(0.0));
}

#[test]
fn test_block_interactors() {
    let track = vec![s(0.5), s(0.5)];
    let mut b = StandardBlock::new(
        wav_gen(track),
        ModifierUnit::Gain(Gain::new(s(1.0))),
        StandardBlock::default_interactor(),
    );
    assert_eq!(StandardBlock::default_interactor(), Interactor::Multiply);
    assert_eq!(StandardBlock::generator_passthrough(), Interactor::GeneratorPassthrough);
    assert_eq!(StandardBlock::modifier_passthrough(), Interactor::ModifierPassthrough);
    // Multiply combines generator (0.5) and modifier response (1.0 * 0.5).
    b.prime_input(s(0.5));
    assert_eq!(b.process(), s(0.25));
}

#[test]
fn test_process_order_linear() {
    // input gain -> a -> b -> output gain must process in exactly that
    // order.
    let mut cs = ComplexSound::new(s(1.0), s(1.0));
    let a = cs.add_block(StandardBlock::from_modifier(ModifierUnit::Passthrough(Passthrough::new())));
    let b = cs.add_block(StandardBlock::from_modifier(ModifierUnit::Passthrough(Passthrough::new())));
    cs.add_connection(cs.get_input_gain(), a);
    cs.add_connection(a, b);
    cs.add_connection(b, cs.get_output_gain());
    assert_eq!(cs.get_nodes(), vec![0, a, b, 1]);
}

#[test]
fn test_process_order_totality_diamond() {
    // A diamond: both branches precede the join, and the order is a
    // permutation of every handle from input gain to output gain.
    let mut cs = ComplexSound::new(s(1.0), s(1.0));
    let a = cs.add_block(StandardBlock::from_modifier(ModifierUnit::Passthrough(Passthrough::new())));
    let b = cs.add_block(StandardBlock::from_modifier(ModifierUnit::Passthrough(Passthrough::new())));
    let c = cs.add_block(StandardBlock::from_modifier(ModifierUnit::Passthrough(Passthrough::new())));
    cs.add_connection(0, a);
    cs.add_connection(0, b);
    cs.add_connection(a, c);
    cs.add_connection(b, c);
    cs.add_connection(c, 1);
    assert_eq!(cs.get_nodes(), vec![0, a, b, c, 1]);
}

#[test]
fn test_process_order_totality_cycle() {
    // Even with a feedback cycle the order covers every handle exactly
    // once, starting at the input gain and ending at the output gain.
    let mut cs = ComplexSound::new(s(1.0), s(1.0));
    let a = cs.add_block(StandardBlock::from_modifier(ModifierUnit::Passthrough(Passthrough::new())));
    let b = cs.add_block(StandardBlock::from_modifier(ModifierUnit::Passthrough(Passthrough::new())));
    cs.add_connection(a, b);
    cs.add_connection(b, a);
    cs.add_connection(b, 1);
    let order = cs.get_nodes();
    assert_eq!(order.len(), 4);
    assert_eq!(order[0], 0);
    assert_eq!(order[3], 1);
    for v in 0..4usize {
        assert!(order.contains(&v));
    }
    for i in 0..order.len() {
        for j in (i + 1)..order.len() {
            assert_ne!(order[i], order[j]);
        }
    }
}

#[test]
fn test_connection_idempotence() {
    let mut cs = ComplexSound::new(s(1.0), s(1.0));
    let a = cs.add_block(StandardBlock::from_generator(wav_gen(vec![s(0.25), s(0.5)])));
    cs.add_connection(a, 1);
    cs.add_connection(a, 1);
    // Removing an absent edge is a no-op; removing the real one silences
    // the graph output.
    cs.remove_connection(a, 0);
    assert_eq!(cs.process(Sample::zero()), s(0.25));
    cs.remove_connection(a, 1);
    cs.remove_connection(a, 1);
    assert_eq!(cs.process(Sample::zero()), s(0.0));
}

#[test]
fn test_complex_sound_process() {
    let mut cs = ComplexSound::new(s(1.0), s(1.0));
    let g = cs.add_block(StandardBlock::from_generator(wav_gen(vec![s(0.25), s(0.5)])));
    cs.add_connection(g, cs.get_output_gain());
    assert_eq!(cs.process(Sample::zero()), s(0.25));
    assert_eq!(cs.process(Sample::zero()), s(0.5));
    assert!(cs.get_id().is_none());
}

#[test]
fn test_simple_sound_process() {
    let track = vec![s(0.5), s(0.25)];
    let mut ss = SimpleSound::new(s(1.0), s(0.5), StandardBlock::from_generator(wav_gen(track)));
    ss.add_modifier(StandardBlock::from_modifier(ModifierUnit::Gain(Gain::new(s(1.0)))));
    assert_eq!(ss.get_input_gain(), s(1.0));
    assert_eq!(ss.get_output_gain(), s(0.5));
    assert_eq!(ss.process(Sample::zero()), s(0.25));
    assert_eq!(ss.process(Sample::zero()), s(0.125));
    ss.set_output_gain(s(1.0));
    assert_eq!(ss.get_output_gain(), s(1.0));
}

#[test]
fn test_mute_silence_state_continuity() {
    // A muted sound returns silence but advances exactly like an unmuted
    // twin: after unmuting, both produce identical samples.
    let track: Vec<Sample> = (1..9).map(|i| s(i as f64 / 16.0)).collect();
    let mut plain = player_sound(track.clone());
    let mut muted = player_sound(track);
    muted.toggle_mute();
    assert!(muted.is_muted());
    for _ in 0..4 {
        let a = plain.process(Sample::zero());
        let b = muted.process(Sample::zero());
        assert_ne!(a, Sample::zero());
        assert_eq!(b, Sample::zero());
    }
    muted.toggle_mute();
    assert!(!muted.is_muted());
    for _ in 4..8 {
        assert_eq!(plain.process(Sample::zero()), muted.process(Sample::zero()));
    }
}

#[test]
fn test_pause_freeze() {
    // A paused sound yields silence without advancing; resuming continues
    // exactly where it left off.
    let track: Vec<Sample> = (0..8).map(|i| s(i as f64 / 8.0)).collect();
    let mut twin = player_sound(track.clone());
    let mut paused = player_sound(track);
    assert_eq!(twin.process(Sample::zero()), paused.process(Sample::zero()));
    paused.toggle_pause();
    assert!(paused.is_paused());
    for _ in 0..5 {
        assert_eq!(paused.process(Sample::zero()), Sample::zero());
    }
    paused.toggle_pause();
    assert!(!paused.is_paused());
    for _ in 0..4 {
        assert_eq!(twin.process(Sample::zero()), paused.process(Sample::zero()));
    }
}

#[test]
fn test_registration_uniqueness() {
    let mut ch = StandardChannel::new(s(1.0));
    let track: Vec<Sample> = vec![s(0.1); 4];
    let id0 = ch.add_sound(player_sound(track.clone()));
    let id1 = ch.add_sound(player_sound(track.clone()));
    let id2 = ch.add_sound(player_sound(track.clone()));
    assert_ne!(id0, id1);
    assert_ne!(id1, id2);
    assert_ne!(id0, id2);

    // Removing is idempotent: an absent id is a no-op yielding None.
    let removed = ch.remove_sound(id1);
    assert!(removed.is_some());
    assert_eq!(removed.unwrap().get_id(), Some(id1));
    assert!(ch.remove_sound(id1).is_none());

    // Ids are never reused: re-adding the removed sound issues a fresh id.
    let id3 = ch.add_sound(player_sound(track.clone()));
    assert_ne!(id3, id0);
    assert_ne!(id3, id1);
    assert_ne!(id3, id2);

    // Re-registering: a sound that still carries a live id ends registered
    // under exactly one fresh id, and the stale entry leaves the map.
    let mut again = player_sound(track);
    again.register(id0);
    let id4 = ch.add_sound(again);
    assert_ne!(id4, id0);
    assert!(ch.remove_sound(id0).is_none());
    let back = ch.remove_sound(id4).unwrap();
    assert_eq!(back.get_id(), Some(id4));
}

#[test]
fn test_two_generator_mix() {
    // Two identical full-amplitude sine sounds summed and gain-staged at
    // 0.5 reproduce the single sine exactly.
    let n = 480usize;
    let track: Vec<Sample> = (0..n)
        .map(|i| s((2.0 * std::f64::consts::PI * 440.0 * i as f64 / RATE as f64).sin()))
        .collect();
    let mut ch = StandardChannel::new(s(0.5));
    ch.add_sound(player_sound(track.clone()));
    ch.add_sound(player_sound(track.clone()));
    ch.set_process_time(n);
    ch.process();
    let out = ch.get_output();
    assert_eq!(out.len(), n);
    for i in 0..n {
        // Exact in fixed point: 0.5 * (x + x) == x.
        assert_eq!(out[i], track[i]);
        // And within floating tolerance of the ideal sine.
        let ideal = (2.0 * std::f64::consts::PI * 440.0 * i as f64 / RATE as f64).sin();
        let got = out[i].bits() as f64 / FP_ONE as f64;
        assert!((got - ideal).abs() < 1e-5);
    }
}

#[test]
fn test_channel_gain_and_time() {
    let mut ch = StandardChannel::new(s(1.0));
    ch.add_sound(player_sound(vec![s(0.5); 8]));
    ch.set_gain(s(0.25));
    ch.set_process_time(4);
    ch.process();
    let out = ch.get_output().clone();
    assert_eq!(out.len(), 4);
    for x in out {
        assert_eq!(x, s(0.125));
    }
}

#[test]
fn test_fanout_priming_sums() {
    // A diamond fan-out: one generator feeds two passthrough branches that
    // both prime the output node, so their contributions sum.
    let mut cs = ComplexSound::new(s(1.0), s(1.0));
    let g = cs.add_block(StandardBlock::from_generator(wav_gen(vec![s(0.5)])));
    let a = cs.add_block(StandardBlock::from_modifier(ModifierUnit::Passthrough(Passthrough::new())));
    let b = cs.add_block(StandardBlock::from_modifier(ModifierUnit::Passthrough(Passthrough::new())));
    cs.add_connection(g, a);
    cs.add_connection(g, b);
    cs.add_connection(a, 1);
    cs.add_connection(b, 1);
    assert_eq!(cs.process(Sample::zero()), s(1.0));
}

#[test]
fn test_graph_gain_staging() {
    // External input runs through the input gain node and the output gain
    // node: 1.0 scaled by 0.5 twice.
    let mut cs = ComplexSound::new(s(0.5), s(0.5));
    cs.add_connection(0, 1);
    assert_eq!(cs.process(s(1.0)), s(0.25));
    // With nothing primed the next sample is silent.
    assert_eq!(cs.process(s(0.0)), s(0.0));
}
