use bae_rs::sample_format::{Sample, FP_ONE};
use bae_rs::mono_resampler::{MonoResampler, IDX_ONE};

fn s(x: f64) -> Sample {
    Sample::from_bits((x * FP_ONE as f64).round() as i64)
}

fn sam() -> Vec<Sample> {
    vec![s(0.0), s(1.0), s(2.0), s(3.0)]
}

const SAMPLE_RATE: u32 = 48000;

#[test]
fn test_resampler() {
    let mut r = MonoResampler::new(sam(), SAMPLE_RATE, SAMPLE_RATE / 2, 0, 0);
    for i in 0..7 {
        assert_eq!(r.process(), s(i as f64 / 2.0));
    }

    let mut r = MonoResampler::new(sam(), SAMPLE_RATE, SAMPLE_RATE * 2, 0, 0);
    for i in 0..2 {
        assert_eq!(r.process(), s((i * 2) as f64));
    }

    let mut r = MonoResampler::new(sam(), SAMPLE_RATE, SAMPLE_RATE, 0, 0);
    r.set_playback_speed(IDX_ONE / 2);
    for i in 0..7 {
        assert_eq!(r.process(), s(i as f64 / 2.0));
    }

    let mut r = MonoResampler::new(sam(), SAMPLE_RATE, SAMPLE_RATE * 2, 0, 0);
    r.set_playback_speed(IDX_ONE / 2);
    for x in sam() {
        assert_eq!(r.process(), x);
    }
}

#[test]
fn test_mono_resampler() {
    let mut r = MonoResampler::new(sam(), SAMPLE_RATE, SAMPLE_RATE / 2, 0, 0);
    for i in 0..7 {
        assert_eq!(r.process(), s(i as f64 / 2.0));
    }

    let mut r = MonoResampler::new(sam(), SAMPLE_RATE, SAMPLE_RATE * 2, 0, 0);
    for i in 0..2 {
        assert_eq!(r.process(), s((i * 2) as f64));
    }

    let mut r = MonoResampler::new(sam(), SAMPLE_RATE, SAMPLE_RATE, 0, 0);
    r.set_playback_speed(IDX_ONE / 2);
    for i in 0..7 {
        assert_eq!(r.process(), s(i as f64 / 2.0));
    }

    let mut r = MonoResampler::new(sam(), SAMPLE_RATE, SAMPLE_RATE * 2, 0, 0);
    r.set_playback_speed(IDX_ONE / 2);
    for x in sam() {
        assert_eq!(r.process(), x);
    }
}

#[test]
fn test_resampler_identity() {
    // Equal source and engine rates at the recorded speed reproduce the
    // source sample for sample.
    let track: Vec<Sample> = (0..64).map(|i| s((i as f64 / 64.0).sin())).collect();
    let mut r = MonoResampler::new(track.clone(), SAMPLE_RATE, SAMPLE_RATE, 0, 0);
    assert_eq!(r.get_playback_speed(), IDX_ONE);
    for x in &track {
        assert_eq!(r.process(), *x);
    }
    // A loop-free track yields silence once exhausted.
    assert_eq!(r.process(), Sample::zero());
    assert_eq!(r.process(), Sample::zero());
}

#[test]
fn test_resampler_loop_window() {
    // A loop window [1, 3) at the recorded rate repeats samples 1 and 2.
    let mut r = MonoResampler::new(sam(), SAMPLE_RATE, SAMPLE_RATE, 1, 3);
    assert_eq!(r.process(), s(0.0));
    assert_eq!(r.process(), s(1.0));
    assert_eq!(r.process(), s(2.0));
    assert_eq!(r.process(), s(1.0));
    assert_eq!(r.process(), s(2.0));
    assert_eq!(r.process(), s(1.0));

    // Reversed bounds are swapped at construction.
    let mut r = MonoResampler::new(sam(), SAMPLE_RATE, SAMPLE_RATE, 3, 1);
    assert_eq!(r.process(), s(0.0));
    assert_eq!(r.process(), s(1.0));
    assert_eq!(r.process(), s(2.0));
    assert_eq!(r.process(), s(1.0));
}
