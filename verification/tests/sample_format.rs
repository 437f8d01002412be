use bae_rs::sample_format::{
    Sample, Mono, Stereo, SampleFormat, FP_ONE, SQRT_HALF_FP, sample_from_u8,
    sample_from_i16, sample_from_i24, sample_to_u8, sample_to_i16, sample_to_i24,
    sample_from_u8_bytes, sample_to_u8_bytes, sample_from_i16_bytes, sample_to_i16_bytes,
    sample_from_i24_bytes, sample_to_i24_bytes,
};
use bae_rs::debug::{float_equal, VecReader};
use bae_rs::utils::{lerp, clamp, clerp, normalize, samples_to_seconds, seconds_to_samples};

fn s(x: f64) -> Sample {
    Sample::from_bits((x * FP_ONE as f64).round() as i64)
}

#[test]
fn test_sample_arithmetic() {
    assert_eq!(s(0.25).add(s(0.5)), s(0.75));
    assert_eq!(s(0.25).sub(s(0.5)), s(-0.25));
    assert_eq!(s(-0.5).neg(), s(0.5));
    assert_eq!(s(0.5).mul(s(0.5)), s(0.25));
    assert_eq!(s(1.0).mul(s(-0.25)), s(-0.25));
    assert_eq!(Sample::zero().bits(), 0);
}

#[test]
fn test_sample_saturation() {
    let top = Sample::from_bits(i64::MAX);
    assert_eq!(top.add(top).bits(), i64::MAX);
    let bottom = Sample::from_bits(i64::MIN);
    assert_eq!(bottom.add(bottom).bits(), i64::MIN);
    assert_eq!(bottom.neg().bits(), i64::MAX);
    assert_eq!(top.mul(top).bits(), i64::MAX);
}

#[test]
fn test_pcm_conversions() {
    assert_eq!(sample_from_u8(128).bits(), 0);
    assert_eq!(sample_from_u8(0).bits(), -128 * 131072);
    assert_eq!(sample_to_u8(Sample::zero()), 128);
    assert_eq!(sample_to_u8(s(1.0)), 255);
    assert_eq!(sample_to_u8(s(-1.0)), 0);

    assert_eq!(sample_from_i16(1000).bits(), 512000);
    assert_eq!(sample_from_i16(-32768).bits(), -FP_ONE);
    assert_eq!(sample_to_i16(s(1.0)), 32767);
    assert_eq!(sample_to_i16(s(-1.0)), -32768);
    assert_eq!(sample_to_i16(Sample::from_bits(512000)), 1000);

    assert_eq!(sample_from_i24(-8388608).bits(), -FP_ONE);
    assert_eq!(sample_to_i24(s(1.0)), 8388607);
    assert_eq!(sample_to_i24(Sample::from_bits(2468)), 1234);
}

#[test]
fn test_pcm_round_trip_within_one_step() {
    for k in 0..100 {
        let x = -1.0 + (k as f64) / 50.0;
        let original = s(x);
        let back = sample_from_i16(sample_to_i16(original));
        assert!((back.bits() - original.bits()).abs() <= 512);
    }
}

#[test]
fn test_stereo() {
    let st = Stereo::from_mono(s(1.0));
    assert_eq!(st.left.bits(), SQRT_HALF_FP);
    assert_eq!(st.right.bits(), SQRT_HALF_FP);

    let both = Stereo::single_stereo(s(0.5));
    let mono = both.into_mono();
    // (0.5 + 0.5) scaled by sqrt(1/2): the half-power sum.
    assert_eq!(mono.bits(), SQRT_HALF_FP);

    // The mono-stereo-mono round trip returns the sample at its original
    // power, up to fixed-point truncation.
    for x in [0.0, 0.25, -0.5, 0.9, 1.0, -1.0] {
        let rt = Stereo::from_mono(s(x)).into_mono();
        assert!((rt.bits() - s(x).bits()).abs() <= 2);
    }

    let a = Stereo::from_stereo(s(0.25), s(-0.25));
    let b = Stereo::from_stereo(s(0.25), s(0.25));
    let sum = a.add(b);
    assert_eq!(sum.left, s(0.5));
    assert_eq!(sum.right, s(0.0));
    assert_eq!(a.sub(b).right, s(-0.5));
    assert_eq!(a.neg().left, s(-0.25));
    assert_eq!(b.scale(s(0.5)).left, s(0.125));

    assert_eq!(Mono::from_mono(s(0.3)).into_mono(), s(0.3));
    assert_eq!(<Mono as SampleFormat>::num_samples(), 1);
    assert_eq!(<Stereo as SampleFormat>::num_samples(), 2);
}

#[test]
fn test_float_equal() {
    assert!(float_equal(s(0.5), s(0.5), Sample::from_bits(1)));
    assert!(float_equal(s(0.5), s(0.500001), s(0.001)));
    assert!(!float_equal(s(0.5), s(0.6), s(0.001)));
}

#[test]
fn test_vec_reader() {
    let mut r = VecReader::new(vec![1, 2, 3]);
    assert_eq!(r.read(2), vec![1, 2]);
    assert_eq!(r.read(5), vec![3]);
    assert_eq!(r.read(1), Vec::<u8>::new());
}

#[test]
fn test_lerp() {
    assert_eq!(lerp(5, 0, 10, 0, 100), 50);
    assert_eq!(lerp(2, 0, 4, 10, 20), 15);
    // The endpoints are exact even when the run does not divide the rise.
    assert_eq!(lerp(0, 0, 3, 0, 2), 0);
    assert_eq!(lerp(3, 0, 3, 0, 2), 2);
    assert_eq!(lerp(0, 0, 10, 0, 100), 0);
    assert_eq!(lerp(10, 0, 10, 0, 100), 100);
    assert_eq!(lerp(7, 10, 0, 100, 0), 70);
}

#[test]
fn test_clamp_and_clerp() {
    assert_eq!(clamp(15, 0, 10), 10);
    assert_eq!(clamp(-5, 0, 10), 0);
    assert_eq!(clamp(5, 10, 0), 5);
    assert_eq!(clerp(15, 0, 10, 0, 100), 100);
    assert_eq!(clerp(-3, 0, 10, 0, 100), 0);
    assert_eq!(clerp(5, 0, 10, 0, 100), 50);
}

#[test]
fn test_time_conversions() {
    let (secs, nanos) = samples_to_seconds(72000, 48000);
    assert_eq!(secs, 1);
    assert_eq!(nanos, 500000000);
    assert_eq!(seconds_to_samples(1, 500000000, 48000), 72000);
    assert_eq!(seconds_to_samples(0, 0, 48000), 0);
}

#[test]
fn test_pcm_byte_conversions() {
    assert_eq!(sample_from_u8_bytes([128]).bits(), 0);
    assert_eq!(sample_to_u8_bytes(Sample::zero()), [128]);

    // -2 as 16-bit little-endian two's complement.
    assert_eq!(sample_from_i16_bytes([0xFE, 0xFF]).bits(), -1024);
    assert_eq!(sample_to_i16_bytes(Sample::from_bits(-1024)), [0xFE, 0xFF]);
    assert_eq!(sample_to_i16_bytes(Sample::from_bits(512000)), [0xE8, 0x03]);

    // -2 as 24-bit little-endian two's complement.
    assert_eq!(sample_from_i24_bytes([0xFE, 0xFF, 0xFF]).bits(), -4);
    assert_eq!(sample_to_i24_bytes(Sample::from_bits(-4)), [0xFE, 0xFF, 0xFF]);
    assert_eq!(sample_from_i24_bytes([0x01, 0x00, 0x00]).bits(), 2);
}

#[test]
fn test_normalize() {
    // Offset 200, deviations of +-100, normalized to a peak of 1.0.
    let mut t = vec![Sample::from_bits(300), Sample::from_bits(100)];
    normalize(s(1.0), &mut t);
    assert_eq!(t, vec![s(1.0), s(-1.0)]);

    // Normalizing to half scale halves the peak.
    let mut t = vec![Sample::from_bits(300), Sample::from_bits(100)];
    normalize(s(0.5), &mut t);
    assert_eq!(t, vec![s(0.5), s(-0.5)]);

    // A constant track has no deviation to rescale and stays unchanged.
    let mut flat = vec![s(0.3), s(0.3)];
    normalize(s(1.0), &mut flat);
    assert_eq!(flat, vec![s(0.3), s(0.3)]);

    // So does an empty one.
    let mut empty: Vec<Sample> = Vec::new();
    normalize(s(1.0), &mut empty);
    assert!(empty.is_empty());
}
