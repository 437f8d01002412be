use bae_rs::sample_format::{Sample, FP_ONE};
use bae_rs::tools::{write_wav, read_wav, WavHeader, WavError, WaveWriteOptions};

fn s(x: f64) -> Sample {
    Sample::from_bits((x * FP_ONE as f64).round() as i64)
}

const RATE: u32 = 48000;

#[test]
fn test_header_new() {
    let h = WavHeader::new(1, 2, RATE, 16);
    assert_eq!(h.audio_format, 1);
    assert_eq!(h.channel_count, 2);
    assert_eq!(h.sampling_rate, RATE);
    assert_eq!(h.bytes_per_sample, 4);
    assert_eq!(h.bytes_per_second, 192000);
    assert_eq!(h.bits_per_sample, 16);
}

#[test]
fn test_write_wav() {
    // A short tone encodes without error at every supported bit depth.
    let track: Vec<Sample> = (0..16)
        .map(|i| s((2.0 * std::f64::consts::PI * 440.0 * i as f64 / RATE as f64).sin()))
        .collect();
    for bps in [8u16, 16, 24] {
        let bytes = write_wav(&vec![track.clone()], bps, RATE).unwrap();
        assert_eq!(bytes.len(), 44 + 16 * (bps as usize / 8));
        assert_eq!(&bytes[0..4], b"RIFF");
        assert_eq!(&bytes[8..12], b"WAVE");
        assert_eq!(&bytes[12..16], b"fmt ");
        assert_eq!(&bytes[36..40], b"data");
    }
}

#[test]
fn test_write_wav_errors() {
    let track = vec![s(0.0), s(0.5)];
    assert_eq!(write_wav(&Vec::new(), 16, RATE), Err(WavError::NoTracks));
    assert_eq!(
        write_wav(&vec![track.clone(), vec![s(0.0)]], 16, RATE),
        Err(WavError::MismatchedLengths),
    );
    assert_eq!(write_wav(&vec![track], 12, RATE), Err(WavError::UnsupportedBitDepth));
}

#[test]
fn test_read_wav_errors() {
    assert_eq!(read_wav(&vec![0u8; 4]), Err(WavError::TooShort));
    assert_eq!(read_wav(&vec![0u8; 16]), Err(WavError::NotRiff));
    let mut not_wave = b"RIFF\x00\x00\x00\x00NOPE".to_vec();
    assert_eq!(read_wav(&not_wave), Err(WavError::NotWave));
    not_wave[8..12].copy_from_slice(b"WAVE");
    // A well-tagged container with no subchunks lacks its fmt chunk.
    assert_eq!(read_wav(&not_wave), Err(WavError::MissingFmt));
}

#[test]
fn test_read_wav_header_fields() {
    let track = vec![s(0.25), s(-0.25), s(0.5)];
    let bytes = write_wav(&vec![track.clone(), track.clone()], 16, RATE).unwrap();
    let (h, tracks) = read_wav(&bytes).unwrap();
    assert_eq!(h.audio_format, 1);
    assert_eq!(h.channel_count, 2);
    assert_eq!(h.sampling_rate, RATE);
    assert_eq!(h.bits_per_sample, 16);
    assert_eq!(h.bytes_per_sample, 4);
    assert_eq!(h.bytes_per_second, 192000);
    assert_eq!(tracks.len(), 2);
    assert_eq!(tracks[0].len(), 3);
    assert_eq!(tracks[1].len(), 3);
}

#[test]
fn test_wav_round_trip() {
    // Writing a one-second 440 Hz tone at 16-bit/48 kHz and reading it back
    // reproduces each sample within one quantization step (1/2^15).
    let n = RATE as usize;
    let track: Vec<Sample> = (0..n)
        .map(|i| s((2.0 * std::f64::consts::PI * 440.0 * i as f64 / RATE as f64).sin()))
        .collect();
    let bytes = write_wav(&vec![track.clone()], 16, RATE).unwrap();
    let (h, tracks) = read_wav(&bytes).unwrap();
    assert_eq!(h.channel_count, 1);
    assert_eq!(h.sampling_rate, RATE);
    assert_eq!(tracks.len(), 1);
    assert_eq!(tracks[0].len(), n);
    let step = FP_ONE as f64 / 32768.0;
    for i in 0..n {
        let original = track[i].bits() as f64;
        let back = tracks[0][i].bits() as f64;
        assert!((back - original).abs() <= step);
    }
}

#[test]
fn test_wav_round_trip_exact_interleaving() {
    // Two channels at 24 bits come back exactly: every written sample is a
    // whole number of 24-bit PCM steps.
    let left: Vec<Sample> = (0..5).map(|i| Sample::from_bits(i * 2)).collect();
    let right: Vec<Sample> = (0..5).map(|i| Sample::from_bits(-i * 2)).collect();
    let bytes = write_wav(&vec![left.clone(), right.clone()], 24, RATE).unwrap();
    let (_, tracks) = read_wav(&bytes).unwrap();
    assert_eq!(tracks[0], left);
    assert_eq!(tracks[1], right);

    // The same at 8 bits, on whole 8-bit steps.
    let eight: Vec<Sample> = (0..5).map(|i| Sample::from_bits(i * 131072)).collect();
    let bytes = write_wav(&vec![eight.clone()], 8, RATE).unwrap();
    let (_, tracks) = read_wav(&bytes).unwrap();
    assert_eq!(tracks[0], eight);
}

#[test]
fn test_wave_write_options() {
    let mut opt = WaveWriteOptions::new();
    assert_eq!(opt.bps(12), Err(()));
    assert_eq!(opt.bps(16), Ok(()));
    opt.r(RATE);
    opt.clip(true);
    // An out-of-range sample is clipped to full scale before encoding, so
    // it reads back as exactly full scale minus one quantization step.
    let loud = vec![Sample::from_bits(3 * FP_ONE), s(0.5)];
    let bytes = opt.write(&vec![loud]).unwrap();
    let (_, tracks) = read_wav(&bytes).unwrap();
    assert_eq!(tracks[0][0], Sample::from_bits(32767 * 512));
    // Without clipping the same sample saturates the PCM range anyway.
    opt.clip(false);
    let plain = vec![Sample::from_bits(3 * FP_ONE)];
    let bytes = opt.write(&vec![plain]).unwrap();
    let (_, tracks) = read_wav(&bytes).unwrap();
    assert_eq!(tracks[0][0], Sample::from_bits(32767 * 512));
}
