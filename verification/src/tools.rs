//! # Tools
//!
//! The WAV container codec on plain bytes: encoding tracks of samples into
//! a RIFF/WAVE byte stream and parsing such a stream back into tracks.
//!
//! A WAV stream is a `RIFF` container holding a `WAVE` form with a 16-byte
//! `fmt ` subchunk (audio format, channel count, sample rate, byte rate,
//! block align, bits per sample, all little-endian) and a `data` subchunk
//! of interleaved PCM frames at 8, 16 or 24 bits per sample. Engine
//! samples map linearly to signed PCM with full scales of 128, `1 << 15`
//! and `1 << 23` respectively.

use vstd::prelude::*;
use crate::sample_format::{
    Sample,
    FP_ONE,
    clamp_int,
    sample_from_u8,
    sample_from_i16,
    sample_from_i24,
    sample_to_u8,
    sample_to_i16,
    sample_to_i24,
    spec_sample_to_u8,
    spec_sample_to_i16,
    spec_sample_to_i24,
};

verus! {

/// Why a WAV stream could not be encoded or parsed.
#[derive(Clone, Copy, PartialEq, Eq, Structural, Debug)]
pub enum WavError {
    /// No tracks were given to encode.
    NoTracks,
    /// The given tracks have differing lengths.
    MismatchedLengths,
    /// The bit depth is not one of 8, 16 or 24.
    UnsupportedBitDepth,
    /// The stream ends before the RIFF/WAVE introduction is complete.
    TooShort,
    /// The stream does not open with a `RIFF` chunk.
    NotRiff,
    /// The RIFF chunk does not hold a `WAVE` form.
    NotWave,
    /// The stream holds no complete `fmt ` subchunk of at least 16 bytes.
    MissingFmt,
    /// The stream holds no complete `data` subchunk.
    MissingData,
    /// The header declares no channels.
    NoChannels,
}

/// The fields of a WAV `fmt ` subchunk.
#[derive(Clone, Copy, PartialEq, Eq, Structural, Debug)]
pub struct WavHeader {
    /// The audio format tag; 1 is integer PCM.
    pub audio_format: u16,
    /// The number of interleaved channels.
    pub channel_count: u16,
    /// The sampling rate in frames per second.
    pub sampling_rate: u32,
    /// The data rate in bytes per second.
    pub bytes_per_second: u32,
    /// The size of one interleaved frame in bytes (block align).
    pub bytes_per_sample: u16,
    /// The bit depth of one sample.
    pub bits_per_sample: u16,
}

impl WavHeader {
    /// Builds a header from the format tag, channel count, sampling rate
    /// and bit depth, deriving the block align and byte rate.
    pub fn new(audio_format: u16, channel_count: u16, sampling_rate: u32, bits_per_sample: u16) -> (
        r: WavHeader)
        requires
            channel_count * (bits_per_sample / 8) <= u16::MAX,
            sampling_rate * (channel_count * (bits_per_sample / 8)) <= u32::MAX,
        ensures
            r.audio_format == audio_format,
            r.channel_count == channel_count,
            r.sampling_rate == sampling_rate,
            r.bits_per_sample == bits_per_sample,
            r.bytes_per_sample == channel_count * (bits_per_sample / 8),
            r.bytes_per_second == sampling_rate * (channel_count * (bits_per_sample / 8)),
    {
        let bytes_per_sample = channel_count * (bits_per_sample / 8);
        WavHeader {
            audio_format,
            channel_count,
            sampling_rate,
            bytes_per_second: sampling_rate * (bytes_per_sample as u32),
            bytes_per_sample,
            bits_per_sample,
        }
    }
}

/// The little-endian 16-bit value stored at `off`.
pub open spec fn le16(b: Seq<u8>, off: int) -> int {
    b[off] + 256 * b[off + 1]
}

/// The little-endian 32-bit value stored at `off`.
pub open spec fn le32(b: Seq<u8>, off: int) -> int {
    b[off] + 256 * b[off + 1] + 65536 * b[off + 2] + 16777216 * b[off + 3]
}

/// How many bytes one PCM sample occupies at the given bit depth.
pub open spec fn pcm_unit(bps: int) -> int {
    bps / 8
}

/// The PCM encoding of one sample at the given bit depth: one byte of
/// unsigned PCM, or two or three little-endian bytes of two's-complement
/// signed PCM.
pub open spec fn pcm_bytes(s: Sample, bps: int) -> Seq<u8>
    recommends
        bps == 8 || bps == 16 || bps == 24,
{
    if bps == 8 {
        seq![spec_sample_to_u8(s) as u8]
    } else if bps == 16 {
        let u = if spec_sample_to_i16(s) < 0 {
            spec_sample_to_i16(s) + 65536
        } else {
            spec_sample_to_i16(s)
        };
        seq![(u % 256) as u8, (u / 256) as u8]
    } else {
        let u = if spec_sample_to_i24(s) < 0 {
            spec_sample_to_i24(s) + 16777216
        } else {
            spec_sample_to_i24(s)
        };
        seq![(u % 256) as u8, ((u / 256) % 256) as u8, (u / 65536) as u8]
    }
}

/// One interleaved frame: the PCM encodings of sample `i` of the first `t`
/// tracks, in track order.
pub open spec fn frame_bytes(tracks: Seq<Seq<Sample>>, bps: int, i: int, t: nat) -> Seq<u8>
    decreases t,
{
    if t == 0 {
        Seq::empty()
    } else {
        frame_bytes(tracks, bps, i, (t - 1) as nat) + pcm_bytes(tracks[t - 1][i], bps)
    }
}

/// The PCM payload of the first `i` frames: every track's sample 0, then
/// every track's sample 1, and so on.
pub open spec fn payload_bytes(tracks: Seq<Seq<Sample>>, bps: int, i: nat) -> Seq<u8>
    decreases i,
{
    if i == 0 {
        Seq::empty()
    } else {
        payload_bytes(tracks, bps, (i - 1) as nat) + frame_bytes(
            tracks,
            bps,
            i - 1,
            tracks.len(),
        )
    }
}

/// The bytes of a little-endian 16-bit value.
pub open spec fn le16_bytes(x: int) -> Seq<u8> {
    seq![(x % 256) as u8, ((x / 256) % 256) as u8]
}

/// The bytes of a little-endian 32-bit value.
pub open spec fn le32_bytes(x: int) -> Seq<u8> {
    seq![
        (x % 256) as u8,
        ((x / 256) % 256) as u8,
        ((x / 65536) % 256) as u8,
        ((x / 16777216) % 256) as u8,
    ]
}

/// The 44 bytes that introduce a WAV stream: the `RIFF` chunk header, the
/// `WAVE` form tag, the 16-byte `fmt ` subchunk for integer PCM, and the
/// `data` subchunk header for a payload of `data_size` bytes.
pub open spec fn wav_intro_bytes(cc: int, rate: int, bps: int, data_size: int) -> Seq<u8> {
    seq![82u8, 73u8, 70u8, 70u8]  // "RIFF"
     + le32_bytes(36 + data_size) + seq![87u8, 65u8, 86u8, 69u8]  // "WAVE"
     + seq![102u8, 109u8, 116u8, 32u8]  // "fmt "
     + le32_bytes(16) + le16_bytes(1) + le16_bytes(cc) + le32_bytes(rate) + le32_bytes(
        rate * cc * (bps / 8),
    ) + le16_bytes(cc * (bps / 8)) + le16_bytes(bps) + seq![100u8, 97u8, 116u8, 97u8]  // "data"
     + le32_bytes(data_size)
}

/// The whole encoding of the given tracks: the introduction followed by
/// the interleaved PCM payload.
pub open spec fn wav_encoding(tracks: Seq<Seq<Sample>>, bps: int, rate: int) -> Seq<u8> {
    let len = tracks[0].len() as int;
    let data_size = len * tracks.len() * pcm_unit(bps);
    wav_intro_bytes(tracks.len() as int, rate, bps, data_size) + payload_bytes(
        tracks,
        bps,
        len as nat,
    )
}

/// Pushes a little-endian 16-bit value.
fn push_le16(v: &mut Vec<u8>, x: u16)
    ensures
        final(v)@ == old(v)@ + le16_bytes(x as int),
{
    let ghost before = v@;
    v.push((x % 256) as u8);
    v.push(((x / 256) % 256) as u8);
    proof {
        assert(final(v)@ =~= before + le16_bytes(x as int));
    }
}

/// Pushes a little-endian 32-bit value.
fn push_le32(v: &mut Vec<u8>, x: u32)
    ensures
        final(v)@ == old(v)@ + le32_bytes(x as int),
{
    let ghost before = v@;
    v.push((x % 256) as u8);
    v.push(((x / 256) % 256) as u8);
    v.push(((x / 65536) % 256) as u8);
    v.push(((x / 16777216) % 256) as u8);
    proof {
        assert(final(v)@ =~= before + le32_bytes(x as int));
    }
}

/// Pushes the PCM encoding of one sample.
fn push_pcm(v: &mut Vec<u8>, s: Sample, bps: u16)
    requires
        bps == 8 || bps == 16 || bps == 24,
    ensures
        final(v)@ == old(v)@ + pcm_bytes(s, bps as int),
{
    let ghost before = v@;
    if bps == 8 {
        v.push(sample_to_u8(s));
    } else if bps == 16 {
        let p = sample_to_i16(s);
        let u: u32 = if p < 0 {
            (p as i32 + 65536) as u32
        } else {
            p as u32
        };
        v.push((u % 256) as u8);
        v.push((u / 256) as u8);
    } else {
        let p = sample_to_i24(s);
        let u: u32 = if p < 0 {
            (p + 16777216) as u32
        } else {
            p as u32
        };
        v.push((u % 256) as u8);
        v.push(((u / 256) % 256) as u8);
        v.push((u / 65536) as u8);
    }
    proof {
        assert(final(v)@ =~= before + pcm_bytes(s, bps as int));
    }
}

/// Pushes the 44-byte WAV introduction.
#[verifier::rlimit(60)]
fn push_intro(v: &mut Vec<u8>, cc: u16, sampling_rate: u32, byte_rate: u32, block: u16, bps: u16, data_size: u32)
    requires
        data_size + 36 <= u32::MAX,
        byte_rate == sampling_rate * cc * (bps / 8),
        block == cc * (bps / 8),
    ensures
        final(v)@ == old(v)@ + wav_intro_bytes(
            cc as int,
            sampling_rate as int,
            bps as int,
            data_size as int,
        ),
{
    let ghost before = v@;
    v.push(82);
    v.push(73);
    v.push(70);
    v.push(70);
    push_le32(v, 36 + data_size);
    v.push(87);
    v.push(65);
    v.push(86);
    v.push(69);
    v.push(102);
    v.push(109);
    v.push(116);
    v.push(32);
    push_le32(v, 16);
    push_le16(v, 1);
    push_le16(v, cc);
    push_le32(v, sampling_rate);
    push_le32(v, byte_rate);
    push_le16(v, block);
    push_le16(v, bps);
    v.push(100);
    v.push(97);
    v.push(116);
    v.push(97);
    push_le32(v, data_size);
    proof {
        assert(final(v)@ =~= before + wav_intro_bytes(
            cc as int,
            sampling_rate as int,
            bps as int,
            data_size as int,
        ));
    }
}

/// What encoding yields on each input: no tracks, mismatched track
/// lengths and an unsupported bit depth each fail with their error, and
/// every other input succeeds with exactly the bytes [`wav_encoding`]
/// describes.
pub open spec fn wav_write_result(
    ts: Seq<Seq<Sample>>,
    bps: int,
    rate: int,
    res: Result<Vec<u8>, WavError>,
) -> bool {
    if ts.len() == 0 {
        res == Err::<Vec<u8>, WavError>(WavError::NoTracks)
    } else if exists|t: int| 0 <= t < ts.len() && (#[trigger] ts[t]).len() != ts[0].len() {
        res == Err::<Vec<u8>, WavError>(WavError::MismatchedLengths)
    } else if bps != 8 && bps != 16 && bps != 24 {
        res == Err::<Vec<u8>, WavError>(WavError::UnsupportedBitDepth)
    } else {
        res.is_ok() && res->Ok_0@ == wav_encoding(ts, bps, rate)
    }
}

/// Encodes the given tracks — one per channel, all of equal length — as a
/// WAV stream at the given bit depth and sampling rate.
///
/// Fails with `NoTracks` when no track is given, with
/// `MismatchedLengths` when two tracks differ in length, and with
/// `UnsupportedBitDepth` when `bps` is not 8, 16 or 24 — and succeeds on
/// exactly the remaining inputs, returning the byte stream
/// [`wav_encoding`] describes.
#[verifier::loop_isolation(false)]
#[verifier::rlimit(100)]
pub fn write_wav(tracks: &Vec<Vec<Sample>>, bps: u16, sampling_rate: u32) -> (r: Result<
    Vec<u8>,
    WavError,
>)
    requires
        tracks@.len() * 3 <= u16::MAX,
        tracks@.len() > 0 ==> tracks@[0]@.len() * tracks@.len() * 3 + 44 <= u32::MAX,
        sampling_rate * tracks@.len() * 3 <= u32::MAX,
    ensures
        wav_write_result(
            tracks@.map_values(|t: Vec<Sample>| t@),
            bps as int,
            sampling_rate as int,
            r,
        ),
{
    let ghost ts = tracks@.map_values(|t: Vec<Sample>| t@);
    proof {
        assert forall|k: int| 0 <= k < ts.len() implies #[trigger] ts[k] == tracks@[k]@ by {}
    }
    if tracks.len() == 0 {
        return Err(WavError::NoTracks);
    }
    let len = tracks[0].len();
    let mut t: usize = 1;
    while t < tracks.len()
        invariant
            1 <= t <= tracks@.len(),
            ts == tracks@.map_values(|tr: Vec<Sample>| tr@),
            len == ts[0].len(),
            forall|k: int| 0 <= k < t ==> (#[trigger] ts[k]).len() == len,
        decreases tracks@.len() - t,
    {
        if tracks[t].len() != len {
            proof {
                assert(ts[t as int].len() != ts[0].len());
            }
            return Err(WavError::MismatchedLengths);
        }
        t = t + 1;
    }
    if bps != 8 && bps != 16 && bps != 24 {
        return Err(WavError::UnsupportedBitDepth);
    }

    let unit: usize = (bps / 8) as usize;
    let cc: usize = tracks.len();
    proof {
        assert(cc * unit <= cc * 3) by (nonlinear_arith)
            requires
                unit <= 3,
                0 <= cc,
        ;
        assert((len * cc) * unit <= len * cc * 3 && len * cc * unit == (len * cc) * unit && 0 <= len
            * cc) by (nonlinear_arith)
            requires
                1 <= unit <= 3,
                len >= 0,
                cc >= 1,
        ;
        assert(sampling_rate * (cc * unit) <= sampling_rate * cc * 3 && 0 <= sampling_rate * (cc
            * unit)) by (nonlinear_arith)
            requires
                1 <= unit <= 3,
                sampling_rate >= 0,
                cc >= 1,
        ;
    }
    let data_size: u32 = ((len * cc) as u32) * (unit as u32);
    let byte_rate: u32 = sampling_rate * ((cc * unit) as u32);
    proof {
        assert(sampling_rate * (cc * unit) == sampling_rate * cc * unit) by (nonlinear_arith);
    }

    let mut v: Vec<u8> = Vec::new();
    push_intro(&mut v, cc as u16, sampling_rate, byte_rate, (cc * unit) as u16, bps, data_size);
    proof {
        assert(v@ =~= wav_intro_bytes(
            cc as int,
            sampling_rate as int,
            bps as int,
            (len * cc * unit) as int,
        ));
    }
    proof {
        assert forall|k: int| 0 <= k < tracks@.len() implies (#[trigger] tracks@[k])@.len()
            == len by {
            assert(ts[k] == tracks@[k]@);
            assert(ts[k].len() == len);
        }
    }
    push_payload(&mut v, tracks, bps, len);
    proof {
        assert(v@ =~= wav_encoding(ts, bps as int, sampling_rate as int));
    }
    Ok(v)
}

/// Pushes the interleaved PCM payload of the given equal-length tracks.
#[verifier::loop_isolation(false)]
fn push_payload(v: &mut Vec<u8>, tracks: &Vec<Vec<Sample>>, bps: u16, len: usize)
    requires
        bps == 8 || bps == 16 || bps == 24,
        forall|k: int| 0 <= k < tracks@.len() ==> (#[trigger] tracks@[k])@.len() == len,
    ensures
        final(v)@ == old(v)@ + payload_bytes(
            tracks@.map_values(|tr: Vec<Sample>| tr@),
            bps as int,
            len as nat,
        ),
{
    let ghost ts = tracks@.map_values(|tr: Vec<Sample>| tr@);
    proof {
        assert forall|k: int| 0 <= k < ts.len() implies #[trigger] ts[k] == tracks@[k]@ by {}
    }
    let ghost start = v@;
    let cc = tracks.len();
    let mut i: usize = 0;
    while i < len
        invariant
            i <= len,
            v@ == start + payload_bytes(ts, bps as int, i as nat),
        decreases len - i,
    {
        let mut t2: usize = 0;
        while t2 < cc
            invariant
                t2 <= cc,
                i < len,
                v@ == start + payload_bytes(ts, bps as int, i as nat) + frame_bytes(
                    ts,
                    bps as int,
                    i as int,
                    t2 as nat,
                ),
            decreases cc - t2,
        {
            push_pcm(v, tracks[t2][i], bps);
            t2 = t2 + 1;
        }
        i = i + 1;
    }
}


/// The position of the first chunk at or after `pos` whose four-byte id is
/// `id0 id1 id2 id3` and whose declared contents lie fully inside the
/// stream, or -1 when the stream (or a truncated chunk) ends the scan
/// first.
pub open spec fn find_chunk(bytes: Seq<u8>, pos: int, id0: u8, id1: u8, id2: u8, id3: u8) -> int
    decreases bytes.len() - pos,
        when 0 <= pos <= bytes.len()
{
    if pos < 0 || pos + 8 > bytes.len() {
        -1
    } else {
        let size = le32(bytes, pos + 4);
        if pos + 8 + size > bytes.len() {
            -1
        } else if bytes[pos] == id0 && bytes[pos + 1] == id1 && bytes[pos + 2] == id2 && bytes[pos
            + 3] == id3 {
            pos
        } else {
            find_chunk(bytes, pos + 8 + size, id0, id1, id2, id3)
        }
    }
}

/// A found chunk lies inside the stream: its id matches and its declared
/// contents fit.
pub proof fn lemma_find_chunk_ok(bytes: Seq<u8>, pos: int, id0: u8, id1: u8, id2: u8, id3: u8)
    requires
        0 <= pos <= bytes.len(),
        find_chunk(bytes, pos, id0, id1, id2, id3) >= 0,
    ensures
        ({
            let p = find_chunk(bytes, pos, id0, id1, id2, id3);
            &&& pos <= p
            &&& p + 8 <= bytes.len()
            &&& p + 8 + le32(bytes, p + 4) <= bytes.len()
            &&& bytes[p] == id0
            &&& bytes[p + 1] == id1
            &&& bytes[p + 2] == id2
            &&& bytes[p + 3] == id3
        }),
    decreases bytes.len() - pos,
{
    if !(pos + 8 > bytes.len()) {
        let size = le32(bytes, pos + 4);
        if !(pos + 8 + size > bytes.len()) {
            if !(bytes[pos] == id0 && bytes[pos + 1] == id1 && bytes[pos + 2] == id2 && bytes[pos
                + 3] == id3) {
                lemma_find_chunk_ok(bytes, pos + 8 + size, id0, id1, id2, id3);
            }
        }
    }
}

/// Reads the little-endian 16-bit value at `off`.
fn read_le16(bytes: &Vec<u8>, off: usize) -> (r: u16)
    requires
        off + 2 <= bytes.len(),
    ensures
        r as int == le16(bytes@, off as int),
{
    (bytes[off] as u16) + 256 * (bytes[off + 1] as u16)
}

/// Reads the little-endian 32-bit value at `off`.
fn read_le32(bytes: &Vec<u8>, off: usize) -> (r: u32)
    requires
        off + 4 <= bytes.len(),
    ensures
        r as int == le32(bytes@, off as int),
{
    (bytes[off] as u32) + 256 * (bytes[off + 1] as u32) + 65536 * (bytes[off + 2] as u32)
        + 16777216 * (bytes[off + 3] as u32)
}

/// Scans the chunk sequence from `start` for the chunk with the given id,
/// as [`find_chunk`] describes.
fn scan_chunk(bytes: &Vec<u8>, start: usize, id0: u8, id1: u8, id2: u8, id3: u8) -> (r: Option<
    usize,
>)
    requires
        start <= bytes@.len(),
    ensures
        ({
            let f = find_chunk(bytes@, start as int, id0, id1, id2, id3);
            match r {
                Some(p) => f == p,
                None => f == -1,
            }
        }),
{
    let mut pos = start;
    loop
        invariant
            pos <= bytes@.len(),
            find_chunk(bytes@, start as int, id0, id1, id2, id3) == find_chunk(
                bytes@,
                pos as int,
                id0,
                id1,
                id2,
                id3,
            ),
        decreases bytes@.len() - pos,
    {
        if bytes.len() < 8 || pos > bytes.len() - 8 {
            return None;
        }
        let size = read_le32(bytes, pos + 4) as usize;
        if size > bytes.len() - pos - 8 {
            return None;
        }
        if bytes[pos] == id0 && bytes[pos + 1] == id1 && bytes[pos + 2] == id2 && bytes[pos + 3]
            == id3 {
            return Some(pos);
        }
        pos = pos + 8 + size;
    }
}

/// The number of bytes one PCM sample occupies, as an executable value.
fn unit_of(bps: u16) -> (r: usize)
    requires
        bps == 8 || bps == 16 || bps == 24,
    ensures
        r == pcm_unit(bps as int),
        1 <= r <= 3,
{
    (bps / 8) as usize
}

/// The sample decoded from the PCM bytes at `off`: one unsigned byte, or
/// two or three little-endian bytes of two's-complement signed PCM.
pub open spec fn pcm_decode(b: Seq<u8>, off: int, bps: int) -> Sample
    recommends
        bps == 8 || bps == 16 || bps == 24,
{
    if bps == 8 {
        Sample { v: ((b[off] - 128) * 131072) as i64 }
    } else if bps == 16 {
        let u = le16(b, off);
        let sv = if u >= 32768 {
            u - 65536
        } else {
            u
        };
        Sample { v: (sv * 512) as i64 }
    } else {
        let u = b[off] + 256 * b[off + 1] + 65536 * b[off + 2];
        let sv = if u >= 8388608 {
            u - 16777216
        } else {
            u
        };
        Sample { v: (sv * 2) as i64 }
    }
}

/// How many of the `units` interleaved PCM samples belong to track `t` of
/// `cc` round-robin channels.
pub open spec fn track_len(units: int, cc: int, t: int) -> int {
    if units > t {
        (units - t - 1) / cc + 1
    } else {
        0
    }
}

/// The samples of track `t`: every `cc`-th PCM sample of the payload at
/// `data_off`, starting at the `t`-th.
pub open spec fn wav_track(
    b: Seq<u8>,
    data_off: int,
    units: int,
    cc: int,
    bps: int,
    t: int,
) -> Seq<Sample> {
    Seq::new(
        track_len(units, cc, t) as nat,
        |k: int| pcm_decode(b, data_off + (k * cc + t) * pcm_unit(bps), bps),
    )
}

/// Parses a WAV stream: checks the RIFF/WAVE introduction, reads the
/// header from the first complete `fmt ` subchunk, and splits the first
/// complete `data` subchunk's interleaved PCM frames into one track per
/// channel.
///
/// Fails with `TooShort` when fewer than 12 bytes are given, `NotRiff` and
/// `NotWave` when the container tags are wrong, `MissingFmt` when no
/// complete `fmt ` subchunk of at least 16 bytes exists, `NoChannels` when
/// the header declares zero channels, `UnsupportedBitDepth` when the bit
/// depth is not 8, 16 or 24, and `MissingData` when no complete `data`
/// subchunk exists — and succeeds on exactly the remaining inputs.
#[verifier::loop_isolation(false)]
#[verifier::rlimit(100)]
pub fn read_wav(bytes: &Vec<u8>) -> (r: Result<(WavHeader, Vec<Vec<Sample>>), WavError>)
    ensures
        ({
            let b = bytes@;
            if b.len() < 12 {
                r == Err::<(WavHeader, Vec<Vec<Sample>>), WavError>(WavError::TooShort)
            } else if b.subrange(0, 4) != seq![82u8, 73u8, 70u8, 70u8] {
                r == Err::<(WavHeader, Vec<Vec<Sample>>), WavError>(WavError::NotRiff)
            } else if b.subrange(8, 12) != seq![87u8, 65u8, 86u8, 69u8] {
                r == Err::<(WavHeader, Vec<Vec<Sample>>), WavError>(WavError::NotWave)
            } else {
                let f = find_chunk(b, 12, 102u8, 109u8, 116u8, 32u8);
                if f < 0 || le32(b, f + 4) < 16 {
                    r == Err::<(WavHeader, Vec<Vec<Sample>>), WavError>(WavError::MissingFmt)
                } else {
                    let cc = le16(b, f + 10);
                    let bps = le16(b, f + 22);
                    if cc == 0 {
                        r == Err::<(WavHeader, Vec<Vec<Sample>>), WavError>(WavError::NoChannels)
                    } else if bps != 8 && bps != 16 && bps != 24 {
                        r == Err::<(WavHeader, Vec<Vec<Sample>>), WavError>(
                            WavError::UnsupportedBitDepth,
                        )
                    } else {
                        let d = find_chunk(b, 12, 100u8, 97u8, 116u8, 97u8);
                        if d < 0 {
                            r == Err::<(WavHeader, Vec<Vec<Sample>>), WavError>(
                                WavError::MissingData,
                            )
                        } else {
                            let units = le32(b, d + 4) / pcm_unit(bps);
                            &&& r.is_ok()
                            &&& r->Ok_0.0 == (WavHeader {
                                audio_format: le16(b, f + 8) as u16,
                                channel_count: cc as u16,
                                sampling_rate: le32(b, f + 12) as u32,
                                bytes_per_second: le32(b, f + 16) as u32,
                                bytes_per_sample: le16(b, f + 20) as u16,
                                bits_per_sample: bps as u16,
                            })
                            &&& r->Ok_0.1@.len() == cc
                            &&& forall|t: int|
                                0 <= t < cc ==> (#[trigger] r->Ok_0.1@[t])@ == wav_track(
                                    b,
                                    d + 8,
                                    units,
                                    cc,
                                    bps,
                                    t,
                                )
                        }
                    }
                }
            }
        }),
{
    if bytes.len() < 12 {
        return Err(WavError::TooShort);
    }
    if bytes[0] != 82 || bytes[1] != 73 || bytes[2] != 70 || bytes[3] != 70 {
        proof {
            if bytes@.subrange(0, 4) == seq![82u8, 73u8, 70u8, 70u8] {
                assert(bytes@[0] == 82 && bytes@[1] == 73 && bytes@[2] == 70 && bytes@[3] == 70);
            }
        }
        return Err(WavError::NotRiff);
    }
    if bytes[8] != 87 || bytes[9] != 65 || bytes[10] != 86 || bytes[11] != 69 {
        proof {
            assert(bytes@.subrange(0, 4) =~= seq![82u8, 73u8, 70u8, 70u8]);
            if bytes@.subrange(8, 12) == seq![87u8, 65u8, 86u8, 69u8] {
                assert(bytes@[8] == 87 && bytes@[9] == 65 && bytes@[10] == 86 && bytes@[11] == 69);
            }
        }
        return Err(WavError::NotWave);
    }
    proof {
        assert(bytes@.subrange(0, 4) =~= seq![82u8, 73u8, 70u8, 70u8]);
        assert(bytes@.subrange(8, 12) =~= seq![87u8, 65u8, 86u8, 69u8]);
    }
    let fmt = match scan_chunk(bytes, 12, 102, 109, 116, 32) {
        None => {
            return Err(WavError::MissingFmt);
        },
        Some(f) => f,
    };
    proof {
        lemma_find_chunk_ok(bytes@, 12, 102, 109, 116, 32);
    }
    if read_le32(bytes, fmt + 4) < 16 {
        return Err(WavError::MissingFmt);
    }
    let cc16 = read_le16(bytes, fmt + 10);
    let bps = read_le16(bytes, fmt + 22);
    if cc16 == 0 {
        return Err(WavError::NoChannels);
    }
    if bps != 8 && bps != 16 && bps != 24 {
        return Err(WavError::UnsupportedBitDepth);
    }
    let header = WavHeader {
        audio_format: read_le16(bytes, fmt + 8),
        channel_count: cc16,
        sampling_rate: read_le32(bytes, fmt + 12),
        bytes_per_second: read_le32(bytes, fmt + 16),
        bytes_per_sample: read_le16(bytes, fmt + 20),
        bits_per_sample: bps,
    };
    let data = match scan_chunk(bytes, 12, 100, 97, 116, 97) {
        None => {
            return Err(WavError::MissingData);
        },
        Some(d) => d,
    };
    proof {
        lemma_find_chunk_ok(bytes@, 12, 100, 97, 116, 97);
    }
    let size = read_le32(bytes, data + 4) as usize;
    let unit = unit_of(bps);
    let units = size / unit;
    let cc = cc16 as usize;

    let mut tracks: Vec<Vec<Sample>> = Vec::new();
    let mut t: usize = 0;
    while t < cc
        invariant
            t <= cc,
            tracks@.len() == t,
            forall|q: int|
                0 <= q < t ==> (#[trigger] tracks@[q])@ == wav_track(
                    bytes@,
                    data + 8,
                    units as int,
                    cc as int,
                    bps as int,
                    q,
                ),
        decreases cc - t,
    {
        let cnt: usize = if units > t {
            (units - t - 1) / cc + 1
        } else {
            0
        };
        let mut tr: Vec<Sample> = Vec::new();
        let mut k: usize = 0;
        while k < cnt
            invariant
                k <= cnt,
                cnt == track_len(units as int, cc as int, t as int),
                t < cc,
                tr@.len() == k,
                forall|q: int|
                    0 <= q < k ==> tr@[q] == pcm_decode(
                        bytes@,
                        data + 8 + (q * cc + t) * pcm_unit(bps as int),
                        bps as int,
                    ),
            decreases cnt - k,
        {
            proof {
                assert(((units - t - 1) / cc as int) * cc as int <= units - t - 1) by (
                nonlinear_arith)
                    requires
                        cc >= 1,
                        units > t,
                ;
                assert(k * cc as int + t < units) by (nonlinear_arith)
                    requires
                        cc >= 1,
                        units > t,
                        k <= (units - t - 1) as int / cc as int,
                        ((units - t - 1) / cc as int) * cc as int <= units - t - 1,
                ;
                assert((k * cc as int + t) * unit as int + unit <= units * unit) by (
                nonlinear_arith)
                    requires
                        k * cc as int + t < units,
                        unit >= 1,
                ;
                assert(units * unit as int <= size) by (nonlinear_arith)
                    requires
                        units == size as int / unit as int,
                        unit >= 1,
                        size >= 0,
                ;
            }
            let off = data + 8 + (k * cc + t) * unit;
            let s: Sample = if bps == 8 {
                sample_from_u8(bytes[off])
            } else if bps == 16 {
                let u = read_le16(bytes, off);
                if u >= 32768 {
                    sample_from_i16((u as i32 - 65536) as i16)
                } else {
                    sample_from_i16(u as i16)
                }
            } else {
                let u: u32 = (bytes[off] as u32) + 256 * (bytes[off + 1] as u32) + 65536 * (
                bytes[off + 2] as u32);
                if u >= 8388608 {
                    sample_from_i24(u as i32 - 16777216)
                } else {
                    sample_from_i24(u as i32)
                }
            };
            tr.push(s);
            k = k + 1;
        }
        tracks.push(tr);
        proof {
            assert(tr@ =~= wav_track(
                bytes@,
                data + 8,
                units as int,
                cc as int,
                bps as int,
                t as int,
            ));
        }
        t = t + 1;
    }
    Ok((header, tracks))
}


/// The sample a write-then-read round trip yields: the original quantized
/// to the bit depth's PCM grid and mapped back.
pub open spec fn requantized(s: Sample, bps: int) -> Sample
    recommends
        bps == 8 || bps == 16 || bps == 24,
{
    if bps == 8 {
        Sample { v: ((spec_sample_to_u8(s) - 128) * 131072) as i64 }
    } else if bps == 16 {
        Sample { v: (spec_sample_to_i16(s) * 512) as i64 }
    } else {
        Sample { v: (spec_sample_to_i24(s) * 2) as i64 }
    }
}

/// A PCM encoding occupies exactly the bit depth's unit of bytes.
pub proof fn lemma_pcm_bytes_len(s: Sample, bps: int)
    requires
        bps == 8 || bps == 16 || bps == 24,
    ensures
        pcm_bytes(s, bps).len() == pcm_unit(bps),
{
}

/// Decoding the PCM encoding of a sample recovers the quantized sample.
pub proof fn lemma_pcm_decode_inverse(b: Seq<u8>, off: int, s: Sample, bps: int)
    requires
        bps == 8 || bps == 16 || bps == 24,
        0 <= off,
        off + pcm_unit(bps) <= b.len(),
        forall|k: int| 0 <= k < pcm_unit(bps) ==> b[off + k] == pcm_bytes(s, bps)[k],
    ensures
        pcm_decode(b, off, bps) == requantized(s, bps),
{
    if bps == 8 {
        assert(b[off] == pcm_bytes(s, 8)[0]);
    } else if bps == 16 {
        assert(b[off] == pcm_bytes(s, 16)[0]);
        assert(b[off + 1] == pcm_bytes(s, 16)[1]);
        let p = spec_sample_to_i16(s);
        let u = if p < 0 {
            p + 65536
        } else {
            p
        };
        assert(0 <= u < 65536);
        assert((u % 256) + 256 * (u / 256) == u) by (nonlinear_arith)
            requires
                0 <= u < 65536,
        ;
        assert(le16(b, off) == u);
    } else {
        assert(b[off] == pcm_bytes(s, 24)[0]);
        assert(b[off + 1] == pcm_bytes(s, 24)[1]);
        assert(b[off + 2] == pcm_bytes(s, 24)[2]);
        let p = spec_sample_to_i24(s);
        let u = if p < 0 {
            p + 16777216
        } else {
            p
        };
        assert(0 <= u < 16777216);
        assert((u % 256) + 256 * ((u / 256) % 256) + 65536 * (u / 65536) == u) by (nonlinear_arith)
            requires
                0 <= u < 16777216,
        ;
    }
}

/// A frame of `t` tracks occupies `t` PCM units.
pub proof fn lemma_frame_bytes_len(tracks: Seq<Seq<Sample>>, bps: int, i: int, t: nat)
    requires
        bps == 8 || bps == 16 || bps == 24,
    ensures
        frame_bytes(tracks, bps, i, t).len() == t * pcm_unit(bps),
    decreases t,
{
    if t > 0 {
        lemma_frame_bytes_len(tracks, bps, i, (t - 1) as nat);
        lemma_pcm_bytes_len(tracks[t - 1][i], bps);
        assert(frame_bytes(tracks, bps, i, t) == frame_bytes(tracks, bps, i, (t - 1) as nat)
            + pcm_bytes(tracks[t - 1][i], bps));
        assert(frame_bytes(tracks, bps, i, t).len() == (t - 1) * pcm_unit(bps) + pcm_unit(bps));
        assert(t * pcm_unit(bps) == (t - 1) * pcm_unit(bps) + pcm_unit(bps)) by (nonlinear_arith);
    } else {
        assert(frame_bytes(tracks, bps, i, t).len() == 0);
    }
}

/// The payload of `i` frames occupies `i` frames of bytes.
pub proof fn lemma_payload_bytes_len(tracks: Seq<Seq<Sample>>, bps: int, i: nat)
    requires
        bps == 8 || bps == 16 || bps == 24,
    ensures
        payload_bytes(tracks, bps, i).len() == i * tracks.len() * pcm_unit(bps),
    decreases i,
{
    if i > 0 {
        lemma_payload_bytes_len(tracks, bps, (i - 1) as nat);
        lemma_frame_bytes_len(tracks, bps, i - 1, tracks.len());
        assert(payload_bytes(tracks, bps, i) == payload_bytes(tracks, bps, (i - 1) as nat)
            + frame_bytes(tracks, bps, i - 1, tracks.len()));
        assert(payload_bytes(tracks, bps, i).len() == (i - 1) * tracks.len() * pcm_unit(bps)
            + tracks.len() * pcm_unit(bps));
        assert((i - 1) * tracks.len() * pcm_unit(bps) + tracks.len() * pcm_unit(bps) == i
            * tracks.len() * pcm_unit(bps)) by (nonlinear_arith)
            requires
                i >= 1,
        ;
        assert(payload_bytes(tracks, bps, i).len() == i * tracks.len() * pcm_unit(bps));
    } else {
        assert(payload_bytes(tracks, bps, i).len() == 0);
        assert(i * tracks.len() * pcm_unit(bps) == 0) by (nonlinear_arith)
            requires
                i == 0,
        ;
    }
}

/// Where each track's PCM encoding sits inside a frame.
pub proof fn lemma_frame_bytes_index(
    tracks: Seq<Seq<Sample>>,
    bps: int,
    i: int,
    t: nat,
    t0: int,
    b: int,
)
    requires
        bps == 8 || bps == 16 || bps == 24,
        0 <= t0 < t,
        0 <= b < pcm_unit(bps),
    ensures
        frame_bytes(tracks, bps, i, t)[t0 * pcm_unit(bps) + b] == pcm_bytes(tracks[t0][i], bps)[b],
    decreases t,
{
    lemma_frame_bytes_len(tracks, bps, i, (t - 1) as nat);
    lemma_pcm_bytes_len(tracks[t - 1][i], bps);
    if t0 == t - 1 {
        assert(t0 * pcm_unit(bps) + b - (t - 1) * pcm_unit(bps) == b);
    } else {
        lemma_frame_bytes_index(tracks, bps, i, (t - 1) as nat, t0, b);
        assert(t0 * pcm_unit(bps) + b < (t - 1) * pcm_unit(bps)) by (nonlinear_arith)
            requires
                0 <= t0 < t - 1,
                0 <= b < pcm_unit(bps),
        ;
    }
}

/// Where each sample's PCM encoding sits inside the payload.
pub proof fn lemma_payload_bytes_index(
    tracks: Seq<Seq<Sample>>,
    bps: int,
    i: nat,
    j: int,
    t0: int,
    b: int,
)
    requires
        bps == 8 || bps == 16 || bps == 24,
        0 <= j < i,
        0 <= t0 < tracks.len(),
        0 <= b < pcm_unit(bps),
    ensures
        payload_bytes(tracks, bps, i)[(j * tracks.len() + t0) * pcm_unit(bps) + b] == pcm_bytes(
            tracks[t0][j],
            bps,
        )[b],
    decreases i,
{
    let cc = tracks.len() as int;
    let unit = pcm_unit(bps);
    lemma_payload_bytes_len(tracks, bps, (i - 1) as nat);
    if j == i - 1 {
        lemma_frame_bytes_index(tracks, bps, j, tracks.len(), t0, b);
        assert((j * cc + t0) * unit + b - (i - 1) * cc * unit == t0 * unit + b) by (nonlinear_arith)
            requires
                j == i - 1,
        ;
        lemma_frame_bytes_len(tracks, bps, i - 1, tracks.len());
        assert(0 <= t0 * unit + b < cc * unit) by (nonlinear_arith)
            requires
                0 <= t0 < cc,
                0 <= b < unit,
        ;
        assert((i - 1) * cc * unit <= (j * cc + t0) * unit + b) by (nonlinear_arith)
            requires
                j == i - 1,
                0 <= t0,
                0 <= b,
                cc >= 1,
                unit >= 1,
        ;
    } else {
        lemma_payload_bytes_index(tracks, bps, (i - 1) as nat, j, t0, b);
        assert(0 <= (j * cc + t0) * unit + b < (i - 1) * cc * unit) by (nonlinear_arith)
            requires
                0 <= j < i - 1,
                0 <= t0 < cc,
                0 <= b < unit,
                1 <= unit,
        ;
    }
}


/// Splitting a value below `1 << 16` into little-endian bytes loses
/// nothing.
proof fn lemma_le16_recompose(x: int)
    requires
        0 <= x < 65536,
    ensures
        (x % 256) + 256 * ((x / 256) % 256) == x,
{
    assert((x % 256) + 256 * ((x / 256) % 256) == x) by (nonlinear_arith)
        requires
            0 <= x < 65536,
    ;
}

/// Splitting a value below `1 << 32` into little-endian bytes loses
/// nothing.
proof fn lemma_le32_recompose(x: int)
    requires
        0 <= x < 4294967296,
    ensures
        (x % 256) + 256 * ((x / 256) % 256) + 65536 * ((x / 65536) % 256) + 16777216 * ((x
            / 16777216) % 256) == x,
{
    assert((x % 256) + 256 * ((x / 256) % 256) + 65536 * ((x / 65536) % 256) + 16777216 * ((x
        / 16777216) % 256) == x) by (nonlinear_arith)
        requires
            0 <= x < 4294967296,
    ;
}

/// What the WAV introduction holds, byte for byte: the container tags at
/// their fixed offsets and every header field recoverable at its offset.
proof fn lemma_intro_fields(cc: int, rate: int, bps: int, data_size: int)
    requires
        0 <= cc < 65536,
        0 <= rate < 4294967296,
        bps == 8 || bps == 16 || bps == 24,
        0 <= data_size,
        data_size + 36 < 4294967296,
        0 <= rate * cc * (bps / 8) < 4294967296,
        0 <= cc * (bps / 8) < 65536,
    ensures
        ({
            let intro = wav_intro_bytes(cc, rate, bps, data_size);
            &&& intro.len() == 44
            &&& intro[0] == 82 && intro[1] == 73 && intro[2] == 70 && intro[3] == 70
            &&& intro[8] == 87 && intro[9] == 65 && intro[10] == 86 && intro[11] == 69
            &&& intro[12] == 102 && intro[13] == 109 && intro[14] == 116 && intro[15] == 32
            &&& intro[36] == 100 && intro[37] == 97 && intro[38] == 116 && intro[39] == 97
            &&& le32(intro, 4) == 36 + data_size
            &&& le32(intro, 16) == 16
            &&& le16(intro, 20) == 1
            &&& le16(intro, 22) == cc
            &&& le32(intro, 24) == rate
            &&& le16(intro, 34) == bps
            &&& le32(intro, 40) == data_size
        }),
{
    lemma_le32_recompose(36 + data_size);
    lemma_le32_recompose(16);
    lemma_le16_recompose(1);
    lemma_le16_recompose(cc);
    lemma_le32_recompose(rate);
    lemma_le16_recompose(bps);
    lemma_le32_recompose(data_size);
}

/// WAV round trip: parsing the encoding of well-formed tracks recovers the
/// container tags and header fields exactly, locates the `fmt ` and `data`
/// subchunks where the encoder put them, and yields every sample quantized
/// to the bit depth's PCM grid — nothing else of the signal is lost.
pub proof fn lemma_wav_round_trip(tracks: Seq<Seq<Sample>>, bps: int, rate: int)
    requires
        1 <= tracks.len(),
        tracks.len() * 3 <= 65535,
        bps == 8 || bps == 16 || bps == 24,
        forall|t: int| 0 <= t < tracks.len() ==> (#[trigger] tracks[t]).len() == tracks[0].len(),
        tracks[0].len() * tracks.len() * 3 + 44 <= u32::MAX,
        0 <= rate < 4294967296,
        rate * tracks.len() * 3 <= u32::MAX,
    ensures
        ({
            let enc = wav_encoding(tracks, bps, rate);
            let cc = tracks.len() as int;
            let len = tracks[0].len() as int;
            let units = len * cc;
            &&& enc.len() == 44 + len * cc * pcm_unit(bps)
            &&& find_chunk(enc, 12, 102u8, 109u8, 116u8, 32u8) == 12
            &&& find_chunk(enc, 12, 100u8, 97u8, 116u8, 97u8) == 36
            &&& le32(enc, 16) == 16
            &&& le16(enc, 20) == 1
            &&& le16(enc, 22) == cc
            &&& le32(enc, 24) == rate
            &&& le16(enc, 34) == bps
            &&& le32(enc, 40) == len * cc * pcm_unit(bps)
            &&& forall|t: int|
                0 <= t < cc ==> wav_track(enc, 44, units, cc, bps, t) == Seq::new(
                    len as nat,
                    |k: int| requantized(tracks[t][k], bps),
                )
        }),
{
    let enc = wav_encoding(tracks, bps, rate);
    let cc = tracks.len() as int;
    let len = tracks[0].len() as int;
    let unit = pcm_unit(bps);
    let units = len * cc;
    let ds = len * cc * unit;
    let intro = wav_intro_bytes(cc, rate, bps, ds);
    let payload = payload_bytes(tracks, bps, len as nat);

    assert(0 <= ds <= len * cc * 3 && units * unit == ds && 0 <= rate * cc * (bps / 8) <= rate * cc
        * 3 && 0 <= cc * (bps / 8) < 65536) by (nonlinear_arith)
        requires
            1 <= unit <= 3,
            unit == bps / 8,
            0 <= len,
            1 <= cc,
            cc * 3 <= 65535,
            units == len * cc,
            ds == len * cc * unit,
            0 <= rate,
    ;
    lemma_intro_fields(cc, rate, bps, ds);
    lemma_payload_bytes_len(tracks, bps, len as nat);
    assert(enc == intro + payload);
    assert(enc.len() == 44 + ds);

    // The header fields read back through the concatenation.
    assert(le32(enc, 16) == le32(intro, 16));
    assert(le16(enc, 20) == le16(intro, 20));
    assert(le16(enc, 22) == le16(intro, 22));
    assert(le32(enc, 24) == le32(intro, 24));
    assert(le16(enc, 34) == le16(intro, 34));
    assert(le32(enc, 40) == le32(intro, 40));

    // The fmt chunk is found at offset 12.
    assert(find_chunk(enc, 12, 102u8, 109u8, 116u8, 32u8) == 12);

    // The data chunk is found at offset 36, right after the fmt chunk.
    assert(enc[36] == 100 && enc[37] == 97 && enc[38] == 116 && enc[39] == 97);
    assert(find_chunk(enc, 36, 100u8, 97u8, 116u8, 97u8) == 36);
    assert(find_chunk(enc, 12, 100u8, 97u8, 116u8, 97u8) == 36);

    // Every track decodes to its quantized samples.
    assert forall|t: int| 0 <= t < cc implies wav_track(enc, 44, units, cc, bps, t) == Seq::new(
        len as nat,
        |k: int| requantized(tracks[t][k], bps),
    ) by {
        assert(track_len(units, cc, t) == len) by (nonlinear_arith)
            requires
                0 <= t < cc,
                1 <= cc,
                0 <= len,
                units == len * cc,
        ;
        assert forall|k: int| 0 <= k < len implies pcm_decode(enc, 44 + (k * cc + t) * unit, bps)
            == requantized(tracks[t][k], bps) by {
            lemma_payload_bytes_index_all(tracks, bps, len as nat, k, t);
            let off = (k * cc + t) * unit;
            assert(0 <= off && off + unit <= ds) by (nonlinear_arith)
                requires
                    0 <= k < len,
                    0 <= t < cc,
                    1 <= cc,
                    1 <= unit,
                    off == (k * cc + t) * unit,
                    ds == len * cc * unit,
            ;
            assert forall|bb: int| 0 <= bb < unit implies enc[44 + off + bb] == pcm_bytes(
                tracks[t][k],
                bps,
            )[bb] by {
                assert(payload[off + bb] == pcm_bytes(tracks[t][k], bps)[bb]);
                assert(enc[44 + off + bb] == payload[off + bb]);
            }
            lemma_pcm_decode_inverse(enc, 44 + off, tracks[t][k], bps);
        }
        assert(wav_track(enc, 44, units, cc, bps, t) =~= Seq::new(
            len as nat,
            |k: int| requantized(tracks[t][k], bps),
        ));
    }
}

/// Bundles the payload index lemma over every byte of one PCM unit.
proof fn lemma_payload_bytes_index_all(
    tracks: Seq<Seq<Sample>>,
    bps: int,
    i: nat,
    j: int,
    t0: int,
)
    requires
        bps == 8 || bps == 16 || bps == 24,
        0 <= j < i,
        0 <= t0 < tracks.len(),
    ensures
        forall|b: int|
            0 <= b < pcm_unit(bps) ==> payload_bytes(tracks, bps, i)[(j * tracks.len() + t0)
                * pcm_unit(bps) + b] == pcm_bytes(tracks[t0][j], bps)[b],
{
    assert forall|b: int| 0 <= b < pcm_unit(bps) implies payload_bytes(tracks, bps, i)[(j
        * tracks.len() + t0) * pcm_unit(bps) + b] == pcm_bytes(tracks[t0][j], bps)[b] by {
        lemma_payload_bytes_index(tracks, bps, i, j, t0, b);
    }
}


/// A sample clipped into the nominal amplitude range `[-1, 1]`.
pub open spec fn clip_sample(s: Sample) -> Sample {
    Sample { v: clamp_int(s.v as int, -FP_ONE as int, FP_ONE as int) as i64 }
}

/// Every track with every sample clipped into the nominal range.
pub open spec fn clipped_tracks(ts: Seq<Seq<Sample>>) -> Seq<Seq<Sample>> {
    ts.map_values(|t: Seq<Sample>| t.map_values(|x: Sample| clip_sample(x)))
}

/// The options for encoding a WAV stream: the bit depth, the sampling
/// rate, and whether samples outside `[-1, 1]` are clipped first.
#[derive(Clone, Copy, PartialEq, Eq, Structural, Debug)]
pub struct WaveWriteOptions {
    bps: u16,
    r: u32,
    clip: bool,
}

impl WaveWriteOptions {
    /// Creates new options: no bit depth chosen yet, a zero sampling rate
    /// and no clipping.
    pub fn new() -> (o: WaveWriteOptions)
        ensures
            o.spec_bps() == 0,
            o.spec_r() == 0,
            !o.spec_clip(),
    {
        WaveWriteOptions { bps: 0, r: 0, clip: false }
    }

    /// The chosen bit depth.
    pub closed spec fn spec_bps(self) -> u16 {
        self.bps
    }

    /// The chosen sampling rate.
    pub closed spec fn spec_r(self) -> u32 {
        self.r
    }

    /// Whether out-of-range samples are clipped.
    pub closed spec fn spec_clip(self) -> bool {
        self.clip
    }

    /// Sets the bits per sample value; succeeds exactly when it is one of
    /// 8, 16 or 24.
    pub fn bps(&mut self, bps: u16) -> (res: Result<(), ()>)
        ensures
            if bps == 8 || bps == 16 || bps == 24 {
                res == Ok::<(), ()>(()) && final(self).spec_bps() == bps && final(self).spec_r()
                    == old(self).spec_r() && final(self).spec_clip() == old(self).spec_clip()
            } else {
                res == Err::<(), ()>(()) && *final(self) == *old(self)
            },
    {
        if bps == 8 || bps == 16 || bps == 24 {
            self.bps = bps;
            Ok(())
        } else {
            Err(())
        }
    }

    /// Sets the sampling rate.
    pub fn r(&mut self, r: u32)
        ensures
            final(self).spec_r() == r,
            final(self).spec_bps() == old(self).spec_bps(),
            final(self).spec_clip() == old(self).spec_clip(),
    {
        self.r = r;
    }

    /// Sets whether samples outside `[-1, 1]` will be clipped.
    pub fn clip(&mut self, clip: bool)
        ensures
            final(self).spec_clip() == clip,
            final(self).spec_bps() == old(self).spec_bps(),
            final(self).spec_r() == old(self).spec_r(),
    {
        self.clip = clip;
    }

    /// Encodes the given tracks under these options: the tracks — clipped
    /// into `[-1, 1]` first when clipping is on — encode exactly as
    /// [`write_wav`] describes, at the chosen bit depth and rate.
    #[verifier::rlimit(80)]
    #[verifier::spinoff_prover]
    pub fn write(&self, tracks: &Vec<Vec<Sample>>) -> (res: Result<Vec<u8>, WavError>)
        requires
            tracks@.len() * 3 <= u16::MAX,
            tracks@.len() > 0 ==> tracks@[0]@.len() * tracks@.len() * 3 + 44 <= u32::MAX,
            self.spec_r() * tracks@.len() * 3 <= u32::MAX,
        ensures
            ({
                let ts0 = tracks@.map_values(|t: Vec<Sample>| t@);
                let ts = if self.spec_clip() {
                    clipped_tracks(ts0)
                } else {
                    ts0
                };
                wav_write_result(ts, self.spec_bps() as int, self.spec_r() as int, res)
            }),
    {
        let ghost ts0 = tracks@.map_values(|t: Vec<Sample>| t@);
        let ghost tsx = if self.spec_clip() {
            clipped_tracks(ts0)
        } else {
            ts0
        };
        if !self.clip {
            let res = write_wav(tracks, self.bps, self.r);
            proof {
                assert(tsx == ts0);
            }
            return res;
        }
        let mut clipped: Vec<Vec<Sample>> = Vec::new();
        let mut t: usize = 0;
        while t < tracks.len()
            invariant
                t <= tracks@.len(),
                ts0 == tracks@.map_values(|tr: Vec<Sample>| tr@),
                clipped@.len() == t,
                forall|q: int|
                    0 <= q < t ==> (#[trigger] clipped@[q])@ == ts0[q].map_values(
                        |x: Sample| clip_sample(x),
                    ),
            decreases tracks@.len() - t,
        {
            let mut tr: Vec<Sample> = Vec::new();
            let n = tracks[t].len();
            let mut k: usize = 0;
            while k < n
                invariant
                    t < tracks@.len(),
                    ts0 == tracks@.map_values(|trr: Vec<Sample>| trr@),
                    k <= n,
                    n == ts0[t as int].len(),
                    tr@.len() == k,
                    forall|q: int| 0 <= q < k ==> tr@[q] == clip_sample(ts0[t as int][q]),
                decreases n - k,
            {
                let x = tracks[t][k];
                let y = if x.bits() > FP_ONE {
                    Sample::from_bits(FP_ONE)
                } else if x.bits() < -FP_ONE {
                    Sample::from_bits(-FP_ONE)
                } else {
                    x
                };
                tr.push(y);
                k = k + 1;
            }
            clipped.push(tr);
            proof {
                assert(clipped@[t as int]@ =~= ts0[t as int].map_values(
                    |x: Sample| clip_sample(x),
                ));
            }
            t = t + 1;
        }
        let res = write_wav(&clipped, self.bps, self.r);
        proof {
            assert(clipped@.map_values(|tr: Vec<Sample>| tr@) =~= clipped_tracks(ts0));
            assert(tsx == clipped_tracks(ts0));
        }
        res
    }
}

} // verus!
