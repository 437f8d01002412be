//! # Sample Format
//!
//! The engine's audio sample types.
//!
//! A [`Sample`] is one monophonic audio value, stored as a signed 64-bit
//! fixed-point number with [`FP_ONE`] representing full scale (an amplitude
//! of one). All arithmetic saturates at the representable range, so every
//! operation is total and exactly described by its contract.

use vstd::prelude::*;

verus! {

/// The fixed-point representation of an amplitude of one: `1 << 24`.
pub const FP_ONE: i64 = 16777216;

/// Clamps an unbounded integer into the range representable by `i64`.
pub open spec fn sat_i64(x: int) -> int {
    if x > i64::MAX as int {
        i64::MAX as int
    } else if x < i64::MIN as int {
        i64::MIN as int
    } else {
        x
    }
}

/// Division truncating toward zero, the semantics of fixed-point scaling.
pub open spec fn tdiv(a: int, b: int) -> int
    recommends
        b != 0,
{
    if a >= 0 {
        if b >= 0 {
            a / b
        } else {
            -(a / (-b))
        }
    } else {
        if b >= 0 {
            -((-a) / b)
        } else {
            (-a) / (-b)
        }
    }
}

/// The exact value of a saturating fixed-point multiply: the product of the
/// two operands rescaled by [`FP_ONE`] and clamped into `i64`.
pub open spec fn fp_mul(a: int, b: int) -> int {
    sat_i64(tdiv(a * b, FP_ONE as int))
}

/// A monophonic audio sample: a signed fixed-point amplitude where
/// [`FP_ONE`] is full scale.
#[derive(Clone, Copy, PartialEq, Eq, Structural, Debug)]
pub struct Sample {
    /// The raw fixed-point value.
    pub v: i64,
}

impl Sample {
    /// The zero (silent) sample.
    pub fn zero() -> (r: Sample)
        ensures
            r == Sample::spec_zero(),
    {
        Sample { v: 0 }
    }

    /// The zero (silent) sample, as a specification value.
    pub open spec fn spec_zero() -> Sample {
        Sample { v: 0 }
    }

    /// Builds a sample from its raw fixed-point value.
    pub fn from_bits(v: i64) -> (r: Sample)
        ensures
            r.v == v,
    {
        Sample { v }
    }

    /// The raw fixed-point value of the sample.
    pub fn bits(self) -> (r: i64)
        ensures
            r == self.v,
    {
        self.v
    }

    /// Saturating sample addition.
    pub fn add(self, o: Sample) -> (r: Sample)
        ensures
            r.v as int == sat_i64(self.v + o.v),
    {
        match self.v.checked_add(o.v) {
            Some(s) => Sample { v: s },
            None => {
                if self.v >= 0 {
                    Sample { v: i64::MAX }
                } else {
                    Sample { v: i64::MIN }
                }
            },
        }
    }

    /// Saturating sample subtraction.
    pub fn sub(self, o: Sample) -> (r: Sample)
        ensures
            r.v as int == sat_i64(self.v - o.v),
    {
        match self.v.checked_sub(o.v) {
            Some(s) => Sample { v: s },
            None => {
                if self.v >= 0 {
                    Sample { v: i64::MAX }
                } else {
                    Sample { v: i64::MIN }
                }
            },
        }
    }

    /// Saturating negation.
    pub fn neg(self) -> (r: Sample)
        ensures
            r.v as int == sat_i64(-self.v),
    {
        match 0i64.checked_sub(self.v) {
            Some(s) => Sample { v: s },
            None => Sample { v: i64::MAX },
        }
    }

    /// Saturating fixed-point multiplication: amplitudes multiply, so a
    /// full-scale operand leaves the other operand unchanged.
    pub fn mul(self, o: Sample) -> (r: Sample)
        ensures
            r.v as int == fp_mul(self.v as int, o.v as int),
    {
        assert((self.v as int) * (o.v as int) <= i128::MAX && (self.v as int) * (o.v as int)
            >= i128::MIN) by (nonlinear_arith)
            requires
                i64::MIN <= self.v <= i64::MAX,
                i64::MIN <= o.v <= i64::MAX,
        ;
        let prod: i128 = (self.v as i128) * (o.v as i128);
        let q: i128 = prod / (FP_ONE as i128);
        if q > i64::MAX as i128 {
            Sample { v: i64::MAX }
        } else if q < i64::MIN as i128 {
            Sample { v: i64::MIN }
        } else {
            Sample { v: q as i64 }
        }
    }
}

/// Division rounding half away from zero, the semantics of quantizing a
/// sample to integer PCM.
pub open spec fn rdiv(a: int, b: int) -> int
    recommends
        b > 0,
{
    if a >= 0 {
        (a + b / 2) / b
    } else {
        -((-a + b / 2) / b)
    }
}

/// Clamps an unbounded integer into an inclusive range.
pub open spec fn clamp_int(x: int, lo: int, hi: int) -> int {
    if x < lo {
        lo
    } else if x > hi {
        hi
    } else {
        x
    }
}

/// The exact PCM value an 8-bit encode produces: the amplitude rescaled by
/// the 8-bit full scale of 128, rounded, rebased to the unsigned midpoint
/// 128 and clamped to one byte.
pub open spec fn spec_sample_to_u8(s: Sample) -> int {
    clamp_int(rdiv(s.v as int, 131072) + 128, 0, 255)
}

/// The exact PCM value a 16-bit encode produces: the amplitude rescaled by
/// the 16-bit full scale of `1 << 15`, rounded and clamped.
pub open spec fn spec_sample_to_i16(s: Sample) -> int {
    clamp_int(rdiv(s.v as int, 512), i16::MIN as int, i16::MAX as int)
}

/// The exact PCM value a 24-bit encode produces: the amplitude rescaled by
/// the 24-bit full scale of `1 << 23`, rounded and clamped.
pub open spec fn spec_sample_to_i24(s: Sample) -> int {
    clamp_int(rdiv(s.v as int, 2), -8388608, 8388607)
}

/// Converts an unsigned 8-bit PCM value (midpoint 128) to a sample;
/// one PCM step is `FP_ONE / 128` amplitude units.
pub fn sample_from_u8(v: u8) -> (r: Sample)
    ensures
        r.v as int == (v as int - 128) * 131072,
{
    Sample { v: (v as i64 - 128) * 131072 }
}

/// Quantizes a sample to unsigned 8-bit PCM, rounding and clamping.
pub fn sample_to_u8(s: Sample) -> (r: u8)
    ensures
        r as int == spec_sample_to_u8(s),
{
    let q: i64 = if s.v >= 0 {
        (s.v / 131072) + (if s.v % 131072 >= 65536 { 1 } else { 0 })
    } else {
        let m: i128 = -(s.v as i128);
        (-((m / 131072) + (if m % 131072 >= 65536 { 1 } else { 0 }))) as i64
    };
    let b: i64 = q + 128;
    if b < 0 {
        0
    } else if b > 255 {
        255
    } else {
        b as u8
    }
}

/// Converts a signed 16-bit PCM value to a sample; one PCM step is
/// `FP_ONE / (1 << 15)` amplitude units.
pub fn sample_from_i16(v: i16) -> (r: Sample)
    ensures
        r.v as int == v as int * 512,
{
    Sample { v: (v as i64) * 512 }
}

/// Quantizes a sample to signed 16-bit PCM, rounding and clamping.
pub fn sample_to_i16(s: Sample) -> (r: i16)
    ensures
        r as int == spec_sample_to_i16(s),
{
    let q: i64 = if s.v >= 0 {
        (s.v / 512) + (if s.v % 512 >= 256 { 1 } else { 0 })
    } else {
        let m: i128 = -(s.v as i128);
        (-((m / 512) + (if m % 512 >= 256 { 1 } else { 0 }))) as i64
    };
    if q < i16::MIN as i64 {
        i16::MIN
    } else if q > i16::MAX as i64 {
        i16::MAX
    } else {
        q as i16
    }
}

/// Converts a signed 24-bit PCM value (stored sign-extended in an `i32`)
/// to a sample; one PCM step is `FP_ONE / (1 << 23)` amplitude units.
pub fn sample_from_i24(v: i32) -> (r: Sample)
    requires
        -8388608 <= v <= 8388607,
    ensures
        r.v as int == v as int * 2,
{
    Sample { v: (v as i64) * 2 }
}

/// Quantizes a sample to signed 24-bit PCM, rounding and clamping.
pub fn sample_to_i24(s: Sample) -> (r: i32)
    ensures
        r as int == spec_sample_to_i24(s),
        -8388608 <= r <= 8388607,
{
    let q: i64 = if s.v >= 0 {
        (s.v / 2) + (if s.v % 2 >= 1 { 1 } else { 0 })
    } else {
        let m: i128 = -(s.v as i128);
        (-((m / 2) + (if m % 2 >= 1 { 1 } else { 0 }))) as i64
    };
    if q < -8388608 {
        -8388608
    } else if q > 8388607 {
        8388607
    } else {
        q as i32
    }
}



    /// The fixed-point value of `sqrt(1/2)`: the equal-power pan weight and
    /// the half-power mono recovery weight.
    pub const SQRT_HALF_FP: i64 = 11863283;

    /// The interface every polyphonic sample layout offers: conversion to and
    /// from a monophonic sample, and its width in mono samples.
    pub trait SampleFormat: Sized {
        /// Builds the layout from one monophonic sample, splitting its power
        /// equally across the layout's channels.
        fn from_mono(x: Sample) -> Self;

        /// Reduces the layout to one monophonic sample, recovering the power
        /// spread across the layout's channels.
        fn into_mono(self) -> Sample;

        /// The number of monophonic samples the layout holds.
        fn num_samples() -> usize;
    }

    /// A monophonic sample layout: a single channel.
    #[derive(Clone, Copy, PartialEq, Eq, Structural, Debug)]
    pub struct Mono {
        /// The single channel's value.
        pub m: Sample,
    }

    impl SampleFormat for Mono {
        fn from_mono(x: Sample) -> (r: Self)
            ensures
                r.m == x,
        {
            Mono { m: x }
        }

        fn into_mono(self) -> (r: Sample)
            ensures
                r == self.m,
        {
            self.m
        }

        fn num_samples() -> (r: usize)
            ensures
                r == 1,
        {
            1
        }
    }

    /// A stereophonic sample layout: a left and a right channel.
    #[derive(Clone, Copy, PartialEq, Eq, Structural, Debug)]
    pub struct Stereo {
        /// The left channel's value.
        pub left: Sample,
        /// The right channel's value.
        pub right: Sample,
    }

    impl Stereo {
        /// Builds a stereo value from individual left and right samples.
        pub fn from_stereo(l: Sample, r: Sample) -> (s: Stereo)
            ensures
                s.left == l,
                s.right == r,
        {
            Stereo { left: l, right: r }
        }

        /// Copies one sample into both channels unscaled.
        pub fn single_stereo(x: Sample) -> (s: Stereo)
            ensures
                s.left == x,
                s.right == x,
        {
            Stereo { left: x, right: x }
        }

        /// Channel-wise saturating addition.
        pub fn add(self, o: Stereo) -> (r: Stereo)
            ensures
                r.left.v as int == sat_i64(self.left.v + o.left.v),
                r.right.v as int == sat_i64(self.right.v + o.right.v),
        {
            Stereo { left: self.left.add(o.left), right: self.right.add(o.right) }
        }

        /// Channel-wise saturating subtraction.
        pub fn sub(self, o: Stereo) -> (r: Stereo)
            ensures
                r.left.v as int == sat_i64(self.left.v - o.left.v),
                r.right.v as int == sat_i64(self.right.v - o.right.v),
        {
            Stereo { left: self.left.sub(o.left), right: self.right.sub(o.right) }
        }

        /// Channel-wise saturating negation.
        pub fn neg(self) -> (r: Stereo)
            ensures
                r.left.v as int == sat_i64(-self.left.v),
                r.right.v as int == sat_i64(-self.right.v),
        {
            Stereo { left: self.left.neg(), right: self.right.neg() }
        }

        /// Scales both channels by a monophonic gain.
        pub fn scale(self, g: Sample) -> (r: Stereo)
            ensures
                r.left.v as int == fp_mul(self.left.v as int, g.v as int),
                r.right.v as int == fp_mul(self.right.v as int, g.v as int),
        {
            Stereo { left: self.left.mul(g), right: self.right.mul(g) }
        }
    }

    impl SampleFormat for Stereo {
        /// Splits a mono sample into both channels at equal power: each
        /// channel carries the sample scaled by `sqrt(1/2)`.
        fn from_mono(x: Sample) -> (r: Self)
            ensures
                r.left.v as int == fp_mul(x.v as int, SQRT_HALF_FP as int),
                r.right.v as int == fp_mul(x.v as int, SQRT_HALF_FP as int),
        {
            let h = x.mul(Sample { v: SQRT_HALF_FP });
            Stereo { left: h, right: h }
        }

        /// Reduces the two channels to one mono sample as a half-power sum:
        /// the channel sum scaled by `sqrt(1/2)`, so that a sample split by
        /// `from_mono` comes back at its original power.
        fn into_mono(self) -> (r: Sample)
            ensures
                r.v as int == fp_mul(sat_i64(self.left.v + self.right.v), SQRT_HALF_FP as int),
        {
            self.left.add(self.right).mul(Sample { v: SQRT_HALF_FP })
        }

        fn num_samples() -> (r: usize)
            ensures
                r == 2,
        {
            2
        }
    }

    

/// Quantization round trip: a sample within full scale that is quantized
/// to 16-bit PCM and mapped back differs from the original by at most one
/// PCM step of `FP_ONE / (1 << 15)` amplitude units.
pub proof fn lemma_pcm16_round_trip(s: Sample)
    requires
        -FP_ONE <= s.v <= FP_ONE,
    ensures
        ({
            let back = spec_sample_to_i16(s) * 512;
            -512 <= back - s.v <= 512
        }),
{
    if s.v >= 0 {
        let a = s.v as int;
        let q0 = (a + 256) / 512;
        assert(512 * q0 <= a + 256 && a + 256 < 512 * q0 + 512 && 0 <= q0 && q0 <= 32768) by (
        nonlinear_arith)
            requires
                q0 == (a + 256) / 512,
                0 <= a <= FP_ONE,
        ;
    } else {
        let m = -(s.v as int);
        let q0 = (m + 256) / 512;
        assert(512 * q0 <= m + 256 && m + 256 < 512 * q0 + 512 && 0 <= q0 && q0 <= 32768) by (
        nonlinear_arith)
            requires
                q0 == (m + 256) / 512,
                0 <= m <= FP_ONE,
        ;
    }
}


/// Converts one raw byte of unsigned 8-bit PCM to a sample.
pub fn sample_from_u8_bytes(v: [u8; 1]) -> (r: Sample)
    ensures
        r.v as int == (v[0] - 128) * 131072,
{
    sample_from_u8(v[0])
}

/// Converts a sample to one raw byte of unsigned 8-bit PCM.
pub fn sample_to_u8_bytes(s: Sample) -> (r: [u8; 1])
    ensures
        r[0] as int == spec_sample_to_u8(s),
{
    [sample_to_u8(s)]
}

/// Converts two raw little-endian bytes of signed 16-bit PCM to a sample.
pub fn sample_from_i16_bytes(v: [u8; 2]) -> (r: Sample)
    ensures
        ({
            let u = v[0] + 256 * v[1];
            let sv = if u >= 32768 {
                u - 65536
            } else {
                u as int
            };
            r.v as int == sv * 512
        }),
{
    let u: u32 = (v[0] as u32) + 256 * (v[1] as u32);
    if u >= 32768 {
        sample_from_i16((u as i32 - 65536) as i16)
    } else {
        sample_from_i16(u as i16)
    }
}

/// Converts a sample to two raw little-endian bytes of signed 16-bit PCM.
pub fn sample_to_i16_bytes(s: Sample) -> (r: [u8; 2])
    ensures
        ({
            let u = if spec_sample_to_i16(s) < 0 {
                spec_sample_to_i16(s) + 65536
            } else {
                spec_sample_to_i16(s)
            };
            r[0] == u % 256 && r[1] == u / 256
        }),
{
    let p = sample_to_i16(s);
    let u: u32 = if p < 0 {
        (p as i32 + 65536) as u32
    } else {
        p as u32
    };
    [(u % 256) as u8, (u / 256) as u8]
}

/// Converts three raw little-endian bytes of signed 24-bit PCM to a sample.
pub fn sample_from_i24_bytes(v: [u8; 3]) -> (r: Sample)
    ensures
        ({
            let u = v[0] + 256 * v[1] + 65536 * v[2];
            let sv = if u >= 8388608 {
                u - 16777216
            } else {
                u as int
            };
            r.v as int == sv * 2
        }),
{
    let u: u32 = (v[0] as u32) + 256 * (v[1] as u32) + 65536 * (v[2] as u32);
    if u >= 8388608 {
        sample_from_i24(u as i32 - 16777216)
    } else {
        sample_from_i24(u as i32)
    }
}

/// Converts a sample to three raw little-endian bytes of signed 24-bit PCM.
pub fn sample_to_i24_bytes(s: Sample) -> (r: [u8; 3])
    ensures
        ({
            let u = if spec_sample_to_i24(s) < 0 {
                spec_sample_to_i24(s) + 16777216
            } else {
                spec_sample_to_i24(s)
            };
            r[0] == u % 256 && r[1] == (u / 256) % 256 && r[2] == u / 65536
        }),
{
    let p = sample_to_i24(s);
    let u: u32 = if p < 0 {
        (p + 16777216) as u32
    } else {
        p as u32
    };
    [(u % 256) as u8, ((u / 256) % 256) as u8, (u / 65536) as u8]
}

} // verus!
