//! # Utils
//!
//! Audio-related helper functions: linear interpolation, clamping, and
//! conversions between sample counts and clock time.

use vstd::prelude::*;
use crate::sample_format::{Sample, tdiv, clamp_int, sat_i64};

verus! {

/// The exact value of a linear interpolation `(y - y1) = m * (x - x1)` at
/// `x`: the rise is multiplied out before the one truncating division by
/// the run, so both endpoints are exact.
pub open spec fn spec_lerp(x: int, x1: int, x2: int, y1: int, y2: int) -> int {
    tdiv((y2 - y1) * (x - x1), x2 - x1) + y1
}

/// At its endpoints an interpolation is exact: `x1` maps to `y1` and `x2`
/// to `y2`.
pub proof fn lemma_lerp_endpoints(x1: int, x2: int, y1: int, y2: int)
    requires
        x1 != x2,
    ensures
        spec_lerp(x1, x1, x2, y1, y2) == y1,
        spec_lerp(x2, x1, x2, y1, y2) == y2,
{
    assert(tdiv((y2 - y1) * (x1 - x1), x2 - x1) == 0) by (nonlinear_arith)
        requires
            x1 != x2,
    ;
    assert(tdiv((y2 - y1) * (x2 - x1), x2 - x1) == y2 - y1) by (nonlinear_arith)
        requires
            x1 != x2,
    ;
}

/// Linear interpolation of a given value.
pub fn lerp(x: i64, x1: i64, x2: i64, y1: i64, y2: i64) -> (r: i64)
    requires
        x1 != x2,
        i64::MIN <= tdiv((y2 - y1) * (x - x1), x2 - x1) <= i64::MAX,
        i64::MIN <= spec_lerp(x as int, x1 as int, x2 as int, y1 as int, y2 as int) <= i64::MAX,
    ensures
        r == spec_lerp(x as int, x1 as int, x2 as int, y1 as int, y2 as int),
{
    let dy: i128 = (y2 as i128) - (y1 as i128);
    let dxx: i128 = (x as i128) - (x1 as i128);
    let dx: i128 = (x2 as i128) - (x1 as i128);
    let ady: u128 = (if dy < 0 {
        -dy
    } else {
        dy
    }) as u128;
    let adxx: u128 = (if dxx < 0 {
        -dxx
    } else {
        dxx
    }) as u128;
    let mag_run: u128 = (if dx < 0 {
        -dx
    } else {
        dx
    }) as u128;
    proof {
        assert(ady * adxx <= u128::MAX) by (nonlinear_arith)
            requires
                0 <= ady <= 18446744073709551615,
                0 <= adxx <= 18446744073709551615,
        ;
    }
    let mag_rise: u128 = ady * adxx;
    let mq: u128 = mag_rise / mag_run;
    let negate = (mq > 0) && (((dy < 0) != (dxx < 0)) != (dx < 0));
    proof {
        let a = (y2 - y1) * (x - x1);
        let b = x2 as int - x1 as int;
        assert(a == dy * dxx);
        assert((a < 0 <==> (dy < 0 <==> dxx >= 0) && dy != 0 && dxx != 0) && mag_rise == (if a >= 0 {
            a
        } else {
            -a
        })) by (nonlinear_arith)
            requires
                a == dy * dxx,
                mag_rise == ady * adxx,
                ady == (if dy < 0 {
                    -dy as int
                } else {
                    dy as int
                }),
                adxx == (if dxx < 0 {
                    -dxx as int
                } else {
                    dxx as int
                }),
        ;
        assert(mag_run == (if b >= 0 {
            b
        } else {
            -b
        }));
        assert(mq == mag_rise as int / mag_run as int);
        if negate {
            assert(tdiv(a, b) == -(mq as int));
        } else {
            assert(tdiv(a, b) == mq as int);
        }
    }
    let q: i128 = if negate {
        -(mq as i128)
    } else {
        mq as i128
    };
    (q + (y1 as i128)) as i64
}

/// Clamps `x` into the range `[x1, x2]`; the bounds are swapped first if
/// given in reverse.
pub fn clamp(x: i64, x1: i64, x2: i64) -> (r: i64)
    ensures
        ({
            let lo = if x1 > x2 { x2 as int } else { x1 as int };
            let hi = if x1 > x2 { x1 as int } else { x2 as int };
            r == clamp_int(x as int, lo, hi)
        }),
{
    let (lo, hi) = if x1 > x2 {
        (x2, x1)
    } else {
        (x1, x2)
    };
    if x > hi {
        hi
    } else if x < lo {
        lo
    } else {
        x
    }
}

/// Clamped linear interpolation: the input `x` is clamped into `[x1, x2]`
/// (swapped if given in reverse) before interpolating.
pub fn clerp(x: i64, x1: i64, x2: i64, y1: i64, y2: i64) -> (r: i64)
    requires
        x1 != x2,
        ({
            let lo = if x1 > x2 { x2 as int } else { x1 as int };
            let hi = if x1 > x2 { x1 as int } else { x2 as int };
            let cx = clamp_int(x as int, lo, hi);
            &&& i64::MIN <= tdiv((y2 - y1) * (cx - x1), x2 - x1) <= i64::MAX
            &&& i64::MIN <= spec_lerp(cx, x1 as int, x2 as int, y1 as int, y2 as int) <= i64::MAX
        }),
    ensures
        ({
            let lo = if x1 > x2 { x2 as int } else { x1 as int };
            let hi = if x1 > x2 { x1 as int } else { x2 as int };
            r == spec_lerp(
                clamp_int(x as int, lo, hi),
                x1 as int,
                x2 as int,
                y1 as int,
                y2 as int,
            )
        }),
{
    lerp(clamp(x, x1, x2), x1, x2, y1, y2)
}

/// Converts a sample count at the given sampling rate to clock time, as
/// whole seconds and the remaining nanoseconds (truncated).
pub fn samples_to_seconds(s: usize, rate: u32) -> (r: (u64, u32))
    requires
        rate > 0,
        s <= u64::MAX,
    ensures
        r.0 == s as int / rate as int,
        r.1 == (s as int % rate as int) * 1000000000 / rate as int,
        r.1 < 1000000000,
{
    let s64 = s as u64;
    let r64 = rate as u64;
    let secs = s64 / r64;
    let rem = s64 % r64;
    proof {
        let top = (r64 - 1) as int * 1000000000;
        assert(rem * 1000000000 <= top && top / (r64 as int) < 1000000000) by (nonlinear_arith)
            requires
                0 <= rem < r64,
                r64 >= 1,
                top == (r64 - 1) as int * 1000000000,
        ;
        assert((rem * 1000000000) as int / (r64 as int) <= top / (r64 as int)) by (nonlinear_arith)
            requires
                r64 >= 1,
                0 <= rem * 1000000000 <= top,
        ;
    }
    let nanos = (rem * 1000000000) / r64;
    (secs, nanos as u32)
}

/// Converts clock time at the given sampling rate to a sample count,
/// rounded to the nearest sample.
pub fn seconds_to_samples(secs: u64, nanos: u32, rate: u32) -> (r: usize)
    requires
        nanos < 1000000000,
        secs * rate + (nanos * rate + 500000000) / 1000000000 <= usize::MAX,
    ensures
        r == secs * rate + (nanos * rate + 500000000) as int / 1000000000,
{
    proof {
        assert(secs * rate <= u64::MAX && nanos as int * rate as int + 500000000 <= u64::MAX
            && (nanos as int * rate as int + 500000000) / 1000000000 >= 0) by (nonlinear_arith)
            requires
                secs * rate + (nanos as int * rate as int + 500000000) / 1000000000 <= usize::MAX,
                usize::MAX <= u64::MAX,
                nanos < 1000000000,
                0 <= secs,
                0 <= rate <= u32::MAX,
                0 <= nanos,
        ;
    }
    let whole: u64 = secs * (rate as u64);
    let frac: u64 = ((nanos as u64) * (rate as u64) + 500000000) / 1000000000;
    (whole + frac) as usize
}


/// The sum of a track's raw sample values.
pub open spec fn track_sum(t: Seq<Sample>) -> int
    decreases t.len(),
{
    if t.len() == 0 {
        0
    } else {
        track_sum(t.drop_last()) + t.last().v
    }
}

/// The largest absolute deviation of a track's samples from `dc`.
pub open spec fn peak_dev(t: Seq<Sample>, dc: int) -> int
    decreases t.len(),
{
    if t.len() == 0 {
        0
    } else {
        let rest = peak_dev(t.drop_last(), dc);
        let d = if t.last().v >= dc {
            t.last().v - dc
        } else {
            dc - t.last().v
        };
        if d > rest {
            d
        } else {
            rest
        }
    }
}

/// One sample normalized: its deviation from the track's offset `dc`,
/// rescaled so a deviation of `peak` lands exactly on the target peak
/// amplitude `g`, saturating at the representable range.
pub open spec fn norm_sample(s: Sample, dc: int, peak: int, g: int) -> Sample
    recommends
        peak > 0,
{
    Sample { v: sat_i64(tdiv((s.v - dc) * g, peak)) as i64 }
}

/// Normalizes the given track in place so that its peak deviation from its
/// own constant offset lands exactly on the target peak amplitude `gain`:
/// the offset (the truncated mean) is removed and every deviation is
/// rescaled by `gain / peak`. An empty or constant track — one with no
/// deviation to rescale — is left unchanged.
///
/// The target peak is a linear amplitude; a host working in dBFS converts
/// before calling.
#[verifier::loop_isolation(false)]
pub fn normalize(gain: Sample, t: &mut Vec<Sample>)
    ensures
        ({
            let dc = tdiv(track_sum(old(t)@), old(t)@.len() as int);
            let peak = peak_dev(old(t)@, dc);
            if old(t)@.len() == 0 || peak == 0 {
                final(t)@ == old(t)@
            } else {
                final(t)@ == old(t)@.map_values(
                    |s: Sample| norm_sample(s, dc, peak, gain.v as int),
                )
            }
        }),
{
    let n = t.len();
    if n == 0 {
        return ;
    }

    // The track's constant offset: the truncated mean.
    let mut acc: i128 = 0;
    let mut i: usize = 0;
    while i < n
        invariant
            i <= n,
            acc == track_sum(t@.take(i as int)),
            -(i as int) * 9223372036854775808 <= acc <= (i as int) * 9223372036854775807,
        decreases n - i,
    {
        proof {
            assert(t@.take(i as int + 1).drop_last() =~= t@.take(i as int));
        }
        acc = acc + (t[i].v as i128);
        i = i + 1;
    }
    proof {
        assert(t@.take(n as int) =~= t@);
    }
    let nn: i128 = n as i128;
    let dc: i128 = if acc >= 0 {
        acc / nn
    } else {
        -((-acc) / nn)
    };
    proof {
        assert(dc == tdiv(track_sum(t@), n as int));
        let a = acc as int;
        let ni = n as int;
        assert(a >= 0 ==> a / ni <= 9223372036854775807) by (nonlinear_arith)
            requires
                ni >= 1,
                a <= ni * 9223372036854775807,
        ;
        assert(a < 0 ==> (-a) / ni <= 9223372036854775808) by (nonlinear_arith)
            requires
                ni >= 1,
                -a <= ni * 9223372036854775808,
        ;
        assert(-9223372036854775808 <= dc <= 9223372036854775807);
    }

    // The peak deviation from the offset.
    let mut peak: i128 = 0;
    let mut j: usize = 0;
    while j < n
        invariant
            j <= n,
            peak == peak_dev(t@.take(j as int), dc as int),
            0 <= peak <= 18446744073709551615,
        decreases n - j,
    {
        proof {
            assert(t@.take(j as int + 1).drop_last() =~= t@.take(j as int));
        }
        let d: i128 = (t[j].v as i128) - dc;
        let ad: i128 = if d < 0 {
            -d
        } else {
            d
        };
        if ad > peak {
            peak = ad;
        }
        j = j + 1;
    }
    proof {
        assert(t@.take(n as int) =~= t@);
    }
    if peak == 0 {
        return ;
    }

    // Rescale every deviation so the peak lands on the target amplitude.
    let ghost before = t@;
    let mut k: usize = 0;
    while k < n
        invariant
            k <= n,
            t@.len() == n,
            peak == peak_dev(before, dc as int),
            0 < peak <= 18446744073709551615,
            forall|q: int| k <= q < n ==> t@[q] == before[q],
            forall|q: int|
                0 <= q < k ==> t@[q] == norm_sample(before[q], dc as int, peak as int, gain.v as int),
        decreases n - k,
    {
        let d: i128 = (t[k].v as i128) - dc;
        proof {
            assert(d * (gain.v as int) < i128::MAX && d * (gain.v as int) > i128::MIN) by (
            nonlinear_arith)
                requires
                    -18446744073709551615 <= d <= 18446744073709551615,
                    -9223372036854775808 <= gain.v <= 9223372036854775807,
            ;
        }
        let p: i128 = d * (gain.v as i128);
        let q: i128 = if p >= 0 {
            p / peak
        } else {
            -((-p) / peak)
        };
        let v: i64 = if q > i64::MAX as i128 {
            i64::MAX
        } else if q < i64::MIN as i128 {
            i64::MIN
        } else {
            q as i64
        };
        t[k] = Sample { v };
        k = k + 1;
    }
    proof {
        assert(t@ =~= before.map_values(
            |s: Sample| norm_sample(s, dc as int, peak as int, gain.v as int),
        ));
    }
}

} // verus!
