//! Playing a recording at another pitch: which sample of the recording
//! belongs to a moment of a note, and the level between two samples.

use vstd::prelude::*;
use crate::fixed::{cut, cut_div, Fixed};
use crate::instrument::{SampleData, SampleView};

verus! {

/// The position in a recording that belongs to the time `t` of a note, in
/// millionths of a millionth of a sample: the time, times the rate of the
/// recording, times the pitch factor. A negative time or factor counts as
/// zero.
pub open spec fn source_position(t: Fixed, rate: u32, pitch: Fixed) -> int {
    if t.micros <= 0 || pitch.micros <= 0 {
        0
    } else {
        t.micros * rate * pitch.micros
    }
}

/// The level of a recording at the time `t` of a note played at the pitch
/// factor `pitch`, in millionths. With `i` the whole part of the position
/// and `f` its fraction, cut off after the sixth place: past the end of the
/// recording the level is 0; at the last sample it is that sample; else it
/// lies between sample `i` and the next, `f` of the way. A sample `s` stands
/// for the level `s / 32768`.
pub open spec fn interpolated(d: SampleView, t: Fixed, pitch: Fixed) -> int {
    let x = source_position(t, d.sample_rate, pitch);
    let i = x / 1_000_000_000_000;
    let f = (x % 1_000_000_000_000) / 1_000_000;
    if i >= d.samples.len() {
        0
    } else if i == d.samples.len() - 1 {
        cut(d.samples[i] * 1_000_000, 32768)
    } else {
        cut(d.samples[i] * (1_000_000 - f) + d.samples[i + 1] * f, 32768)
    }
}

/// The level of `sample_data` at `time_in_note` seconds into a note that is
/// played `pitch_rate` times as fast as it was recorded.
pub fn interpolate_sample(sample_data: &SampleData, time_in_note: Fixed, pitch_rate: Fixed) -> (r:
    Fixed)
    ensures
        r.micros == interpolated(sample_data@, time_in_note, pitch_rate),
        -1_000_000 <= r.micros <= 1_000_000,
{
    let len: usize = sample_data.samples.len();
    if time_in_note.micros <= 0 || pitch_rate.micros <= 0 {
        if len == 0 {
            return Fixed { micros: 0 };
        }
        proof {
            if len >= 2 {
                let s0 = sample_data.samples@[0] as int;
                let s1 = sample_data.samples@[1] as int;
                assert(s0 * (1_000_000 - 0) + s1 * 0 == s0 * 1_000_000) by (nonlinear_arith);
            }
        }
        return level_of(sample_data.samples[0] as i128 * 1_000_000);
    }
    let t: u128 = time_in_note.micros as u128;
    let p: u128 = pitch_rate.micros as u128;
    assert(t * sample_data.sample_rate <= 0x7fff_ffff_ffff_ffff * 0xffff_ffff) by (nonlinear_arith)
        requires
            0 <= t <= 0x7fff_ffff_ffff_ffff,
            0 <= sample_data.sample_rate <= 0xffff_ffff,
    ;
    let a: u128 = t * (sample_data.sample_rate as u128);
    let ghost x = source_position(time_in_note, sample_data.sample_rate, pitch_rate);
    assert(x == a * p) by (nonlinear_arith)
        requires
            x == t * sample_data.sample_rate * p,
            a == t * sample_data.sample_rate,
    ;
    if a > u128::MAX / p {
        assert(x / 1_000_000_000_000 >= 0x1_0000_0000_0000_0000) by (nonlinear_arith)
            requires
                x == a * p,
                p > 0,
                a > 0xffff_ffff_ffff_ffff_ffff_ffff_ffff_ffffint / (p as int),
        ;
        return Fixed { micros: 0 };
    }
    assert(a * p <= 0xffff_ffff_ffff_ffff_ffff_ffff_ffff_ffff) by (nonlinear_arith)
        requires
            p > 0,
            a <= 0xffff_ffff_ffff_ffff_ffff_ffff_ffff_ffffint / (p as int),
    ;
    let position: u128 = a * p;
    let i: u128 = position / 1_000_000_000_000;
    let f: u128 = (position % 1_000_000_000_000) / 1_000_000;
    if i >= len as u128 {
        return Fixed { micros: 0 };
    }
    let index: usize = i as usize;
    if index == len - 1 {
        level_of(sample_data.samples[index] as i128 * 1_000_000)
    } else {
        let here: i128 = sample_data.samples[index] as i128;
        let next: i128 = sample_data.samples[index + 1] as i128;
        let w: i128 = f as i128;
        assert(-32768 * 1_000_000 <= here * (1_000_000 - w) + next * w <= 32767 * 1_000_000
            && -32768 * 1_000_000 <= here * (1_000_000 - w) <= 32767 * 1_000_000 && -32768
            * 1_000_000 <= next * w <= 32767 * 1_000_000) by (nonlinear_arith)
            requires
                -32768 <= here <= 32767,
                -32768 <= next <= 32767,
                0 <= w <= 1_000_000,
        ;
        level_of(here * (1_000_000 - w) + next * w)
    }
}

/// The level, in millionths, of `n` millionths of a full-scale sample.
fn level_of(n: i128) -> (r: Fixed)
    requires
        -32768 * 1_000_000 <= n <= 32767 * 1_000_000,
    ensures
        r.micros == cut(n as int, 32768),
        -1_000_000 <= r.micros <= 1_000_000,
{
    let q: i128 = cut_div(n, 32768);
    Fixed { micros: q as i64 }
}

} // verus!
