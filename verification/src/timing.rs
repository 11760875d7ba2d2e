//! From seconds and beats to samples. A sample index is a `u64`; a time that
//! lies beyond the last index is held at the last index.

use vstd::prelude::*;
use crate::fixed::Fixed;

verus! {

/// `v` brought into the range of `u64`.
pub open spec fn held(v: int) -> u64 {
    if v < 0 {
        0u64
    } else if v > u64::MAX {
        u64::MAX
    } else {
        v as u64
    }
}

/// The samples in `seconds` at `rate` samples per second, rounded down. A
/// negative time has none.
pub open spec fn floor_samples(seconds: Fixed, rate: u32) -> int {
    if seconds.micros <= 0 {
        0
    } else {
        seconds.micros * rate / 1_000_000
    }
}

/// The samples in `seconds` at `rate` samples per second, rounded up. A
/// negative time has none.
pub open spec fn ceil_samples(seconds: Fixed, rate: u32) -> int {
    if seconds.micros <= 0 {
        0
    } else {
        (seconds.micros * rate + 999_999) / 1_000_000
    }
}

/// The samples in `beats` at `tempo` beats per minute and `rate` samples per
/// second, rounded down: a beat lasts `60 / tempo` seconds. Nothing sounds at
/// a tempo of zero or less, and a negative length has no samples.
pub open spec fn beat_samples(beats: Fixed, tempo: Fixed, rate: u32) -> int {
    if beats.micros <= 0 || tempo.micros <= 0 {
        0
    } else {
        beats.micros * 60 * rate / (tempo.micros as int)
    }
}

/// The second at which the sample `index` is played, in millionths, rounded
/// down.
pub open spec fn micros_at(index: u64, rate: u32) -> int {
    if rate == 0 {
        0
    } else {
        index * 1_000_000 / (rate as int)
    }
}

/// The seconds that `beats` last at `tempo` beats per minute, in millionths,
/// rounded down. Nothing lasts at a tempo of zero or less.
pub open spec fn beat_micros(beats: int, tempo: Fixed) -> int {
    if beats <= 0 || tempo.micros <= 0 {
        0
    } else {
        beats * 60_000_000 / (tempo.micros as int)
    }
}

/// The beats that pass in `micros` millionths of a second at `tempo` beats
/// per minute, in millionths, rounded down.
pub open spec fn beats_in(micros: int, tempo: Fixed) -> int {
    if micros <= 0 || tempo.micros <= 0 {
        0
    } else {
        micros * tempo.micros / 60_000_000
    }
}

/// The samples in `seconds`, rounded down.
pub fn samples_floor(seconds: Fixed, rate: u32) -> (r: u64)
    ensures
        r == held(floor_samples(seconds, rate)),
{
    if seconds.micros <= 0 {
        return 0;
    }
    assert(seconds.micros * rate <= 0x7fff_ffff_ffff_ffff * 0xffff_ffff) by (nonlinear_arith)
        requires
            0 <= seconds.micros <= 0x7fff_ffff_ffff_ffff,
            0 <= rate <= 0xffff_ffff,
    ;
    let exact: u128 = (seconds.micros as u128) * (rate as u128) / 1_000_000;
    if exact > u64::MAX as u128 {
        u64::MAX
    } else {
        exact as u64
    }
}

/// The samples in `seconds`, rounded up.
pub fn samples_ceil(seconds: Fixed, rate: u32) -> (r: u64)
    ensures
        r == held(ceil_samples(seconds, rate)),
{
    if seconds.micros <= 0 {
        return 0;
    }
    assert(seconds.micros * rate <= 0x7fff_ffff_ffff_ffff * 0xffff_ffff) by (nonlinear_arith)
        requires
            0 <= seconds.micros <= 0x7fff_ffff_ffff_ffff,
            0 <= rate <= 0xffff_ffff,
    ;
    let exact: u128 = ((seconds.micros as u128) * (rate as u128) + 999_999) / 1_000_000;
    if exact > u64::MAX as u128 {
        u64::MAX
    } else {
        exact as u64
    }
}

/// The samples in `beats` at `tempo` beats per minute.
pub fn samples_of_beats(beats: Fixed, tempo: Fixed, rate: u32) -> (r: u64)
    ensures
        r == held(beat_samples(beats, tempo, rate)),
{
    if beats.micros <= 0 || tempo.micros <= 0 {
        return 0;
    }
    assert(beats.micros * 60 * rate <= 0x7fff_ffff_ffff_ffff * 60 * 0xffff_ffff)
        by (nonlinear_arith)
        requires
            0 <= beats.micros <= 0x7fff_ffff_ffff_ffff,
            0 <= rate <= 0xffff_ffff,
    ;
    let exact: u128 = (beats.micros as u128) * 60 * (rate as u128) / (tempo.micros as u128);
    if exact > u64::MAX as u128 {
        u64::MAX
    } else {
        exact as u64
    }
}

/// The second at which the sample `index` is played, held to the range of
/// `i64` millionths.
pub fn seconds_at(index: u64, rate: u32) -> (r: Fixed)
    ensures
        r.micros == (if micros_at(index, rate) > i64::MAX {
            i64::MAX as int
        } else {
            micros_at(index, rate)
        }),
{
    if rate == 0 {
        return Fixed { micros: 0 };
    }
    let exact: u128 = (index as u128) * 1_000_000 / (rate as u128);
    if exact > 0x7fff_ffff_ffff_ffff {
        Fixed { micros: 0x7fff_ffff_ffff_ffff }
    } else {
        Fixed { micros: exact as i64 }
    }
}

/// The seconds that `beats` last at `tempo` beats per minute, held to the
/// range of `i64` millionths.
pub fn seconds_of_beats(beats: Fixed, tempo: Fixed) -> (r: Fixed)
    ensures
        r.micros == (if beat_micros(beats.micros as int, tempo) > i64::MAX {
            i64::MAX as int
        } else {
            beat_micros(beats.micros as int, tempo)
        }),
{
    if beats.micros <= 0 || tempo.micros <= 0 {
        return Fixed { micros: 0 };
    }
    let exact: u128 = (beats.micros as u128) * 60_000_000 / (tempo.micros as u128);
    if exact > 0x7fff_ffff_ffff_ffff {
        Fixed { micros: 0x7fff_ffff_ffff_ffff }
    } else {
        Fixed { micros: exact as i64 }
    }
}

} // verus!
