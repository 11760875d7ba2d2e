//! The envelope of a note: how loud it is at each moment, from its attack
//! to its release.

use vstd::prelude::*;
use crate::fixed::{clamp_i64, cut, Fixed};
use crate::instrument::{Instrument, InstrumentView};

verus! {

/// `v`, or 0 where `v` is negative.
pub open spec fn at_least_zero(v: int) -> int {
    if v < 0 {
        0
    } else {
        v
    }
}

/// `v` held to the range from 0 to one million.
pub open spec fn unit(v: int) -> int {
    if v < 0 {
        0
    } else if v > 1_000_000 {
        1_000_000
    } else {
        v
    }
}

/// The level of the envelope at the time `t` of a note that lasts `d`, all
/// in millionths: times in seconds, levels from 0 to 1. With the attack `a`,
/// the decay `dec`, the sustain level `s` and the release `r`, the branches
/// are taken in this order:
/// before `a`, the level rises evenly from 0 to 1;
/// before `a + dec`, it falls evenly from 1 to `s`;
/// before `d - r`, it is `s`;
/// from then on it falls evenly from `s`, to reach 0 after `r`, and goes on
/// below 0. A release of zero length is silent.
pub open spec fn level_at(t: int, d: int, a: int, dec: int, s: int, r: int) -> int {
    if t < a {
        t * 1_000_000 / a
    } else if t < a + dec {
        1_000_000 - (t - a) * (1_000_000 - s) / dec
    } else if t < d - r {
        s
    } else if r <= 0 {
        0
    } else {
        cut(s * (r - (t - (d - r))), r)
    }
}

/// The level of the envelope of `i` at the time `t` of a note that lasts
/// `d`. Negative times count as zero, and the sustain level is held to the
/// range from 0 to 1. The result is held to the range of `i64`.
pub open spec fn envelope_of(t: Fixed, d: Fixed, i: InstrumentView) -> int {
    clamp_i64(
        level_at(
            at_least_zero(t.micros as int),
            at_least_zero(d.micros as int),
            at_least_zero(i.attack.micros as int),
            at_least_zero(i.decay.micros as int),
            unit(i.sustain.micros as int),
            at_least_zero(i.release.micros as int),
        ),
    )
}

fn nonnegative(v: i64) -> (r: i128)
    ensures
        r == at_least_zero(v as int),
{
    if v < 0 {
        0
    } else {
        v as i128
    }
}

/// The level of the envelope of `instr` at `time` seconds into a note that
/// lasts `duration` seconds.
pub fn calculate_envelope(time: Fixed, duration: Fixed, instr: &Instrument) -> (r: Fixed)
    ensures
        r.micros == envelope_of(time, duration, instr@),
{
    let t: i128 = nonnegative(time.micros);
    let d: i128 = nonnegative(duration.micros);
    let a: i128 = nonnegative(instr.attack.micros);
    let dec: i128 = nonnegative(instr.decay.micros);
    let r: i128 = nonnegative(instr.release.micros);
    let s: i128 = if instr.sustain.micros < 0 {
        0
    } else if instr.sustain.micros > 1_000_000 {
        1_000_000
    } else {
        instr.sustain.micros as i128
    };
    if t < a {
        let level: i128 = t * 1_000_000 / a;
        assert(0 <= level <= 1_000_000) by (nonlinear_arith)
            requires
                0 <= t < a,
                level == t * 1_000_000 / (a as int),
        ;
        Fixed { micros: level as i64 }
    } else if t < a + dec {
        assert(0 <= (t - a) * (1_000_000 - s) <= dec * 1_000_000) by (nonlinear_arith)
            requires
                0 <= t - a < dec,
                0 <= 1_000_000 - s <= 1_000_000,
        ;
        let fall: i128 = (t - a) * (1_000_000 - s) / dec;
        assert(0 <= fall <= 1_000_000) by (nonlinear_arith)
            requires
                0 <= (t - a) * (1_000_000 - s) <= dec * 1_000_000,
                dec > 0,
                fall == (t - a) * (1_000_000 - s) / (dec as int),
        ;
        Fixed { micros: (1_000_000 - fall) as i64 }
    } else if t < d - r {
        Fixed { micros: s as i64 }
    } else if r <= 0 {
        Fixed { micros: 0 }
    } else {
        let left: i128 = r - (t - (d - r));
        assert(-0x8000_0000_0000_0000 * 1_000_000 <= s * left <= 0x8000_0000_0000_0000 * 1_000_000)
            by (nonlinear_arith)
            requires
                0 <= s <= 1_000_000,
                -0x8000_0000_0000_0000 <= left <= 0x8000_0000_0000_0000,
        ;
        let n: i128 = s * left;
        if n >= 0 {
            let level: i128 = n / r;
            assert(level <= n) by (nonlinear_arith)
                requires
                    level == (n as int) / (r as int),
                    r >= 1,
                    n >= 0,
            ;
            if level > 0x7fff_ffff_ffff_ffff {
                Fixed { micros: 0x7fff_ffff_ffff_ffff }
            } else {
                Fixed { micros: level as i64 }
            }
        } else {
            let level: i128 = (-n) / r;
            assert(level <= -n) by (nonlinear_arith)
                requires
                    level == (-n) / (r as int),
                    r >= 1,
                    n < 0,
            ;
            if level > 0x8000_0000_0000_0000 {
                Fixed { micros: -0x8000_0000_0000_0000 }
            } else {
                Fixed { micros: (-level) as i64 }
            }
        }
    }
}

/// While a note is held, from the end of the decay to the start of the
/// release, the level of the envelope is the sustain level; and it still is
/// at the moment at which a release of some length starts.
pub proof fn lemma_sustain_level(t: Fixed, d: Fixed, i: InstrumentView)
    requires
        0 <= t.micros,
        0 <= d.micros,
        0 <= i.attack.micros,
        0 <= i.decay.micros,
        0 <= i.release.micros,
        0 <= i.sustain.micros <= 1_000_000,
        i.attack.micros + i.decay.micros <= t.micros <= d.micros - i.release.micros,
        t.micros < d.micros - i.release.micros || i.release.micros > 0,
    ensures
        envelope_of(t, d, i) == i.sustain.micros,
{
    let r = i.release.micros as int;
    let s = i.sustain.micros as int;
    if t.micros == d.micros - i.release.micros {
        assert(s * r / r == s) by (nonlinear_arith)
            requires
                r > 0,
                s >= 0,
        ;
        assert(s * r >= 0) by (nonlinear_arith)
            requires
                r > 0,
                s >= 0,
        ;
        assert(s * (r - (t.micros - (d.micros - r))) == s * r);
    }
}

/// From the start of a note to its end the level lies between 0 and 1,
/// also where attack, decay and release together are longer than the note.
pub proof fn lemma_level_in_range(t: Fixed, d: Fixed, i: InstrumentView)
    requires
        0 <= t.micros <= d.micros,
        0 <= i.attack.micros,
        0 <= i.decay.micros,
        0 <= i.release.micros,
    ensures
        0 <= envelope_of(t, d, i) <= 1_000_000,
{
    let tt = t.micros as int;
    let dd = d.micros as int;
    let a = i.attack.micros as int;
    let dec = i.decay.micros as int;
    let r = i.release.micros as int;
    let s = unit(i.sustain.micros as int);
    if tt < a {
        assert(0 <= tt * 1_000_000 / a <= 1_000_000) by (nonlinear_arith)
            requires
                0 <= tt < a,
        ;
    } else if tt < a + dec {
        assert(0 <= (tt - a) * (1_000_000 - s) <= dec * 1_000_000) by (nonlinear_arith)
            requires
                0 <= tt - a < dec,
                0 <= 1_000_000 - s <= 1_000_000,
        ;
        assert(0 <= (tt - a) * (1_000_000 - s) / dec <= 1_000_000) by (nonlinear_arith)
            requires
                0 <= (tt - a) * (1_000_000 - s) <= dec * 1_000_000,
                dec > 0,
        ;
    } else if tt < dd - r {
    } else if r <= 0 {
    } else {
        let left = r - (tt - (dd - r));
        assert(0 <= left <= r);
        assert(0 <= s * left <= r * 1_000_000) by (nonlinear_arith)
            requires
                0 <= left <= r,
                0 <= s <= 1_000_000,
        ;
        assert(0 <= s * left / r <= 1_000_000) by (nonlinear_arith)
            requires
                0 <= s * left <= r * 1_000_000,
                r > 0,
        ;
    }
}

/// The segments of an envelope.
pub enum Stage {
    Attack,
    Decay,
    Sustain,
    Release,
}

/// The segment in which the time `t` of a note of the length `d` falls, all
/// in millionths of a second, with the attack `a`, the decay `dec` and the
/// release `r`.
pub open spec fn stage_at(t: int, d: int, a: int, dec: int, r: int) -> Stage {
    if t < a {
        Stage::Attack
    } else if t < a + dec {
        Stage::Decay
    } else if t < d - r {
        Stage::Sustain
    } else {
        Stage::Release
    }
}

/// The whole parts of two quotients differ by the quotient of the difference,
/// give or take one.
proof fn lemma_floor_gap(x: int, y: int, d: int)
    requires
        0 <= y <= x,
        d > 0,
    ensures
        0 <= (x / d - y / d) * d < (x - y) + d,
{
    assert(0 <= (x / d - y / d) * d < (x - y) + d) by (nonlinear_arith)
        requires
            0 <= y <= x,
            d > 0,
    ;
}

/// The envelope has no jump within a segment: between two moments of one
/// segment, from the start of a note to its end, the level moves one way,
/// and by less than the slope of the segment times the time between them and
/// one millionth more, which is the rounding. The slopes are `1 / attack`,
/// `(1 - sustain) / decay`, none, and `sustain / release`; a release of no
/// length is silent throughout.
pub proof fn lemma_no_jump_within_a_segment(t1: Fixed, t2: Fixed, d: Fixed, i: InstrumentView)
    requires
        0 <= t1.micros <= t2.micros <= d.micros,
        0 <= i.attack.micros,
        0 <= i.decay.micros,
        0 <= i.release.micros,
        0 <= i.sustain.micros <= 1_000_000,
        stage_at(
            t1.micros as int,
            d.micros as int,
            i.attack.micros as int,
            i.decay.micros as int,
            i.release.micros as int,
        ) == stage_at(
            t2.micros as int,
            d.micros as int,
            i.attack.micros as int,
            i.decay.micros as int,
            i.release.micros as int,
        ),
    ensures
        match stage_at(
            t1.micros as int,
            d.micros as int,
            i.attack.micros as int,
            i.decay.micros as int,
            i.release.micros as int,
        ) {
            Stage::Attack => 0 <= (envelope_of(t2, d, i) - envelope_of(t1, d, i)) * i.attack.micros
                < (t2.micros - t1.micros) * 1_000_000 + i.attack.micros,
            Stage::Decay => 0 <= (envelope_of(t1, d, i) - envelope_of(t2, d, i)) * i.decay.micros
                < (t2.micros - t1.micros) * (1_000_000 - i.sustain.micros) + i.decay.micros,
            Stage::Sustain => envelope_of(t1, d, i) == envelope_of(t2, d, i),
            Stage::Release => if i.release.micros == 0 {
                envelope_of(t1, d, i) == envelope_of(t2, d, i)
            } else {
                0 <= (envelope_of(t1, d, i) - envelope_of(t2, d, i)) * i.release.micros < (
                t2.micros - t1.micros) * i.sustain.micros + i.release.micros
            },
        },
{
    lemma_level_in_range(t1, d, i);
    lemma_level_in_range(t2, d, i);
    let x1 = t1.micros as int;
    let x2 = t2.micros as int;
    let dd = d.micros as int;
    let a = i.attack.micros as int;
    let dec = i.decay.micros as int;
    let r = i.release.micros as int;
    let s = i.sustain.micros as int;
    if x1 < a {
        lemma_floor_gap(x2 * 1_000_000, x1 * 1_000_000, a);
        assert(x2 * 1_000_000 - x1 * 1_000_000 == (x2 - x1) * 1_000_000);
    } else if x1 < a + dec {
        let k = 1_000_000 - s;
        assert(0 <= (x1 - a) * k <= (x2 - a) * k) by (nonlinear_arith)
            requires
                0 <= x1 - a <= x2 - a,
                0 <= k,
        ;
        lemma_floor_gap((x2 - a) * k, (x1 - a) * k, dec);
        assert((x2 - a) * k - (x1 - a) * k == (x2 - x1) * k) by (nonlinear_arith);
    } else if x1 < dd - r {
    } else if r > 0 {
        let n1 = s * (r - (x1 - (dd - r)));
        let n2 = s * (r - (x2 - (dd - r)));
        assert(0 <= n2 <= n1) by (nonlinear_arith)
            requires
                n1 == s * (r - (x1 - (dd - r))),
                n2 == s * (r - (x2 - (dd - r))),
                0 <= s,
                x1 <= x2 <= dd,
        ;
        lemma_floor_gap(n1, n2, r);
        assert(n1 - n2 == (x2 - x1) * s) by (nonlinear_arith)
            requires
                n1 == s * (r - (x1 - (dd - r))),
                n2 == s * (r - (x2 - (dd - r))),
        ;
    } else {
        assert((x2 - x1) * s >= 0) by (nonlinear_arith)
            requires
                x2 - x1 >= 0,
                s >= 0,
        ;
    }
}

/// At the moment at which the attack ends, the level is 1, whatever the
/// sustain level, as long as there is a decay.
pub proof fn lemma_peak_level(d: Fixed, i: InstrumentView)
    requires
        0 <= d.micros,
        0 <= i.attack.micros,
        0 < i.decay.micros,
        0 <= i.release.micros,
    ensures
        envelope_of(i.attack, d, i) == 1_000_000,
{
    let s = unit(i.sustain.micros as int);
    let dec = i.decay.micros as int;
    assert(0 * (1_000_000 - s) / dec == 0) by (nonlinear_arith)
        requires
            dec > 0,
    ;
}

} // verus!
