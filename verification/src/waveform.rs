//! The five waveforms of a synthesized instrument.

use vstd::prelude::*;
use crate::fixed::Fixed;
use crate::text::{lowered, reads_as};

verus! {

/// The shape of one cycle of an oscillator.
#[derive(Clone, Copy, Debug, PartialEq, Eq, Structural)]
pub enum WaveformType {
    Sine,
    Square,
    Triangle,
    Sawtooth,
    Noise,
}

/// The waveform that a score names, whatever the case of its letters.
pub open spec fn waveform_named(name: Seq<char>) -> Option<WaveformType> {
    let word = lowered(name);
    if word == "sine"@ {
        Some(WaveformType::Sine)
    } else if word == "square"@ {
        Some(WaveformType::Square)
    } else if word == "triangle"@ {
        Some(WaveformType::Triangle)
    } else if word == "sawtooth"@ {
        Some(WaveformType::Sawtooth)
    } else if word == "noise"@ {
        Some(WaveformType::Noise)
    } else {
        None
    }
}

/// Where in its half cycle a phase stands, in millionths: twice the phase,
/// less the whole cycles in it.
pub open spec fn half_cycle(phase: Fixed) -> int {
    (2 * phase.micros) % 1_000_000
}

/// Where in its cycle a phase stands, in millionths: the phase, less the
/// whole cycles in it.
pub open spec fn cycle(phase: Fixed) -> int {
    (phase.micros as int) % 1_000_000
}

/// The sample of a waveform at a phase, in millionths, for the waveforms that
/// are made of straight lines. A square and a sawtooth go by the half cycle.
/// A triangle is a ramp over the whole cycle: 0 at its start, up to 1 at a
/// quarter, down to -1 at three quarters, and up again. A sine is computed in
/// floating point, and noise is drawn at random: they have no value here.
pub open spec fn shape_of(w: WaveformType, phase: Fixed) -> Option<int> {
    let p = half_cycle(phase);
    let c = cycle(phase);
    match w {
        WaveformType::Square => Some(
            if p < 500_000 {
                1_000_000int
            } else {
                -1_000_000int
            },
        ),
        WaveformType::Sawtooth => Some(2 * p - 1_000_000),
        WaveformType::Triangle => Some(
            if c < 250_000 {
                4 * c
            } else if c < 750_000 {
                2_000_000 - 4 * c
            } else {
                4 * c - 4_000_000
            },
        ),
        WaveformType::Sine => None,
        WaveformType::Noise => None,
    }
}

/// `x` less the whole millions in it: from 0 up to a million.
fn wrap_unit(x: i128) -> (r: i128)
    requires
        x > i128::MIN,
    ensures
        r == x % 1_000_000,
        0 <= r < 1_000_000,
{
    if x >= 0 {
        x % 1_000_000
    } else {
        let back: i128 = (-x) % 1_000_000;
        proof {
            lemma_negated_remainder(x as int, back as int);
        }
        if back == 0 {
            0
        } else {
            1_000_000 - back
        }
    }
}

impl WaveformType {
    /// The sample at `phase`, a part of one cycle from 0 to 1, for a square,
    /// a sawtooth or a triangle; none for a sine or noise.
    pub fn generate_sample(&self, phase: Fixed) -> (r: Option<Fixed>)
        ensures
            match shape_of(*self, phase) {
                Some(v) => r == Some(Fixed { micros: v as i64 }) && -1_000_000 <= v <= 1_000_000,
                None => r.is_none(),
            },
            *self == WaveformType::Square ==> r.is_some() && (r.unwrap().micros == 1_000_000
                || r.unwrap().micros == -1_000_000),
    {
        let p: i128 = wrap_unit(2 * (phase.micros as i128));
        let c: i128 = wrap_unit(phase.micros as i128);
        match self {
            WaveformType::Square => Some(
                Fixed {
                    micros: if p < 500_000 {
                        1_000_000
                    } else {
                        -1_000_000
                    },
                },
            ),
            WaveformType::Sawtooth => Some(Fixed { micros: (2 * p - 1_000_000) as i64 }),
            WaveformType::Triangle => Some(
                Fixed {
                    micros: if c < 250_000 {
                        (4 * c) as i64
                    } else if c < 750_000 {
                        (2_000_000 - 4 * c) as i64
                    } else {
                        (4 * c - 4_000_000) as i64
                    },
                },
            ),
            WaveformType::Sine => None,
            WaveformType::Noise => None,
        }
    }

    /// The waveform that a score names, whatever the case of its letters.
    pub fn from_name(name: &[char]) -> (r: Option<WaveformType>)
        ensures
            r == waveform_named(name@),
    {
        if reads_as(name, "sine") {
            Some(WaveformType::Sine)
        } else if reads_as(name, "square") {
            Some(WaveformType::Square)
        } else if reads_as(name, "triangle") {
            Some(WaveformType::Triangle)
        } else if reads_as(name, "sawtooth") {
            Some(WaveformType::Sawtooth)
        } else if reads_as(name, "noise") {
            Some(WaveformType::Noise)
        } else {
            None
        }
    }
}

/// The remainder of a negative number, from that of its opposite.
proof fn lemma_negated_remainder(x: int, back: int)
    requires
        x < 0,
        back == (-x) % 1_000_000,
    ensures
        x % 1_000_000 == (if back == 0 {
            0
        } else {
            1_000_000 - back
        }),
{
    let q = (-x) / 1_000_000;
    assert(-x == q * 1_000_000 + back) by (nonlinear_arith)
        requires
            q == (-x) / 1_000_000,
            back == (-x) % 1_000_000,
    ;
    if back == 0 {
        assert(x % 1_000_000 == 0) by (nonlinear_arith)
            requires
                x == (-q) * 1_000_000,
        ;
    } else {
        assert(x % 1_000_000 == 1_000_000 - back) by (nonlinear_arith)
            requires
                x == (-q - 1) * 1_000_000 + (1_000_000 - back),
                0 < back < 1_000_000,
        ;
    }
}

} // verus!
