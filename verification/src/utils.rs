//! Note names. A name is a letter from A to G, then optionally an accidental,
//! then optionally an octave: `A4`, `C#4`, `Db4`, `Fs-1`. Which part a character
//! belongs to goes by its position: the first is the letter; the second is an
//! accidental if it is `#` or `s` (sharp) or `b` or `f` (flat); what follows is
//! the octave. The case of the letters does not matter.
//!
//! The letters B and F are both a note and a flat sign. A name that begins
//! with the one and goes on with the other (`BF4`, `Fb4`, in either case) can
//! be read two ways that differ, as B flat or as F flat: such a name is
//! refused. Where the two readings agree (`Bb` is B flat either way) or only
//! one letter can be the note (`Db4`, `Df4`), the name is taken.
//!
//! The frequency of a name is that of its letter in octave 0, times the
//! factor of the accidental, cut off after the sixth place; each octave up
//! doubles it exactly, each octave down halves it.

use vstd::prelude::*;
use crate::error::{Fault, SynthError};
use crate::fixed::{parse_i32, parsed_i32, Fixed};
use crate::text::{chars_of, trim, trimmed, upper, upper_char};
use vstd::slice::slice_subrange;

verus! {

/// The frequency of a note letter in octave 0, in hundredths of a Hz.
pub open spec fn letter_centihertz(c: char) -> Option<int> {
    let u = upper(c);
    if u == 'C' {
        Some(1635int)
    } else if u == 'D' {
        Some(1835int)
    } else if u == 'E' {
        Some(2060int)
    } else if u == 'F' {
        Some(2183int)
    } else if u == 'G' {
        Some(2450int)
    } else if u == 'A' {
        Some(2750int)
    } else if u == 'B' {
        Some(3087int)
    } else {
        None
    }
}

/// The factor of an accidental, in millionths: a semitone up or down, or
/// none where `c` is no accidental.
pub open spec fn accidental_micros(c: char) -> Option<int> {
    let u = upper(c);
    if u == '#' || u == 'S' {
        Some(1_059_463int)
    } else if u == 'B' || u == 'F' {
        Some(943_874int)
    } else {
        None
    }
}

pub open spec fn pow2(n: nat) -> int
    decreases n,
{
    if n == 0 {
        1
    } else {
        2 * pow2((n - 1) as nat)
    }
}

/// The frequency in octave 0, in millionths of a Hz: the letter's frequency
/// in hundredths, times the accidental's factor in millionths, cut off after
/// the sixth place.
pub open spec fn base_micros(letter: int, factor: int) -> int {
    letter * factor / 100
}

/// The frequency in millionths of a Hz of `base` moved by `octave` octaves:
/// doubled for each octave up, as far as `i64` holds it, and halved for each
/// octave down, cut off after the sixth place.
pub open spec fn pitch_micros(base: int, octave: int) -> int {
    let exact = if octave >= 0 {
        base * pow2(octave as nat)
    } else {
        base / pow2((-octave) as nat)
    };
    if exact > i64::MAX {
        i64::MAX as int
    } else {
        exact
    }
}

/// Whether a name begins with B and F, in either order and either case:
/// a name with two readings that differ.
pub open spec fn is_ambiguous(name: Seq<char>) -> bool {
    name.len() >= 2 && ((upper(name[0]) == 'B' && upper(name[1]) == 'F') || (upper(name[0]) == 'F'
        && upper(name[1]) == 'B'))
}

/// The frequency that a note name stands for, in millionths of a Hz, if its
/// first character is a note letter and it is not ambiguous. An octave that
/// is no 32-bit integer literal counts as octave 0.
pub open spec fn note_micros(name: Seq<char>) -> Option<int> {
    if name.len() == 0 || is_ambiguous(name) {
        None
    } else {
        match letter_centihertz(name[0]) {
            None => None,
            Some(base) => {
                let accidental = if name.len() >= 2 {
                    accidental_micros(name[1])
                } else {
                    None
                };
                let factor = match accidental {
                    Some(f) => f,
                    None => 1_000_000int,
                };
                let rest = trimmed(
                    name.skip(
                        if accidental.is_some() {
                            2int
                        } else {
                            1int
                        },
                    ),
                );
                let octave = match parsed_i32(rest) {
                    Some(o) => o as int,
                    None => 0int,
                };
                Some(pitch_micros(base_micros(base, factor), octave))
            },
        }
    }
}

/// The pitch of a note name, or the fault that it gives.
pub open spec fn note_pitch(name: Seq<char>) -> Result<Fixed, Fault> {
    match note_micros(name) {
        Some(v) => Ok(Fixed { micros: v as i64 }),
        None => Err(Fault::Parse("Invalid note"@)),
    }
}

proof fn lemma_pow2_positive(n: nat)
    ensures
        pow2(n) >= 1,
    decreases n,
{
    if n > 0 {
        lemma_pow2_positive((n - 1) as nat);
    }
}

proof fn lemma_pow2_monotonic(a: nat, b: nat)
    requires
        a <= b,
    ensures
        pow2(a) <= pow2(b),
    decreases b,
{
    if a < b {
        lemma_pow2_monotonic(a, (b - 1) as nat);
        lemma_pow2_positive((b - 1) as nat);
    }
}

proof fn lemma_pow2_40()
    ensures
        pow2(32) == 0x1_0000_0000,
        pow2(40) == 0x100_0000_0000,
{
    reveal_with_fuel(pow2, 41);
}

/// Two to the `n`, for `n` up to 40.
fn power_of_two(n: u32) -> (r: u128)
    requires
        n <= 40,
    ensures
        r == pow2(n as nat),
        r <= 0x100_0000_0000,
{
    let mut out: u128 = 1;
    let mut i: u32 = 0;
    proof {
        lemma_pow2_40();
        lemma_pow2_positive(40);
    }
    while i < n
        invariant
            i <= n <= 40,
            out == pow2(i as nat),
            out <= pow2(40),
            pow2(40) == 0x100_0000_0000,
        decreases n - i,
    {
        proof {
            lemma_pow2_40();
            lemma_pow2_monotonic((i + 1) as nat, 40);
        }
        out = out * 2;
        i += 1;
    }
    proof {
        lemma_pow2_40();
        lemma_pow2_monotonic(n as nat, 40);
    }
    out
}

/// An octave up is exactly the double, as long as `i64` holds it.
pub proof fn lemma_octave_doubles(base: int, octave: int)
    requires
        0 <= base,
        0 <= octave,
        2 * pitch_micros(base, octave) <= i64::MAX,
    ensures
        pitch_micros(base, octave + 1) == 2 * pitch_micros(base, octave),
{
    let p = pow2(octave as nat);
    assert(pow2((octave + 1) as nat) == 2 * p);
    assert(base * (2 * p) == 2 * (base * p)) by (nonlinear_arith);
}

/// `base` moved by `octave` octaves.
fn scale_pitch(base: u64, octave: i32) -> (r: i64)
    requires
        10_000_000 <= base <= 40_000_000,
    ensures
        r == pitch_micros(base as int, octave as int),
{
    if octave >= 40 {
        proof {
            lemma_pow2_40();
            lemma_pow2_monotonic(40, octave as nat);
            let p = pow2(octave as nat);
            assert(base * p >= 10_000_000 * 0x100_0000_0000) by (nonlinear_arith)
                requires
                    base >= 10_000_000,
                    p >= 0x100_0000_0000,
            ;
        }
        0x7fff_ffff_ffff_ffff
    } else if octave >= 0 {
        let p: u128 = power_of_two(octave as u32);
        assert(base * p <= 40_000_000 * 0x100_0000_0000) by (nonlinear_arith)
            requires
                0 <= base <= 40_000_000,
                0 <= p <= 0x100_0000_0000,
        ;
        let exact: u128 = (base as u128) * p;
        if exact > 0x7fff_ffff_ffff_ffff {
            0x7fff_ffff_ffff_ffff
        } else {
            exact as i64
        }
    } else if octave <= -33 {
        proof {
            lemma_pow2_40();
            lemma_pow2_monotonic(32, (-octave) as nat);
            let d = pow2((-octave) as nat);
            assert(base as int / d == 0) by (nonlinear_arith)
                requires
                    0 <= base < d,
            ;
        }
        0
    } else {
        let p: u128 = power_of_two((-octave) as u32);
        proof {
            lemma_pow2_positive((-octave) as nat);
        }
        let exact: u128 = (base as u128) / p;
        assert(exact <= base) by (nonlinear_arith)
            requires
                exact == base as int / (p as int),
                p >= 1,
                base >= 0,
        ;
        exact as i64
    }
}

fn letter_base(c: char) -> (r: Option<u64>)
    ensures
        match letter_centihertz(c) {
            Some(v) => r == Some(v as u64) && 1635 <= v <= 3087,
            None => r.is_none(),
        },
{
    let u: char = upper_char(c);
    if u == 'C' {
        Some(1635)
    } else if u == 'D' {
        Some(1835)
    } else if u == 'E' {
        Some(2060)
    } else if u == 'F' {
        Some(2183)
    } else if u == 'G' {
        Some(2450)
    } else if u == 'A' {
        Some(2750)
    } else if u == 'B' {
        Some(3087)
    } else {
        None
    }
}

fn accidental_factor(c: char) -> (r: Option<u64>)
    ensures
        match accidental_micros(c) {
            Some(v) => r == Some(v as u64) && 943_874 <= v <= 1_059_463,
            None => r.is_none(),
        },
{
    let u: char = upper_char(c);
    if u == '#' || u == 'S' {
        Some(1_059_463)
    } else if u == 'B' || u == 'F' {
        Some(943_874)
    } else {
        None
    }
}

/// Reads a note name from characters.
pub fn parse_note_chars(name: &[char]) -> (r: Result<Fixed, SynthError>)
    ensures
        match note_pitch(name@) {
            Ok(p) => r.is_ok() && r.unwrap() == p,
            Err(f) => r.is_err() && r.unwrap_err()@ == f,
        },
{
    let n: usize = name.len();
    if n == 0 {
        return Err(SynthError::parse("Invalid note"));
    }
    if n >= 2 {
        let first: char = upper_char(name[0]);
        let second: char = upper_char(name[1]);
        if (first == 'B' && second == 'F') || (first == 'F' && second == 'B') {
            return Err(SynthError::parse("Invalid note"));
        }
    }
    let base: u64 = match letter_base(name[0]) {
        Some(b) => b,
        None => {
            return Err(SynthError::parse("Invalid note"));
        },
    };
    let accidental: Option<u64> = if n >= 2 {
        accidental_factor(name[1])
    } else {
        None
    };
    let (factor, start): (u64, usize) = match accidental {
        Some(f) => (f, 2),
        None => (1_000_000, 1),
    };
    let rest: &[char] = trim(slice_subrange(name, start, n));
    proof {
        assert(name@.subrange(start as int, n as int) =~= name@.skip(start as int));
    }
    let octave: i32 = match parse_i32(rest) {
        Some(o) => o,
        None => 0,
    };
    assert(1635 * 943_874 <= base * factor <= 3087 * 1_059_463) by (nonlinear_arith)
        requires
            1635 <= base <= 3087,
            943_874 <= factor <= 1_059_463,
    ;
    Ok(Fixed { micros: scale_pitch(base * factor / 100, octave) })
}

/// Reads a note name: the frequency in Hz of `A4`, `C#4`, `Db4` and the like.
/// It fails on a name that does not start with a note letter, and on one
/// that begins with B and F in either order.
pub fn parse_note(note_str: &str) -> (r: Result<Fixed, SynthError>)
    ensures
        match note_pitch(note_str@) {
            Ok(p) => r.is_ok() && r.unwrap() == p,
            Err(f) => r.is_err() && r.unwrap_err()@ == f,
        },
{
    let chars: Vec<char> = chars_of(note_str);
    parse_note_chars(chars.as_slice())
}

} // verus!
