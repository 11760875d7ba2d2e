//! Exact numbers. Every number of a score (a time in seconds, a length in
//! beats, a tempo, a level) is held as a whole number of millionths, so that
//! the timeline of a track can be computed in integers.

use vstd::prelude::*;
use vstd::slice::slice_subrange;
use crate::text::{find_char, first_index_of};

verus! {

/// A number with six decimal places, held as its count of millionths.
#[derive(Clone, Copy, Debug, PartialEq, Eq, Structural)]
pub struct Fixed {
    pub micros: i64,
}

/// A fraction, for the caller to divide in floating point. The denominator
/// may be zero.
#[derive(Clone, Copy, Debug, PartialEq, Eq, Structural)]
pub struct Ratio {
    pub num: i128,
    pub den: i128,
}

/// The bound at which a parsed exponent or integer stops growing. It is
/// larger than the length of any text, so that clamping changes no result.
pub const INTEGER_LIMIT: i128 = 0x40_0000_0000_0000_0000;

/// `v` brought into the range of `i64`.
pub open spec fn clamp_i64(v: int) -> int {
    if v < i64::MIN {
        i64::MIN as int
    } else if v > i64::MAX {
        i64::MAX as int
    } else {
        v
    }
}

/// The product of two numbers of millionths, in millionths: cut off after
/// the sixth place, towards zero, and held to the range of `i64`.
pub open spec fn product_micros(a: int, b: int) -> int {
    let exact = a * b;
    clamp_i64(
        if exact >= 0 {
            exact / 1_000_000
        } else {
            -((-exact) / 1_000_000)
        },
    )
}

/// `n / d` cut off towards zero, for a positive `d`.
pub open spec fn cut(n: int, d: int) -> int {
    if n >= 0 {
        n / d
    } else {
        -((-n) / d)
    }
}

/// `v` brought into the range from `lo` to `hi`.
pub open spec fn clamp(v: int, lo: int, hi: int) -> int {
    if v < lo {
        lo
    } else if v > hi {
        hi
    } else {
        v
    }
}

pub open spec fn is_digit(c: char) -> bool {
    '0' <= c <= '9'
}

pub open spec fn all_digits(s: Seq<char>) -> bool {
    forall|i: int| 0 <= i < s.len() ==> is_digit(#[trigger] s[i])
}

pub open spec fn digit_of(c: char) -> nat {
    (c as u32 - 48) as nat
}

/// The number that a sequence of decimal digits writes.
pub open spec fn digits_value(s: Seq<char>) -> nat
    decreases s.len(),
{
    if s.len() == 0 {
        0
    } else {
        digits_value(s.drop_last()) * 10 + digit_of(s.last())
    }
}

pub open spec fn pow10(n: nat) -> nat
    decreases n,
{
    if n == 0 {
        1
    } else {
        10 * pow10((n - 1) as nat)
    }
}

pub open spec fn has_sign(s: Seq<char>) -> bool {
    s.len() > 0 && (s[0] == '+' || s[0] == '-')
}

pub open spec fn is_negative(s: Seq<char>) -> bool {
    s.len() > 0 && s[0] == '-'
}

/// `s` without its sign, if it has one.
pub open spec fn unsigned_part(s: Seq<char>) -> Seq<char> {
    if has_sign(s) {
        s.drop_first()
    } else {
        s
    }
}

/// The value of an integer literal: an optional sign, then one or more digits.
pub open spec fn integer_value(s: Seq<char>) -> Option<int> {
    let d = unsigned_part(s);
    if d.len() > 0 && all_digits(d) {
        Some(
            if is_negative(s) {
                -(digits_value(d) as int)
            } else {
                digits_value(d) as int
            },
        )
    } else {
        None
    }
}

/// What a 32-bit signed integer literal denotes, if `s` is one and it fits.
pub open spec fn parsed_i32(s: Seq<char>) -> Option<i32> {
    match integer_value(s) {
        Some(v) => if i32::MIN <= v <= i32::MAX {
            Some(v as i32)
        } else {
            None
        },
        None => None,
    }
}

/// What a 32-bit unsigned integer literal denotes, if `s` is one and it fits.
/// Such a literal has no minus sign.
pub open spec fn parsed_u32(s: Seq<char>) -> Option<u32> {
    match integer_value(s) {
        Some(v) => if !is_negative(s) && v <= u32::MAX {
            Some(v as u32)
        } else {
            None
        },
        None => None,
    }
}

/// The parts of a decimal literal.
pub struct Decimal {
    pub negative: bool,
    /// The digits of the mantissa, those before and after the point together.
    pub digits: Seq<char>,
    /// How many of them stand before the point.
    pub point: int,
    pub exponent: int,
}

/// The position of the exponent marker, or the length of `s`.
pub open spec fn exponent_index(s: Seq<char>) -> int {
    let a = first_index_of(s, 'e');
    let b = first_index_of(s, 'E');
    if a <= b {
        a
    } else {
        b
    }
}

/// The parts of `s` read as a decimal literal: an optional sign; digits with
/// at most one point among them, at least one digit in all; then optionally
/// `e` or `E` and an integer literal.
pub open spec fn decimal_parts(s: Seq<char>) -> Option<Decimal> {
    let body = unsigned_part(s);
    let e = exponent_index(body);
    let mantissa = body.take(e);
    let p = first_index_of(mantissa, '.');
    let whole = mantissa.take(p);
    let frac = mantissa.skip(
        if p < mantissa.len() {
            p + 1
        } else {
            p
        },
    );
    let exponent = if e < body.len() {
        integer_value(body.skip(e + 1))
    } else {
        Some(0int)
    };
    if all_digits(whole) && all_digits(frac) && whole.len() + frac.len() >= 1 && exponent.is_some() {
        Some(
            Decimal {
                negative: is_negative(s),
                digits: whole + frac,
                point: whole.len() as int,
                exponent: exponent.unwrap(),
            },
        )
    } else {
        None
    }
}

/// The millionths in a decimal, cut off after the sixth place and held to
/// the range of `i64`. Cutting off means keeping the leading digits only: of
/// the digits `d` with the point after the first `p`, times ten to the `x`,
/// the first `p + x + 6` stand left of the sixth place.
pub open spec fn micros_of(d: Decimal) -> int {
    let held = magnitude_of(d.digits, d.point + d.exponent + 6);
    if d.negative {
        -held
    } else {
        held
    }
}

/// The number that `s` writes, in millionths, if `s` is a decimal literal.
pub open spec fn decimal_micros(s: Seq<char>) -> Option<int> {
    match decimal_parts(s) {
        Some(d) => Some(micros_of(d)),
        None => None,
    }
}

/// The number that `s` writes, if `s` is a decimal literal.
pub open spec fn number_of(s: Seq<char>) -> Option<Fixed> {
    match decimal_micros(s) {
        Some(v) => Some(Fixed { micros: v as i64 }),
        None => None,
    }
}

/// The number that `s` writes, or `default` if `s` is no decimal literal.
pub open spec fn number_or(s: Seq<char>, default: Fixed) -> Fixed {
    match number_of(s) {
        Some(v) => v,
        None => default,
    }
}

proof fn lemma_pow10_positive(n: nat)
    ensures
        pow10(n) >= 1,
    decreases n,
{
    if n > 0 {
        lemma_pow10_positive((n - 1) as nat);
    }
}

proof fn lemma_pow10_monotonic(a: nat, b: nat)
    requires
        a <= b,
    ensures
        pow10(a) <= pow10(b),
    decreases b,
{
    if a < b {
        lemma_pow10_monotonic(a, (b - 1) as nat);
        lemma_pow10_positive((b - 1) as nat);
    }
}

proof fn lemma_pow10_19()
    ensures
        pow10(19) == 10_000_000_000_000_000_000,
{
    reveal_with_fuel(pow10, 20);
}

/// From nineteen added zeros on, any number but zero is beyond `i64`.
proof fn lemma_padding_overflows(d: nat, pad: nat)
    requires
        d >= 1,
        pad >= 19,
    ensures
        d * pow10(pad) > i64::MAX,
{
    lemma_pow10_19();
    lemma_pow10_monotonic(19, pad);
    assert(d * pow10(pad) >= pow10(pad)) by (nonlinear_arith)
        requires
            d >= 1,
            pow10(pad) >= 0,
    ;
}

impl Fixed {
    /// The number of `micros` millionths.
    pub fn from_micros(micros: i64) -> (r: Fixed)
        ensures
            r.micros == micros,
    {
        Fixed { micros }
    }

    /// The whole number `n`.
    pub fn from_int(n: i32) -> (r: Fixed)
        ensures
            r.micros == n * 1_000_000,
    {
        Fixed { micros: (n as i64) * 1_000_000 }
    }

    /// Zero.
    pub fn zero() -> (r: Fixed)
        ensures
            r.micros == 0,
    {
        Fixed { micros: 0 }
    }

    /// The count of millionths.
    pub fn micros(&self) -> (r: i64)
        ensures
            r == self.micros,
    {
        self.micros
    }

    /// The sum, held to the range of `i64`.
    pub fn saturating_add(self, other: Fixed) -> (r: Fixed)
        ensures
            r.micros == clamp_i64(self.micros + other.micros),
    {
        let wide: i128 = self.micros as i128 + other.micros as i128;
        if wide > i64::MAX as i128 {
            Fixed { micros: i64::MAX }
        } else if wide < i64::MIN as i128 {
            Fixed { micros: i64::MIN }
        } else {
            Fixed { micros: wide as i64 }
        }
    }

    /// The product, cut off after the sixth place and held to the range of
    /// `i64`.
    pub fn times(self, other: Fixed) -> (r: Fixed)
        ensures
            r.micros == product_micros(self.micros as int, other.micros as int),
    {
        let a: u128 = if self.micros < 0 {
            (-(self.micros as i128)) as u128
        } else {
            self.micros as u128
        };
        let b: u128 = if other.micros < 0 {
            (-(other.micros as i128)) as u128
        } else {
            other.micros as u128
        };
        let negative: bool = (self.micros < 0) != (other.micros < 0);
        assert(a * b <= 0x8000_0000_0000_0000 * 0x8000_0000_0000_0000) by (nonlinear_arith)
            requires
                0 <= a <= 0x8000_0000_0000_0000,
                0 <= b <= 0x8000_0000_0000_0000,
        ;
        let q: u128 = a * b / 1_000_000;
        proof {
            let x = self.micros as int;
            let y = other.micros as int;
            assert(x * y == (if negative {
                -(a * b)
            } else {
                a * b as int
            })) by (nonlinear_arith)
                requires
                    a == (if x < 0 {
                        -x
                    } else {
                        x
                    }),
                    b == (if y < 0 {
                        -y
                    } else {
                        y
                    }),
                    negative == ((x < 0) != (y < 0)),
            ;
        }
        if negative {
            if q > 0x8000_0000_0000_0000 {
                Fixed { micros: i64::MIN }
            } else {
                Fixed { micros: (-(q as i128)) as i64 }
            }
        } else {
            if q > 0x7fff_ffff_ffff_ffff {
                Fixed { micros: i64::MAX }
            } else {
                Fixed { micros: q as i64 }
            }
        }
    }

    /// The number moved into the range from `lo` to `hi`: first raised to
    /// `lo` if it is below, then lowered to `hi` if it is above.
    pub fn clamp(self, lo: Fixed, hi: Fixed) -> (r: Fixed)
        ensures
            r.micros == (if self.micros < lo.micros {
                if lo.micros > hi.micros {
                    hi.micros
                } else {
                    lo.micros
                }
            } else if self.micros > hi.micros {
                hi.micros
            } else {
                self.micros
            }),
    {
        let raised: i64 = if self.micros < lo.micros {
            lo.micros
        } else {
            self.micros
        };
        if raised > hi.micros {
            hi
        } else {
            Fixed { micros: raised }
        }
    }
}

/// `n / d` cut off towards zero.
pub fn cut_div(n: i128, d: i128) -> (r: i128)
    requires
        d > 0,
        n > i128::MIN,
    ensures
        r == cut(n as int, d as int),
{
    if n >= 0 {
        n / d
    } else {
        let q: i128 = (-n) / d;
        -q
    }
}

/// Whether every character of `s` is a decimal digit.
pub fn only_digits(s: &[char]) -> (r: bool)
    ensures
        r == all_digits(s@),
{
    let n: usize = s.len();
    let mut i: usize = 0;
    while i < n
        invariant
            i <= n,
            n == s@.len(),
            forall|j: int| 0 <= j < i ==> is_digit(#[trigger] s@[j]),
        decreases n - i,
    {
        let c: char = s[i];
        if !('0' <= c && c <= '9') {
            assert(!is_digit(s@[i as int]));
            return false;
        }
        i += 1;
    }
    true
}

/// The value of the first `count` digits of `part`, written after digits
/// whose value is `acc`; it stops growing at `limit`.
fn push_digits(acc: u128, part: &[char], count: usize, limit: u128, Ghost(before): Ghost<Seq<char>>) -> (r:
    u128)
    requires
        all_digits(part@),
        count <= part@.len(),
        limit <= 0x40_0000_0000_0000_0000,
        acc == (if digits_value(before) > limit {
            limit as nat
        } else {
            digits_value(before)
        }),
    ensures
        r == (if digits_value(before + part@.take(count as int)) > limit {
            limit as nat
        } else {
            digits_value(before + part@.take(count as int))
        }),
{
    let mut out: u128 = acc;
    let mut i: usize = 0;
    assert(before + part@.take(0) =~= before);
    while i < count
        invariant
            i <= count <= part@.len(),
            all_digits(part@),
            limit <= 0x40_0000_0000_0000_0000,
            out == (if digits_value(before + part@.take(i as int)) > limit {
                limit as nat
            } else {
                digits_value(before + part@.take(i as int))
            }),
        decreases count - i,
    {
        let c: char = part[i];
        assert(is_digit(part@[i as int]));
        let d: u128 = (c as u32 - 48) as u128;
        proof {
            let grown = before + part@.take(i + 1);
            assert(grown.drop_last() =~= before + part@.take(i as int));
            assert(grown.last() == c);
        }
        let wide: u128 = out * 10 + d;
        out = if wide > limit {
            limit
        } else {
            wide
        };
        i += 1;
    }
    out
}

/// The value of an integer literal, held to the range from `-INTEGER_LIMIT`
/// to `INTEGER_LIMIT`.
pub fn parse_integer_clamped(s: &[char]) -> (r: Option<i128>)
    ensures
        match integer_value(s@) {
            Some(v) => r == Some(clamp(v, -INTEGER_LIMIT as int, INTEGER_LIMIT as int) as i128),
            None => r.is_none(),
        },
{
    let n: usize = s.len();
    let signed: bool = n > 0 && (s[0] == '+' || s[0] == '-');
    let negative: bool = n > 0 && s[0] == '-';
    let body: &[char] = if signed {
        slice_subrange(s, 1, n)
    } else {
        s
    };
    proof {
        if signed {
            assert(s@.subrange(1, n as int) =~= s@.drop_first());
        }
    }
    if body.len() == 0 || !only_digits(body) {
        return None;
    }
    let magnitude: u128 = push_digits(
        0,
        body,
        body.len(),
        0x40_0000_0000_0000_0000,
        Ghost(Seq::empty()),
    );
    proof {
        assert(Seq::<char>::empty() + body@.take(body@.len() as int) =~= body@);
    }
    if negative {
        Some(-(magnitude as i128))
    } else {
        Some(magnitude as i128)
    }
}

/// Reads a 32-bit signed integer literal.
pub fn parse_i32(s: &[char]) -> (r: Option<i32>)
    ensures
        r == parsed_i32(s@),
{
    match parse_integer_clamped(s) {
        Some(v) => {
            if -0x8000_0000 <= v && v <= 0x7fff_ffff {
                Some(v as i32)
            } else {
                None
            }
        },
        None => None,
    }
}

/// Reads a 32-bit unsigned integer literal.
pub fn parse_u32(s: &[char]) -> (r: Option<u32>)
    ensures
        r == parsed_u32(s@),
{
    if s.len() > 0 && s[0] == '-' {
        return None;
    }
    match parse_integer_clamped(s) {
        Some(v) => {
            if 0 <= v && v <= 0xffff_ffff {
                Some(v as u32)
            } else {
                None
            }
        },
        None => None,
    }
}

/// The magnitude of a decimal in millionths, as far as `i64` holds it.
pub open spec fn magnitude_of(digits: Seq<char>, keep: int) -> int {
    let n = digits.len() as int;
    let magnitude: int = if keep <= 0 {
        0
    } else if keep <= n {
        digits_value(digits.take(keep)) as int
    } else {
        (digits_value(digits) * pow10((keep - n) as nat)) as int
    };
    if magnitude > i64::MAX {
        i64::MAX as int
    } else {
        magnitude
    }
}

/// The sign, the digits before and after the point, and the exponent of a
/// decimal literal; the exponent is held to `INTEGER_LIMIT`.
fn split_decimal<'a>(s: &'a [char]) -> (r: Option<(bool, &'a [char], &'a [char], i128)>)
    ensures
        match decimal_parts(s@) {
            Some(d) => r.is_some() && r.unwrap().0 == d.negative && r.unwrap().1@
                + r.unwrap().2@ == d.digits && r.unwrap().1@.len() == d.point && r.unwrap().3
                == clamp(d.exponent, -INTEGER_LIMIT as int, INTEGER_LIMIT as int)
                && all_digits(r.unwrap().1@) && all_digits(r.unwrap().2@) && r.unwrap().1@.len()
                + r.unwrap().2@.len() <= s@.len(),
            None => r.is_none(),
        },
{
    let n: usize = s.len();
    let signed: bool = n > 0 && (s[0] == '+' || s[0] == '-');
    let negative: bool = n > 0 && s[0] == '-';
    let body: &[char] = if signed {
        slice_subrange(s, 1, n)
    } else {
        s
    };
    proof {
        if signed {
            assert(s@.subrange(1, n as int) =~= s@.drop_first());
        }
    }
    let m: usize = body.len();
    let lower_e: usize = find_char(body, 'e');
    let upper_e: usize = find_char(body, 'E');
    let e: usize = if lower_e <= upper_e {
        lower_e
    } else {
        upper_e
    };
    let mantissa: &[char] = slice_subrange(body, 0, e);
    let p: usize = find_char(mantissa, '.');
    let whole: &[char] = slice_subrange(mantissa, 0, p);
    let frac: &[char] = slice_subrange(
        mantissa,
        if p < e {
            p + 1
        } else {
            p
        },
        e,
    );
    proof {
        assert(mantissa@ =~= body@.take(e as int));
        assert(whole@ =~= mantissa@.take(p as int));
        assert(frac@ =~= mantissa@.skip(
            if p < e {
                p + 1
            } else {
                p as int
            },
        ));
    }
    let exponent: Option<i128> = if e < m {
        let tail: &[char] = slice_subrange(body, e + 1, m);
        proof {
            assert(tail@ =~= body@.skip(e + 1));
        }
        parse_integer_clamped(tail)
    } else {
        Some(0)
    };
    if !only_digits(whole) || !only_digits(frac) || (whole.len() == 0 && frac.len() == 0) {
        return None;
    }
    match exponent {
        Some(x) => Some((negative, whole, frac, x)),
        None => None,
    }
}

/// The value of the first `keep` of the digits `whole` and `frac` together,
/// as far as `i64` holds it.
fn leading_digits(whole: &[char], frac: &[char], keep: usize) -> (r: u128)
    requires
        all_digits(whole@),
        all_digits(frac@),
        keep <= whole@.len() + frac@.len(),
    ensures
        r == (if digits_value((whole@ + frac@).take(keep as int)) > i64::MAX {
            i64::MAX as nat
        } else {
            digits_value((whole@ + frac@).take(keep as int))
        }),
{
    let limit: u128 = 0x7fff_ffff_ffff_ffff;
    let p: usize = whole.len();
    if keep <= p {
        proof {
            assert(Seq::<char>::empty() + whole@.take(keep as int) =~= (whole@ + frac@).take(
                keep as int,
            ));
        }
        push_digits(0, whole, keep, limit, Ghost(Seq::empty()))
    } else {
        let v = push_digits(0, whole, p, limit, Ghost(Seq::empty()));
        proof {
            assert(Seq::<char>::empty() + whole@.take(p as int) =~= whole@);
            assert(whole@ + frac@.take(keep - p) =~= (whole@ + frac@).take(keep as int));
        }
        push_digits(v, frac, keep - p, limit, Ghost(whole@))
    }
}

/// `value` with `pad` zeros written after it, as far as `i64` holds it.
/// `exact_pad` is the number of zeros before it was held to a limit.
fn pad_zeros(value: u128, pad: i128, Ghost(exact): Ghost<nat>, Ghost(exact_pad): Ghost<int>) -> (r:
    u128)
    requires
        pad >= 1,
        exact_pad >= pad,
        exact_pad != pad ==> pad >= 19,
        value == (if exact > i64::MAX {
            i64::MAX as nat
        } else {
            exact
        }),
    ensures
        r == (if exact * pow10(exact_pad as nat) > i64::MAX {
            i64::MAX as nat
        } else {
            exact * pow10(exact_pad as nat)
        }),
{
    let limit: u128 = 0x7fff_ffff_ffff_ffff;
    if value == 0 {
        assert(exact * pow10(exact_pad as nat) == 0) by (nonlinear_arith)
            requires
                exact == 0,
        ;
        return 0;
    }
    let mut out: u128 = value;
    let mut j: i128 = 0;
    assert(exact * pow10(0) == exact) by (nonlinear_arith)
        requires
            pow10(0) == 1,
    ;
    while j < pad && out < limit
        invariant
            0 <= j <= pad,
            exact >= 1,
            limit == 0x7fff_ffff_ffff_ffff,
            out == (if exact * pow10(j as nat) > limit {
                limit as nat
            } else {
                exact * pow10(j as nat)
            }),
        decreases pad - j,
    {
        assert(exact * pow10((j + 1) as nat) == exact * pow10(j as nat) * 10) by (nonlinear_arith)
            requires
                pow10((j + 1) as nat) == 10 * pow10(j as nat),
        ;
        let wide: u128 = out * 10;
        out = if wide > limit {
            limit
        } else {
            wide
        };
        j += 1;
    }
    proof {
        if j < pad {
            // The value is already beyond the range; more zeros keep it there.
            lemma_pow10_monotonic(j as nat, exact_pad as nat);
            assert(exact * pow10(exact_pad as nat) >= exact * pow10(j as nat)) by (nonlinear_arith)
                requires
                    pow10(exact_pad as nat) >= pow10(j as nat),
                    exact >= 0,
            ;
        } else if exact_pad != pad {
            lemma_padding_overflows(exact, pad as nat);
            lemma_padding_overflows(exact, exact_pad as nat);
        }
    }
    out
}

/// Reads a decimal literal as a number of millionths.
pub fn parse_decimal(s: &[char]) -> (r: Option<Fixed>)
    ensures
        r == number_of(s@),
{
    let (negative, whole, frac, x) = match split_decimal(s) {
        Some(parts) => parts,
        None => {
            return None;
        },
    };
    let ghost d = decimal_parts(s@).unwrap();
    let ghost exact_keep = d.point + d.exponent + 6;
    let total: usize = s.len();
    assert(whole@.len() + frac@.len() <= total);
    let count: usize = whole.len() + frac.len();
    let keep: i128 = whole.len() as i128 + x + 6;
    let magnitude: u128 = if keep <= 0 {
        0
    } else if keep <= count as i128 {
        leading_digits(whole, frac, keep as usize)
    } else {
        let value = leading_digits(whole, frac, count);
        proof {
            assert((whole@ + frac@).take(count as int) =~= whole@ + frac@);
        }
        pad_zeros(
            value,
            keep - count as i128,
            Ghost(digits_value(whole@ + frac@)),
            Ghost(exact_keep - count),
        )
    };
    assert(magnitude == magnitude_of(d.digits, exact_keep));
    if negative {
        Some(Fixed { micros: -(magnitude as i64) })
    } else {
        Some(Fixed { micros: magnitude as i64 })
    }
}

/// Reads a decimal literal, or gives `default` where `s` is none.
pub fn parse_decimal_or(s: &[char], default: Fixed) -> (r: Fixed)
    ensures
        r == number_or(s@, default),
{
    match parse_decimal(s) {
        Some(v) => v,
        None => default,
    }
}

} // verus!
