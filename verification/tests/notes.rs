use boomie::fixed::{parse_decimal, parse_i32, parse_u32};
use boomie::{parse_note, Fixed, SynthError};

fn chars(s: &str) -> Vec<char> {
    s.chars().collect()
}

fn number(s: &str) -> Option<i64> {
    parse_decimal(&chars(s)).map(|f| f.micros)
}

#[test]
fn a4_is_440_hz() {
    assert_eq!(parse_note("A4").unwrap(), Fixed { micros: 440_000_000 });
}

#[test]
fn c0_is_16_35_hz() {
    assert_eq!(parse_note("C0").unwrap().micros, 16_350_000);
}

#[test]
fn c_sharp_4_is_a_semitone_above_c4() {
    // 16.35 * 1.059463 * 16, cut off after the sixth place
    assert_eq!(parse_note("C#4").unwrap().micros, 277_155_520);
}

#[test]
fn d_flat_4_is_close_to_c_sharp_4() {
    let flat = parse_note("Db4").unwrap().micros;
    let sharp = parse_note("C#4").unwrap().micros;
    // 18.35 * 0.943874 is cut off to 17.320087, then doubled four times
    assert_eq!(flat, 277_121_392);
    assert!((flat - sharp).abs() * 1000 < 2 * sharp);
}

#[test]
fn note_names_ignore_case() {
    assert_eq!(parse_note("a4").unwrap().micros, 440_000_000);
    assert_eq!(parse_note("cs4").unwrap(), parse_note("C#4").unwrap());
    assert_eq!(parse_note("DF4").unwrap(), parse_note("Db4").unwrap());
    assert_eq!(parse_note("DB4").unwrap(), parse_note("db4").unwrap());
}

#[test]
fn second_character_decides_the_accidental() {
    // B then b: B flat, no octave
    assert_eq!(parse_note("Bb").unwrap().micros, 3087 * 943_874 / 100);
    assert_eq!(parse_note("BB4").unwrap(), parse_note("bb4").unwrap());
    // D, flat written as f
    assert_eq!(parse_note("Df4").unwrap(), parse_note("Db4").unwrap());
    assert_eq!(parse_note("Ff2").unwrap().micros, 2183 * 943_874 / 100 * 4);
}

#[test]
fn names_with_two_readings_are_refused() {
    for name in ["BF4", "bf4", "Bf", "bF-1", "FB4", "Fb4", "fb", "fB 3"] {
        match parse_note(name) {
            Err(SynthError::ParseError(m)) => assert_eq!(m, "Invalid note"),
            other => panic!("{}: unexpected: {:?}", name, other),
        }
    }
}

#[test]
fn an_octave_up_is_exactly_the_double() {
    for name in ["C", "C#", "Db", "D", "Eb", "E", "F", "F#", "Gb", "G", "Ab", "A", "Bb", "B", "Cs", "Df"] {
        let base = parse_note(name).unwrap().micros;
        assert_eq!(parse_note(&format!("{}0", name)).unwrap().micros, base);
        for octave in 0..10 {
            let here = parse_note(&format!("{}{}", name, octave)).unwrap().micros;
            let above = parse_note(&format!("{}{}", name, octave + 1)).unwrap().micros;
            assert_eq!(above, 2 * here);
            assert_eq!(parse_note(&format!("{}{}", name, octave).to_lowercase()).unwrap().micros, here);
            assert_eq!(parse_note(&format!("{}{}", name, octave).to_uppercase()).unwrap().micros, here);
        }
    }
    assert_eq!(parse_note("C#5").unwrap().micros, 2 * parse_note("C#4").unwrap().micros);
}

#[test]
fn note_without_octave_is_in_octave_zero() {
    assert_eq!(parse_note("G").unwrap().micros, 24_500_000);
    assert_eq!(parse_note("E#").unwrap().micros, 2060 * 1_059_463 / 100);
    assert_eq!(parse_note("E#3").unwrap().micros, 2060 * 1_059_463 / 100 * 8);
}

#[test]
fn octave_that_is_no_number_is_ignored() {
    assert_eq!(parse_note("A4x").unwrap().micros, 27_500_000);
    assert_eq!(parse_note("A 4 ").unwrap().micros, 440_000_000);
}

#[test]
fn negative_octaves_halve() {
    assert_eq!(parse_note("A-1").unwrap().micros, 13_750_000);
    assert_eq!(parse_note("A-2").unwrap().micros, 6_875_000);
    assert_eq!(parse_note("C-40").unwrap().micros, 0);
}

#[test]
fn huge_octaves_saturate() {
    assert_eq!(parse_note("A200").unwrap().micros, i64::MAX);
    assert_eq!(parse_note("A39").unwrap().micros, i64::MAX);
    assert_eq!(parse_note("A30").unwrap().micros, 27_500_000 * (1i64 << 30));
}

#[test]
fn unknown_letter_is_a_parse_error() {
    match parse_note("H4") {
        Err(SynthError::ParseError(m)) => assert_eq!(m, "Invalid note"),
        other => panic!("unexpected: {:?}", other),
    }
    assert!(matches!(parse_note(""), Err(SynthError::ParseError(_))));
    assert!(matches!(parse_note("#4"), Err(SynthError::ParseError(_))));
    assert!(matches!(parse_note(" A4"), Err(SynthError::ParseError(_))));
}

#[test]
fn error_descriptions_name_the_kind() {
    assert_eq!(
        SynthError::ParseError("Invalid note".to_string()).describe(),
        "Parsing Error: Invalid note"
    );
    assert_eq!(SynthError::FileError("x".to_string()).describe(), "File Error: x");
    assert_eq!(SynthError::AudioError("y".to_string()).describe(), "Audio Error: y");
    assert_eq!(
        SynthError::InvalidInstrument("z".to_string()).describe(),
        "Invalid Instrument Error: z"
    );
    assert_eq!(SynthError::AudioError("y".to_string()).message(), "y");
}

#[test]
fn decimals_are_read_in_millionths() {
    assert_eq!(number("1"), Some(1_000_000));
    assert_eq!(number("0.5"), Some(500_000));
    assert_eq!(number("120"), Some(120_000_000));
    assert_eq!(number("-0.25"), Some(-250_000));
    assert_eq!(number("+3.5"), Some(3_500_000));
    assert_eq!(number(".5"), Some(500_000));
    assert_eq!(number("5."), Some(5_000_000));
    assert_eq!(number("0.000001"), Some(1));
    assert_eq!(number("-0"), Some(0));
}

#[test]
fn decimals_are_cut_off_after_the_sixth_place() {
    assert_eq!(number("0.0000019"), Some(1));
    assert_eq!(number("0.9999999"), Some(999_999));
    assert_eq!(number("-0.9999999"), Some(-999_999));
    assert_eq!(number("0.33333333333333333333333333"), Some(333_333));
}

#[test]
fn decimals_take_exponents() {
    assert_eq!(number("1e3"), Some(1_000_000_000));
    assert_eq!(number("1.5E2"), Some(150_000_000));
    assert_eq!(number("25e-2"), Some(250_000));
    assert_eq!(number("1e-6"), Some(1));
    assert_eq!(number("1e-7"), Some(0));
    assert_eq!(number("0e999999999999999999999999"), Some(0));
    assert_eq!(number("1e-999999999999999999999999"), Some(0));
    assert_eq!(number("12345678901234567890e-14"), Some(123_456_789_012));
}

#[test]
fn decimals_saturate() {
    assert_eq!(number("1e13"), Some(i64::MAX));
    assert_eq!(number("-1e13"), Some(-i64::MAX));
    assert_eq!(number("9223372036854.775807"), Some(i64::MAX));
    assert_eq!(number("9223372036854.775806"), Some(i64::MAX - 1));
    assert_eq!(number("1e999999999999999999999999"), Some(i64::MAX));
}

#[test]
fn what_is_no_decimal_is_refused() {
    for bad in [
        "", ".", "+", "-", "e5", "1e", "1e+", "1.2.3", "1,5", " 1", "1 ", "abc", "0x10", "inf",
        "nan", "infinity", "1e5.5", "--1", "1-",
    ] {
        assert_eq!(number(bad), None, "{:?}", bad);
    }
}

#[test]
fn integers_of_32_bits() {
    assert_eq!(parse_i32(&chars("42")), Some(42));
    assert_eq!(parse_i32(&chars("-42")), Some(-42));
    assert_eq!(parse_i32(&chars("+42")), Some(42));
    assert_eq!(parse_i32(&chars("2147483647")), Some(i32::MAX));
    assert_eq!(parse_i32(&chars("2147483648")), None);
    assert_eq!(parse_i32(&chars("-2147483648")), Some(i32::MIN));
    assert_eq!(parse_i32(&chars("-2147483649")), None);
    assert_eq!(parse_i32(&chars("")), None);
    assert_eq!(parse_i32(&chars("-")), None);
    assert_eq!(parse_i32(&chars("4 ")), None);
    assert_eq!(parse_u32(&chars("4294967295")), Some(u32::MAX));
    assert_eq!(parse_u32(&chars("4294967296")), None);
    assert_eq!(parse_u32(&chars("+7")), Some(7));
    assert_eq!(parse_u32(&chars("-0")), None);
    assert_eq!(parse_u32(&chars("0007")), Some(7));
}

#[test]
fn fixed_arithmetic() {
    let half = Fixed::from_micros(500_000);
    assert_eq!(Fixed::from_int(3).micros(), 3_000_000);
    assert_eq!(Fixed::zero().micros, 0);
    assert_eq!(half.times(half).micros, 250_000);
    assert_eq!(Fixed::from_int(-3).times(half).micros, -1_500_000);
    assert_eq!(Fixed::from_micros(1).times(half).micros, 0);
    assert_eq!(Fixed::from_micros(-1).times(half).micros, 0);
    assert_eq!(Fixed::from_micros(i64::MAX).times(Fixed::from_int(2)).micros, i64::MAX);
    assert_eq!(Fixed::from_micros(i64::MIN).times(Fixed::from_int(2)).micros, i64::MIN);
    assert_eq!(Fixed::from_micros(i64::MAX).saturating_add(half).micros, i64::MAX);
    assert_eq!(Fixed::from_micros(i64::MIN).saturating_add(Fixed::from_int(-1)).micros, i64::MIN);
    assert_eq!(half.saturating_add(half).micros, 1_000_000);
    assert_eq!(Fixed::from_int(3).clamp(Fixed::zero(), Fixed::from_int(2)).micros, 2_000_000);
    assert_eq!(Fixed::from_int(-3).clamp(Fixed::zero(), Fixed::from_int(2)).micros, 0);
    assert_eq!(half.clamp(Fixed::zero(), Fixed::from_int(2)), half);
}
