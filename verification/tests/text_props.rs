//! Behaviour of the numeric-text helpers: canonical formatting, parsing
//! with the standard acceptance, the float grammar, and the edit-field
//! sanitizers.

use save_data::text::check_float_text;
use save_data::text::i32_to_string;
use save_data::text::parse_i32;
use save_data::text::parse_u32;
use save_data::text::u32_to_string;
use save_data::text::validate_f32;
use save_data::text::validate_u32;

#[test]
fn formats_small_and_large_integers() {
    assert_eq!(u32_to_string(0), "0");
    assert_eq!(u32_to_string(57), "57");
    assert_eq!(u32_to_string(4294967295), "4294967295");
    assert_eq!(i32_to_string(0), "0");
    assert_eq!(i32_to_string(500), "500");
    assert_eq!(i32_to_string(-1), "-1");
    assert_eq!(i32_to_string(i32::MIN), "-2147483648");
    assert_eq!(i32_to_string(i32::MAX), "2147483647");
}

#[test]
fn parses_like_the_standard_library() {
    for s in ["0", "500", "-500", "+7", "2147483647", "-2147483648", "007", "", "x", "5x", "2147483648", "-2147483649", "--5", "+", "-"] {
        assert_eq!(parse_i32(s), s.parse::<i32>().ok(), "i32 {s:?}");
    }
    for s in ["0", "500", "+7", "4294967295", "4294967296", "-1", "", "1e3"] {
        assert_eq!(parse_u32(s), s.parse::<u32>().ok(), "u32 {s:?}");
    }
}

#[test]
fn float_grammar_matches_the_standard_library() {
    let cases = [
        "0", "0.0", "3.14", "-3.14", "2.5E10", "2.5e-10", "5.", ".5", "1.e3", "inf", "-inf",
        "+infinity", "NaN", "nan", "INF", "", ".", "e5", "1e", "1e+", "1..2", "1.2.3", "abc",
        "0x1", "1_000", " 1", "1 ", "infini", "+-1",
    ];
    for s in cases {
        assert_eq!(check_float_text(s), s.parse::<f32>().is_ok(), "float {s:?}");
    }
}

#[test]
fn validate_u32_keeps_filters_or_clears() {
    let mut v = String::from("123");
    validate_u32(&mut v);
    assert_eq!(v, "123");

    let mut v = String::new();
    validate_u32(&mut v);
    assert_eq!(v, "");

    let mut v = String::from("12a3");
    validate_u32(&mut v);
    assert_eq!(v, "123");

    let mut v = String::from("abc");
    validate_u32(&mut v);
    assert_eq!(v, "");

    let mut v = String::from("99999999999");
    validate_u32(&mut v);
    assert_eq!(v, "");
}

#[test]
fn validate_f32_keeps_one_dot_or_clears() {
    let mut v = String::from("1.5");
    validate_f32(&mut v);
    assert_eq!(v, "1.5");

    let mut v = String::from("1.5x");
    validate_f32(&mut v);
    assert_eq!(v, "1.5");

    let mut v = String::from("1.2.3");
    validate_f32(&mut v);
    assert_eq!(v, "1.23");

    let mut v = String::from("..");
    validate_f32(&mut v);
    assert_eq!(v, "");

    let mut v = String::from("-2.5");
    validate_f32(&mut v);
    assert_eq!(v, "-2.5");
}
