use coinbot::filters::{
    filter_atof, filter_emoji, filter_escape_md, filter_fmt2f, filter_qoutevolume, filter_stob,
    FilterArgs, FormatError, Scalar,
};
use coinbot::fixed::Fixed;

fn num(neg: bool, units: u128) -> Scalar {
    Scalar::Num(Fixed::new(neg, units))
}

fn text(s: &str) -> Scalar {
    Scalar::Str(String::from(s))
}

fn expect_str(r: Result<Scalar, FormatError>) -> String {
    match r {
        Ok(Scalar::Str(s)) => s,
        other => panic!("expected a string result, got {:?}", other),
    }
}

fn expect_num(r: Result<Scalar, FormatError>) -> Fixed {
    match r {
        Ok(Scalar::Num(x)) => x,
        other => panic!("expected a numeric result, got {:?}", other),
    }
}

#[test]
fn test_fmt() {
    assert_eq!(format!("{:+}", 1.12300), "+1.123")
}

#[test]
fn fmt2f_two_decimals() {
    let r = filter_fmt2f(&num(false, 314159000), &FilterArgs::default());
    assert_eq!(expect_str(r), "3.14");
}

#[test]
fn fmt2f_display_positive() {
    let args = FilterArgs { display_positive: true, ..FilterArgs::default() };
    let r = filter_fmt2f(&num(false, 300000000), &args);
    assert_eq!(expect_str(r), "+3.00");
}

#[test]
fn fmt2f_display_positive_auto() {
    let args = FilterArgs { display_positive: true, auto: true, ..FilterArgs::default() };
    let r = filter_fmt2f(&num(false, 300000000), &args);
    assert_eq!(expect_str(r), "+3");
}

#[test]
fn fmt2f_auto_keeps_fraction() {
    let args = FilterArgs { display_positive: true, auto: true, ..FilterArgs::default() };
    let r = filter_fmt2f(&num(false, 112300000), &args);
    assert_eq!(expect_str(r), "+1.123");
}

#[test]
fn fmt2f_negative_rounds_toward_two_decimals() {
    let r = filter_fmt2f(&num(true, 100000), &FilterArgs::default());
    assert_eq!(expect_str(r), "-0.00");
}

#[test]
fn fmt2f_rejects_strings() {
    let r = filter_fmt2f(&text("abc"), &FilterArgs::default());
    assert_eq!(r.unwrap_err(), FormatError::NotANumber);
}

#[test]
fn fmt2f_rounds_half_away_from_zero() {
    let r = filter_fmt2f(&num(false, 125000000), &FilterArgs::default());
    assert_eq!(expect_str(r), "1.25");
    let r = filter_fmt2f(&num(false, 125500000), &FilterArgs::default());
    assert_eq!(expect_str(r), "1.26");
}

#[test]
fn qoutevolume_scales_e8() {
    let args = FilterArgs { e8: Some(String::from("B")), ..FilterArgs::default() };
    let r = filter_qoutevolume(&num(false, 25_000_000_000_000_000), &args);
    assert_eq!(expect_str(r), "2.50B");
}

#[test]
fn qoutevolume_scales_e4() {
    let args = FilterArgs { e4: Some(String::from("K")), ..FilterArgs::default() };
    let r = filter_qoutevolume(&num(false, 2_500_000_000_000), &args);
    assert_eq!(expect_str(r), "2.50K");
}

#[test]
fn qoutevolume_small_values_plain() {
    let r = filter_qoutevolume(&num(false, 4_200_000_000), &FilterArgs::default());
    assert_eq!(expect_str(r), "42.00");
}

#[test]
fn qoutevolume_missing_suffix_defaults_empty() {
    let r = filter_qoutevolume(&num(false, 25_000_000_000_000_000), &FilterArgs::default());
    assert_eq!(expect_str(r), "2.50");
}

#[test]
fn qoutevolume_rejects_null() {
    let r = filter_qoutevolume(&Scalar::Null, &FilterArgs::default());
    assert_eq!(r.unwrap_err(), FormatError::NotANumber);
}

#[test]
fn stob_converts_satoshi() {
    let r = filter_stob(&num(false, 10_000_000_000_000_000), &FilterArgs::default());
    let x = expect_num(r);
    assert!(!x.neg);
    assert_eq!(x.units, 100_000_000);
}

#[test]
fn stob_rejects_bools() {
    let r = filter_stob(&Scalar::Bool(true), &FilterArgs::default());
    assert_eq!(r.unwrap_err(), FormatError::NotANumber);
}

fn emoji_args() -> FilterArgs {
    FilterArgs {
        positive: Some(vec![
            String::from("a"),
            String::from("b"),
            String::from("c"),
            String::from("d"),
            String::from("e"),
        ]),
        negative: Some(vec![String::from("x"), String::from("y")]),
        ..FilterArgs::default()
    }
}

#[test]
fn emoji_first_bucket() {
    let r = filter_emoji(&num(false, 100_000_000), &emoji_args());
    assert_eq!(expect_str(r), "a");
}

#[test]
fn emoji_last_bucket() {
    let r = filter_emoji(&num(false, 900_000_000), &emoji_args());
    assert_eq!(expect_str(r), "e");
}

#[test]
fn emoji_clamps_large_values() {
    let r = filter_emoji(&num(false, 10_000_000_000), &emoji_args());
    assert_eq!(expect_str(r), "e");
}

#[test]
fn emoji_negative_values_use_negative_set() {
    let r = filter_emoji(&num(true, 300_000_000), &emoji_args());
    assert_eq!(expect_str(r), "y");
}

#[test]
fn emoji_zero_is_not_positive() {
    let r = filter_emoji(&num(false, 0), &emoji_args());
    assert_eq!(expect_str(r), "x");
}

#[test]
fn emoji_empty_set_yields_empty_string() {
    let args = FilterArgs {
        positive: Some(Vec::new()),
        negative: Some(Vec::new()),
        ..FilterArgs::default()
    };
    let r = filter_emoji(&num(false, 100_000_000), &args);
    assert_eq!(expect_str(r), "");
}

#[test]
fn emoji_missing_positive() {
    let args = FilterArgs { negative: Some(Vec::new()), ..FilterArgs::default() };
    let r = filter_emoji(&num(false, 100_000_000), &args);
    assert_eq!(r.unwrap_err(), FormatError::MissingPositive);
}

#[test]
fn emoji_missing_negative() {
    let args = FilterArgs { positive: Some(Vec::new()), ..FilterArgs::default() };
    let r = filter_emoji(&num(false, 100_000_000), &args);
    assert_eq!(r.unwrap_err(), FormatError::MissingNegative);
}

#[test]
fn emoji_rejects_strings() {
    let r = filter_emoji(&text("1.0"), &emoji_args());
    assert_eq!(r.unwrap_err(), FormatError::NotANumber);
}

#[test]
fn escape_md_plain_text_unchanged() {
    let r = filter_escape_md(&text("hello world"), &FilterArgs::default());
    assert_eq!(expect_str(r), "hello world");
}

#[test]
fn escape_md_escapes_reserved() {
    let r = filter_escape_md(&text("a.b*c!"), &FilterArgs::default());
    assert_eq!(expect_str(r), "a\\.b\\*c\\!");
}

#[test]
fn escape_md_rejects_numbers() {
    let r = filter_escape_md(&num(false, 0), &FilterArgs::default());
    assert_eq!(r.unwrap_err(), FormatError::NotAString);
}

#[test]
fn atof_parses_decimals() {
    let x = expect_num(filter_atof(&text("1.5"), &FilterArgs::default()));
    assert!(!x.neg);
    assert_eq!(x.units, 150_000_000);
}

#[test]
fn atof_parses_exponents() {
    let x = expect_num(filter_atof(&text("2.5e8"), &FilterArgs::default()));
    assert_eq!(x.units, 25_000_000_000_000_000);
    let y = expect_num(filter_atof(&text("15E-1"), &FilterArgs::default()));
    assert_eq!(y.units, 150_000_000);
}

#[test]
fn atof_parses_signs() {
    let x = expect_num(filter_atof(&text("+3.5"), &FilterArgs::default()));
    assert!(!x.neg);
    assert_eq!(x.units, 350_000_000);
    let y = expect_num(filter_atof(&text("-0.001"), &FilterArgs::default()));
    assert!(y.neg);
    assert_eq!(y.units, 100_000);
}

#[test]
fn atof_truncates_past_eighth_decimal() {
    let x = expect_num(filter_atof(&text("0.123456789"), &FilterArgs::default()));
    assert_eq!(x.units, 12_345_678);
}

#[test]
fn atof_fails_on_garbage() {
    let r = filter_atof(&text("not-a-number"), &FilterArgs::default());
    assert_eq!(r.unwrap_err(), FormatError::ParseFailed);
}

#[test]
fn atof_fails_on_empty_and_malformed() {
    for bad in ["", ".", "+", "1.2.3", "1e", "--1", "1e+"] {
        let r = filter_atof(&text(bad), &FilterArgs::default());
        assert_eq!(r.unwrap_err(), FormatError::ParseFailed, "input {:?}", bad);
    }
}

#[test]
fn atof_rejects_non_strings() {
    let r = filter_atof(&num(false, 0), &FilterArgs::default());
    assert_eq!(r.unwrap_err(), FormatError::NotAString);
}
