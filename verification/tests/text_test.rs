use dual_balanced_ternary::error::ParseError;
use dual_balanced_ternary::DualBalancedTernaryDigit::{Dbt1, Dbt2, Dbt3, Dbt4, Dbt5};
use dual_balanced_ternary::{ternary, DualBalancedTernary};

#[test]
fn parse_stores_the_units_first() {
    let x = ternary("&123.45");
    assert_eq!(x.integral, vec![Dbt3, Dbt2, Dbt1]);
    assert_eq!(x.fractional, vec![Dbt4]);
    let y = ternary("&5512.3455");
    assert_eq!(y.integral, vec![Dbt2, Dbt1]);
    assert_eq!(y.fractional, vec![Dbt3, Dbt4]);
}

#[test]
fn parse_accepts_empty_parts() {
    for text in ["&.", "&5", "&5.", "&.5", "&5.5", "&555.555"] {
        let x = DualBalancedTernary::from_str(text).unwrap();
        assert!(x.integral.is_empty());
        assert!(x.fractional.is_empty());
    }
    assert_eq!(ternary("&1.").fractional, vec![]);
    assert_eq!(ternary("&.1").integral, vec![]);
}

#[test]
fn parse_refuses_a_missing_marker() {
    assert_eq!(DualBalancedTernary::from_str(""), Err(ParseError::MissingMarker));
    assert_eq!(DualBalancedTernary::from_str("1.1"), Err(ParseError::MissingMarker));
    assert_eq!(DualBalancedTernary::from_str("12"), Err(ParseError::MissingMarker));
    assert_eq!(DualBalancedTernary::from_str(".&1"), Err(ParseError::MissingMarker));
    assert_eq!(DualBalancedTernary::from_str("é1"), Err(ParseError::MissingMarker));
}

#[test]
fn parse_refuses_an_empty_body() {
    assert_eq!(DualBalancedTernary::from_str("&"), Err(ParseError::EmptyBody));
}

#[test]
fn parse_refuses_a_second_separator() {
    assert_eq!(DualBalancedTernary::from_str("&1.2.3"), Err(ParseError::MultipleSeparators));
    assert_eq!(DualBalancedTernary::from_str("&.."), Err(ParseError::MultipleSeparators));
    assert_eq!(DualBalancedTernary::from_str("&1.a.2"), Err(ParseError::MultipleSeparators));
    assert_eq!(DualBalancedTernary::from_str("&1.2."), Err(ParseError::MultipleSeparators));
}

#[test]
fn parse_refuses_what_is_no_digit() {
    assert_eq!(DualBalancedTernary::from_str("&1a"), Err(ParseError::InvalidDigit('a')));
    assert_eq!(DualBalancedTernary::from_str("&0"), Err(ParseError::InvalidDigit('0')));
    assert_eq!(DualBalancedTernary::from_str("&12.3x4y"), Err(ParseError::InvalidDigit('x')));
    assert_eq!(DualBalancedTernary::from_str("&a.1.2"), Err(ParseError::InvalidDigit('a')));
    assert_eq!(DualBalancedTernary::from_str("&&1"), Err(ParseError::InvalidDigit('&')));
    assert_eq!(DualBalancedTernary::from_str("&1 2"), Err(ParseError::InvalidDigit(' ')));
    assert_eq!(DualBalancedTernary::from_str("&1é"), Err(ParseError::InvalidDigit('é')));
}

#[test]
fn format_writes_zero_as_the_centre() {
    assert_eq!(DualBalancedTernary::zero().to_string(), "&5");
    assert_eq!(ternary("&.").to_string(), "&5");
    assert_eq!(ternary("&5.5").to_string(), "&5");
}

#[test]
fn format_leaves_out_an_empty_fraction() {
    assert_eq!(ternary("&123").to_string(), "&123");
    assert_eq!(ternary("&123.").to_string(), "&123");
    assert_eq!(ternary("&.123").to_string(), "&.123");
    assert_eq!(ternary("&9.8").to_string(), "&9.8");
}

#[test]
fn format_writes_every_digit_that_is_there() {
    let x = DualBalancedTernary { integral: vec![Dbt1, Dbt5], fractional: vec![Dbt2, Dbt5] };
    assert_eq!(x.to_string(), "&51.25");
}

#[test]
fn text_round_trip_of_canonical_numbers() {
    for text in ["&5", "&1", "&.1", "&1.1", "&123456789", "&.987654321", "&15.51", "&95159.15951"] {
        let x = ternary(text);
        assert_eq!(x.to_string(), text);
        let again = DualBalancedTernary::from_str(&x.to_string()).unwrap();
        assert_eq!(again.integral, x.integral);
        assert_eq!(again.fractional, x.fractional);
    }
}
