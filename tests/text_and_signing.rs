use watchpower::signer::digest;
use watchpower::text::{decimal_string, parse_decimal, parse_integer, push_signed};
use watchpower::Decimal;

#[test]
fn digest_matches_known_sha1_fixtures() {
    assert_eq!(digest(&vec!["abc"]), "a9993e364706816aba3e25717850c26c9cd0d89d");
    assert_eq!(digest(&vec![]), "da39a3ee5e6b4b0d3255bfef95601890afd80709");
}

#[test]
fn digest_concatenates_without_separator() {
    let a = digest(&vec!["a", "bc"]);
    let b = digest(&vec!["ab", "c"]);
    assert_eq!(a, b);
    assert_eq!(a, digest(&vec!["abc"]));
    assert_eq!(a, digest(&vec!["", "abc", ""]));
}

#[test]
fn digest_is_stable_across_calls() {
    let parts = vec!["1700000000000", "secret", "token", "&action=x"];
    assert_eq!(digest(&parts), digest(&parts));
    assert_eq!(digest(&parts).len(), 40);
    assert!(digest(&parts).chars().all(|c| c.is_ascii_digit() || ('a'..='f').contains(&c)));
}

#[test]
fn parse_integer_reads_signed_values_in_range() {
    assert_eq!(parse_integer("42", -128, 127), Some(42));
    assert_eq!(parse_integer("-128", -128, 127), Some(-128));
    assert_eq!(parse_integer("+7", -128, 127), Some(7));
    assert_eq!(parse_integer("007", -128, 127), Some(7));
    assert_eq!(parse_integer("128", -128, 127), None);
    assert_eq!(parse_integer("-129", -128, 127), None);
    assert_eq!(parse_integer("-9223372036854775808", i64::MIN, i64::MAX), Some(i64::MIN));
    assert_eq!(parse_integer("9223372036854775808", i64::MIN, i64::MAX), None);
    assert_eq!(parse_integer("99999999999999999999999", i64::MIN, i64::MAX), None);
}

#[test]
fn parse_integer_refuses_non_numeric_text() {
    assert_eq!(parse_integer("", -128, 127), None);
    assert_eq!(parse_integer("-", -128, 127), None);
    assert_eq!(parse_integer("abc", -128, 127), None);
    assert_eq!(parse_integer("1.5", -1000, 1000), None);
    assert_eq!(parse_integer(" 1", -1000, 1000), None);
}

#[test]
fn parse_decimal_reads_fixed_point_values() {
    assert_eq!(parse_decimal("230.5"), Some(Decimal { mantissa: 2305, scale: 1 }));
    assert_eq!(parse_decimal("-0.25"), Some(Decimal { mantissa: -25, scale: 2 }));
    assert_eq!(parse_decimal("50"), Some(Decimal { mantissa: 50, scale: 0 }));
    assert_eq!(parse_decimal("7."), Some(Decimal { mantissa: 7, scale: 0 }));
    assert_eq!(parse_decimal(".5"), Some(Decimal { mantissa: 5, scale: 1 }));
    assert_eq!(parse_decimal("+1.00"), Some(Decimal { mantissa: 100, scale: 2 }));
}

#[test]
fn parse_decimal_refuses_non_numeric_text() {
    assert_eq!(parse_decimal(""), None);
    assert_eq!(parse_decimal("."), None);
    assert_eq!(parse_decimal("-"), None);
    assert_eq!(parse_decimal("abc"), None);
    assert_eq!(parse_decimal("1.2.3"), None);
    assert_eq!(parse_decimal("12a"), None);
    assert_eq!(parse_decimal("1.x"), None);
    assert_eq!(parse_decimal("99999999999999999999"), None);
}

#[test]
fn integers_render_as_decimal_text() {
    assert_eq!(decimal_string(0), "0");
    assert_eq!(decimal_string(1700000000123), "1700000000123");
    assert_eq!(decimal_string(u64::MAX), "18446744073709551615");
    let mut s = String::from("x=");
    push_signed(&mut s, -42);
    assert_eq!(s, "x=-42");
    let mut m = String::new();
    push_signed(&mut m, i64::MIN);
    assert_eq!(m, "-9223372036854775808");
}

#[test]
fn padded_numbers_keep_their_width() {
    let mut s = String::new();
    watchpower::text::push_padded(&mut s, 7, 2);
    watchpower::text::push_padded(&mut s, 123, 2);
    watchpower::text::push_padded(&mut s, 0, 4);
    assert_eq!(s, "071230000");
}
