use weather_gov::config::parse_u64;
use weather_gov::dec::Dec;
use weather_gov::dec_text::parse_dec;

fn dec(mant: i128, exp: i32) -> Dec {
    Dec { mant, exp }
}

#[test]
fn reads_plain_integers() {
    assert_eq!(parse_dec("0"), Some(dec(0, 0)));
    assert_eq!(parse_dec("42"), Some(dec(42, 0)));
    assert_eq!(parse_dec("-999"), Some(dec(-999, 0)));
}

#[test]
fn reads_fractions_exactly() {
    assert_eq!(parse_dec("15.0"), Some(dec(15, 0)));
    assert_eq!(parse_dec("-71.05"), Some(dec(-7105, -2)));
    assert_eq!(parse_dec("42.36"), Some(dec(4236, -2)));
    assert_eq!(parse_dec("0.0"), Some(dec(0, 0)));
    assert_eq!(parse_dec("-0.0"), Some(dec(0, 0)));
    assert_eq!(parse_dec("18.299999999999997"), Some(dec(18299999999999997, -15)));
}

#[test]
fn reads_exponent_forms() {
    assert_eq!(parse_dec("1.5e-7"), Some(dec(15, -8)));
    assert_eq!(parse_dec("2E3"), Some(dec(2, 3)));
    assert_eq!(parse_dec("2e+3"), Some(dec(2, 3)));
    assert_eq!(parse_dec("100.00"), Some(dec(1, 2)));
}

#[test]
fn rejects_values_outside_the_readable_window() {
    assert_eq!(parse_dec("1e30"), None);
    assert_eq!(parse_dec("5e-324"), None);
    assert_eq!(parse_dec("1.7976931348623157e308"), None);
}

#[test]
fn rejects_text_that_is_not_a_number() {
    assert_eq!(parse_dec(""), None);
    assert_eq!(parse_dec("abc"), None);
    assert_eq!(parse_dec("5."), None);
    assert_eq!(parse_dec(".5"), None);
    assert_eq!(parse_dec("1e"), None);
    assert_eq!(parse_dec("--5"), None);
    assert_eq!(parse_dec("+5"), None);
    assert_eq!(parse_dec("1.2.3"), None);
    assert_eq!(parse_dec("15 "), None);
}

#[test]
fn reads_intervals_like_std() {
    assert_eq!(parse_u64("300"), Some(300));
    assert_eq!(parse_u64("+42"), Some(42));
    assert_eq!(parse_u64("0"), Some(0));
    assert_eq!(parse_u64("18446744073709551615"), Some(u64::MAX));
    assert_eq!(parse_u64("18446744073709551616"), None);
    assert_eq!(parse_u64(""), None);
    assert_eq!(parse_u64("12a"), None);
    assert_eq!(parse_u64("-5"), None);
}
