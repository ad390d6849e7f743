use weather_gov::dec::Dec;
use weather_gov::dec::fahrenheit;
use weather_gov::dec::feet;
use weather_gov::dec::inhg;
use weather_gov::dec::mph;
use weather_gov::dec::sentinel;
use weather_gov::dec::zero;

fn dec(mant: i128, exp: i32) -> Dec {
    Dec { mant, exp }
}

#[test]
fn fahrenheit_of_zero_celsius_is_thirty_two() {
    assert_eq!(fahrenheit(zero()), dec(32, 0));
}

#[test]
fn fahrenheit_of_fifteen_is_fifty_nine() {
    assert_eq!(fahrenheit(dec(15, 0)), dec(59, 0));
}

#[test]
fn fahrenheit_of_negative_forty_is_negative_forty() {
    assert_eq!(fahrenheit(dec(-4, 1)), dec(-4, 1));
}

#[test]
fn fahrenheit_is_exact_on_fractions() {
    // 36.5 C -> 97.7 F
    assert_eq!(fahrenheit(dec(365, -1)), dec(977, -1));
}

#[test]
fn mph_of_ten_kmh() {
    assert_eq!(mph(dec(1, 1)), dec(6213712, -6));
}

#[test]
fn inhg_of_hundred_thousand_pascal() {
    assert_eq!(inhg(dec(1, 5)), dec(29529983071445, -12));
}

#[test]
fn feet_of_ten_meters() {
    assert_eq!(feet(dec(1, 1)), dec(328084, -4));
}

#[test]
fn feet_of_zero_is_zero() {
    assert_eq!(feet(zero()), zero());
}

#[test]
fn sentinel_converts_to_sentinel_everywhere() {
    assert_eq!(fahrenheit(sentinel()), sentinel());
    assert_eq!(mph(sentinel()), sentinel());
    assert_eq!(inhg(sentinel()), sentinel());
    assert_eq!(feet(sentinel()), sentinel());
}

#[test]
fn sentinel_is_the_reserved_literal() {
    assert_eq!(sentinel(), dec(-99999, -2));
}
