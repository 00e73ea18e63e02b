//! Timescale and delay specification parsing.

use digital_test_to_verilog::model::EmitError;
use digital_test_to_verilog::options::{parse_delay, parse_timescale};

#[test]
fn timescale_works() {
    assert_eq!(parse_timescale("1us/1ns"), Ok(String::from("1us/1ns")));
}

#[test]
fn timescale_works_with_one_time() {
    assert_eq!(parse_timescale("1us"), Ok(String::from("1us/1us")));
}

#[test]
fn timescale_gives_error_for_unknown_unit() {
    assert_eq!(parse_timescale("1km"), Err(EmitError::InvalidTimescale));
}

#[test]
fn timescale_accepts_all_magnitude_prefixes() {
    assert_eq!(parse_timescale("1s"), Ok(String::from("1s/1s")));
    assert_eq!(parse_timescale("10ms"), Ok(String::from("10ms/10ms")));
    assert_eq!(parse_timescale("100us"), Ok(String::from("100us/100us")));
    assert_eq!(parse_timescale("2ns"), Ok(String::from("2ns/2ns")));
    assert_eq!(parse_timescale("3ps"), Ok(String::from("3ps/3ps")));
    assert_eq!(parse_timescale("4fs"), Ok(String::from("4fs/4fs")));
}

#[test]
fn timescale_rejects_malformed_specifications() {
    assert_eq!(parse_timescale(""), Err(EmitError::InvalidTimescale));
    assert_eq!(parse_timescale("us"), Err(EmitError::InvalidTimescale));
    assert_eq!(parse_timescale("1"), Err(EmitError::InvalidTimescale));
    assert_eq!(parse_timescale("x1us"), Err(EmitError::InvalidTimescale));
    assert_eq!(parse_timescale("1us "), Err(EmitError::InvalidTimescale));
    assert_eq!(parse_timescale("1us/"), Err(EmitError::InvalidTimescale));
    assert_eq!(parse_timescale("/1us"), Err(EmitError::InvalidTimescale));
    assert_eq!(
        parse_timescale("1us/1ns/1ps"),
        Err(EmitError::InvalidTimescale)
    );
}

#[test]
fn delay_works() {
    assert_eq!(parse_delay("20:10"), Ok((20, 10)));
}

#[test]
fn delay_works_with_one_number() {
    assert_eq!(parse_delay("20"), Ok((20, 0)));
}

#[test]
fn delay_accepts_bounds_and_leading_zeros() {
    assert_eq!(parse_delay("0"), Ok((0, 0)));
    assert_eq!(parse_delay("0007"), Ok((7, 0)));
    assert_eq!(parse_delay("4294967295:1"), Ok((u32::MAX, 1)));
}

#[test]
fn delay_rejects_malformed_specifications() {
    assert_eq!(parse_delay(""), Err(EmitError::InvalidDelay));
    assert_eq!(parse_delay("abc"), Err(EmitError::InvalidDelay));
    assert_eq!(parse_delay("20:"), Err(EmitError::InvalidDelay));
    assert_eq!(parse_delay(":10"), Err(EmitError::InvalidDelay));
    assert_eq!(parse_delay("20:10:5"), Err(EmitError::InvalidDelay));
    assert_eq!(parse_delay("-1"), Err(EmitError::InvalidDelay));
    assert_eq!(parse_delay("4294967296"), Err(EmitError::InvalidDelay));
}

#[test]
fn error_descriptions_are_stable() {
    assert_eq!(
        EmitError::InvalidTimescale.describe(),
        "unknown timestamp format"
    );
    assert_eq!(EmitError::InvalidDelay.describe(), "invalid delay format");
    assert_eq!(
        EmitError::InvalidValue.describe(),
        "unexpected X output value"
    );
    assert_eq!(
        EmitError::MalformedTestCase.describe(),
        "malformed test case"
    );
}
