use cretonne::immediates::{format_float, parse_float, Ieee32, Ieee64};
use std::{f32, f64};

fn ieee32(x: f32) -> Ieee32 {
    Ieee32::from_bits(x.to_bits())
}

fn ieee64(x: f64) -> Ieee64 {
    Ieee64::from_bits(x.to_bits())
}

// Check that `text` reads as a number that is written as `want`.
fn parse_ok32(text: &str, want: &str) {
    match Ieee32::from_str(text) {
        Err(s) => panic!("\"{}\".parse() error: {}", text, s),
        Ok(x) => assert_eq!(x.to_string(), want),
    }
}

// Check that `text` is refused with the message `msg`.
fn parse_err32(text: &str, msg: &str) {
    match Ieee32::from_str(text) {
        Err(s) => assert_eq!(s.to_string(), msg),
        Ok(x) => panic!("Wanted Err({}), but got {}", msg, x.to_string()),
    }
}

fn parse_ok64(text: &str, want: &str) {
    match Ieee64::from_str(text) {
        Err(s) => panic!("\"{}\".parse() error: {}", text, s),
        Ok(x) => assert_eq!(x.to_string(), want),
    }
}

fn parse_err64(text: &str, msg: &str) {
    match Ieee64::from_str(text) {
        Err(s) => assert_eq!(s.to_string(), msg),
        Ok(x) => panic!("Wanted Err({}), but got {}", msg, x.to_string()),
    }
}

#[test]
fn format_ieee32() {
    assert_eq!(ieee32(0.0).to_string(), "0.0");
    assert_eq!(ieee32(-0.0).to_string(), "-0.0");
    assert_eq!(ieee32(1.0).to_string(), "0x1.000000p0");
    assert_eq!(ieee32(1.5).to_string(), "0x1.800000p0");
    assert_eq!(ieee32(0.5).to_string(), "0x1.000000p-1");
    assert_eq!(ieee32(f32::EPSILON).to_string(), "0x1.000000p-23");
    assert_eq!(ieee32(f32::MIN).to_string(), "-0x1.fffffep127");
    assert_eq!(ieee32(f32::MAX).to_string(), "0x1.fffffep127");
    // Smallest positive normal number.
    assert_eq!(ieee32(f32::MIN_POSITIVE).to_string(),
               "0x1.000000p-126");
    // Subnormals.
    assert_eq!(ieee32(f32::MIN_POSITIVE / 2.0).to_string(),
               "0x0.800000p-126");
    assert_eq!(ieee32(f32::MIN_POSITIVE * f32::EPSILON).to_string(),
               "0x0.000002p-126");
    assert_eq!(ieee32(f32::INFINITY).to_string(), "Inf");
    assert_eq!(ieee32(f32::NEG_INFINITY).to_string(), "-Inf");
    assert_eq!(ieee32(f32::NAN).to_string(), "NaN");
    assert_eq!(ieee32(-f32::NAN).to_string(), "-NaN");
    // Construct some qNaNs with payloads.
    assert_eq!(Ieee32::from_bits(0x7fc00001).to_string(), "NaN:0x1");
    assert_eq!(Ieee32::from_bits(0x7ff00001).to_string(), "NaN:0x300001");
    // Signaling NaNs.
    assert_eq!(Ieee32::from_bits(0x7f800001).to_string(), "sNaN:0x1");
    assert_eq!(Ieee32::from_bits(0x7fa00001).to_string(), "sNaN:0x200001");
}

#[test]
fn parse_ieee32() {
    parse_ok32("0.0", "0.0");
    parse_ok32("-0.0", "-0.0");
    parse_ok32("0x0", "0.0");
    parse_ok32("0x0.0", "0.0");
    parse_ok32("0x.0", "0.0");
    parse_ok32("0x0.", "0.0");
    parse_ok32("0x1", "0x1.000000p0");
    parse_ok32("-0x1", "-0x1.000000p0");
    parse_ok32("0x10", "0x1.000000p4");
    parse_ok32("0x10.0", "0x1.000000p4");
    parse_err32("0.", "Float must be hexadecimal");
    parse_err32(".0", "Float must be hexadecimal");
    parse_err32("0", "Float must be hexadecimal");
    parse_err32("-0", "Float must be hexadecimal");
    parse_err32(".", "Float must be hexadecimal");
    parse_err32("", "Float must be hexadecimal");
    parse_err32("-", "Float must be hexadecimal");
    parse_err32("0x", "No digits");
    parse_err32("0x..", "Multiple radix points");

    // Check significant bits.
    parse_ok32("0x0.ffffff", "0x1.fffffep-1");
    parse_ok32("0x1.fffffe", "0x1.fffffep0");
    parse_ok32("0x3.fffffc", "0x1.fffffep1");
    parse_ok32("0x7.fffff8", "0x1.fffffep2");
    parse_ok32("0xf.fffff0", "0x1.fffffep3");
    parse_err32("0x1.ffffff", "Too many significant bits");
    parse_err32("0x1.fffffe0000000000", "Too many digits");

    // Exponents.
    parse_ok32("0x1p3", "0x1.000000p3");
    parse_ok32("0x1p-3", "0x1.000000p-3");
    parse_ok32("0x1.0p3", "0x1.000000p3");
    parse_ok32("0x2.0p3", "0x1.000000p4");
    parse_ok32("0x1.0p127", "0x1.000000p127");
    parse_ok32("0x1.0p-126", "0x1.000000p-126");
    parse_ok32("0x0.1p-122", "0x1.000000p-126");
    parse_err32("0x2.0p127", "Magnitude too large");

    // Subnormals.
    parse_ok32("0x1.0p-127", "0x0.800000p-126");
    parse_ok32("0x1.0p-149", "0x0.000002p-126");
    parse_ok32("0x0.000002p-126", "0x0.000002p-126");
    parse_err32("0x0.100001p-126", "Subnormal underflow");
    parse_err32("0x1.8p-149", "Subnormal underflow");
    parse_err32("0x1.0p-150", "Magnitude too small");

    // NaNs and Infs.
    parse_ok32("Inf", "Inf");
    parse_ok32("-Inf", "-Inf");
    parse_ok32("NaN", "NaN");
    parse_ok32("-NaN", "-NaN");
    parse_ok32("NaN:0x0", "NaN");
    parse_err32("NaN:", "Float must be hexadecimal");
    parse_err32("NaN:0", "Float must be hexadecimal");
    parse_err32("NaN:0x", "Invalid NaN payload");
    parse_ok32("NaN:0x000001", "NaN:0x1");
    parse_ok32("NaN:0x300001", "NaN:0x300001");
    parse_err32("NaN:0x400001", "Invalid NaN payload");
    parse_ok32("sNaN:0x1", "sNaN:0x1");
    parse_err32("sNaN:0x0", "Invalid sNaN payload");
    parse_ok32("sNaN:0x200001", "sNaN:0x200001");
    parse_err32("sNaN:0x400001", "Invalid sNaN payload");
}

#[test]
fn format_ieee64() {
    assert_eq!(ieee64(0.0).to_string(), "0.0");
    assert_eq!(ieee64(-0.0).to_string(), "-0.0");
    assert_eq!(ieee64(1.0).to_string(), "0x1.0000000000000p0");
    assert_eq!(ieee64(1.5).to_string(), "0x1.8000000000000p0");
    assert_eq!(ieee64(0.5).to_string(), "0x1.0000000000000p-1");
    assert_eq!(ieee64(f64::EPSILON).to_string(),
               "0x1.0000000000000p-52");
    assert_eq!(ieee64(f64::MIN).to_string(), "-0x1.fffffffffffffp1023");
    assert_eq!(ieee64(f64::MAX).to_string(), "0x1.fffffffffffffp1023");
    // Smallest positive normal number.
    assert_eq!(ieee64(f64::MIN_POSITIVE).to_string(),
               "0x1.0000000000000p-1022");
    // Subnormals.
    assert_eq!(ieee64(f64::MIN_POSITIVE / 2.0).to_string(),
               "0x0.8000000000000p-1022");
    assert_eq!(ieee64(f64::MIN_POSITIVE * f64::EPSILON).to_string(),
               "0x0.0000000000001p-1022");
    assert_eq!(ieee64(f64::INFINITY).to_string(), "Inf");
    assert_eq!(ieee64(f64::NEG_INFINITY).to_string(), "-Inf");
    assert_eq!(ieee64(f64::NAN).to_string(), "NaN");
    assert_eq!(ieee64(-f64::NAN).to_string(), "-NaN");
    // Construct some qNaNs with payloads.
    assert_eq!(Ieee64::from_bits(0x7ff8000000000001).to_string(), "NaN:0x1");
    assert_eq!(Ieee64::from_bits(0x7ffc000000000001).to_string(),
               "NaN:0x4000000000001");
    // Signaling NaNs.
    assert_eq!(Ieee64::from_bits(0x7ff0000000000001).to_string(),
               "sNaN:0x1");
    assert_eq!(Ieee64::from_bits(0x7ff4000000000001).to_string(),
               "sNaN:0x4000000000001");
}

#[test]
fn parse_ieee64() {
    parse_ok64("0.0", "0.0");
    parse_ok64("-0.0", "-0.0");
    parse_ok64("0x0", "0.0");
    parse_ok64("0x0.0", "0.0");
    parse_ok64("0x.0", "0.0");
    parse_ok64("0x0.", "0.0");
    parse_ok64("0x1", "0x1.0000000000000p0");
    parse_ok64("-0x1", "-0x1.0000000000000p0");
    parse_ok64("0x10", "0x1.0000000000000p4");
    parse_ok64("0x10.0", "0x1.0000000000000p4");
    parse_err64("0.", "Float must be hexadecimal");
    parse_err64(".0", "Float must be hexadecimal");
    parse_err64("0", "Float must be hexadecimal");
    parse_err64("-0", "Float must be hexadecimal");
    parse_err64(".", "Float must be hexadecimal");
    parse_err64("", "Float must be hexadecimal");
    parse_err64("-", "Float must be hexadecimal");
    parse_err64("0x", "No digits");
    parse_err64("0x..", "Multiple radix points");

    // Check significant bits.
    parse_ok64("0x0.fffffffffffff8", "0x1.fffffffffffffp-1");
    parse_ok64("0x1.fffffffffffff", "0x1.fffffffffffffp0");
    parse_ok64("0x3.ffffffffffffe", "0x1.fffffffffffffp1");
    parse_ok64("0x7.ffffffffffffc", "0x1.fffffffffffffp2");
    parse_ok64("0xf.ffffffffffff8", "0x1.fffffffffffffp3");
    parse_err64("0x3.fffffffffffff", "Too many significant bits");
    parse_err64("0x001.fffffe00000000", "Too many digits");

    // Exponents.
    parse_ok64("0x1p3", "0x1.0000000000000p3");
    parse_ok64("0x1p-3", "0x1.0000000000000p-3");
    parse_ok64("0x1.0p3", "0x1.0000000000000p3");
    parse_ok64("0x2.0p3", "0x1.0000000000000p4");
    parse_ok64("0x1.0p1023", "0x1.0000000000000p1023");
    parse_ok64("0x1.0p-1022", "0x1.0000000000000p-1022");
    parse_ok64("0x0.1p-1018", "0x1.0000000000000p-1022");
    parse_err64("0x2.0p1023", "Magnitude too large");

    // Subnormals.
    parse_ok64("0x1.0p-1023", "0x0.8000000000000p-1022");
    parse_ok64("0x1.0p-1074", "0x0.0000000000001p-1022");
    parse_ok64("0x0.0000000000001p-1022", "0x0.0000000000001p-1022");
    parse_err64("0x0.10000000000008p-1022", "Subnormal underflow");
    parse_err64("0x1.8p-1074", "Subnormal underflow");
    parse_err64("0x1.0p-1075", "Magnitude too small");

    // NaNs and Infs.
    parse_ok64("Inf", "Inf");
    parse_ok64("-Inf", "-Inf");
    parse_ok64("NaN", "NaN");
    parse_ok64("-NaN", "-NaN");
    parse_ok64("NaN:0x0", "NaN");
    parse_err64("NaN:", "Float must be hexadecimal");
    parse_err64("NaN:0", "Float must be hexadecimal");
    parse_err64("NaN:0x", "Invalid NaN payload");
    parse_ok64("NaN:0x000001", "NaN:0x1");
    parse_ok64("NaN:0x4000000000001", "NaN:0x4000000000001");
    parse_err64("NaN:0x8000000000001", "Invalid NaN payload");
    parse_ok64("sNaN:0x1", "sNaN:0x1");
    parse_err64("sNaN:0x0", "Invalid sNaN payload");
    parse_ok64("sNaN:0x4000000000001", "sNaN:0x4000000000001");
    parse_err64("sNaN:0x8000000000001", "Invalid sNaN payload");
}

#[test]
fn float_bits_round_trip() {
    for bits in [0u32, 1, 0x7f80_0000, 0x3f80_0000, 0x8000_0001, 0x7fc0_0000, 0x0080_0000, 0x7f7f_ffff] {
        let text = format_float(bits as u64, 8, 23);
        assert_eq!(parse_float(&text, 8, 23), Ok(bits as u64));
    }
    // A half-precision format reads and writes as well.
    assert_eq!(format_float(0x3c00, 5, 10), "0x1.000p0");
    assert_eq!(parse_float("0x1.000p0", 5, 10), Ok(0x3c00));
    assert_eq!(parse_float("-Inf", 5, 10), Ok(0xfc00));
}

#[test]
fn float_errors() {
    assert_eq!(parse_float("0x1p", 8, 23), Err("Bad exponent"));
    assert_eq!(parse_float("0x1p+", 8, 23), Err("Bad exponent"));
    assert_eq!(parse_float("0x1p40000", 8, 23), Err("Bad exponent"));
    assert_eq!(parse_float("0x1p1x", 8, 23), Err("Bad exponent"));
    assert_eq!(parse_float("0x1g", 8, 23), Err("Invalid character"));
    assert_eq!(parse_float("0x1_0", 8, 23), Err("Invalid character"));
    assert_eq!(parse_float("0x-1", 8, 23), Err("Invalid character"));
    assert_eq!(parse_float("0x1.2.3", 8, 23), Err("Multiple radix points"));
    assert_eq!(parse_float("0x", 11, 52), Err("No digits"));
    assert_eq!(parse_float("0x.p1", 11, 52), Err("No digits"));
    assert_eq!(parse_float("0x00000000000000001", 11, 52), Err("Too many digits"));
    assert_eq!(parse_float("nan", 11, 52), Err("Float must be hexadecimal"));
    assert_eq!(parse_float("NaN:0x+1", 11, 52), Ok(0x7ff8_0000_0000_0001));
    assert_eq!(parse_float("sNaN:0x", 11, 52), Err("Invalid sNaN payload"));
    assert_eq!(parse_float("0x1p+3", 11, 52), Ok(0x4020_0000_0000_0000));
    assert_eq!(parse_float("0X1", 11, 52), Err("Float must be hexadecimal"));
    assert_eq!(Ieee32::from_bits(0x3f80_0000).bits(), 0x3f80_0000);
    assert_eq!(Ieee64::from_bits(1).bits(), 1);
}
