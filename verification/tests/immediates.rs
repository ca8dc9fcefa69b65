use cretonne::immediates::{from_bits, to_bits, Imm64};

#[test]
fn format_imm64() {
    assert_eq!(Imm64::new(0).to_string(), "0");
    assert_eq!(Imm64::new(9999).to_string(), "9999");
    assert_eq!(Imm64::new(10000).to_string(), "0x2710");
    assert_eq!(Imm64::new(-9999).to_string(), "-9999");
    assert_eq!(Imm64::new(-10000).to_string(), "0xffff_ffff_ffff_d8f0");
    assert_eq!(Imm64::new(0xffff).to_string(), "0xffff");
    assert_eq!(Imm64::new(0x10000).to_string(), "0x0001_0000");
}

// Check that `text` reads as a number that is written as `want`.
fn parse_ok(text: &str, want: &str) {
    match Imm64::from_str(text) {
        Err(s) => panic!("\"{}\".parse() error: {}", text, s),
        Ok(x) => assert_eq!(x.to_string(), want),
    }
}

// Check that `text` is refused with the message `msg`.
fn parse_err(text: &str, msg: &str) {
    match Imm64::from_str(text) {
        Err(s) => assert_eq!(s.to_string(), msg),
        Ok(x) => panic!("Wanted Err({}), but got {}", msg, x.to_string()),
    }
}

#[test]
fn parse_imm64() {
    parse_ok("0", "0");
    parse_ok("1", "1");
    parse_ok("-0", "0");
    parse_ok("-1", "-1");
    parse_ok("0x0", "0");
    parse_ok("0xf", "15");
    parse_ok("-0x9", "-9");

    // Probe limits.
    parse_ok("0xffffffff_ffffffff", "-1");
    parse_ok("0x80000000_00000000", "0x8000_0000_0000_0000");
    parse_ok("-0x80000000_00000000", "0x8000_0000_0000_0000");
    parse_err("-0x80000000_00000001", "Negative number too small for Imm64");
    parse_ok("18446744073709551615", "-1");
    parse_ok("-9223372036854775808", "0x8000_0000_0000_0000");
    // Overflow both the addition and the multiplication.
    parse_err("18446744073709551616", "Too large decimal Imm64");
    parse_err("184467440737095516100", "Too large decimal Imm64");
    parse_err("-9223372036854775809", "Negative number too small for Imm64");

    // Underscores are allowed where digits go.
    parse_ok("0_0", "0");
    parse_ok("-_10_0", "-100");
    parse_ok("_10_", "10");
    parse_ok("0x97_88_bb", "0x0097_88bb");
    parse_ok("0x_97_", "151");

    parse_err("", "No digits in Imm64");
    parse_err("-", "No digits in Imm64");
    parse_err("_", "No digits in Imm64");
    parse_err("0x", "No digits in Imm64");
    parse_err("0x_", "No digits in Imm64");
    parse_err("-0x", "No digits in Imm64");
    parse_err(" ", "Invalid character in decimal Imm64");
    parse_err("0 ", "Invalid character in decimal Imm64");
    parse_err(" 0", "Invalid character in decimal Imm64");
    parse_err("--", "Invalid character in decimal Imm64");
    parse_err("-0x-", "Invalid character in hexadecimal Imm64");

    // Hex count overflow.
    parse_err("0x0_0000_0000_0000_0000", "Too many hexadecimal digits in Imm64");
}

#[test]
fn imm64_conversions() {
    assert_eq!(Imm64::new(-3).bits(), -3);
    assert_eq!(Imm64::from(17), Imm64::new(17));
    assert_eq!(i64::from(Imm64::new(17)), 17);
    assert_eq!(Imm64::new(5).wrapping_neg(), Imm64::new(-5));
    assert_eq!(Imm64::new(0).wrapping_neg(), Imm64::new(0));
    assert_eq!(Imm64::new(i64::MIN).wrapping_neg(), Imm64::new(i64::MIN));
    assert_eq!("0x10".parse::<Imm64>(), Ok(Imm64::new(16)));
    assert_eq!("x".parse::<Imm64>(), Err("Invalid character in decimal Imm64"));
    assert_eq!(to_bits(-1), u64::MAX);
    assert_eq!(to_bits(i64::MIN), 0x8000_0000_0000_0000);
    assert_eq!(from_bits(u64::MAX), -1);
    assert_eq!(from_bits(0x7fff_ffff_ffff_ffff), i64::MAX);
}

#[test]
fn imm64_text_edges() {
    assert_eq!(Imm64::new(i64::MAX).to_string(), "0x7fff_ffff_ffff_ffff");
    assert_eq!(Imm64::new(i64::MIN).to_string(), "0x8000_0000_0000_0000");
    assert_eq!(Imm64::new(-1).to_string(), "-1");
    assert_eq!(Imm64::new(0x1_0000_0000).to_string(), "0x0001_0000_0000");
    assert_eq!(Imm64::new(0xffff_ffff_ffff).to_string(), "0xffff_ffff_ffff");
    // In a decimal number the letters a to f count as digits, ten to fifteen.
    assert_eq!(Imm64::from_str("1a"), Ok(Imm64::new(20)));
    assert_eq!(Imm64::from_str("F"), Ok(Imm64::new(15)));
    // Upper case digits are read in hexadecimal as well.
    assert_eq!(Imm64::from_str("0xAb"), Ok(Imm64::new(0xab)));
    assert_eq!(Imm64::from_str("0X1"), Err("Invalid character in decimal Imm64"));
    assert_eq!(Imm64::from_str("é"), Err("Invalid character in decimal Imm64"));
    assert_eq!(Imm64::from_str("0xé"), Err("Invalid character in hexadecimal Imm64"));
    // Any number of zeros may stand in front of a decimal number.
    assert_eq!(
        Imm64::from_str("0000000000000000000000000000000000000000000000000000000000000000000007"),
        Ok(Imm64::new(7))
    );
}
