//! Behavior of the width-annotated big integer: parsing, serialization,
//! arithmetic, Euclidean reduction and XOR.

use srp6a::srp_integer::SrpInteger;
use srp6a::SrpError;

fn hex(s: &str) -> SrpInteger {
    SrpInteger::from_hex(s).expect("valid hex")
}

#[test]
fn from_hex_to_hex_round_trip() {
    let x = hex("0abc");
    assert_eq!(x.to_hex().unwrap(), "0abc");
    let y = hex(&x.to_hex().unwrap());
    assert!(x.equals(&y));
    assert_eq!(y.to_hex().unwrap(), "0abc");
}

#[test]
fn to_hex_is_lowercase_and_padded() {
    assert_eq!(hex("ABC").to_hex().unwrap(), "abc");
    assert_eq!(hex("00FF").to_hex().unwrap(), "00ff");
    assert_eq!(hex("0000").to_hex().unwrap(), "0000");
}

#[test]
fn from_hex_strips_whitespace() {
    let x = SrpInteger::from_hex(" AB c\n").unwrap();
    assert_eq!(x.to_hex().unwrap(), "abc");
}

#[test]
fn from_hex_rejects_garbage() {
    assert_eq!(SrpInteger::from_hex("zz").unwrap_err(), SrpError::InvalidHex);
    assert_eq!(SrpInteger::from_hex("").unwrap_err(), SrpError::InvalidHex);
    assert_eq!(SrpInteger::from_hex(" \n").unwrap_err(), SrpError::InvalidHex);
    assert_eq!(SrpInteger::from_hex("12g4").unwrap_err(), SrpError::InvalidHex);
    assert_eq!(SrpInteger::from_hex("+1a").unwrap_err(), SrpError::InvalidHex);
    assert_eq!(SrpInteger::from_hex("1_a").unwrap_err(), SrpError::InvalidHex);
}

#[test]
fn zero_has_no_width() {
    assert_eq!(SrpInteger::zero().to_hex().unwrap_err(), SrpError::UnsizedHex);
    assert!(SrpInteger::zero().is_zero());
}

#[test]
fn from_bytes_records_two_digits_per_byte() {
    let x = SrpInteger::from_bytes(&[0x04, 0x65]);
    assert_eq!(x.to_hex().unwrap(), "0465");
    let empty = SrpInteger::from_bytes(&[]);
    assert_eq!(empty.to_hex().unwrap(), "0");
}

#[test]
fn equals_ignores_width() {
    assert!(hex("01").equals(&hex("0001")));
    assert!(!hex("01").equals(&hex("10")));
}

#[test]
fn add_multiply_subtract_are_exact() {
    assert_eq!(hex("ff").add(&hex("01")).to_hex().unwrap(), "100");
    assert_eq!(hex("00ff").add(&hex("01")).to_hex().unwrap(), "0100");
    assert_eq!(hex("0012").multiply(&hex("03")).to_hex().unwrap(), "0036");
    assert_eq!(hex("0100").subtract(&hex("01")).to_hex().unwrap(), "00ff");
}

#[test]
fn mod_is_euclidean_on_negative_intermediates() {
    // 3 - 10 = -7; -7 mod 6 = 5, -7 mod 7 = 0
    let d = hex("03").subtract(&hex("0a"));
    assert_eq!(d.mod_(&hex("06")).to_hex().unwrap(), "05");
    assert_eq!(d.mod_(&hex("07")).to_hex().unwrap(), "00");
    assert_eq!(d.modulo(&hex("06")).to_hex().unwrap(), "05");
}

#[test]
fn mod_stays_below_modulus() {
    assert_eq!(hex("0abc").mod_(&hex("0100")).to_hex().unwrap(), "00bc");
    assert_eq!(hex("05").mod_(&hex("0100")).to_hex().unwrap(), "0005");
}

#[test]
fn mod_pow_exponent_one_and_zero() {
    let n = hex("0100");
    assert_eq!(hex("0abc").mod_pow(&hex("01"), &n).to_hex().unwrap(), "00bc");
    assert_eq!(hex("0abc").mod_pow(&hex("00"), &n).to_hex().unwrap(), "0001");
}

#[test]
fn mod_pow_small_values() {
    // 3^5 = 243 = 0xf3; 243 mod 100h = 0xf3
    assert_eq!(hex("03").mod_pow(&hex("05"), &hex("0100")).to_hex().unwrap(), "00f3");
    // 2^10 mod 1000h = 0x400
    assert_eq!(hex("02").mod_pow(&hex("0a"), &hex("1000")).to_hex().unwrap(), "0400");
}

#[test]
fn xor_is_bytewise_and_keeps_width() {
    let a = hex("00ff");
    let b = hex("0f0f");
    let x = a.xor(&b);
    assert_eq!(x.to_hex().unwrap(), "0ff0");
    // applying the same operand again returns the original value
    assert_eq!(x.xor(&b).to_hex().unwrap(), "00ff");
}

#[test]
fn xor_pads_the_shorter_operand() {
    // widths 4 and 2: the short one is padded with zero bytes on the left
    let a = hex("1234");
    let b = hex("34");
    assert_eq!(a.xor(&b).to_hex().unwrap(), "1200");
}

#[test]
fn random_integer_has_requested_width() {
    let r = SrpInteger::random_integer(32);
    let h = r.to_hex().unwrap();
    assert_eq!(h.len(), 64);
    assert!(h.chars().all(|c| c.is_ascii_hexdigit() && !c.is_ascii_uppercase()));
    let r2 = SrpInteger::random_integer(32);
    assert!(!r.equals(&r2), "two 256-bit random draws collided");
}
