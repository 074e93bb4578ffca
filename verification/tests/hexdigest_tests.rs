//! Tests of the signed hexadecimal digest rendering.

use mojang_api::format_signed_hex;
use mojang_api::hexdigest;
use num_bigint::BigInt;
use sha1::Sha1;

#[test]
fn test_hexdigest() {
    // Examples from wiki.vg
    let mut hasher = Sha1::new();
    hasher.update(b"Notch");
    assert_eq!(
        hexdigest(&hasher),
        "4ed1f46bbe04bc756bcb17c0c7ce3e4632f06a48"
    );

    let mut hasher = Sha1::new();
    hasher.update(b"jeb_");
    assert_eq!(
        hexdigest(&hasher),
        "-7c9d5b0044c130109a5d7b5fb5c317c02b4e28c1"
    );

    let mut hasher = Sha1::new();
    hasher.update(b"simon");
    assert_eq!(
        hexdigest(&hasher),
        "88e16a1019277b15d58faf0541e11910eb756f6"
    );
}

#[test]
fn format_zero_digest() {
    assert_eq!(format_signed_hex(&[0u8; 20]), "0");
}

#[test]
fn format_one() {
    let mut d = [0u8; 20];
    d[19] = 1;
    assert_eq!(format_signed_hex(&d), "1");
}

#[test]
fn format_minus_one() {
    assert_eq!(format_signed_hex(&[0xffu8; 20]), "-1");
}

#[test]
fn format_most_negative() {
    let mut d = [0u8; 20];
    d[0] = 0x80;
    assert_eq!(
        format_signed_hex(&d),
        "-8000000000000000000000000000000000000000"
    );
}

#[test]
fn format_strips_leading_zeros() {
    let mut d = [0u8; 20];
    d[10] = 0x0a;
    d[19] = 0xff;
    assert_eq!(format_signed_hex(&d), "a0000000000000000ff");
}

#[test]
fn format_sign_follows_high_bit() {
    let mut d = [0u8; 20];
    d[0] = 0x7f;
    assert!(!format_signed_hex(&d).starts_with('-'));
    d[0] = 0x80;
    assert!(format_signed_hex(&d).starts_with('-'));
}

/// A small deterministic byte generator for the differential tests below.
fn next_state(state: &mut u64) -> u8 {
    *state = state
        .wrapping_mul(6364136223846793005)
        .wrapping_add(1442695040888963407);
    (*state >> 56) as u8
}

#[test]
fn format_matches_bigint_rendering() {
    let mut state: u64 = 42;
    for _ in 0..200 {
        let mut d = [0u8; 20];
        for byte in d.iter_mut() {
            *byte = next_state(&mut state);
        }
        let expected = format!("{:x}", BigInt::from_signed_bytes_be(&d));
        assert_eq!(format_signed_hex(&d), expected);
    }
}

#[test]
fn format_round_trips_as_signed_hex_integer() {
    let mut state: u64 = 7;
    for _ in 0..100 {
        let mut d = [0u8; 20];
        for byte in d.iter_mut() {
            *byte = next_state(&mut state);
        }
        let rendered = format_signed_hex(&d);
        let parsed = BigInt::parse_bytes(rendered.as_bytes(), 16).unwrap();
        assert_eq!(parsed, BigInt::from_signed_bytes_be(&d));
    }
}

#[test]
fn format_charset_is_lowercase_hex() {
    let mut state: u64 = 99;
    for _ in 0..100 {
        let mut d = [0u8; 20];
        for byte in d.iter_mut() {
            *byte = next_state(&mut state);
        }
        let rendered = format_signed_hex(&d);
        let digits = rendered.strip_prefix('-').unwrap_or(&rendered);
        assert!(!digits.is_empty());
        assert!(digits.chars().all(|c| c.is_ascii_hexdigit() && !c.is_ascii_uppercase()));
        if digits != "0" {
            assert!(!digits.starts_with('0'));
        }
    }
}
