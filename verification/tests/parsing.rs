use rkscan::text::{append_dec, append_hex_field};
use rkscan::version::parse_version;

#[test]
fn parse_drops_dots_and_reads_decimal() {
    assert_eq!(parse_version("2.00"), Some(200));
    assert_eq!(parse_version("1.01"), Some(101));
    assert_eq!(parse_version("1.10"), Some(110));
    assert_eq!(parse_version("3.2"), Some(32));
    assert_eq!(parse_version("200"), Some(200));
}

#[test]
fn parse_accepts_many_dots() {
    assert_eq!(parse_version("1.2.3"), Some(123));
    assert_eq!(parse_version(".200."), Some(200));
    assert_eq!(parse_version("..5"), Some(5));
}

#[test]
fn parse_keeps_leading_zeros() {
    assert_eq!(parse_version("0.00"), Some(0));
    assert_eq!(parse_version("00.07"), Some(7));
}

#[test]
fn parse_rejects_empty_and_dot_only() {
    assert_eq!(parse_version(""), None);
    assert_eq!(parse_version("."), None);
    assert_eq!(parse_version("..."), None);
}

#[test]
fn parse_rejects_non_digits() {
    assert_eq!(parse_version("a.b"), None);
    assert_eq!(parse_version("2.0a"), None);
    assert_eq!(parse_version("-2.00"), None);
    assert_eq!(parse_version("+2.00"), None);
    assert_eq!(parse_version("2 .00"), None);
}

#[test]
fn parse_respects_the_sixteen_bit_bound() {
    assert_eq!(parse_version("655.35"), Some(65535));
    assert_eq!(parse_version("655.36"), None);
    assert_eq!(parse_version("6.5537"), None);
    assert_eq!(parse_version("99999999999999999999"), None);
    assert_eq!(parse_version("00000000000000000001"), Some(1));
}

#[test]
fn decimal_rendering_matches() {
    let mut s = String::new();
    append_dec(&mut s, 0);
    assert_eq!(s, "0");
    let mut s = String::new();
    append_dec(&mut s, 200);
    assert_eq!(s, "200");
    let mut s = String::new();
    append_dec(&mut s, 18446744073709551615);
    assert_eq!(s, "18446744073709551615");
}

#[test]
fn hex_rendering_is_prefixed_and_padded() {
    let mut s = String::new();
    append_hex_field(&mut s, 0x2207);
    assert_eq!(s, "0x2207");
    let mut s = String::new();
    append_hex_field(&mut s, 0x1100);
    assert_eq!(s, "0x1100");
    let mut s = String::new();
    append_hex_field(&mut s, 0x5);
    assert_eq!(s, "0x05");
    let mut s = String::new();
    append_hex_field(&mut s, 0);
    assert_eq!(s, "0x00");
    let mut s = String::new();
    append_hex_field(&mut s, 0xabc);
    assert_eq!(s, "0xabc");
}
