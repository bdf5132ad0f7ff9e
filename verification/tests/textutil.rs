//! Text forms: decimal, hex, dotted quads and their parser.

use rvrrpd::textutil::{hex_encode, ipv4_to_dotted, parse_ipv4, u64_to_dec};

#[test]
fn decimal_rendering() {
    assert_eq!(u64_to_dec(0), b"0".to_vec());
    assert_eq!(u64_to_dec(7), b"7".to_vec());
    assert_eq!(u64_to_dec(10), b"10".to_vec());
    assert_eq!(u64_to_dec(255), b"255".to_vec());
    assert_eq!(u64_to_dec(1844674407370955161), b"1844674407370955161".to_vec());
}

#[test]
fn hex_rendering() {
    assert_eq!(hex_encode(&[]), b"".to_vec());
    assert_eq!(hex_encode(&[0xde, 0xad, 0x01, 0x00]), b"dead0100".to_vec());
    assert_eq!(hex_encode(&[0x0f]), b"0f".to_vec());
}

#[test]
fn dotted_rendering() {
    assert_eq!(ipv4_to_dotted(&[192, 168, 1, 254]), b"192.168.1.254".to_vec());
    assert_eq!(ipv4_to_dotted(&[0, 0, 0, 0]), b"0.0.0.0".to_vec());
    assert_eq!(ipv4_to_dotted(&[255, 255, 255, 255]), b"255.255.255.255".to_vec());
}

#[test]
fn dotted_parsing_accepts_canonical_forms() {
    assert_eq!(parse_ipv4(b"10.0.0.1"), Some([10, 0, 0, 1]));
    assert_eq!(parse_ipv4(b"0.0.0.0"), Some([0, 0, 0, 0]));
    assert_eq!(parse_ipv4(b"255.255.255.255"), Some([255, 255, 255, 255]));
    assert_eq!(parse_ipv4(b"224.0.0.18"), Some([224, 0, 0, 18]));
}

#[test]
fn dotted_parsing_roundtrip() {
    for ip in [[1u8, 2, 3, 4], [254, 253, 0, 99], [100, 10, 1, 0]] {
        let s = ipv4_to_dotted(&ip);
        assert_eq!(parse_ipv4(&s), Some(ip));
    }
}

#[test]
fn dotted_parsing_rejects_malformed_input() {
    assert_eq!(parse_ipv4(b""), None);
    assert_eq!(parse_ipv4(b"1.2.3"), None);
    assert_eq!(parse_ipv4(b"1.2.3.4.5"), None);
    assert_eq!(parse_ipv4(b"01.2.3.4"), None);
    assert_eq!(parse_ipv4(b"256.1.1.1"), None);
    assert_eq!(parse_ipv4(b"1..2.3"), None);
    assert_eq!(parse_ipv4(b"a.b.c.d"), None);
    assert_eq!(parse_ipv4(b"1.2.3.4 "), None);
    assert_eq!(parse_ipv4(b"1.2.3.1000"), None);
    assert_eq!(parse_ipv4(b".1.2.3.4"), None);
}
