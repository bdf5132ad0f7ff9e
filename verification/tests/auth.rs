//! Authentication trailers: the four schemes on concrete values, checked
//! against the cryptographic crates directly.

use hmac::Mac;
use rvrrpd::auth::gen_auth_data;
use sha3::digest::{ExtendableOutput, XofReader};

#[test]
fn none_gives_zeros() {
    let t = gen_auth_data(0, &None, None);
    assert_eq!(t, vec![0u8; 8]);
    let t = gen_auth_data(7, &Some(b"whatever".to_vec()), None);
    assert_eq!(t, vec![0u8; 8]);
}

#[test]
fn simple_pads_and_truncates() {
    let t = gen_auth_data(1, &Some(b"abc".to_vec()), None);
    assert_eq!(t, b"abc\0\0\0\0\0".to_vec());
    let t = gen_auth_data(1, &Some(b"longpassword".to_vec()), None);
    assert_eq!(t, b"longpass".to_vec());
    let t = gen_auth_data(1, &None, None);
    assert_eq!(t, vec![0u8; 8]);
}

#[test]
fn p0_trailer_is_truncated_hmac_sha256() {
    let secret = b"topsecret".to_vec();
    let msg = b"\x21\x0a\x64\x01\xfa\x01\x00\x00\x0a\x00\x00\x01";
    let t = gen_auth_data(250, &Some(secret.clone()), Some(msg));
    assert_eq!(t.len(), 8);
    assert_ne!(t, vec![0u8; 8]);
    // Cross-check against the hmac crate used directly.
    let mut mac = hmac::Hmac::<sha2::Sha256>::new_from_slice(&secret).unwrap();
    Mac::update(&mut mac, msg);
    let full = mac.finalize().into_bytes();
    assert_eq!(&t[..], &full[..8]);
}

#[test]
fn p1_trailer_is_shake256_of_key_and_message() {
    let secret = b"topsecret".to_vec();
    let msg = b"\x21\x0a\x64\x01\xfb\x01\x00\x00\x0a\x00\x00\x01";
    let t = gen_auth_data(251, &Some(secret.clone()), Some(msg));
    assert_eq!(t.len(), 8);
    assert_ne!(t, vec![0u8; 8]);
    // Cross-check against the sha3 crate used directly.
    let mut hasher = sha3::Shake256::default();
    sha3::digest::Update::update(&mut hasher, &[&secret[..], msg].concat());
    let mut reader = hasher.finalize_xof();
    let mut expected = [0u8; 8];
    reader.read(&mut expected);
    assert_eq!(&t[..], &expected[..]);
}

#[test]
fn keyed_trailers_are_deterministic() {
    // The same type, secret and message give the same trailer, run twice.
    let secret = Some(b"s3cr3t".to_vec());
    let msg = b"some vrrp region bytes";
    for autht in [250u8, 251] {
        let a = gen_auth_data(autht, &secret, Some(msg));
        let b = gen_auth_data(autht, &secret, Some(msg));
        assert_eq!(a, b);
    }
}

#[test]
fn keyed_trailers_depend_on_secret_and_message() {
    let msg = b"some vrrp region bytes";
    for autht in [250u8, 251] {
        let a = gen_auth_data(autht, &Some(b"one".to_vec()), Some(msg));
        let b = gen_auth_data(autht, &Some(b"two".to_vec()), Some(msg));
        assert_ne!(a, b);
        let c = gen_auth_data(autht, &Some(b"one".to_vec()), Some(b"other bytes"));
        assert_ne!(a, c);
    }
}
