//! Trusted boundary to the cryptographic crates and to the sources of
//! randomness and time. Each wrapper names what the outside call returns;
//! everything proved about digests in this crate rests on these contracts.

use vstd::prelude::*;

verus! {

/// The HMAC-SHA-256 tag of a message under a key.
pub uninterp spec fn spec_hmac_sha256(key: Seq<u8>, msg: Seq<u8>) -> Seq<u8>;

/// The first 8 bytes of the SHAKE256 extendable output of a byte string.
pub uninterp spec fn spec_shake256_8(input: Seq<u8>) -> Seq<u8>;

/// The HMAC-SHA3-256 tag of a message under a key.
pub uninterp spec fn spec_hmac_sha3_256(key: Seq<u8>, msg: Seq<u8>) -> Seq<u8>;

/// The SHA-256 digest of a byte string.
pub uninterp spec fn spec_sha256(input: Seq<u8>) -> Seq<u8>;

/// Whether scrypt accepts this password against this stored hash string
/// (both as UTF-8 bytes; malformed input is rejected).
pub uninterp spec fn spec_scrypt_check_ok(password: Seq<u8>, hashed: Seq<u8>) -> bool;

/// Relies on hmac::Hmac with sha2::Sha256: a 32-byte tag that depends on
/// the key and message alone; any key length is accepted.
#[verifier::external_body]
pub(crate) fn hmac_sha256(key: &[u8], msg: &[u8]) -> (r: Vec<u8>)
    ensures
        r@ == spec_hmac_sha256(key@, msg@),
        r@.len() == 32,
{
    let mut mac = <hmac::Hmac<sha2::Sha256> as hmac::Mac>::new_from_slice(key).expect(
        "HMAC accepts any key size",
    );
    hmac::Mac::update(&mut mac, msg);
    hmac::Mac::finalize(mac).into_bytes().to_vec()
}

/// Relies on sha3::Shake256: the first 8 bytes of the XOF output, which
/// depend on the input alone.
#[verifier::external_body]
pub(crate) fn shake256_xof8(input: &[u8]) -> (r: Vec<u8>)
    ensures
        r@ == spec_shake256_8(input@),
        r@.len() == 8,
{
    let mut hasher = <sha3::Shake256 as core::default::Default>::default();
    sha3::digest::Update::update(&mut hasher, input);
    let mut reader = sha3::digest::ExtendableOutput::finalize_xof(hasher);
    let mut out = [0u8; 8];
    sha3::digest::XofReader::read(&mut reader, &mut out);
    out.to_vec()
}

/// Relies on hmac::Hmac with sha3::Sha3_256: a 32-byte tag that depends on
/// the key and message alone; any key length is accepted.
#[verifier::external_body]
pub(crate) fn hmac_sha3_256(key: &[u8], msg: &[u8]) -> (r: Vec<u8>)
    ensures
        r@ == spec_hmac_sha3_256(key@, msg@),
        r@.len() == 32,
{
    let mut mac = <hmac::Hmac<sha3::Sha3_256> as hmac::Mac>::new_from_slice(key).expect(
        "HMAC accepts any key size",
    );
    hmac::Mac::update(&mut mac, msg);
    hmac::Mac::finalize(mac).into_bytes().to_vec()
}

/// Relies on sha2::Sha256: the 32-byte digest of the input.
#[verifier::external_body]
pub(crate) fn sha256_digest(input: &[u8]) -> (r: Vec<u8>)
    ensures
        r@ == spec_sha256(input@),
        r@.len() == 32,
{
    let mut hasher = <sha2::Sha256 as sha2::Digest>::new();
    sha2::Digest::update(&mut hasher, input);
    sha2::Digest::finalize(hasher).to_vec()
}

/// Relies on scrypt::scrypt_check: whether the password matches the stored
/// `$rscrypt$` hash string, a deterministic function of the two inputs;
/// bytes that are not UTF-8 never match.
#[verifier::external_body]
pub(crate) fn scrypt_check_raw(password: &[u8], hashed: &[u8]) -> (r: bool)
    ensures
        r == spec_scrypt_check_ok(password@, hashed@),
{
    match (core::str::from_utf8(password), core::str::from_utf8(hashed)) {
        (Ok(p), Ok(h)) => scrypt::scrypt_check(p, h).is_ok(),
        _ => false,
    }
}

/// Relies on rand::random: a fresh 64-bit value; nothing is promised of it.
#[verifier::external_body]
pub(crate) fn random_u64() -> u64 {
    rand::random::<u64>()
}

/// Relies on std::time::SystemTime::now: the wall clock as whole seconds
/// since the Unix epoch; zero if the clock reads before the epoch.
#[verifier::external_body]
pub(crate) fn unix_time_secs() -> u64 {
    match std::time::SystemTime::now().duration_since(std::time::SystemTime::UNIX_EPOCH) {
        Ok(d) => d.as_secs(),
        Err(_) => 0,
    }
}

} // verus!
