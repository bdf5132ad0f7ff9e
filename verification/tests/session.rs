//! Sessions: the account-line parser, password verification against real
//! hashes, and the token life cycle.

use hmac::Mac;
use rvrrpd::config::{API, CConfig};
use rvrrpd::session::{auth_api_client, auth_user_from_db, gen_hmac_string, parse_account, SessionToken};
use sha2::Digest;

fn empty_cfg() -> CConfig {
    CConfig {
        debug: None,
        time_zone: None,
        time_format: None,
        pid: None,
        working_dir: None,
        main_log: None,
        error_log: None,
        vrouter: None,
        protocols: None,
        client_api: None,
        api: None,
    }
}

fn cfg_with_users(users: Vec<String>) -> CConfig {
    let mut cfg = empty_cfg();
    cfg.api = Some(API { users, secret: "tokensecret".to_string(), tls: false });
    cfg
}

fn sha256_line(user: &str, passwd: &str, salt: &str) -> String {
    let mut hasher = sha2::Sha256::new();
    hasher.update(passwd.as_bytes());
    hasher.update(salt.as_bytes());
    let hash = format!("{:x}", hasher.finalize());
    format!("{{{{SHA256}}}}{}:0:{}:{}", user, salt, hash)
}

#[test]
fn parse_account_accepts_a_valid_line() {
    let line = b"{{SHA256}}admin:0:ab12:0123456789abcdef0123456789abcdef";
    let acc = parse_account(line).expect("the line parses");
    assert_eq!(acc.alg, b"SHA256".to_vec());
    assert_eq!(acc.user, b"admin".to_vec());
    assert_eq!(acc.level, b'0');
    assert_eq!(acc.salt, b"ab12".to_vec());
    assert_eq!(acc.hash, b"0123456789abcdef0123456789abcdef".to_vec());
}

#[test]
fn parse_account_allows_an_empty_salt() {
    let line = b"{{scrypt}}bob:1::0123456789abcdef";
    let acc = parse_account(line).expect("the line parses");
    assert_eq!(acc.salt, b"".to_vec());
    assert_eq!(acc.hash, b"0123456789abcdef".to_vec());
}

#[test]
fn parse_account_rejects_malformed_lines() {
    assert!(parse_account(b"").is_none());
    assert!(parse_account(b"SHA256}}admin:0:ab:0123456789abcdef").is_none());
    assert!(parse_account(b"{{}}admin:0:ab:0123456789abcdef").is_none());
    assert!(parse_account(b"{{SHA256}}:0:ab:0123456789abcdef").is_none());
    assert!(parse_account(b"{{SHA256}}admin:00:ab:0123456789abcdef").is_none());
    assert!(parse_account(b"{{SHA256}}admin:x:ab:0123456789abcdef").is_none());
    // The hash must be at least 16 characters.
    assert!(parse_account(b"{{SHA256}}admin:0:ab:short").is_none());
    // The algorithm must be alphanumeric and at most 16 characters.
    assert!(parse_account(b"{{SHA-256}}admin:0:ab:0123456789abcdef").is_none());
    assert!(parse_account(b"{{aaaaaaaaaaaaaaaaa}}admin:0:ab:0123456789abcdef").is_none());
}

#[test]
fn sha256_account_authenticates() {
    let cfg = cfg_with_users(vec![sha256_line("admin", "hunter2", "ab12")]);
    let r = auth_user_from_db(&cfg, b"admin", b"hunter2");
    assert_eq!(r, Some(b"admin".to_vec()));
    // A wrong password or unknown user fails.
    assert_eq!(auth_user_from_db(&cfg, b"admin", b"hunter3"), None);
    assert_eq!(auth_user_from_db(&cfg, b"alice", b"hunter2"), None);
}

#[test]
fn scrypt_account_authenticates() {
    let params = scrypt::ScryptParams::new(4, 8, 1).unwrap();
    let hash = scrypt::scrypt_simple("hunter2", &params).unwrap();
    let line = format!("{{{{scrypt}}}}bob:0::{}", hash);
    let cfg = cfg_with_users(vec![line]);
    assert_eq!(auth_user_from_db(&cfg, b"bob", b"hunter2"), Some(b"bob".to_vec()));
    assert_eq!(auth_user_from_db(&cfg, b"bob", b"wrong"), None);
}

#[test]
fn unknown_algorithm_does_not_authenticate() {
    let cfg = cfg_with_users(vec![
        "{{MD5}}admin:0:ab:0123456789abcdef0123456789abcdef".to_string(),
    ]);
    assert_eq!(auth_user_from_db(&cfg, b"admin", b"anything"), None);
}

#[test]
fn no_api_section_refuses_everyone() {
    let cfg = empty_cfg();
    assert_eq!(auth_user_from_db(&cfg, b"admin", b"pw"), None);
    assert!(auth_api_client(&cfg, b"admin", b"pw").is_none());
}

#[test]
fn gen_hmac_string_is_hex_hmac_sha3() {
    let out = gen_hmac_string(b"input", b"secret");
    let mut mac = hmac::Hmac::<sha3::Sha3_256>::new_from_slice(b"secret").unwrap();
    Mac::update(&mut mac, b"input");
    let expected = format!("{:x}", mac.finalize().into_bytes());
    assert_eq!(out, expected.into_bytes());
}

#[test]
fn token_lifecycle() {
    let mut tok = SessionToken::new();
    assert_eq!(tok.user(), b"null".to_vec());
    assert_eq!(tok.token(), b"null".to_vec());
    assert!(!tok.secure());
    tok.set_user(b"admin".to_vec());
    tok.gen_token(b"tokensecret", true);
    assert!(tok.secure());
    let valid_until = tok.set_validfor(60);
    assert_eq!(valid_until, tok.ts_since() + 60);
    // The freshly minted token validates; a tampered one does not.
    assert!(tok.validate(b"tokensecret").is_some());
    assert!(tok.validate(b"othersecret").is_none());
    let mut forged = tok.token();
    forged[0] ^= 0x01;
    tok.set_token(forged);
    assert!(tok.validate(b"tokensecret").is_none());
}

#[test]
fn auth_api_client_mints_a_valid_token() {
    let cfg = cfg_with_users(vec![sha256_line("admin", "hunter2", "ff00")]);
    let tok = auth_api_client(&cfg, b"admin", b"hunter2").expect("authentication succeeds");
    assert_eq!(tok.user(), b"admin".to_vec());
    assert_eq!(tok.token().len(), 64);
    assert!(tok.validate(b"tokensecret").is_some());
    assert!(auth_api_client(&cfg, b"admin", b"wrong").is_none());
}
