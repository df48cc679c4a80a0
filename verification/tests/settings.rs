use forum::config::{
    bind_addr_setting, cookie_secure_setting, max_body_bytes_setting, session_key_bytes,
    SessionKeyError,
};
use forum::seed::topic_seed_entries;

#[test]
fn cookie_secure_only_for_true() {
    assert!(cookie_secure_setting(Some("true")));
    assert!(!cookie_secure_setting(Some("TRUE")));
    assert!(!cookie_secure_setting(Some("1")));
    assert!(!cookie_secure_setting(None));
}

#[test]
fn body_limit_and_address() {
    assert_eq!(max_body_bytes_setting(Some("1024")), 1024);
    assert_eq!(max_body_bytes_setting(Some("lots")), 8192);
    assert_eq!(max_body_bytes_setting(None), 8192);
    assert_eq!(bind_addr_setting(Some("0.0.0.0:80")), "0.0.0.0:80");
    assert_eq!(bind_addr_setting(None), "127.0.0.1:8080");
}

#[test]
fn session_key_must_be_long_hex() {
    let hex = "ab".repeat(64);
    assert_eq!(session_key_bytes(&hex), Ok(vec![0xab; 64]));
    let mixed = "0F".repeat(70);
    assert_eq!(session_key_bytes(&mixed), Ok(vec![0x0f; 70]));
    assert_eq!(session_key_bytes("abcd"), Err(SessionKeyError::TooShort));
    assert_eq!(session_key_bytes(&"ab".repeat(63)), Err(SessionKeyError::TooShort));
    assert_eq!(session_key_bytes("zz"), Err(SessionKeyError::InvalidHex));
    assert_eq!(session_key_bytes("abc"), Err(SessionKeyError::InvalidHex));
}

fn entry(a: &str, b: &str) -> Option<(String, String)> {
    Some((a.to_string(), b.to_string()))
}

#[test]
fn topic_seeds() {
    assert_eq!(
        topic_seed_entries("general:General Discussion,meta:Meta"),
        vec![entry("general", "General Discussion"), entry("meta", "Meta")]
    );
    assert_eq!(topic_seed_entries(""), vec![]);
    assert_eq!(topic_seed_entries(",,"), vec![]);
    assert_eq!(topic_seed_entries("a:b:c,,bad"), vec![entry("a", "b:c"), None]);
    assert_eq!(topic_seed_entries("x:"), vec![entry("x", "")]);
}
