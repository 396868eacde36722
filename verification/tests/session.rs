use gallery::auth::{authenticate, AuthVerdict};
use gallery::token::{issue, verify};

#[test]
fn round_trip_verifies() {
    let token = issue("hunter2");
    assert!(verify(token.as_str(), "hunter2"));
}

#[test]
fn wrong_password_fails() {
    let token = issue("first");
    assert!(!verify(token.as_str(), "second"));
}

#[test]
fn empty_password_round_trip() {
    let token = issue("");
    assert!(verify(token.as_str(), ""));
    assert!(!verify(token.as_str(), "x"));
}

#[test]
fn malformed_tokens_fail() {
    assert!(!verify("", "hunter2"));
    assert!(!verify("garbage", "hunter2"));
    assert!(!verify("hunter2", "hunter2"));
    assert!(!verify("session:hunter2x", "hunter2"));
    assert!(!verify("Session:hunter2", "hunter2"));
}

#[test]
fn tampered_token_fails() {
    let token = issue("hunter2");
    let mut tampered = String::from("x");
    tampered.push_str(&token[1..]);
    assert!(!verify(tampered.as_str(), "hunter2"));
}

#[test]
fn no_cookie_is_unauthenticated() {
    assert_eq!(authenticate(&None, "hunter2"), AuthVerdict::Unauthenticated);
    assert_eq!(authenticate(&None, ""), AuthVerdict::Unauthenticated);
}

#[test]
fn issued_cookie_is_authenticated() {
    let cookie = Some(issue("hunter2"));
    assert_eq!(authenticate(&cookie, "hunter2"), AuthVerdict::Authenticated);
}

#[test]
fn mismatched_cookie_is_rejected() {
    let cookie = Some(issue("guessed"));
    assert_eq!(authenticate(&cookie, "hunter2"), AuthVerdict::Rejected);
    let corrupt = Some(String::from("not a token"));
    assert_eq!(authenticate(&corrupt, "hunter2"), AuthVerdict::Rejected);
}
