use zknotes::errors::AuthError;
use zknotes::guard::authorize;
use zknotes::tokens::{issue_token, Secret};

fn bv(s: &str) -> Vec<u8> {
    s.as_bytes().to_vec()
}

#[test]
fn missing_token_is_rejected() {
    let secret = Secret::generate();
    let r = authorize(&secret, None);
    assert_eq!(r.err(), Some(AuthError::MissingToken));
}

#[test]
fn short_token_is_malformed() {
    let secret = Secret::generate();
    let token = bv("too short to hold a tag");
    assert!(token.len() < 32);
    let r = authorize(&secret, Some(&token));
    assert_eq!(r.err(), Some(AuthError::MalformedToken));
}

#[test]
fn issued_token_is_accepted() {
    let secret = Secret::generate();
    let token = issue_token(&secret, &bv("session"));
    assert!(authorize(&secret, Some(&token)).is_ok());
}

#[test]
fn empty_message_token_round_trips() {
    let secret = Secret::generate();
    let token = issue_token(&secret, &Vec::new());
    assert_eq!(token.len(), 32);
    assert!(authorize(&secret, Some(&token)).is_ok());
}

#[test]
fn tampered_tag_is_invalid() {
    let secret = Secret::generate();
    let mut token = issue_token(&secret, &bv("session"));
    token[5] ^= 0x01;
    let r = authorize(&secret, Some(&token));
    assert_eq!(r.err(), Some(AuthError::InvalidToken));
}

#[test]
fn tampered_message_is_invalid() {
    let secret = Secret::generate();
    let mut token = issue_token(&secret, &bv("session"));
    let last = token.len() - 1;
    token[last] ^= 0x01;
    let r = authorize(&secret, Some(&token));
    assert_eq!(r.err(), Some(AuthError::InvalidToken));
}

#[test]
fn token_of_another_secret_is_invalid() {
    let s1 = Secret::generate();
    let s2 = Secret::generate();
    let token = issue_token(&s1, &bv("session"));
    let r = authorize(&s2, Some(&token));
    assert_eq!(r.err(), Some(AuthError::InvalidToken));
}
