use geetest::client::Client;
use geetest::digest::sign;
use geetest::models::{ClientValidateRequest, DigestMod};
use geetest::server::Server;

fn server(alg: DigestMod) -> Server {
    Server::new(
        Client::new("gt-1".to_owned(), alg),
        "server-secret".to_owned(),
    )
}

fn is_fallback_token(t: &str) -> bool {
    t.len() == 32
        && t.chars()
            .all(|c| c.is_ascii_lowercase() || c.is_ascii_digit())
}

// Healthy upstream, non-empty token: success, and the challenge sent to the
// client is the signed transform, never the raw token.
#[test]
fn register_healthy_token_is_signed() {
    let s = server(DigestMod::Md5);
    let r = s.register_response(Some("abc123".to_owned()));
    assert!(r.success);
    assert!(r.new_captcha);
    assert_eq!(r.captcha_id, "gt-1");
    assert_eq!(r.challenge, sign(DigestMod::Md5, "abc123", "server-secret"));
    assert_ne!(r.challenge, "abc123");
}

// The sentinel token "0" declines: the flow falls back to degraded mode.
#[test]
fn register_sentinel_token_goes_degraded() {
    let s = server(DigestMod::Sha256);
    let r = s.register_response(Some("0".to_owned()));
    assert!(!r.success);
    assert!(r.new_captcha);
    assert_eq!(r.captcha_id, "gt-1");
    assert!(is_fallback_token(&r.challenge));
}

#[test]
fn register_empty_token_goes_degraded() {
    let s = server(DigestMod::Md5);
    let r = s.register_response(Some(String::new()));
    assert!(!r.success);
    assert!(is_fallback_token(&r.challenge));
}

#[test]
fn register_unhealthy_bypass_goes_degraded() {
    let s = server(DigestMod::HmacSha256);
    let r = s.register_response(None);
    assert!(!r.success);
    assert!(r.new_captcha);
    assert!(is_fallback_token(&r.challenge));
}

fn request(challenge: &str, validate: &str, seccode: &str) -> ClientValidateRequest {
    ClientValidateRequest {
        challenge: challenge.to_owned(),
        validate: validate.to_owned(),
        seccode: seccode.to_owned(),
    }
}

// A blank field rejects locally, before any upstream exchange.
#[test]
fn validate_blank_seccode_is_rejected() {
    let r = Server::validate_precheck(&request("c", "v", "")).expect("must reject");
    assert!(!r.result);
    assert_eq!(r.msg.as_deref(), Some("Invalid request fields"));
}

#[test]
fn validate_whitespace_field_is_rejected() {
    let r = Server::validate_precheck(&request(" \t ", "v", "s")).expect("must reject");
    assert!(!r.result);
    assert_eq!(r.msg.as_deref(), Some("Invalid request fields"));
}

#[test]
fn validate_filled_fields_pass_precheck() {
    assert!(Server::validate_precheck(&request("c", "v", "s")).is_none());
}

// Degraded bypass accepts unconditionally, whatever was submitted.
#[test]
fn validate_unhealthy_bypass_accepts() {
    let accepted = Server::validate_response(false, None);
    assert!(accepted.result);
    assert!(accepted.msg.is_none());
    let also_accepted = Server::validate_response(false, Some("anything".to_owned()));
    assert!(also_accepted.result);
}

#[test]
fn validate_upstream_rejection_is_reported() {
    let r = Server::validate_response(true, None);
    assert!(!r.result);
    assert_eq!(r.msg.as_deref(), Some("Invalid security code"));
}

#[test]
fn validate_upstream_acceptance_is_reported() {
    let r = Server::validate_response(true, Some("sec|code".to_owned()));
    assert!(r.result);
    assert!(r.msg.is_none());
}
