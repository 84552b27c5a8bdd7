//! Tests of the shared-secret header checks, the bearer-token parser
//! and the secure tokens.

use amigo_oculto::{
    parse_bearer_token, ProxyAuthConfig, ProxyAuthLayer, SecureToken, StagingAuthConfig,
    StagingAuthLayer,
};

#[test]
fn proxy_auth_disabled_without_secret() {
    let cfg = ProxyAuthConfig::new(None);
    assert!(!cfg.is_enabled());
    assert!(cfg.allows(false, None));
    assert!(cfg.allows(false, Some("anything")));

    let empty = ProxyAuthConfig::new(Some("".to_string()));
    assert!(!empty.is_enabled());
}

#[test]
fn proxy_auth_checks_the_header() {
    let cfg = ProxyAuthConfig::new(Some("proxy-test-secret".to_string()));
    assert!(cfg.is_enabled());
    assert!(cfg.allows(false, Some("proxy-test-secret")));
    assert!(!cfg.allows(false, Some("wrong")));
    assert!(!cfg.allows(false, None));
    // CORS preflight requests always pass.
    assert!(cfg.allows(true, None));
}

#[test]
fn proxy_layer_mirrors_its_config() {
    let layer = ProxyAuthLayer::new(ProxyAuthConfig::new(Some("proxy-test-secret".to_string())));
    assert!(layer.is_enabled());
    assert!(layer.allows(false, Some("proxy-test-secret")));
    assert!(!layer.allows(false, Some("nope")));

    let off = ProxyAuthLayer::new(ProxyAuthConfig::new(None));
    assert!(!off.is_enabled());
}

#[test]
fn staging_auth_behaves_like_proxy_auth() {
    let cfg = StagingAuthConfig::new(Some("staging-test-secret".to_string()));
    assert!(cfg.is_enabled());
    assert!(cfg.allows(false, Some("staging-test-secret")));
    assert!(!cfg.allows(false, Some("wrong")));
    assert!(cfg.allows(true, Some("wrong")));

    let layer = StagingAuthLayer::new(StagingAuthConfig::new(None));
    assert!(!layer.is_enabled());
    assert!(layer.allows(false, None));
}

#[test]
fn bearer_tokens_are_parsed_exactly() {
    assert_eq!(parse_bearer_token(Some("Bearer abc123")), Some("abc123"));
    assert_eq!(parse_bearer_token(Some("Bearer ")), Some(""));
    assert_eq!(parse_bearer_token(Some("Basic abc123")), None);
    assert_eq!(parse_bearer_token(Some("bearer abc123")), None);
    assert_eq!(parse_bearer_token(Some("Bear")), None);
    assert_eq!(parse_bearer_token(None), None);
}

#[test]
fn generated_tokens_are_long_and_alphanumeric() {
    assert_eq!(SecureToken::len(), 32);
    let a = SecureToken::generate();
    let b = SecureToken::generate();
    assert_eq!(a.as_str().len(), 32);
    assert!(a.as_str().chars().all(|c| c.is_ascii_alphanumeric()));
    // Two fresh tokens colliding is practically impossible.
    assert_ne!(a.as_str(), b.as_str());
}

#[test]
fn tokens_round_trip_through_strings() {
    let t = SecureToken::from_string("stored-token".to_string());
    assert_eq!(t.as_str(), "stored-token");
    assert_eq!(t.duplicate().into_string(), "stored-token");
}
