//! Tests of the email verification flow: code formatting, construction
//! and the endpoint decisions.

use amigo_oculto::{
    check_resend_verification, evaluate_verification, format_code, new_verification_code,
    EmailVerification, ResendDecision, VerifyDecision, MAX_VERIFICATION_ATTEMPTS,
    VERIFICATION_TTL_SECONDS,
};

fn test_verification(now: i64) -> EmailVerification {
    EmailVerification::new(
        "org@test.com".to_string(),
        "xmas".to_string(),
        "2026-12-24".to_string(),
        now,
    )
}

#[test]
fn format_code_pads_with_zeros() {
    assert_eq!(format_code(123), "000123");
    assert_eq!(format_code(0), "000000");
    assert_eq!(format_code(999999), "999999");
    assert_eq!(format_code(40500), "040500");
}

#[test]
fn new_codes_are_six_digits() {
    for _ in 0..50 {
        let code = new_verification_code();
        assert_eq!(code.len(), 6);
        assert!(code.chars().all(|c| c.is_ascii_digit()));
    }
}

#[test]
fn new_verification_starts_fresh() {
    let now = 1_700_000_000i64;
    let v = test_verification(now);
    assert_eq!(v.email, "org@test.com");
    assert_eq!(v.game_name, "xmas");
    assert_eq!(v.event_date, "2026-12-24");
    assert_eq!(v.created_at, now);
    assert_eq!(v.expires_at, now + VERIFICATION_TTL_SECONDS);
    assert!(!v.verified);
    assert_eq!(v.attempts, 0);
    assert_eq!(v.id.len(), 26);
    assert_eq!(v.code.len(), 6);
    assert!(!v.is_expired(now));
    assert!(v.is_expired(now + VERIFICATION_TTL_SECONDS + 1));
    assert!(v.can_attempt());
}

#[test]
fn evaluate_verification_accepts_the_right_code() {
    let now = 1_700_000_000i64;
    let v = test_verification(now);
    let code = v.code.clone();
    assert_eq!(
        evaluate_verification(Some(&v), &code, now),
        VerifyDecision::Correct
    );
}

#[test]
fn evaluate_verification_refuses_missing_row() {
    assert_eq!(
        evaluate_verification(None, "123456", 0),
        VerifyDecision::NotFound
    );
}

#[test]
fn evaluate_verification_refuses_used_row() {
    let now = 1_700_000_000i64;
    let mut v = test_verification(now);
    v.verified = true;
    let code = v.code.clone();
    assert_eq!(
        evaluate_verification(Some(&v), &code, now),
        VerifyDecision::AlreadyUsed
    );
}

#[test]
fn evaluate_verification_refuses_expired_code() {
    let now = 1_700_000_000i64;
    let v = test_verification(now);
    let code = v.code.clone();
    assert_eq!(
        evaluate_verification(Some(&v), &code, now + VERIFICATION_TTL_SECONDS + 1),
        VerifyDecision::Expired
    );
}

#[test]
fn evaluate_verification_counts_down_wrong_guesses() {
    let now = 1_700_000_000i64;
    let mut v = test_verification(now);
    // The code is digits only, so this guess can never match.
    assert_eq!(
        evaluate_verification(Some(&v), "not-it", now),
        VerifyDecision::WrongCode(4)
    );
    v.attempts = 3;
    assert_eq!(
        evaluate_verification(Some(&v), "not-it", now),
        VerifyDecision::WrongCode(1)
    );
    v.attempts = MAX_VERIFICATION_ATTEMPTS;
    assert!(!v.can_attempt());
    assert_eq!(
        evaluate_verification(Some(&v), "not-it", now),
        VerifyDecision::OutOfAttempts
    );
}

#[test]
fn resend_decision_follows_row_state_and_rate() {
    let now = 1_700_000_000i64;
    let v = test_verification(now);
    assert_eq!(
        check_resend_verification(Some(&v), 0),
        ResendDecision::Proceed
    );
    assert_eq!(
        check_resend_verification(Some(&v), 3),
        ResendDecision::RateLimited
    );
    assert_eq!(check_resend_verification(None, 0), ResendDecision::NotFound);
    let mut used = test_verification(now);
    used.verified = true;
    assert_eq!(
        check_resend_verification(Some(&used), 0),
        ResendDecision::AlreadyUsed
    );
}

#[test]
fn request_rate_limit_is_three_per_hour() {
    assert!(amigo_oculto::can_request_verification(0));
    assert!(amigo_oculto::can_request_verification(2));
    assert!(!amigo_oculto::can_request_verification(3));
}
