//! Tests of the request-handler decisions and the notification report.

use amigo_oculto::{
    authorize_admin, check_add_participant, check_bulk_resend, check_draw_preconditions,
    check_participant_resend, check_update_participant, notification_report, participant_statuses,
    ApiError, Game, Participant, SecureToken,
};

fn test_game(id: &str, drawn: bool) -> Game {
    let mut g = Game::new(
        "xmas".to_string(),
        "2026-12-24".to_string(),
        "org@test.com".to_string(),
        0,
    );
    g.id = id.to_string();
    g.drawn = drawn;
    g
}

fn test_participant(id: &str, game_id: &str, viewed: bool) -> Participant {
    Participant {
        id: id.to_string(),
        game_id: game_id.to_string(),
        name: "Alice".to_string(),
        email: "alice@test.com".to_string(),
        matched_with_id: None,
        view_token: SecureToken::from_string("tok".to_string()),
        has_viewed: viewed,
        created_at: 0,
    }
}

#[test]
fn authorize_admin_requires_matching_game() {
    let g = test_game("g1", false);
    assert!(authorize_admin(Some(&g), "g1").is_ok());
    assert_eq!(
        authorize_admin(Some(&g), "g2").unwrap_err(),
        ApiError::InvalidAdminToken
    );
    assert_eq!(
        authorize_admin(None, "g1").unwrap_err(),
        ApiError::InvalidAdminToken
    );
}

#[test]
fn draw_preconditions_in_order() {
    assert_eq!(
        check_draw_preconditions(None, 5).unwrap_err(),
        ApiError::GameNotFound
    );
    let drawn = test_game("g1", true);
    assert_eq!(
        check_draw_preconditions(Some(&drawn), 5).unwrap_err(),
        ApiError::AlreadyDrawn
    );
    let fresh = test_game("g1", false);
    assert_eq!(
        check_draw_preconditions(Some(&fresh), 1).unwrap_err(),
        ApiError::InsufficientParticipants
    );
    assert!(check_draw_preconditions(Some(&fresh), 2).is_ok());
}

#[test]
fn add_participant_checks_game_state_and_limit() {
    assert_eq!(
        check_add_participant(None, 0).unwrap_err(),
        ApiError::GameNotFound
    );
    let drawn = test_game("g1", true);
    assert_eq!(
        check_add_participant(Some(&drawn), 0).unwrap_err(),
        ApiError::AlreadyDrawn
    );
    let fresh = test_game("g1", false);
    assert_eq!(
        check_add_participant(Some(&fresh), 100).unwrap_err(),
        ApiError::ParticipantLimitReached
    );
    assert!(check_add_participant(Some(&fresh), 99).is_ok());
}

#[test]
fn bulk_resend_checks_auth_draw_and_limits() {
    let g = test_game("g1", true);
    assert!(check_bulk_resend(Some(&g), "g1", 0, 0).is_ok());
    assert_eq!(
        check_bulk_resend(None, "g1", 0, 0).unwrap_err(),
        ApiError::InvalidAdminToken
    );
    assert_eq!(
        check_bulk_resend(Some(&g), "g2", 0, 0).unwrap_err(),
        ApiError::InvalidAdminToken
    );
    let fresh = test_game("g1", false);
    assert_eq!(
        check_bulk_resend(Some(&fresh), "g1", 0, 0).unwrap_err(),
        ApiError::NotYetDrawn
    );
    assert_eq!(
        check_bulk_resend(Some(&g), "g1", 1, 0).unwrap_err(),
        ApiError::ResendRateLimited
    );
    assert_eq!(
        check_bulk_resend(Some(&g), "g1", 0, 3).unwrap_err(),
        ApiError::ResendLimitReached
    );
}

#[test]
fn participant_resend_checks_membership_and_limits() {
    let g = test_game("g1", true);
    let p = test_participant("p1", "g1", false);
    assert!(check_participant_resend(Some(&g), "g1", Some(&p), 0, 0).is_ok());
    assert_eq!(
        check_participant_resend(Some(&g), "g1", None, 0, 0).unwrap_err(),
        ApiError::ParticipantNotFound
    );
    let stranger = test_participant("p2", "other", false);
    assert_eq!(
        check_participant_resend(Some(&g), "g1", Some(&stranger), 0, 0).unwrap_err(),
        ApiError::ParticipantNotInGame
    );
    assert_eq!(
        check_participant_resend(Some(&g), "g1", Some(&p), 1, 0).unwrap_err(),
        ApiError::ResendRateLimited
    );
    assert_eq!(
        check_participant_resend(Some(&g), "g1", Some(&p), 0, 3).unwrap_err(),
        ApiError::ResendLimitReached
    );
}

#[test]
fn update_participant_locks_after_viewing() {
    let fresh = test_game("g1", false);
    let drawn = test_game("g1", true);
    let p = test_participant("p1", "g1", false);
    let viewed = test_participant("p1", "g1", true);
    assert!(check_update_participant(Some(&fresh), "g1", Some(&p)).is_ok());
    assert!(check_update_participant(Some(&drawn), "g1", Some(&p)).is_ok());
    assert!(check_update_participant(Some(&fresh), "g1", Some(&viewed)).is_ok());
    assert_eq!(
        check_update_participant(Some(&drawn), "g1", Some(&viewed)).unwrap_err(),
        ApiError::ParticipantLocked
    );
    assert_eq!(
        check_update_participant(Some(&drawn), "g1", None).unwrap_err(),
        ApiError::ParticipantNotFound
    );
}

#[test]
fn notification_report_counts_failures_without_failing() {
    // One failed send out of four: the draw still reports success.
    let results = vec![true, true, false, true];
    let report = notification_report(&results);
    assert!(report.success);
    assert_eq!(report.sent, 3);
    assert_eq!(report.failed, 1);

    let all_failed = vec![false, false];
    let report = notification_report(&all_failed);
    assert!(report.success);
    assert_eq!(report.sent, 0);
    assert_eq!(report.failed, 2);

    let none: Vec<bool> = Vec::new();
    let report = notification_report(&none);
    assert!(report.success);
    assert_eq!(report.sent, 0);
    assert_eq!(report.failed, 0);
}

#[test]
fn participant_statuses_hide_tokens_and_matches() {
    let a = test_participant("p1", "g1", true);
    let b = test_participant("p2", "g1", false);
    let statuses = participant_statuses(&vec![a, b]);
    assert_eq!(statuses.len(), 2);
    assert_eq!(statuses[0].id, "p1");
    assert_eq!(statuses[0].name, "Alice");
    assert_eq!(statuses[0].email, "alice@test.com");
    assert!(statuses[0].has_viewed);
    assert!(!statuses[1].has_viewed);
}

#[test]
fn error_status_codes_follow_the_taxonomy() {
    assert_eq!(ApiError::GameNotFound.status_code(), 404);
    assert_eq!(ApiError::ParticipantNotFound.status_code(), 404);
    assert_eq!(ApiError::VerificationNotFound.status_code(), 404);
    assert_eq!(ApiError::AlreadyDrawn.status_code(), 400);
    assert_eq!(ApiError::NotYetDrawn.status_code(), 400);
    assert_eq!(ApiError::InsufficientParticipants.status_code(), 400);
    assert_eq!(ApiError::DerangementUnattainable.status_code(), 500);
    assert_eq!(ApiError::ParticipantLimitReached.status_code(), 400);
    assert_eq!(ApiError::ParticipantNotInGame.status_code(), 400);
    assert_eq!(ApiError::ParticipantLocked.status_code(), 400);
    assert_eq!(ApiError::ResendRateLimited.status_code(), 400);
    assert_eq!(ApiError::ResendLimitReached.status_code(), 400);
    assert_eq!(ApiError::VerificationRateLimited.status_code(), 400);
    assert_eq!(ApiError::InvalidAdminToken.status_code(), 401);
    assert_eq!(ApiError::PersistenceFailure.status_code(), 500);
}
