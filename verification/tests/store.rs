//! Tests of the row-store model: the draw coordinator, deletion
//! cascades and the cleanup of old games.

use amigo_oculto::{ApiError, Game, GameStore, Participant, GAME_RETENTION_DAYS};
use chrono::{Duration, Utc};

/// Create a test game with a specific event_date.
fn create_test_game(name: &str, event_date: &str) -> Game {
    Game::new(
        name.to_string(),
        event_date.to_string(),
        format!("{}@test.com", name),
        Utc::now().timestamp(),
    )
}

fn date_days_from_now(days: i64) -> String {
    (Utc::now().date_naive() + Duration::days(days))
        .format("%Y-%m-%d")
        .to_string()
}

fn cleanup_cutoff() -> String {
    date_days_from_now(-(GAME_RETENTION_DAYS as i64))
}

fn add_test_participant(store: &mut GameStore, game_id: &str, name: &str, email: &str) -> Participant {
    let p = Participant::new(
        game_id.to_string(),
        name.to_string(),
        email.to_string(),
        Utc::now().timestamp(),
    );
    store.add_participant(&p).unwrap();
    p
}

#[test]
fn test_cleanup_old_games_deletes_expired() {
    let mut db = GameStore::new();

    // Create a game with event_date > 90 days ago
    let old_game = create_test_game("old_game", &date_days_from_now(-100));
    db.create_game(&old_game).unwrap();

    // Verify game exists
    let found = db.get_game_by_id(&old_game.id);
    assert!(found.is_some());

    // Run cleanup
    let deleted = db.cleanup_old_games(&cleanup_cutoff());
    assert_eq!(deleted, 1);

    // Verify game was deleted
    let found = db.get_game_by_id(&old_game.id);
    assert!(found.is_none());
}

#[test]
fn test_cleanup_old_games_preserves_recent() {
    let mut db = GameStore::new();

    // Create a game with event_date within retention period
    let recent_game = create_test_game("recent_game", &date_days_from_now(-30));
    db.create_game(&recent_game).unwrap();

    // Run cleanup
    let deleted = db.cleanup_old_games(&cleanup_cutoff());
    assert_eq!(deleted, 0);

    // Verify game still exists
    let found = db.get_game_by_id(&recent_game.id);
    assert!(found.is_some());
}

#[test]
fn test_cleanup_old_games_preserves_future() {
    let mut db = GameStore::new();

    // Create a game with event_date in the future
    let future_game = create_test_game("future_game", &date_days_from_now(30));
    db.create_game(&future_game).unwrap();

    // Run cleanup
    let deleted = db.cleanup_old_games(&cleanup_cutoff());
    assert_eq!(deleted, 0);

    // Verify game still exists
    let found = db.get_game_by_id(&future_game.id);
    assert!(found.is_some());
}

#[test]
fn test_cleanup_old_games_returns_correct_count() {
    let mut db = GameStore::new();

    // Create 3 expired games
    for i in 0..3i64 {
        let game = create_test_game(&format!("old_{}", i), &date_days_from_now(-(100 + i)));
        db.create_game(&game).unwrap();
    }

    // Create 2 recent games
    for i in 0..2i64 {
        let game = create_test_game(&format!("recent_{}", i), &date_days_from_now(-(10 + i)));
        db.create_game(&game).unwrap();
    }

    // Run cleanup
    let deleted = db.cleanup_old_games(&cleanup_cutoff());
    assert_eq!(deleted, 3);
}

#[test]
fn test_cleanup_old_games_boundary() {
    let mut db = GameStore::new();

    // Create a game exactly at the boundary (should NOT be deleted)
    let boundary_game =
        create_test_game("boundary_game", &date_days_from_now(-(GAME_RETENTION_DAYS as i64)));
    db.create_game(&boundary_game).unwrap();

    // Create a game one day past the boundary (should be deleted)
    let old_game =
        create_test_game("old_game", &date_days_from_now(-(GAME_RETENTION_DAYS as i64 + 1)));
    db.create_game(&old_game).unwrap();

    // Run cleanup
    let deleted = db.cleanup_old_games(&cleanup_cutoff());
    assert_eq!(deleted, 1);

    // Verify boundary game still exists
    let found = db.get_game_by_id(&boundary_game.id);
    assert!(found.is_some());

    // Verify old game was deleted
    let found = db.get_game_by_id(&old_game.id);
    assert!(found.is_none());
}

#[test]
fn test_cleanup_old_games_with_related_records() {
    let mut db = GameStore::new();

    // Create an expired game
    let game = create_test_game("old_game", &date_days_from_now(-100));
    db.create_game(&game).unwrap();

    // Add participants
    let participant1 = add_test_participant(&mut db, &game.id, "Alice", "alice@test.com");
    let _participant2 = add_test_participant(&mut db, &game.id, "Bob", "bob@test.com");

    // Record email resends (references both game and participants)
    db.record_email_resend(&game.id, None, "admin_link", Utc::now().timestamp());
    db.record_email_resend(
        &game.id,
        Some(&participant1.id),
        "participant_reveal",
        Utc::now().timestamp(),
    );

    // Verify records exist
    assert!(db.get_game_by_id(&game.id).is_some());
    let participants = db.get_participants_by_game(&game.id);
    assert_eq!(participants.len(), 2);

    // Run cleanup - all related records must go with the game
    let deleted = db.cleanup_old_games(&cleanup_cutoff());
    assert_eq!(deleted, 1);

    // Verify game and all related records are deleted
    assert!(db.get_game_by_id(&game.id).is_none());
    let participants = db.get_participants_by_game(&game.id);
    assert!(participants.is_empty());
}

#[test]
fn draw_assigns_every_participant_and_marks_game_drawn() {
    let mut db = GameStore::new();
    let game = create_test_game("xmas", &date_days_from_now(30));
    db.create_game(&game).unwrap();
    for (name, email) in [
        ("A", "a@test.com"),
        ("B", "b@test.com"),
        ("C", "c@test.com"),
        ("D", "d@test.com"),
    ] {
        add_test_participant(&mut db, &game.id, name, email);
    }

    let matches = db.draw(&game.id).unwrap();
    assert_eq!(matches.len(), 4);
    for (giver, receiver) in &matches {
        assert_ne!(giver, receiver);
    }

    let loaded = db.get_game_by_id(&game.id).unwrap();
    assert!(loaded.drawn);

    // Every participant's stored assignment is the returned one.
    let participants = db.get_participants_by_game(&game.id);
    assert_eq!(participants.len(), 4);
    for p in &participants {
        let assigned = p.matched_with_id.as_ref().unwrap();
        let pair = matches.iter().find(|(g, _)| g == &p.id).unwrap();
        assert_eq!(assigned, &pair.1);
        assert_ne!(assigned, &p.id);
    }
}

#[test]
fn draw_twice_reports_already_drawn_and_keeps_assignment() {
    let mut db = GameStore::new();
    let game = create_test_game("xmas", &date_days_from_now(30));
    db.create_game(&game).unwrap();
    for (name, email) in [("A", "a@test.com"), ("B", "b@test.com"), ("C", "c@test.com")] {
        add_test_participant(&mut db, &game.id, name, email);
    }

    db.draw(&game.id).unwrap();
    let first: Vec<(String, Option<String>)> = db
        .get_participants_by_game(&game.id)
        .into_iter()
        .map(|p| (p.id, p.matched_with_id))
        .collect();

    // A second draw is refused and changes nothing.
    assert_eq!(db.draw(&game.id).unwrap_err(), ApiError::AlreadyDrawn);
    let second: Vec<(String, Option<String>)> = db
        .get_participants_by_game(&game.id)
        .into_iter()
        .map(|p| (p.id, p.matched_with_id))
        .collect();
    assert_eq!(first, second);
}

#[test]
fn draw_with_too_few_participants_fails_and_writes_nothing() {
    let mut db = GameStore::new();
    let game = create_test_game("xmas", &date_days_from_now(30));
    db.create_game(&game).unwrap();
    add_test_participant(&mut db, &game.id, "Alone", "alone@test.com");

    assert_eq!(
        db.draw(&game.id).unwrap_err(),
        ApiError::InsufficientParticipants
    );

    let loaded = db.get_game_by_id(&game.id).unwrap();
    assert!(!loaded.drawn);
    for p in db.get_participants_by_game(&game.id) {
        assert!(p.matched_with_id.is_none());
    }
}

#[test]
fn draw_of_unknown_game_reports_not_found() {
    let mut db = GameStore::new();
    assert_eq!(db.draw("missing").unwrap_err(), ApiError::GameNotFound);
}

#[test]
fn adding_participant_after_draw_is_refused() {
    let mut db = GameStore::new();
    let game = create_test_game("xmas", &date_days_from_now(30));
    db.create_game(&game).unwrap();
    add_test_participant(&mut db, &game.id, "A", "a@test.com");
    add_test_participant(&mut db, &game.id, "B", "b@test.com");
    db.draw(&game.id).unwrap();

    let late = Participant::new(
        game.id.clone(),
        "Late".to_string(),
        "late@test.com".to_string(),
        Utc::now().timestamp(),
    );
    assert_eq!(db.add_participant(&late).unwrap_err(), ApiError::AlreadyDrawn);
}

#[test]
fn reveal_answers_match_and_marks_viewed() {
    let mut db = GameStore::new();
    let game = create_test_game("xmas", &date_days_from_now(30));
    db.create_game(&game).unwrap();
    let alice = add_test_participant(&mut db, &game.id, "Alice", "alice@test.com");
    let _bob = add_test_participant(&mut db, &game.id, "Bob", "bob@test.com");

    // Before the draw, the reveal page refuses.
    let early = db.reveal_match(alice.view_token.as_str()).unwrap_err();
    assert_eq!(early, ApiError::NotYetDrawn);

    db.draw(&game.id).unwrap();

    let resp = db.reveal_match(alice.view_token.as_str()).unwrap();
    assert_eq!(resp.game_name, "xmas");
    assert_eq!(resp.your_name, "Alice");
    assert_eq!(resp.matched_name, "Bob");

    let loaded = db.get_participant_by_id(&alice.id).unwrap();
    assert!(loaded.has_viewed);

    // An unknown token is refused.
    assert_eq!(
        db.reveal_match("no-such-token").unwrap_err(),
        ApiError::ParticipantNotFound
    );
}

#[test]
fn delete_game_cascades_to_participants_and_resends() {
    let mut db = GameStore::new();
    let game = create_test_game("xmas", &date_days_from_now(30));
    let other = create_test_game("other", &date_days_from_now(30));
    db.create_game(&game).unwrap();
    db.create_game(&other).unwrap();
    let p = add_test_participant(&mut db, &game.id, "A", "a@test.com");
    add_test_participant(&mut db, &other.id, "B", "b@test.com");
    db.record_email_resend(&game.id, Some(&p.id), "individual", 0);

    db.delete_game(&game.id);

    assert!(db.get_game_by_id(&game.id).is_none());
    assert!(db.get_participants_by_game(&game.id).is_empty());
    assert_eq!(db.count_total_participant_resends(&p.id), 0);

    // The other game is untouched.
    assert!(db.get_game_by_id(&other.id).is_some());
    assert_eq!(db.get_participants_by_game(&other.id).len(), 1);
}

#[test]
fn update_participant_changes_only_given_fields() {
    let mut db = GameStore::new();
    let game = create_test_game("xmas", &date_days_from_now(30));
    db.create_game(&game).unwrap();
    let p = add_test_participant(&mut db, &game.id, "Alice", "alice@test.com");

    db.update_participant(&p.id, Some("Alicia".to_string()), None);
    let loaded = db.get_participant_by_id(&p.id).unwrap();
    assert_eq!(loaded.name, "Alicia");
    assert_eq!(loaded.email, "alice@test.com");

    db.update_participant(&p.id, None, Some("alicia@test.com".to_string()));
    let loaded = db.get_participant_by_id(&p.id).unwrap();
    assert_eq!(loaded.name, "Alicia");
    assert_eq!(loaded.email, "alicia@test.com");
}

#[test]
fn resend_counters_distinguish_kind_and_window() {
    let mut db = GameStore::new();
    let game = create_test_game("xmas", &date_days_from_now(30));
    db.create_game(&game).unwrap();
    let p = add_test_participant(&mut db, &game.id, "Alice", "alice@test.com");

    let now = 1_000_000i64;
    db.record_email_resend(&game.id, Some(&p.id), "individual", now - 7200);
    db.record_email_resend(&game.id, Some(&p.id), "individual", now - 60);
    db.record_email_resend(&game.id, None, "bulk", now - 60);

    let one_hour_ago = now - 3600;
    assert_eq!(db.count_recent_participant_resends(&p.id, one_hour_ago), 1);
    assert_eq!(db.count_total_participant_resends(&p.id), 2);
    assert_eq!(db.count_recent_bulk_resends(&game.id, one_hour_ago), 1);
    assert_eq!(db.count_total_bulk_resends(&game.id), 1);
}

#[test]
fn verification_rows_follow_the_flow() {
    let mut db = GameStore::new();
    let now = 1_700_000_000i64;
    let v = amigo_oculto::EmailVerification::new(
        "org@test.com".to_string(),
        "xmas".to_string(),
        "2026-12-24".to_string(),
        now,
    );
    db.create_email_verification(&v).unwrap();
    assert_eq!(
        db.create_email_verification(&v).unwrap_err(),
        ApiError::PersistenceFailure
    );

    let loaded = db.get_email_verification_by_id(&v.id).unwrap();
    assert_eq!(loaded.attempts, 0);
    assert!(!loaded.verified);

    db.increment_verification_attempts(&v.id);
    db.increment_verification_attempts(&v.id);
    let loaded = db.get_email_verification_by_id(&v.id).unwrap();
    assert_eq!(loaded.attempts, 2);

    db.update_verification_code(&v.id, "654321", now + 2000);
    let loaded = db.get_email_verification_by_id(&v.id).unwrap();
    assert_eq!(loaded.code, "654321");
    assert_eq!(loaded.expires_at, now + 2000);
    assert_eq!(loaded.attempts, 0);

    db.mark_verification_as_verified(&v.id);
    let loaded = db.get_email_verification_by_id(&v.id).unwrap();
    assert!(loaded.verified);

    assert_eq!(db.count_recent_verifications_by_email("org@test.com", now - 10), 1);
    assert_eq!(db.count_recent_verifications_by_email("org@test.com", now + 10), 0);
    assert_eq!(db.count_recent_verifications_by_email("other@test.com", now - 10), 0);

    // A verified row survives the expiry cleanup; a spent-and-expired
    // unverified row does not.
    let stale = amigo_oculto::EmailVerification::new(
        "late@test.com".to_string(),
        "other".to_string(),
        "2026-12-24".to_string(),
        now,
    );
    db.create_email_verification(&stale).unwrap();
    let deleted = db.cleanup_expired_verifications(now + 10_000);
    assert_eq!(deleted, 1);
    assert!(db.get_email_verification_by_id(&v.id).is_some());
    assert!(db.get_email_verification_by_id(&stale.id).is_none());
}

#[test]
fn duplicate_game_id_is_a_constraint_violation() {
    let mut db = GameStore::new();
    let game = create_test_game("xmas", &date_days_from_now(30));
    db.create_game(&game).unwrap();
    assert_eq!(
        db.create_game(&game).unwrap_err(),
        ApiError::PersistenceFailure
    );
}

#[test]
fn duplicate_participant_id_or_token_is_a_constraint_violation() {
    let mut db = GameStore::new();
    let game = create_test_game("xmas", &date_days_from_now(30));
    db.create_game(&game).unwrap();
    let alice = add_test_participant(&mut db, &game.id, "Alice", "alice@test.com");

    // The same row again: its identifier is already taken.
    assert_eq!(db.add_participant(&alice).unwrap_err(), ApiError::PersistenceFailure);

    // A fresh row reusing Alice's view token collides too.
    let mut bob = Participant::new(
        game.id.clone(),
        "Bob".to_string(),
        "bob@test.com".to_string(),
        Utc::now().timestamp(),
    );
    bob.view_token = alice.view_token.duplicate();
    assert_eq!(db.add_participant(&bob).unwrap_err(), ApiError::PersistenceFailure);

    // With its own token it goes in.
    let bob = Participant::new(
        game.id.clone(),
        "Bob".to_string(),
        "bob@test.com".to_string(),
        Utc::now().timestamp(),
    );
    db.add_participant(&bob).unwrap();
    assert_eq!(db.get_participants_by_game(&game.id).len(), 2);
}

#[test]
fn participant_limit_is_enforced() {
    let mut db = GameStore::new();
    let game = create_test_game("big", &date_days_from_now(30));
    db.create_game(&game).unwrap();
    for i in 0..100 {
        add_test_participant(&mut db, &game.id, &format!("p{}", i), &format!("p{}@test.com", i));
    }
    let extra = Participant::new(
        game.id.clone(),
        "extra".to_string(),
        "extra@test.com".to_string(),
        0,
    );
    assert_eq!(
        db.add_participant(&extra).unwrap_err(),
        ApiError::ParticipantLimitReached
    );
}
