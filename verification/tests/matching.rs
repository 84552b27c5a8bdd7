//! Tests of the derangement generator.

use amigo_oculto::{generate_matches, ApiError, Participant, SecureToken};

fn create_test_participant(id: &str, name: &str) -> Participant {
    Participant {
        id: id.to_string(),
        game_id: "game1".to_string(),
        name: name.to_string(),
        email: format!("{}@test.com", name),
        matched_with_id: None,
        view_token: SecureToken::from_string("token".to_string()),
        has_viewed: false,
        created_at: 0,
    }
}

#[test]
fn test_generate_matches_success() {
    let participants = vec![
        create_test_participant("1", "Alice"),
        create_test_participant("2", "Bob"),
        create_test_participant("3", "Charlie"),
        create_test_participant("4", "Diana"),
    ];

    let matches = generate_matches(&participants).unwrap();

    assert_eq!(matches.len(), 4);

    // Verify nobody drew themselves
    for (giver, receiver) in &matches {
        assert_ne!(giver, receiver);
    }

    // Verify all participants are givers
    let givers: Vec<_> = matches.iter().map(|(g, _)| g).collect();
    for p in &participants {
        assert!(givers.contains(&&p.id));
    }

    // Verify all participants are receivers
    let receivers: Vec<_> = matches.iter().map(|(_, r)| r).collect();
    for p in &participants {
        assert!(receivers.contains(&&p.id));
    }
}

#[test]
fn test_generate_matches_insufficient_participants() {
    let participants = vec![create_test_participant("1", "Alice")];

    let result = generate_matches(&participants);
    assert!(result.is_err());
}

#[test]
fn generate_matches_empty_list_is_insufficient() {
    let participants: Vec<Participant> = Vec::new();
    assert_eq!(
        generate_matches(&participants).unwrap_err(),
        ApiError::InsufficientParticipants
    );
}

#[test]
fn generate_matches_two_participants_swap() {
    // With exactly two participants the only derangement is the swap.
    let participants = vec![
        create_test_participant("a", "Alice"),
        create_test_participant("b", "Bob"),
    ];
    let matches = generate_matches(&participants).unwrap();
    assert_eq!(matches.len(), 2);
    assert_eq!(matches[0], ("a".to_string(), "b".to_string()));
    assert_eq!(matches[1], ("b".to_string(), "a".to_string()));
}

#[test]
fn generate_matches_is_a_derangement_across_trials() {
    // A bijection with no fixed points, over many sizes and trials.
    for n in [2usize, 3, 5, 10, 100, 1000] {
        for _ in 0..3 {
            let participants: Vec<Participant> = (0..n)
                .map(|i| create_test_participant(&format!("id{}", i), &format!("name{}", i)))
                .collect();
            let matches = generate_matches(&participants).unwrap();
            assert_eq!(matches.len(), n);
            let mut seen_givers: Vec<&str> = Vec::new();
            let mut seen_receivers: Vec<&str> = Vec::new();
            for (i, (giver, receiver)) in matches.iter().enumerate() {
                assert_eq!(giver, &participants[i].id);
                assert_ne!(giver, receiver);
                seen_givers.push(giver);
                seen_receivers.push(receiver);
            }
            seen_receivers.sort();
            seen_receivers.dedup();
            assert_eq!(seen_receivers.len(), n);
        }
    }
}
