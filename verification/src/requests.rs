//! The decisions of the HTTP request handlers.
//!
//! Each handler loads rows, lets a function here decide what the
//! request is entitled to, performs the decided writes and sends.  The
//! functions are pure: they take the loaded values and answer either
//! permission or the exact error the handler must return.

use vstd::prelude::*;
use crate::error::ApiError;
use crate::models::{Game, Participant, ParticipantStatus};
use crate::store::MAX_PARTICIPANTS_PER_GAME;
use crate::strutil::str_eq;

verus! {

/// How many bulk resends a game is allowed in its lifetime.
pub const MAX_BULK_RESENDS: usize = 3;

/// How many individual resends a participant is allowed in the game's
/// lifetime.
pub const MAX_PARTICIPANT_RESENDS: usize = 3;

/// The organizer authenticates by admin token: the token must resolve
/// to a game, and that game must be the addressed one.
pub open spec fn spec_authorize_admin(game: Option<Game>, game_id: Seq<char>) -> Result<
    (),
    ApiError,
> {
    match game {
        None => Err(ApiError::InvalidAdminToken),
        Some(g) => if g.id@ != game_id {
            Err(ApiError::InvalidAdminToken)
        } else {
            Ok(())
        },
    }
}

/// Authorize an organizer request: `game` is what the admin token
/// resolved to, `game_id` the game the request addresses.
pub fn authorize_admin(game: Option<&Game>, game_id: &str) -> (r: Result<(), ApiError>)
    ensures
        r == spec_authorize_admin(
            match game {
                Some(g) => Some(*g),
                None => None,
            },
            game_id@,
        ),
{
    match game {
        None => Err(ApiError::InvalidAdminToken),
        Some(g) => {
            if !str_eq(g.id.as_str(), game_id) {
                Err(ApiError::InvalidAdminToken)
            } else {
                Ok(())
            }
        },
    }
}

/// The draw's preconditions, in transaction order: the game must exist,
/// must not be drawn yet, and must have at least two participants.
pub open spec fn spec_check_draw_preconditions(
    game: Option<Game>,
    participant_count: nat,
) -> Result<(), ApiError> {
    match game {
        None => Err(ApiError::GameNotFound),
        Some(g) => if g.drawn {
            Err(ApiError::AlreadyDrawn)
        } else if participant_count < 2 {
            Err(ApiError::InsufficientParticipants)
        } else {
            Ok(())
        },
    }
}

/// Decide whether a draw may proceed, from the transaction-loaded game
/// row and its participant count.
pub fn check_draw_preconditions(game: Option<&Game>, participant_count: usize) -> (r: Result<
    (),
    ApiError,
>)
    ensures
        r == spec_check_draw_preconditions(
            match game {
                Some(g) => Some(*g),
                None => None,
            },
            participant_count as nat,
        ),
{
    match game {
        None => Err(ApiError::GameNotFound),
        Some(g) => {
            if g.drawn {
                Err(ApiError::AlreadyDrawn)
            } else if participant_count < 2 {
                Err(ApiError::InsufficientParticipants)
            } else {
                Ok(())
            }
        },
    }
}

/// Adding a participant needs an existing, not yet drawn game with room
/// under the participant limit.
pub open spec fn spec_check_add_participant(
    game: Option<Game>,
    participant_count: nat,
) -> Result<(), ApiError> {
    match game {
        None => Err(ApiError::GameNotFound),
        Some(g) => if g.drawn {
            Err(ApiError::AlreadyDrawn)
        } else if participant_count >= MAX_PARTICIPANTS_PER_GAME {
            Err(ApiError::ParticipantLimitReached)
        } else {
            Ok(())
        },
    }
}

/// Decide whether a participant may be added to the addressed game.
pub fn check_add_participant(game: Option<&Game>, participant_count: usize) -> (r: Result<
    (),
    ApiError,
>)
    ensures
        r == spec_check_add_participant(
            match game {
                Some(g) => Some(*g),
                None => None,
            },
            participant_count as nat,
        ),
{
    match game {
        None => Err(ApiError::GameNotFound),
        Some(g) => {
            if g.drawn {
                Err(ApiError::AlreadyDrawn)
            } else if participant_count >= MAX_PARTICIPANTS_PER_GAME {
                Err(ApiError::ParticipantLimitReached)
            } else {
                Ok(())
            }
        },
    }
}

/// A bulk resend needs an authorized organizer, a completed draw, no
/// bulk resend within the past hour, and lifetime allowance left.
pub open spec fn spec_check_bulk_resend(
    game: Option<Game>,
    game_id: Seq<char>,
    recent_resends: nat,
    total_resends: nat,
) -> Result<(), ApiError> {
    match spec_authorize_admin(game, game_id) {
        Err(e) => Err(e),
        Ok(()) => {
            let g = game->0;
            if !g.drawn {
                Err(ApiError::NotYetDrawn)
            } else if recent_resends > 0 {
                Err(ApiError::ResendRateLimited)
            } else if total_resends >= MAX_BULK_RESENDS {
                Err(ApiError::ResendLimitReached)
            } else {
                Ok(())
            }
        },
    }
}

/// Decide whether all of a game's notification emails may be resent.
/// `recent_resends` counts the bulk resends of the last hour,
/// `total_resends` the game's lifetime bulk resends.
pub fn check_bulk_resend(
    game: Option<&Game>,
    game_id: &str,
    recent_resends: usize,
    total_resends: usize,
) -> (r: Result<(), ApiError>)
    ensures
        r == spec_check_bulk_resend(
            match game {
                Some(g) => Some(*g),
                None => None,
            },
            game_id@,
            recent_resends as nat,
            total_resends as nat,
        ),
{
    if let Err(e) = authorize_admin(game, game_id) {
        return Err(e);
    }
    let g = match game {
        Some(g) => g,
        None => {
            proof {
                assert(false);
            }
            vstd::pervasive::unreached()
        },
    };
    if !g.drawn {
        Err(ApiError::NotYetDrawn)
    } else if recent_resends > 0 {
        Err(ApiError::ResendRateLimited)
    } else if total_resends >= MAX_BULK_RESENDS {
        Err(ApiError::ResendLimitReached)
    } else {
        Ok(())
    }
}

/// An individual resend needs an authorized organizer, a completed
/// draw, a participant that exists and belongs to the addressed game,
/// no resend for them within the past hour, and lifetime allowance
/// left.
pub open spec fn spec_check_participant_resend(
    game: Option<Game>,
    game_id: Seq<char>,
    participant: Option<Participant>,
    recent_resends: nat,
    total_resends: nat,
) -> Result<(), ApiError> {
    match spec_authorize_admin(game, game_id) {
        Err(e) => Err(e),
        Ok(()) => {
            let g = game->0;
            if !g.drawn {
                Err(ApiError::NotYetDrawn)
            } else {
                match participant {
                    None => Err(ApiError::ParticipantNotFound),
                    Some(p) => if p.game_id@ != game_id {
                        Err(ApiError::ParticipantNotInGame)
                    } else if recent_resends > 0 {
                        Err(ApiError::ResendRateLimited)
                    } else if total_resends >= MAX_PARTICIPANT_RESENDS {
                        Err(ApiError::ResendLimitReached)
                    } else {
                        Ok(())
                    },
                }
            }
        },
    }
}

/// Decide whether one participant's notification email may be resent.
pub fn check_participant_resend(
    game: Option<&Game>,
    game_id: &str,
    participant: Option<&Participant>,
    recent_resends: usize,
    total_resends: usize,
) -> (r: Result<(), ApiError>)
    ensures
        r == spec_check_participant_resend(
            match game {
                Some(g) => Some(*g),
                None => None,
            },
            game_id@,
            match participant {
                Some(p) => Some(*p),
                None => None,
            },
            recent_resends as nat,
            total_resends as nat,
        ),
{
    if let Err(e) = authorize_admin(game, game_id) {
        return Err(e);
    }
    let g = match game {
        Some(g) => g,
        None => {
            proof {
                assert(false);
            }
            vstd::pervasive::unreached()
        },
    };
    if !g.drawn {
        return Err(ApiError::NotYetDrawn);
    }
    let p = match participant {
        None => {
            return Err(ApiError::ParticipantNotFound);
        },
        Some(p) => p,
    };
    if !str_eq(p.game_id.as_str(), game_id) {
        Err(ApiError::ParticipantNotInGame)
    } else if recent_resends > 0 {
        Err(ApiError::ResendRateLimited)
    } else if total_resends >= MAX_PARTICIPANT_RESENDS {
        Err(ApiError::ResendLimitReached)
    } else {
        Ok(())
    }
}

/// Editing a participant needs an authorized organizer and a
/// participant of the addressed game; once the game is drawn and the
/// participant has viewed their match, the row is locked.
pub open spec fn spec_check_update_participant(
    game: Option<Game>,
    game_id: Seq<char>,
    participant: Option<Participant>,
) -> Result<(), ApiError> {
    match spec_authorize_admin(game, game_id) {
        Err(e) => Err(e),
        Ok(()) => {
            let g = game->0;
            match participant {
                None => Err(ApiError::ParticipantNotFound),
                Some(p) => if p.game_id@ != game_id {
                    Err(ApiError::ParticipantNotInGame)
                } else if g.drawn && p.has_viewed {
                    Err(ApiError::ParticipantLocked)
                } else {
                    Ok(())
                },
            }
        },
    }
}

/// Decide whether a participant's name or email may be edited.
pub fn check_update_participant(
    game: Option<&Game>,
    game_id: &str,
    participant: Option<&Participant>,
) -> (r: Result<(), ApiError>)
    ensures
        r == spec_check_update_participant(
            match game {
                Some(g) => Some(*g),
                None => None,
            },
            game_id@,
            match participant {
                Some(p) => Some(*p),
                None => None,
            },
        ),
{
    if let Err(e) = authorize_admin(game, game_id) {
        return Err(e);
    }
    let g = match game {
        Some(g) => g,
        None => {
            proof {
                assert(false);
            }
            vstd::pervasive::unreached()
        },
    };
    let p = match participant {
        None => {
            return Err(ApiError::ParticipantNotFound);
        },
        Some(p) => p,
    };
    if !str_eq(p.game_id.as_str(), game_id) {
        Err(ApiError::ParticipantNotInGame)
    } else if g.drawn && p.has_viewed {
        Err(ApiError::ParticipantLocked)
    } else {
        Ok(())
    }
}

/// What a notification phase reports back: the operation itself has
/// already succeeded, so `success` is always true; the counts say how
/// many sends went through and how many failed.
#[derive(Clone, Copy, Debug)]
pub struct NotificationReport {
    pub success: bool,
    pub sent: usize,
    pub failed: usize,
}

/// How many sends of `s` succeeded.
pub open spec fn count_true(s: Seq<bool>) -> nat
    decreases s.len(),
{
    if s.len() == 0 {
        0
    } else {
        count_true(s.drop_last()) + if s.last() {
            1nat
        } else {
            0nat
        }
    }
}

/// Summarize the notification phase of a draw or bulk resend.  One
/// entry per attempted send, true where it went through.  Failed sends
/// never fail the operation: the state change was already committed, so
/// the report's `success` is unconditionally true and failures appear
/// only in the counts.
pub fn notification_report(results: &Vec<bool>) -> (r: NotificationReport)
    ensures
        r.success,
        r.sent == count_true(results@),
        r.failed == results@.len() - count_true(results@),
        r.sent + r.failed == results@.len(),
{
    let mut sent: usize = 0;
    let n = results.len();
    proof {
        assert(results@.take(0) =~= Seq::<bool>::empty());
    }
    for k in 0..n
        invariant
            n == results@.len(),
            sent <= k,
            sent == count_true(results@.take(k as int)),
    {
        if results[k] {
            sent = sent + 1;
        }
        proof {
            assert(results@.take(k + 1).drop_last() =~= results@.take(k as int));
            assert(results@.take(k + 1).last() == results@[k as int]);
        }
    }
    assert(results@.take(n as int) =~= results@);
    proof {
        lemma_count_true_le(results@);
    }
    NotificationReport { success: true, sent, failed: n - sent }
}

/// No more sends succeed than were attempted.
proof fn lemma_count_true_le(s: Seq<bool>)
    ensures
        count_true(s) <= s.len(),
    decreases s.len(),
{
    if s.len() > 0 {
        lemma_count_true_le(s.drop_last());
    }
}

/// Project the participants of a game to what the organizer's status
/// view shows: identifier, name, email and whether the match was
/// viewed — no tokens and no assignments.
pub fn participant_statuses(ps: &Vec<Participant>) -> (r: Vec<ParticipantStatus>)
    ensures
        r@.len() == ps@.len(),
        forall|k: int|
            0 <= k < ps@.len() ==> (#[trigger] r@[k]).id@ == ps@[k].id@ && r@[k].name@
                == ps@[k].name@ && r@[k].email@ == ps@[k].email@ && r@[k].has_viewed
                == ps@[k].has_viewed,
{
    let mut r: Vec<ParticipantStatus> = Vec::new();
    let n = ps.len();
    for k in 0..n
        invariant
            n == ps@.len(),
            r@.len() == k,
            forall|j: int|
                0 <= j < k ==> (#[trigger] r@[j]).id@ == ps@[j].id@ && r@[j].name@ == ps@[j].name@
                    && r@[j].email@ == ps@[j].email@ && r@[j].has_viewed == ps@[j].has_viewed,
    {
        let p = &ps[k];
        r.push(
            ParticipantStatus {
                id: p.id.clone(),
                name: p.name.clone(),
                email: p.email.clone(),
                has_viewed: p.has_viewed,
            },
        );
    }
    r
}

} // verus!
