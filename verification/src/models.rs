//! The persisted data model: games and their participants, and the plain
//! request/response value types of the HTTP interface.
//!
//! Timestamps are Unix seconds; event dates are ISO-8601 date strings,
//! which the persistence layer orders lexicographically.

use vstd::prelude::*;
use crate::token::SecureToken;

verus! {

/// Relies on ulid's `Ulid::new` and its `Display` implementation: the
/// textual form of a ULID is exactly 26 Crockford base32 characters.
/// Used as a unique identifier for freshly created rows.
#[verifier::external_body]
pub(crate) fn new_ulid_string() -> (r: String)
    ensures
        r@.len() == 26,
{
    ulid::Ulid::new().to_string()
}

/// One gift exchange: created by an organizer, drawn at most once.
#[derive(Clone, Debug)]
pub struct Game {
    pub id: String,
    pub name: String,
    /// ISO-8601 date of the gift exchange itself.
    pub event_date: String,
    pub organizer_email: String,
    /// Grants access to the organizer's admin panel.
    pub admin_token: SecureToken,
    /// Unix seconds at creation.
    pub created_at: i64,
    /// Set to true by the draw, exactly once; never unset.
    pub drawn: bool,
}

impl Game {
    /// A fresh, not-yet-drawn game with a new identifier and admin token.
    pub fn new(name: String, event_date: String, organizer_email: String, now: i64) -> (g: Game)
        ensures
            g.name@ == name@,
            g.event_date@ == event_date@,
            g.organizer_email@ == organizer_email@,
            g.created_at == now,
            !g.drawn,
            g.id@.len() == 26,
            g.admin_token@.len() == crate::token::TOKEN_LENGTH as nat,
    {
        Game {
            id: new_ulid_string(),
            name,
            event_date,
            organizer_email,
            admin_token: SecureToken::generate(),
            created_at: now,
            drawn: false,
        }
    }

    /// An equal copy of the game row.
    pub fn duplicate(&self) -> (r: Game)
        ensures
            r == *self,
    {
        Game {
            id: self.id.clone(),
            name: self.name.clone(),
            event_date: self.event_date.clone(),
            organizer_email: self.organizer_email.clone(),
            admin_token: self.admin_token.duplicate(),
            created_at: self.created_at,
            drawn: self.drawn,
        }
    }
}

/// One member of a game, owned by that game for its whole lifetime.
#[derive(Clone, Debug)]
pub struct Participant {
    pub id: String,
    /// The owning game's identifier.
    pub game_id: String,
    pub name: String,
    pub email: String,
    /// The identifier of the participant this one gives to; `None` until
    /// the owning game is drawn, then set once and never changed.
    pub matched_with_id: Option<String>,
    /// Grants access to this participant's private reveal page.
    pub view_token: SecureToken,
    /// Whether the participant has opened the reveal page.
    pub has_viewed: bool,
    /// Unix seconds at creation.
    pub created_at: i64,
}

impl Participant {
    /// A fresh, unmatched participant with a new identifier and view token.
    pub fn new(game_id: String, name: String, email: String, now: i64) -> (p: Participant)
        ensures
            p.game_id@ == game_id@,
            p.name@ == name@,
            p.email@ == email@,
            p.matched_with_id is None,
            !p.has_viewed,
            p.created_at == now,
            p.id@.len() == 26,
            p.view_token@.len() == crate::token::TOKEN_LENGTH as nat,
    {
        Participant {
            id: new_ulid_string(),
            game_id,
            name,
            email,
            matched_with_id: None,
            view_token: SecureToken::generate(),
            has_viewed: false,
            created_at: now,
        }
    }

    /// An equal copy of the participant row.
    pub fn duplicate(&self) -> (r: Participant)
        ensures
            r == *self,
    {
        Participant {
            id: self.id.clone(),
            game_id: self.game_id.clone(),
            name: self.name.clone(),
            email: self.email.clone(),
            matched_with_id: match &self.matched_with_id {
                Some(m) => Some(m.clone()),
                None => None,
            },
            view_token: self.view_token.duplicate(),
            has_viewed: self.has_viewed,
            created_at: self.created_at,
        }
    }
}

/// An audit row recording one resend of a notification email.
#[derive(Clone, Debug)]
pub struct ResendRecord {
    pub id: String,
    pub game_id: String,
    /// `None` for a bulk resend addressed to the whole game.
    pub participant_id: Option<String>,
    /// What was resent, e.g. an admin link or a participant reveal link.
    pub resend_type: String,
    /// Unix seconds at which the resend happened.
    pub resent_at: i64,
}

impl ResendRecord {
    /// An equal copy of the audit row.
    pub fn duplicate(&self) -> (r: ResendRecord)
        ensures
            r == *self,
    {
        ResendRecord {
            id: self.id.clone(),
            game_id: self.game_id.clone(),
            participant_id: match &self.participant_id {
                Some(p) => Some(p.clone()),
                None => None,
            },
            resend_type: self.resend_type.clone(),
            resent_at: self.resent_at,
        }
    }
}

// The plain value types the HTTP boundary exchanges with the library.
// Outside the library they exist once more with the serialization derives;
// the copies convert field by field.

#[derive(Clone, Debug)]
pub struct CreateGameRequest {
    pub name: String,
    pub event_date: String,
    pub organizer_email: String,
}

#[derive(Clone, Debug)]
pub struct CreateGameResponse {
    pub game_id: String,
    pub admin_token: String,
}

#[derive(Clone, Debug)]
pub struct AddParticipantRequest {
    pub name: String,
    pub email: String,
}

#[derive(Clone, Debug)]
pub struct AddParticipantResponse {
    pub participant_id: String,
}

#[derive(Clone, Debug)]
pub struct UpdateParticipantRequest {
    pub name: Option<String>,
    pub email: Option<String>,
}

#[derive(Clone, Debug)]
pub struct AdminQuery {
    pub admin_token: String,
}

/// A participant as shown to the organizer: no tokens, no match.
#[derive(Clone, Debug)]
pub struct ParticipantStatus {
    pub id: String,
    pub name: String,
    pub email: String,
    pub has_viewed: bool,
}

#[derive(Clone, Debug)]
pub struct GameStatusResponse {
    pub game: Game,
    pub participants: Vec<ParticipantStatus>,
}

/// What a participant sees on the reveal page.
#[derive(Clone, Debug)]
pub struct RevealResponse {
    pub game_name: String,
    pub event_date: String,
    pub your_name: String,
    pub matched_name: String,
}

#[derive(Clone, Debug)]
pub struct RequestVerificationRequest {
    pub name: String,
    pub event_date: String,
    pub organizer_email: String,
}

#[derive(Clone, Debug)]
pub struct RequestVerificationResponse {
    pub verification_id: String,
}

#[derive(Clone, Debug)]
pub struct VerifyCodeRequest {
    pub verification_id: String,
    pub code: String,
}

#[derive(Clone, Debug)]
pub struct VerifyCodeResponse {
    pub success: bool,
    pub game_id: Option<String>,
    pub admin_token: Option<String>,
    pub error: Option<String>,
    pub attempts_remaining: Option<i32>,
}

#[derive(Clone, Debug)]
pub struct ResendVerificationRequest {
    pub verification_id: String,
}

#[derive(Clone, Debug)]
pub struct ResendVerificationResponse {
    pub success: bool,
    pub error: Option<String>,
}

} // verus!
