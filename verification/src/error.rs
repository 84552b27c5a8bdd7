//! The error taxonomy of the service's request-level operations.

use vstd::prelude::*;

verus! {

/// Every way a request-level operation can be refused.
///
/// `NotificationFailure` is deliberately absent: a failed notification is
/// never surfaced as an error, only as an aggregate count in the report of
/// the operation that sent it.
#[derive(Clone, Copy, Debug, PartialEq, Eq, Structural)]
pub enum ApiError {
    /// The addressed game does not exist.
    GameNotFound,
    /// The addressed participant does not exist.
    ParticipantNotFound,
    /// The addressed email verification does not exist.
    VerificationNotFound,
    /// The game's draw has already been performed.
    AlreadyDrawn,
    /// The operation needs a completed draw and the game has none.
    NotYetDrawn,
    /// A draw needs at least two participants.
    InsufficientParticipants,
    /// No derangement was found within the retry bound.
    DerangementUnattainable,
    /// The game already holds the maximum number of participants.
    ParticipantLimitReached,
    /// The participant belongs to a different game.
    ParticipantNotInGame,
    /// The participant has already viewed the match and may not be edited.
    ParticipantLocked,
    /// A resend was attempted within the cool-down window.
    ResendRateLimited,
    /// The lifetime allowance of resends is used up.
    ResendLimitReached,
    /// Too many verification codes were requested recently.
    VerificationRateLimited,
    /// The supplied admin token matches no game, or not the addressed one.
    InvalidAdminToken,
    /// The persistence layer failed; nothing was written.
    PersistenceFailure,
}

impl ApiError {
    /// The HTTP status code the service answers with for this error:
    /// missing resources map to 404, precondition failures to 400,
    /// authorization failures to 401, and internal faults to 500.
    pub fn status_code(&self) -> (code: u16)
        ensures
            code == match self {
                ApiError::GameNotFound => 404u16,
                ApiError::ParticipantNotFound => 404u16,
                ApiError::VerificationNotFound => 404u16,
                ApiError::AlreadyDrawn => 400u16,
                ApiError::NotYetDrawn => 400u16,
                ApiError::InsufficientParticipants => 400u16,
                ApiError::DerangementUnattainable => 500u16,
                ApiError::ParticipantLimitReached => 400u16,
                ApiError::ParticipantNotInGame => 400u16,
                ApiError::ParticipantLocked => 400u16,
                ApiError::ResendRateLimited => 400u16,
                ApiError::ResendLimitReached => 400u16,
                ApiError::VerificationRateLimited => 400u16,
                ApiError::InvalidAdminToken => 401u16,
                ApiError::PersistenceFailure => 500u16,
            },
    {
        match self {
            ApiError::GameNotFound => 404,
            ApiError::ParticipantNotFound => 404,
            ApiError::VerificationNotFound => 404,
            ApiError::AlreadyDrawn => 400,
            ApiError::NotYetDrawn => 400,
            ApiError::InsufficientParticipants => 400,
            ApiError::DerangementUnattainable => 500,
            ApiError::ParticipantLimitReached => 400,
            ApiError::ParticipantNotInGame => 400,
            ApiError::ParticipantLocked => 400,
            ApiError::ResendRateLimited => 400,
            ApiError::ResendLimitReached => 400,
            ApiError::VerificationRateLimited => 400,
            ApiError::InvalidAdminToken => 401,
            ApiError::PersistenceFailure => 500,
        }
    }
}

} // verus!
