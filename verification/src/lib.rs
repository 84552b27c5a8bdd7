//! Verified core of a "Secret Santa" gift-exchange backend.
//!
//! The library holds the logic that decides what the service does: the
//! derangement generator that pairs givers with receivers, the draw
//! coordinator modelled as a state transition over the persisted rows, the
//! precondition checks of every request handler, and the token and model
//! types those decisions speak about.  Everything here is verified; the
//! surrounding HTTP, SQL and SMTP plumbing lives outside and hands this
//! library plain values.

mod auth;
mod error;
mod matching;
mod models;
mod requests;
mod store;
mod strutil;
mod token;
mod verification;

pub use auth::{
    parse_bearer_token, ProxyAuthConfig, ProxyAuthLayer, StagingAuthConfig, StagingAuthLayer,
};
pub use error::ApiError;
pub use matching::{derangement_free, generate_matches, MAX_DRAW_ATTEMPTS};
pub use models::{
    AddParticipantRequest, AddParticipantResponse, AdminQuery, CreateGameRequest,
    CreateGameResponse, Game, GameStatusResponse, Participant, ParticipantStatus,
    RequestVerificationRequest, RequestVerificationResponse, ResendRecord,
    ResendVerificationRequest, ResendVerificationResponse, RevealResponse,
    UpdateParticipantRequest, VerifyCodeRequest, VerifyCodeResponse,
};
pub use requests::{
    authorize_admin, check_add_participant, check_bulk_resend, check_draw_preconditions,
    check_participant_resend, check_update_participant, notification_report,
    participant_statuses, NotificationReport, MAX_BULK_RESENDS, MAX_PARTICIPANT_RESENDS,
};
pub use store::{GameStore, GAME_RETENTION_DAYS, MAX_PARTICIPANTS_PER_GAME};
pub use token::{SecureToken, TOKEN_LENGTH};
pub use verification::{
    can_request_verification, check_resend_verification, evaluate_verification, format_code,
    new_verification_code, EmailVerification, ResendDecision, VerifyDecision,
    MAX_VERIFICATION_ATTEMPTS, MAX_VERIFICATION_REQUESTS_PER_HOUR, VERIFICATION_TTL_SECONDS,
};
