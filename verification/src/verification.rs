//! Email verification of a game's organizer.
//!
//! Before a game is created through the verified-email flow, the
//! organizer is sent a six-digit code.  This module holds the
//! verification row, its construction, and the decisions the two
//! verification endpoints take: whether a code is accepted, and whether
//! a new code may be issued.

use vstd::prelude::*;
use rand::Rng;
use crate::models::new_ulid_string;
use crate::strutil::str_eq;

verus! {

/// How long a verification code lives, in seconds.
pub const VERIFICATION_TTL_SECONDS: i64 = 900;

/// How many times a code may be guessed before a new one is needed.
pub const MAX_VERIFICATION_ATTEMPTS: i32 = 5;

/// How many codes one email address may request per hour.
pub const MAX_VERIFICATION_REQUESTS_PER_HOUR: usize = 3;

/// One pending email verification.
#[derive(Clone, Debug)]
pub struct EmailVerification {
    pub id: String,
    pub email: String,
    /// The six-digit code the organizer must echo back.
    pub code: String,
    pub game_name: String,
    pub event_date: String,
    /// Unix seconds at creation.
    pub created_at: i64,
    /// Unix seconds past which the code is refused.
    pub expires_at: i64,
    /// Set once the code was accepted; the row is then spent.
    pub verified: bool,
    /// How many wrong guesses were made.
    pub attempts: i32,
}

/// Relies on `String::push`: it appends exactly the given character.
pub assume_specification[ String::push ](s: &mut String, c: char)
    ensures
        final(s)@ == old(s)@.push(c),
;

/// Relies on rand's `gen_range`: the sample lies in the half-open range
/// it was drawn from.
#[verifier::external_body]
fn random_below(bound: u32) -> (r: u32)
    requires
        bound > 0,
    ensures
        r < bound,
{
    rand::thread_rng().gen_range(0..bound)
}

/// The decimal digit `d` as a character.
pub open spec fn spec_digit_char(d: nat) -> char {
    ((48 + d % 10) as u8) as char
}

/// The six decimal digits of `n`, highest first, zero-padded.
pub open spec fn spec_code_digits(n: nat) -> Seq<char> {
    seq![
        spec_digit_char(n / 100000),
        spec_digit_char(n / 10000),
        spec_digit_char(n / 1000),
        spec_digit_char(n / 100),
        spec_digit_char(n / 10),
        spec_digit_char(n),
    ]
}

/// True of the ten decimal digit characters.
pub open spec fn is_digit_char(c: char) -> bool {
    ('0' as int) <= (c as int) <= ('9' as int)
}

/// Render a number below one million as six zero-padded decimal digits.
pub fn format_code(n: u32) -> (r: String)
    requires
        n < 1000000,
    ensures
        r@ == spec_code_digits(n as nat),
        r@.len() == 6,
        forall|i: int| 0 <= i < r@.len() ==> is_digit_char(#[trigger] r@[i]),
{
    let mut r = String::new();
    push_digit(&mut r, n / 100000);
    push_digit(&mut r, n / 10000);
    push_digit(&mut r, n / 1000);
    push_digit(&mut r, n / 100);
    push_digit(&mut r, n / 10);
    push_digit(&mut r, n);
    proof {
        assert(r@ =~= spec_code_digits(n as nat));
        assert forall|i: int| 0 <= i < r@.len() implies is_digit_char(#[trigger] r@[i]) by {
            lemma_digit_char_is_digit((n as nat) / 100000);
            lemma_digit_char_is_digit((n as nat) / 10000);
            lemma_digit_char_is_digit((n as nat) / 1000);
            lemma_digit_char_is_digit((n as nat) / 100);
            lemma_digit_char_is_digit((n as nat) / 10);
            lemma_digit_char_is_digit(n as nat);
        }
    }
    r
}

/// The character of a decimal digit is one of `'0'` through `'9'`.
proof fn lemma_digit_char_is_digit(d: nat)
    ensures
        is_digit_char(spec_digit_char(d)),
{
    let m = d % 10;
    assert(0 <= m < 10);
    assert(48 <= 48 + m <= 57);
}

/// Append the lowest decimal digit of `n`.
fn push_digit(s: &mut String, n: u32)
    ensures
        final(s)@ == old(s)@.push(spec_digit_char(n as nat)),
{
    let d: u32 = n % 10;
    let c: char = ((48 + d) as u8) as char;
    s.push(c);
}

/// A fresh random six-digit verification code.
pub fn new_verification_code() -> (r: String)
    ensures
        r@.len() == 6,
        forall|i: int| 0 <= i < r@.len() ==> is_digit_char(#[trigger] r@[i]),
{
    let n = random_below(1000000);
    format_code(n)
}

impl EmailVerification {
    /// A fresh pending verification: a new identifier, a new random
    /// code, no attempts, expiring a fixed time after `now`.
    pub fn new(email: String, game_name: String, event_date: String, now: i64) -> (v:
        EmailVerification)
        requires
            now <= i64::MAX - VERIFICATION_TTL_SECONDS,
        ensures
            v.email@ == email@,
            v.game_name@ == game_name@,
            v.event_date@ == event_date@,
            v.created_at == now,
            v.expires_at == now + VERIFICATION_TTL_SECONDS,
            !v.verified,
            v.attempts == 0,
            v.id@.len() == 26,
            v.code@.len() == 6,
            forall|i: int| 0 <= i < v.code@.len() ==> is_digit_char(#[trigger] v.code@[i]),
    {
        EmailVerification {
            id: new_ulid_string(),
            email,
            code: new_verification_code(),
            game_name,
            event_date,
            created_at: now,
            expires_at: now + VERIFICATION_TTL_SECONDS,
            verified: false,
            attempts: 0,
        }
    }

    /// An equal copy of the verification row.
    pub fn duplicate(&self) -> (r: EmailVerification)
        ensures
            r == *self,
    {
        EmailVerification {
            id: self.id.clone(),
            email: self.email.clone(),
            code: self.code.clone(),
            game_name: self.game_name.clone(),
            event_date: self.event_date.clone(),
            created_at: self.created_at,
            expires_at: self.expires_at,
            verified: self.verified,
            attempts: self.attempts,
        }
    }

    /// Whether the code's lifetime has passed at time `now`.
    pub fn is_expired(&self, now: i64) -> (r: bool)
        ensures
            r == (now > self.expires_at),
    {
        now > self.expires_at
    }

    /// Whether another guess at the code is still allowed.
    pub fn can_attempt(&self) -> (r: bool)
        ensures
            r == (self.attempts < MAX_VERIFICATION_ATTEMPTS),
    {
        self.attempts < MAX_VERIFICATION_ATTEMPTS
    }
}

/// The outcome of checking a submitted verification code.
#[derive(Clone, Copy, Debug, PartialEq, Eq, Structural)]
pub enum VerifyDecision {
    /// No verification with the given identifier exists.
    NotFound,
    /// The verification was already used to create a game.
    AlreadyUsed,
    /// The code's lifetime has passed; a new code must be requested.
    Expired,
    /// All guesses are used up; a new code must be requested.
    OutOfAttempts,
    /// The code does not match; this many guesses remain.
    WrongCode(i32),
    /// The code matches: create the game and mark the row verified.
    Correct,
}

/// The decision the code-checking endpoint takes, given the loaded
/// verification row, the submitted code and the current time.
pub open spec fn spec_evaluate_verification(
    v: Option<EmailVerification>,
    code: Seq<char>,
    now: int,
) -> VerifyDecision {
    match v {
        None => VerifyDecision::NotFound,
        Some(v) => {
            if v.verified {
                VerifyDecision::AlreadyUsed
            } else if now > v.expires_at {
                VerifyDecision::Expired
            } else if v.attempts >= MAX_VERIFICATION_ATTEMPTS {
                VerifyDecision::OutOfAttempts
            } else if v.code@ != code {
                VerifyDecision::WrongCode(
                    (MAX_VERIFICATION_ATTEMPTS - (v.attempts + 1)) as i32,
                )
            } else {
                VerifyDecision::Correct
            }
        },
    }
}

/// Check a submitted verification code, in the order the endpoint does:
/// existence, prior use, expiry, the attempt budget, then the code
/// itself.  On a wrong code the caller increments the row's attempt
/// counter and reports the remaining guesses given here.
pub fn evaluate_verification(v: Option<&EmailVerification>, code: &str, now: i64) -> (d:
    VerifyDecision)
    requires
        v matches Some(x) ==> x.attempts >= 0,
    ensures
        d == spec_evaluate_verification(
            match v {
                Some(v) => Some(*v),
                None => None,
            },
            code@,
            now as int,
        ),
{
    let v = match v {
        Some(v) => v,
        None => {
            return VerifyDecision::NotFound;
        },
    };
    if v.verified {
        VerifyDecision::AlreadyUsed
    } else if v.is_expired(now) {
        VerifyDecision::Expired
    } else if !v.can_attempt() {
        VerifyDecision::OutOfAttempts
    } else if !str_eq(v.code.as_str(), code) {
        VerifyDecision::WrongCode(MAX_VERIFICATION_ATTEMPTS - (v.attempts + 1))
    } else {
        VerifyDecision::Correct
    }
}

/// The outcome of asking for a verification code to be resent.
#[derive(Clone, Copy, Debug, PartialEq, Eq, Structural)]
pub enum ResendDecision {
    /// No verification with the given identifier exists.
    NotFound,
    /// The verification was already used; nothing to resend.
    AlreadyUsed,
    /// The email address asked for too many codes within the hour.
    RateLimited,
    /// Issue a new code and send it.
    Proceed,
}

/// The decision the resend endpoint takes, given the loaded row and how
/// many codes its email address received in the last hour.
pub open spec fn spec_check_resend_verification(
    v: Option<EmailVerification>,
    recent_count: nat,
) -> ResendDecision {
    match v {
        None => ResendDecision::NotFound,
        Some(v) => {
            if v.verified {
                ResendDecision::AlreadyUsed
            } else if recent_count >= MAX_VERIFICATION_REQUESTS_PER_HOUR {
                ResendDecision::RateLimited
            } else {
                ResendDecision::Proceed
            }
        },
    }
}

/// Decide whether a verification code may be resent.
pub fn check_resend_verification(v: Option<&EmailVerification>, recent_count: usize) -> (d:
    ResendDecision)
    ensures
        d == spec_check_resend_verification(
            match v {
                Some(v) => Some(*v),
                None => None,
            },
            recent_count as nat,
        ),
{
    let v = match v {
        Some(v) => v,
        None => {
            return ResendDecision::NotFound;
        },
    };
    if v.verified {
        ResendDecision::AlreadyUsed
    } else if recent_count >= MAX_VERIFICATION_REQUESTS_PER_HOUR {
        ResendDecision::RateLimited
    } else {
        ResendDecision::Proceed
    }
}

/// Whether a first verification code may be requested: the address must
/// not have asked too often within the hour.
pub fn can_request_verification(recent_count: usize) -> (r: bool)
    ensures
        r == (recent_count < MAX_VERIFICATION_REQUESTS_PER_HOUR),
{
    recent_count < MAX_VERIFICATION_REQUESTS_PER_HOUR
}

} // verus!
