//! Unguessable access tokens.
//!
//! A [`SecureToken`] guards a resource (a game's admin panel, a
//! participant's reveal page).  Fresh tokens are 32 random alphanumeric
//! characters; tokens read back from storage are wrapped as they are.

use vstd::prelude::*;
use rand::Rng;

verus! {

/// Length of freshly generated tokens, in characters.
pub const TOKEN_LENGTH: usize = 32;

/// True for the characters a fresh token is made of: ASCII letters and
/// digits.
pub open spec fn is_token_char(c: char) -> bool {
    ||| ('0' as int) <= (c as int) <= ('9' as int)
    ||| ('A' as int) <= (c as int) <= ('Z' as int)
    ||| ('a' as int) <= (c as int) <= ('z' as int)
}

/// Relies on rand's `Alphanumeric` distribution: each sampled byte is one
/// of the 62 ASCII letters and digits, and taking `len` samples yields a
/// string of exactly `len` such characters.
#[verifier::external_body]
fn random_alphanumeric(len: usize) -> (r: String)
    ensures
        r@.len() == len as nat,
        forall|i: int| 0 <= i < r@.len() ==> is_token_char(#[trigger] r@[i]),
{
    rand::thread_rng()
        .sample_iter(&rand::distributions::Alphanumeric)
        .take(len)
        .map(char::from)
        .collect()
}

/// A random token with enough entropy that it cannot be guessed.
#[derive(Clone, Debug)]
pub struct SecureToken(String);

impl View for SecureToken {
    type V = Seq<char>;

    closed spec fn view(&self) -> Seq<char> {
        self.0@
    }
}

impl SecureToken {
    /// Generate a new secure random token.
    pub fn generate() -> (r: Self)
        ensures
            r@.len() == TOKEN_LENGTH as nat,
            forall|i: int| 0 <= i < r@.len() ==> is_token_char(#[trigger] r@[i]),
    {
        SecureToken(random_alphanumeric(TOKEN_LENGTH))
    }

    /// Wrap a token value read back from storage.
    pub fn from_string(s: String) -> (r: Self)
        ensures
            r@ == s@,
    {
        SecureToken(s)
    }

    /// The token as a string slice.
    pub fn as_str(&self) -> (r: &str)
        ensures
            r@ == self@,
    {
        self.0.as_str()
    }

    /// Give the token value up as a plain string.
    pub fn into_string(self) -> (r: String)
        ensures
            r@ == self@,
    {
        self.0
    }

    /// An equal copy of the token.
    pub fn duplicate(&self) -> (r: Self)
        ensures
            r == *self,
    {
        SecureToken(self.0.clone())
    }

    /// The length of freshly generated tokens.
    pub fn len() -> (r: usize)
        ensures
            r == TOKEN_LENGTH,
    {
        TOKEN_LENGTH
    }
}

} // verus!
