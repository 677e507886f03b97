//! Authentication state and credentials.
//!
//! The authentication collaborator supplies the bearer token the session
//! sends; this module keeps the resulting state, judges token expiry
//! against a clock reading, and checks what a user typed before it is
//! ever sent.

use vstd::prelude::*;
use vstd::string::StrSliceExecFns;
use crate::types::{LoginCredentials, RegisterData, Timestamp, User};

verus! {

/// Where authentication stands.  A failure is terminal for the session
/// until the user authenticates again.
#[derive(Debug, PartialEq)]
pub enum AuthState {
    Unauthenticated,
    Authenticating,
    Authenticated(User),
    AuthenticationFailed(String),
}

impl AuthState {
    /// The signed-in user, if any, as a plain value.
    pub open spec fn spec_user(self) -> Option<User> {
        match self {
            AuthState::Authenticated(user) => Some(user),
            _ => None,
        }
    }

    /// The rejection message, if authentication failed.
    pub open spec fn spec_error(self) -> Option<String> {
        match self {
            AuthState::AuthenticationFailed(error) => Some(error),
            _ => None,
        }
    }

    pub fn is_authenticated(&self) -> (r: bool)
        ensures
            r == (self.spec_user() is Some),
    {
        match self {
            AuthState::Authenticated(_) => true,
            _ => false,
        }
    }

    pub fn get_user(&self) -> (r: Option<&User>)
        ensures
            match r {
                Some(user) => self.spec_user() == Some(*user),
                None => self.spec_user() is None,
            },
    {
        match self {
            AuthState::Authenticated(user) => Some(user),
            _ => None,
        }
    }

    pub fn get_error(&self) -> (r: Option<&String>)
        ensures
            match r {
                Some(error) => self.spec_error() == Some(*error),
                None => self.spec_error() is None,
            },
    {
        match self {
            AuthState::AuthenticationFailed(error) => Some(error),
            _ => None,
        }
    }
}

impl Default for AuthState {
    fn default() -> (r: Self)
        ensures
            r == AuthState::Unauthenticated,
    {
        AuthState::Unauthenticated
    }
}

/// A bearer token with its expiry instant.
#[derive(Debug, PartialEq)]
pub struct AuthToken {
    pub token: String,
    pub expires_at: Timestamp,
}

/// Relies on chrono::Utc::now and DateTime::timestamp_millis for the
/// current UTC instant in milliseconds.  Nothing can be promised of a
/// clock reading.
#[verifier::external_body]
fn now_utc_millis() -> Timestamp {
    chrono::Utc::now().timestamp_millis()
}

impl AuthToken {
    /// Whether the token is expired at the given instant.
    pub fn is_expired_at(&self, now: Timestamp) -> (r: bool)
        ensures
            r == (now > self.expires_at),
    {
        now > self.expires_at
    }

    /// Whether the token is expired now.  The verdict is
    /// [`AuthToken::is_expired_at`] applied to a clock reading, of which
    /// nothing is known ahead of time.
    pub fn is_expired(&self) -> bool {
        let now = now_utc_millis();
        self.is_expired_at(now)
    }
}

/// An ASCII whitespace character, as far as blank-field checks go.
pub open spec fn is_space(c: char) -> bool {
    c == ' ' || c == '\t' || c == '\n' || c == '\r'
}

/// Nothing but whitespace — what trimming would reduce to nothing.
pub open spec fn is_blank(s: Seq<char>) -> bool {
    forall|i: int| 0 <= i < s.len() ==> is_space(#[trigger] s[i])
}

pub open spec fn contains_char(s: Seq<char>, c: char) -> bool {
    exists|i: int| 0 <= i < s.len() && #[trigger] s[i] == c
}

fn str_is_blank(s: &str) -> (r: bool)
    ensures
        r == is_blank(s@),
{
    let n = s.unicode_len();
    let mut i: usize = 0;
    while i < n
        invariant
            n == s@.len(),
            i <= n,
            forall|j: int| 0 <= j < i ==> is_space(#[trigger] s@[j]),
        decreases n - i,
    {
        let c = s.get_char(i);
        if !(c == ' ' || c == '\t' || c == '\n' || c == '\r') {
            return false;
        }
        i += 1;
    }
    true
}

fn str_contains_char(s: &str, c: char) -> (r: bool)
    ensures
        r == contains_char(s@, c),
{
    let n = s.unicode_len();
    let mut i: usize = 0;
    while i < n
        invariant
            n == s@.len(),
            i <= n,
            forall|j: int| 0 <= j < i ==> #[trigger] s@[j] != c,
        decreases n - i,
    {
        if s.get_char(i) == c {
            return true;
        }
        i += 1;
    }
    proof {
        if contains_char(s@, c) {
            let j = choose|j: int| 0 <= j < s@.len() && s@[j] == c;
            assert(s@[j] != c);
        }
    }
    false
}

/// What a sign-in form accepts: a username that is more than whitespace
/// and a non-empty password.
pub fn validate_login_credentials(credentials: &LoginCredentials) -> (r: bool)
    ensures
        r == (!is_blank(credentials.username@) && credentials.password@.len() > 0),
{
    !str_is_blank(credentials.username.as_str()) && credentials.password.as_str().unicode_len()
        > 0
}

/// What a registration form accepts: every field more than whitespace, a
/// non-empty password, and an address with at least an at-sign in it.
pub fn validate_registration(data: &RegisterData) -> (r: bool)
    ensures
        r == (!is_blank(data.username@) && !is_blank(data.email@) && data.password@.len() > 0
            && !is_blank(data.display_name@) && contains_char(data.email@, '@')),
{
    !str_is_blank(data.username.as_str()) && !str_is_blank(data.email.as_str())
        && data.password.as_str().unicode_len() > 0 && !str_is_blank(data.display_name.as_str())
        && str_contains_char(data.email.as_str(), '@')
}

} // verus!
