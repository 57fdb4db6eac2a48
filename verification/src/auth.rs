//! Authenticated-user data and token claims.
//!
//! Token signing and HTTP extraction belong to the transport layer; what is
//! verified here is the data the tokens carry: the claims issued at login
//! (with their fixed seven-day lifetime), the bearer-header shape, and the
//! fallback identity of unauthenticated callers.

use vstd::prelude::*;

use crate::text::opt_string_text;
use crate::text::opt_text;

verus! {

/// How long an issued token stays valid, in seconds (7 days).
pub const TOKEN_LIFETIME_SECS: u64 = 604_800;

/// The claims carried by a login token.
#[derive(Clone, Debug)]
pub struct Claims {
    /// User identifier.
    pub sub: String,
    pub email: String,
    pub name: String,
    pub avatar: Option<String>,
    pub provider: String,
    pub tier: String,
    /// Expiration time, in seconds since the epoch.
    pub exp: u64,
    /// Issued at, in seconds since the epoch.
    pub iat: u64,
}

impl Claims {
    /// The claims issued to a user logging in at `now_secs`: issued now,
    /// expiring one token lifetime later.
    pub fn issue(
        user_id: &str,
        email: &str,
        name: &str,
        avatar: Option<&str>,
        provider: &str,
        tier: &str,
        now_secs: u64,
    ) -> (c: Claims)
        requires
            now_secs + TOKEN_LIFETIME_SECS <= u64::MAX,
        ensures
            c.sub@ == user_id@,
            c.email@ == email@,
            c.name@ == name@,
            opt_string_text(c.avatar) == opt_text(avatar),
            c.provider@ == provider@,
            c.tier@ == tier@,
            c.iat == now_secs,
            c.exp == now_secs + TOKEN_LIFETIME_SECS,
    {
        Claims {
            sub: user_id.to_owned(),
            email: email.to_owned(),
            name: name.to_owned(),
            avatar: match avatar {
                Some(a) => Some(a.to_owned()),
                None => None,
            },
            provider: provider.to_owned(),
            tier: tier.to_owned(),
            exp: now_secs + TOKEN_LIFETIME_SECS,
            iat: now_secs,
        }
    }
}

/// An authentication failure, reported to the caller.
#[derive(Debug)]
pub struct AuthError {
    pub message: String,
}

/// A caller whose token checked out.
#[derive(Clone, Debug)]
pub struct AuthUser {
    pub user_id: String,
    pub email: String,
    pub name: String,
    pub avatar: Option<String>,
    pub provider: String,
    pub tier: String,
}

/// A caller that may or may not be authenticated.
#[derive(Clone, Debug)]
pub struct OptionalAuthUser(pub Option<AuthUser>);

impl OptionalAuthUser {
    /// The caller's user id, or `"default"` when not authenticated.
    pub fn user_id_or_default(&self) -> (r: &str)
        ensures
            self.0 matches Some(u) ==> r@ == u.user_id@,
            self.0 is None ==> r@ == "default"@,
    {
        match &self.0 {
            Some(u) => u.user_id.as_str(),
            None => "default",
        }
    }

    /// The caller's tier, or `"free"` when not authenticated.
    pub fn tier_or_default(&self) -> (r: &str)
        ensures
            self.0 matches Some(u) ==> r@ == u.tier@,
            self.0 is None ==> r@ == "free"@,
    {
        match &self.0 {
            Some(u) => u.tier.as_str(),
            None => "free",
        }
    }
}

} // verus!
