//! Request and response shapes of the authentication endpoints.

use vstd::prelude::*;

verus! {

/// The body of a login request: a username or email, and a password.
#[derive(Debug)]
pub struct AuthSubmission {
    pub user_or_email: String,
    pub password: String,
}

/// Reserved response shape; not used by the current flows.
#[derive(Debug)]
pub struct TokenAndUserId {
}

/// The body of a successful login or refresh response: the bearer access
/// token and the id of the authenticated user. The refresh token is never
/// part of this body; it travels only in a cookie.
pub struct AuthResponse {
    pub token: String,
    pub user_id: i32,
}

} // verus!
