//! The error taxonomy of the authentication core, and its mapping to an
//! HTTP status code and user-facing message.

use vstd::prelude::*;

verus! {

/// Failures of the user store.
#[derive(Debug, Clone, Copy, PartialEq, Eq, Structural)]
pub enum UserRepoError {
    NotFound,
    InvalidUserName,
}

/// Failures of the credential hasher.
#[derive(Debug, Clone, Copy, PartialEq, Eq, Structural)]
pub enum EncryptionError {
    HashError,
    VerifyError,
}

/// Failures of the authentication flows.
#[derive(Debug, Clone, Copy, PartialEq, Eq, Structural)]
pub enum AuthError {
    MissingUserName,
    MissingPassword,
    UserNotFound,
    IncorrectPassword,
    TokenCreation,
    InvalidToken,
    TokenMissing,
    MissingCookie,
    InvalidCookie,
}

/// Any failure a request handler can surface.
#[derive(Debug, Clone, Copy, PartialEq, Eq, Structural)]
pub enum AppError {
    UserRepoError(UserRepoError),
    EncryptionError(EncryptionError),
    AuthError(AuthError),
}

impl From<UserRepoError> for AppError {
    fn from(inner: UserRepoError) -> (r: Self) {
        AppError::UserRepoError(inner)
    }
}

impl vstd::std_specs::convert::FromSpecImpl<UserRepoError> for AppError {
    open spec fn obeys_from_spec() -> bool {
        true
    }

    open spec fn from_spec(inner: UserRepoError) -> AppError {
        AppError::UserRepoError(inner)
    }
}

impl From<EncryptionError> for AppError {
    fn from(inner: EncryptionError) -> (r: Self) {
        AppError::EncryptionError(inner)
    }
}

impl vstd::std_specs::convert::FromSpecImpl<EncryptionError> for AppError {
    open spec fn obeys_from_spec() -> bool {
        true
    }

    open spec fn from_spec(inner: EncryptionError) -> AppError {
        AppError::EncryptionError(inner)
    }
}

impl From<AuthError> for AppError {
    fn from(inner: AuthError) -> (r: Self) {
        AppError::AuthError(inner)
    }
}

impl vstd::std_specs::convert::FromSpecImpl<AuthError> for AppError {
    open spec fn obeys_from_spec() -> bool {
        true
    }

    open spec fn from_spec(inner: AuthError) -> AppError {
        AppError::AuthError(inner)
    }
}

impl AppError {
    /// The HTTP status code this failure maps to.
    pub open spec fn spec_status(self) -> u16 {
        match self {
            AppError::UserRepoError(UserRepoError::NotFound) => 404,
            AppError::UserRepoError(UserRepoError::InvalidUserName) => 422,
            AppError::AuthError(AuthError::IncorrectPassword) => 401,
            AppError::AuthError(AuthError::UserNotFound) => 401,
            AppError::AuthError(AuthError::MissingUserName) => 401,
            AppError::AuthError(AuthError::MissingPassword) => 401,
            AppError::AuthError(AuthError::InvalidToken) => 401,
            AppError::AuthError(AuthError::TokenMissing) => 401,
            AppError::AuthError(AuthError::MissingCookie) => 401,
            AppError::AuthError(AuthError::InvalidCookie) => 401,
            _ => 500,
        }
    }

    /// The user-facing message this failure maps to. Internal failures all
    /// collapse to a generic message so that no internal detail leaks out.
    pub open spec fn spec_message(self) -> Seq<char> {
        match self {
            AppError::UserRepoError(UserRepoError::NotFound) => "User not found"@,
            AppError::UserRepoError(UserRepoError::InvalidUserName) => "Invalid username"@,
            AppError::AuthError(AuthError::IncorrectPassword) => "Invalid password"@,
            AppError::AuthError(AuthError::UserNotFound) => "User not found"@,
            AppError::AuthError(AuthError::MissingUserName) => "Username is missing"@,
            AppError::AuthError(AuthError::MissingPassword) => "Password is missing"@,
            AppError::AuthError(AuthError::InvalidToken) => "Invalid token"@,
            AppError::AuthError(AuthError::TokenMissing) => "Missing token"@,
            AppError::AuthError(AuthError::MissingCookie) => "Missing cookie"@,
            AppError::AuthError(AuthError::InvalidCookie) => "Invalid cookie"@,
            _ => "Unknown server error"@,
        }
    }

    /// The classified rejection a handler sends back: one status code and one
    /// short message for each failure kind.
    pub fn status_and_message(&self) -> (r: (u16, &'static str))
        ensures
            r.0 == self.spec_status(),
            r.1@ == self.spec_message(),
    {
        match self {
            AppError::UserRepoError(UserRepoError::NotFound) => (404, "User not found"),
            AppError::UserRepoError(UserRepoError::InvalidUserName) => (422, "Invalid username"),
            AppError::AuthError(AuthError::IncorrectPassword) => (401, "Invalid password"),
            AppError::AuthError(AuthError::UserNotFound) => (401, "User not found"),
            AppError::AuthError(AuthError::MissingUserName) => (401, "Username is missing"),
            AppError::AuthError(AuthError::MissingPassword) => (401, "Password is missing"),
            AppError::AuthError(AuthError::InvalidToken) => (401, "Invalid token"),
            AppError::AuthError(AuthError::TokenMissing) => (401, "Missing token"),
            AppError::AuthError(AuthError::MissingCookie) => (401, "Missing cookie"),
            AppError::AuthError(AuthError::InvalidCookie) => (401, "Invalid cookie"),
            _ => (500, "Unknown server error"),
        }
    }
}

} // verus!
