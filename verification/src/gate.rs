//! The authentication gate: the transitions of the session state machine.
//!
//! Login takes an anonymous caller to authenticated: both submission fields
//! must be non-empty (checked username first), the user must exist, and the
//! password must verify against the stored hash; then a token pair is issued.
//! A protected request is admitted by the bearer path and a fresh user
//! lookup. The refresh exchange runs the cookie path, looks the subject up
//! again, and re-issues the pair; an invalid or expired refresh token is
//! terminal for the session and the caller must log in again.

use vstd::prelude::*;

use crate::auth::AuthSubmission;
use crate::credentials::{argon2_matches, Encryption, EncryptionService};
use crate::errors::{AppError, AuthError, EncryptionError, UserRepoError};
use crate::extract::{spec_extract_access, spec_extract_refresh, spec_header};
use crate::jwt::{
    access_decode_spec, decoded_payload, encoded_token, generate_token, refresh_decode_spec,
    spec_access_expiry,
    spec_refresh_expiry, AccessClaimsView, AccessTokenClaims, IssuedAuth, Keys, RefreshClaimsView,
    RefreshTokenClaims, FIVE_MIN_IN_SECS, ONE_WEEK_IN_SECS,
};
use crate::store::{
    spec_find, spec_find_by_ident, spec_username_taken, CreateUser, User, UserRecord, UserStore,
};

verus! {

/// The decision chain of the login transition: empty username, empty
/// password, unknown user and wrong password are rejected in that order;
/// otherwise the matched user is the one a pair is issued for.
pub open spec fn spec_login_check(s: Seq<UserRecord>, q: Seq<char>, pw: Seq<char>) -> Result<
    UserRecord,
    AuthError,
> {
    if q.len() == 0 {
        Err(AuthError::MissingUserName)
    } else if pw.len() == 0 {
        Err(AuthError::MissingPassword)
    } else {
        match spec_find_by_ident(s, q) {
            None => Err(AuthError::UserNotFound),
            Some(u) => if argon2_matches(pw, u.password) {
                Ok(u)
            } else {
                Err(AuthError::IncorrectPassword)
            },
        }
    }
}

/// What an issued pair for subject `uid` at time `now` carries: the subject
/// in the body and in both tokens, the access expiry at `now + 300`, the
/// refresh expiry at `now + 604600`, the two claim shapes that keep the
/// token kinds apart — and the token strings themselves, pinned as functions
/// of subject, instant and key.
pub open spec fn spec_issued_for(ia: IssuedAuth, uid: int, key: Seq<u8>, now: i64) -> bool {
    &&& ia.response.user_id == uid
    &&& ia.response.token@ == encoded_token(
        uid as i64,
        spec_access_expiry(now) as i64,
        Some(0usize),
        key,
    )
    &&& ia.refresh_token@ == encoded_token(
        uid as i64,
        spec_refresh_expiry(now) as i64,
        Option::<usize>::None,
        key,
    )
    &&& decoded_payload(ia.response.token@, key) == Some(
        (uid as i64, spec_access_expiry(now) as i64, Some(0usize)),
    )
    &&& decoded_payload(ia.refresh_token@, key) == Some(
        (uid as i64, spec_refresh_expiry(now) as i64, Option::<usize>::None),
    )
}

/// Law: issuance is deterministic. Two pairs issued for the same subject, at
/// the same instant, under the same key, carry identical access-token
/// strings and identical refresh-token strings.
pub proof fn lemma_issuance_deterministic(
    ia1: IssuedAuth,
    ia2: IssuedAuth,
    uid: int,
    key: Seq<u8>,
    now: i64,
)
    requires
        spec_issued_for(ia1, uid, key, now),
        spec_issued_for(ia2, uid, key, now),
    ensures
        ia1.response.token@ == ia2.response.token@,
        ia1.refresh_token@ == ia2.refresh_token@,
{
}

/// The login transition: anonymous to authenticated.
pub fn authorize(
    store: &UserStore,
    auth_info: &AuthSubmission,
    jwt_keys: &Keys,
    now: i64,
) -> (r: Result<IssuedAuth, AppError>)
    requires
        now <= i64::MAX - ONE_WEEK_IN_SECS,
    ensures
        spec_login_check(store@, auth_info.user_or_email@, auth_info.password@) matches Err(e)
            ==> r == Err::<IssuedAuth, AppError>(AppError::AuthError(e)),
        spec_login_check(store@, auth_info.user_or_email@, auth_info.password@) matches Ok(u) ==> r
            matches Ok(ia) && spec_issued_for(ia, u.id, jwt_keys@, now),
{
    if auth_info.user_or_email.as_str().is_empty() {
        return Err(AppError::AuthError(AuthError::MissingUserName));
    }
    if auth_info.password.as_str().is_empty() {
        return Err(AppError::AuthError(AuthError::MissingPassword));
    }
    let user = match store.find_by_username_or_email(auth_info.user_or_email.as_str()) {
        Ok(u) => u,
        Err(_) => {
            return Err(AppError::AuthError(AuthError::UserNotFound));
        },
    };
    let svc = EncryptionService::new();
    match svc.validate(auth_info.password.as_str(), user.password.as_str()) {
        Ok(_) => {},
        Err(_) => {
            return Err(AppError::AuthError(AuthError::IncorrectPassword));
        },
    }
    match generate_token(&user, jwt_keys, now) {
        Ok(ia) => Ok(ia),
        Err(e) => Err(AppError::AuthError(e)),
    }
}

/// Admission to a protected route: the bearer path yields validated claims,
/// and the subject is looked up again to re-confirm it still exists. A
/// subject that no longer exists is treated as unauthorized, not as absent,
/// so that a deleted account is indistinguishable from a bad token.
pub fn auth_middleware(
    store: &UserStore,
    auth_header: Option<&str>,
    jwt_keys: &Keys,
    now: i64,
) -> (r: Result<User, AppError>)
    ensures
        spec_extract_access(spec_header(auth_header), jwt_keys@, now) matches Err(e) ==> r
            == Err::<User, AppError>(AppError::AuthError(e)),
        spec_extract_access(spec_header(auth_header), jwt_keys@, now) matches Ok(c) ==> match
            spec_find(store@, c.uid) {
            None => r == Err::<User, AppError>(AppError::AuthError(AuthError::UserNotFound)),
            Some(u) => r matches Ok(cu) && cu@ == u,
        },
{
    let claims = match AccessTokenClaims::from_request_parts(auth_header, jwt_keys, now) {
        Ok(c) => c,
        Err(e) => {
            return Err(e);
        },
    };
    match store.find(claims.uid) {
        Ok(u) => Ok(u),
        Err(_) => Err(AppError::AuthError(AuthError::UserNotFound)),
    }
}

/// The refresh exchange: a still-valid refresh token, presented through the
/// cookie path, buys a fresh pair for its subject — provided the subject
/// still exists.
pub fn refresh_token(
    store: &UserStore,
    cookie_header: Option<&str>,
    jwt_keys: &Keys,
    now: i64,
) -> (r: Result<IssuedAuth, AppError>)
    requires
        now <= i64::MAX - ONE_WEEK_IN_SECS,
    ensures
        spec_extract_refresh(spec_header(cookie_header), jwt_keys@, now) matches Err(e) ==> r
            == Err::<IssuedAuth, AppError>(AppError::AuthError(e)),
        spec_extract_refresh(spec_header(cookie_header), jwt_keys@, now) matches Ok(c) ==> match
            spec_find(store@, c.uid) {
            None => r == Err::<IssuedAuth, AppError>(AppError::AuthError(AuthError::UserNotFound)),
            Some(u) => r matches Ok(ia) && spec_issued_for(ia, u.id, jwt_keys@, now),
        },
{
    let claims = match RefreshTokenClaims::from_request_parts(cookie_header, jwt_keys, now) {
        Ok(c) => c,
        Err(e) => {
            return Err(e);
        },
    };
    let user = match store.find(claims.uid) {
        Ok(u) => u,
        Err(_) => {
            return Err(AppError::AuthError(AuthError::UserNotFound));
        },
    };
    match generate_token(&user, jwt_keys, now) {
        Ok(ia) => Ok(ia),
        Err(e) => Err(AppError::AuthError(e)),
    }
}

/// Law: the clock alone drives a session through its states. For a pair
/// issued at time `t`, both tokens are accepted while the access window is
/// open; once `t + 300` has struck, only the refresh path still accepts —
/// the session is access-expired and can be re-authenticated by exchange;
/// once `t + 604600` has struck as well, both paths reject and the session is
/// refresh-expired, terminal until credentials are submitted again.
pub proof fn lemma_session_windows(ia: IssuedAuth, uid: int, key: Seq<u8>, t: i64, now: i64)
    requires
        spec_issued_for(ia, uid, key, t),
        i32::MIN <= uid <= i32::MAX,
        t <= i64::MAX - ONE_WEEK_IN_SECS,
    ensures
        now < t + FIVE_MIN_IN_SECS ==> access_decode_spec(ia.response.token@, key, now) is Ok,
        now >= t + FIVE_MIN_IN_SECS ==> access_decode_spec(ia.response.token@, key, now) == Err::<
            AccessClaimsView,
            AuthError,
        >(AuthError::InvalidToken),
        now < t + ONE_WEEK_IN_SECS ==> refresh_decode_spec(ia.refresh_token@, key, now) is Ok,
        now >= t + ONE_WEEK_IN_SECS ==> refresh_decode_spec(ia.refresh_token@, key, now) == Err::<
            RefreshClaimsView,
            AuthError,
        >(AuthError::InvalidToken),
{
}

/// Account creation: hash the password, then insert the user. The credential
/// field of the stored record is a hash that verifies against the submitted
/// password; the plaintext itself is never stored.
pub fn users_create(store: &mut UserStore, params: CreateUser) -> (r: Result<User, AppError>)
    requires
        old(store).wf(),
        old(store)@.len() < i32::MAX as int,
    ensures
        final(store).wf(),
        r matches Ok(u) ==> {
            &&& !spec_username_taken(old(store)@, params.username@)
            &&& u@.id == old(store)@.len() as int + 1
            &&& u@.username == params.username@
            &&& u@.email == params.email@
            &&& argon2_matches(params.password@, u@.password)
            &&& final(store)@ == old(store)@.push(u@)
        },
        r matches Err(e) ==> {
            &&& final(store)@ == old(store)@
            &&& (e == AppError::EncryptionError(EncryptionError::HashError) || e
                == AppError::UserRepoError(UserRepoError::InvalidUserName))
            &&& e == AppError::UserRepoError(UserRepoError::InvalidUserName)
                ==> spec_username_taken(old(store)@, params.username@)
        },
{
    let svc = EncryptionService::new();
    let pw_hash = match svc.hash(params.password.as_str()) {
        Ok(h) => h,
        Err(e) => {
            return Err(AppError::EncryptionError(e));
        },
    };
    match store.create(
        CreateUser { username: params.username, email: params.email, password: pw_hash },
    ) {
        Ok(u) => Ok(u),
        Err(e) => Err(AppError::UserRepoError(e)),
    }
}

} // verus!
