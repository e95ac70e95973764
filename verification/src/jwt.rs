//! Signed, self-contained claim sets: the access and refresh token formats,
//! their symmetric encode/decode, and token-pair issuance.
//!
//! A token is a compact three-part signed structure whose claims are
//! `{uid, exp}` for refresh tokens and `{uid, exp, roles}` for access tokens.
//! The signing primitive is trusted (see `decoded_payload`); everything that
//! decides — the expiry check, the claim-shape check that keeps the two token
//! kinds apart, and the windows of the issued pair — is verified here.

use vstd::prelude::*;

use crate::auth::AuthResponse;
use crate::errors::AuthError;
use crate::store::User;
use crate::text::{int_to_string, spec_int_str};
use vstd::string::StringExecFns;

verus! {

/// Access-token window: five minutes.
pub const FIVE_MIN_IN_SECS: i64 = 300;

/// Refresh-token window, as configured: one week plus six hundred seconds.
pub const ONE_WEEK_IN_SECS: i64 = 604600;

/// A role granted to a subject. Reserved extension point: the sequence of
/// roles in an access token is currently always empty.
#[derive(Debug, Clone, Copy, PartialEq, Eq, Structural)]
pub struct Role {
}

/// The claims of a long-lived refresh token.
#[derive(Debug)]
pub struct RefreshTokenClaims {
    pub uid: i32,
    pub exp: i64,
}

/// The claims of a short-lived access token.
#[derive(Debug)]
pub struct AccessTokenClaims {
    pub uid: i32,
    pub exp: i64,
    pub roles: Vec<Role>,
}

/// The one-line description of a claim set: its subject and its expiry.
pub open spec fn spec_claims_text(uid: int, exp: int) -> Seq<char> {
    "User: "@ + spec_int_str(uid) + "\nExp: "@ + spec_int_str(exp)
}

impl RefreshTokenClaims {
    /// Describe the claims as text.
    pub fn describe(&self) -> (s: String)
        ensures
            s@ == spec_claims_text(self.uid as int, self.exp as int),
    {
        let mut s = String::from_str("User: ");
        s.append(int_to_string(self.uid as i64).as_str());
        s.append("\nExp: ");
        s.append(int_to_string(self.exp).as_str());
        s
    }
}

impl AccessTokenClaims {
    /// Describe the claims as text.
    pub fn describe(&self) -> (s: String)
        ensures
            s@ == spec_claims_text(self.uid as int, self.exp as int),
    {
        let mut s = String::from_str("User: ");
        s.append(int_to_string(self.uid as i64).as_str());
        s.append("\nExp: ");
        s.append(int_to_string(self.exp).as_str());
        s
    }
}

/// The mathematical value of a refresh claim set.
pub struct RefreshClaimsView {
    pub uid: int,
    pub exp: int,
}

/// The mathematical value of an access claim set.
pub struct AccessClaimsView {
    pub uid: int,
    pub exp: int,
    pub roles: Seq<Role>,
}

impl View for RefreshTokenClaims {
    type V = RefreshClaimsView;

    open spec fn view(&self) -> RefreshClaimsView {
        RefreshClaimsView { uid: self.uid as int, exp: self.exp as int }
    }
}

impl View for AccessTokenClaims {
    type V = AccessClaimsView;

    open spec fn view(&self) -> AccessClaimsView {
        AccessClaimsView { uid: self.uid as int, exp: self.exp as int, roles: self.roles@ }
    }
}

/// The symmetric signing key, loaded once at startup and shared read-only by
/// encoding and decoding and by both claim shapes.
pub struct Keys {
    secret: Vec<u8>,
}

impl Clone for Keys {
    fn clone(&self) -> (r: Self)
        ensures
            r@ == self@,
    {
        Keys { secret: vstd::slice::slice_to_vec(self.secret.as_slice()) }
    }
}

impl View for Keys {
    type V = Seq<u8>;

    closed spec fn view(&self) -> Seq<u8> {
        self.secret@
    }
}

impl Keys {
    pub fn new(secret: &[u8]) -> (k: Self)
        ensures
            k@ == secret@,
    {
        Keys { secret: vstd::slice::slice_to_vec(secret) }
    }
}

/// What verifying and reading a token yields, as a function of the token text
/// and the key alone: `None` when the token is structurally malformed or its
/// signature does not verify against the key; otherwise the `uid` claim, the
/// `exp` claim, and the length of the `roles` claim where one is present.
pub uninterp spec fn decoded_payload(token: Seq<char>, key: Seq<u8>) -> Option<
    (i64, i64, Option<usize>),
>;

/// The token text that signing a claim set under a key yields, as a function
/// of the claims and the key alone: HS256 signing is deterministic, so the
/// same claims under the same key always give the same token string.
pub uninterp spec fn encoded_token(uid: i64, exp: i64, roles: Option<usize>, key: Seq<u8>) -> Seq<
    char,
>;

/// Relies on jsonwebtoken's `encode` with the default header (HS256): it
/// serializes the claims given, signs them with the key, and the resulting
/// token, verified and read back with the same key, yields exactly those
/// claims. Both are functions of their text arguments alone. With this
/// header, a secret key and string-keyed map claims the call has no failure
/// path — the key family always matches, HMAC accepts any key length, and
/// serializing such a map cannot fail — so it always returns a token.
#[verifier::external_body]
fn jwt_encode(uid: i32, exp: i64, roles: Option<usize>, key: &[u8]) -> (r: Result<String, ()>)
    ensures
        r is Ok,
        r matches Ok(t) ==> t@ == encoded_token(uid as i64, exp, roles, key@),
        r matches Ok(t) ==> decoded_payload(t@, key@) == Some((uid as i64, exp, roles)),
{
    let mut claims = serde_json::Map::new();
    claims.insert("uid".to_string(), serde_json::Value::from(uid));
    claims.insert("exp".to_string(), serde_json::Value::from(exp));
    if let Some(n) = roles {
        claims.insert(
            "roles".to_string(),
            serde_json::Value::Array(vec![serde_json::Value::Object(serde_json::Map::new()); n]),
        );
    }
    let key = jsonwebtoken::EncodingKey::from_secret(key);
    match jsonwebtoken::encode(&jsonwebtoken::Header::default(), &claims, &key) {
        Ok(t) => Ok(t),
        Err(_) => Err(()),
    }
}

/// Relies on jsonwebtoken's `decode` with HS256: it checks the token's
/// three-part structure and its signature against the key and hands back the
/// claims. Expiry checking is disabled here; the verified callers do it, so
/// that no leeway is applied and the check is exact.
#[verifier::external_body]
fn jwt_decode(token: &str, key: &[u8]) -> (r: Option<(i64, i64, Option<usize>)>)
    ensures
        r == decoded_payload(token@, key@),
{
    let mut v = jsonwebtoken::Validation::default();
    v.validate_exp = false;
    v.required_spec_claims = std::collections::HashSet::new();
    let k = jsonwebtoken::DecodingKey::from_secret(key);
    let c = jsonwebtoken::decode::<serde_json::Map<String, serde_json::Value>>(token, &k, &v).ok()?.claims;
    let uid = c.get("uid")?.as_i64()?;
    let exp = c.get("exp")?.as_i64()?;
    let roles = match c.get("roles") {
        Some(r) => Some(r.as_array()?.len()),
        None => None,
    };
    Some((uid, exp, roles))
}

/// What decoding an access token at time `now` returns. All failure causes —
/// bad signature, malformed token, a claim shape that is not an access
/// token's, or an expiry at or before `now` — collapse to `InvalidToken`.
pub open spec fn access_decode_spec(token: Seq<char>, key: Seq<u8>, now: i64) -> Result<
    AccessClaimsView,
    AuthError,
> {
    match decoded_payload(token, key) {
        Some((uid, exp, Some(n))) => if i32::MIN <= uid <= i32::MAX && now < exp {
            Ok(
                AccessClaimsView {
                    uid: uid as int,
                    exp: exp as int,
                    roles: Seq::new(n as nat, |i: int| Role {  }),
                },
            )
        } else {
            Err(AuthError::InvalidToken)
        },
        _ => Err(AuthError::InvalidToken),
    }
}

/// What decoding a refresh token at time `now` returns. A payload that
/// carries a `roles` claim has the access shape and is rejected as the wrong
/// token kind, so a well-formed access token can never pass for a refresh
/// token.
pub open spec fn refresh_decode_spec(token: Seq<char>, key: Seq<u8>, now: i64) -> Result<
    RefreshClaimsView,
    AuthError,
> {
    match decoded_payload(token, key) {
        Some((uid, exp, Option::<usize>::None)) => if i32::MIN <= uid <= i32::MAX && now < exp {
            Ok(RefreshClaimsView { uid: uid as int, exp: exp as int })
        } else {
            Err(AuthError::InvalidToken)
        },
        _ => Err(AuthError::InvalidToken),
    }
}

fn make_roles(n: usize) -> (v: Vec<Role>)
    ensures
        v@ == Seq::new(n as nat, |i: int| Role {  }),
{
    let mut v: Vec<Role> = Vec::new();
    let mut i: usize = 0;
    while i < n
        invariant
            i <= n,
            v@ =~= Seq::new(i as nat, |j: int| Role {  }),
        decreases n - i,
    {
        v.push(Role {  });
        i = i + 1;
    }
    proof {
        assert(v@ =~= Seq::new(n as nat, |i: int| Role {  }));
    }
    v
}

/// Encode an access claim set under the key. Always succeeds, and is
/// deterministic given identical claims and key: the result is exactly the
/// token text of those claims.
pub fn encode_access(claims: &AccessTokenClaims, jwt_keys: &Keys) -> (r: Result<String, AuthError>)
    ensures
        r is Ok,
        r matches Ok(t) ==> t@ == encoded_token(
            claims.uid as i64,
            claims.exp,
            Some(claims.roles@.len() as usize),
            jwt_keys@,
        ),
        r matches Ok(t) ==> decoded_payload(t@, jwt_keys@) == Some(
            (claims.uid as i64, claims.exp, Some(claims.roles@.len() as usize)),
        ),
{
    match jwt_encode(claims.uid, claims.exp, Some(claims.roles.len()), jwt_keys.secret.as_slice()) {
        Ok(t) => Ok(t),
        Err(_) => Err(AuthError::TokenCreation),
    }
}

/// Encode a refresh claim set under the key. Always succeeds, and is
/// deterministic given identical claims and key.
pub fn encode_refresh(claims: &RefreshTokenClaims, jwt_keys: &Keys) -> (r: Result<
    String,
    AuthError,
>)
    ensures
        r is Ok,
        r matches Ok(t) ==> t@ == encoded_token(
            claims.uid as i64,
            claims.exp,
            Option::<usize>::None,
            jwt_keys@,
        ),
        r matches Ok(t) ==> decoded_payload(t@, jwt_keys@) == Some(
            (claims.uid as i64, claims.exp, Option::<usize>::None),
        ),
{
    match jwt_encode(claims.uid, claims.exp, None, jwt_keys.secret.as_slice()) {
        Ok(t) => Ok(t),
        Err(_) => Err(AuthError::TokenCreation),
    }
}

/// Decode and validate an access token at time `now`.
pub fn decode_access(token: &str, jwt_keys: &Keys, now: i64) -> (r: Result<
    AccessTokenClaims,
    AuthError,
>)
    ensures
        r matches Ok(c) ==> access_decode_spec(token@, jwt_keys@, now) == Ok::<
            AccessClaimsView,
            AuthError,
        >(c@),
        r matches Err(e) ==> access_decode_spec(token@, jwt_keys@, now) == Err::<
            AccessClaimsView,
            AuthError,
        >(e),
{
    match jwt_decode(token, jwt_keys.secret.as_slice()) {
        Some((uid, exp, Some(n))) => {
            if i32::MIN as i64 <= uid && uid <= i32::MAX as i64 && now < exp {
                Ok(AccessTokenClaims { uid: uid as i32, exp, roles: make_roles(n) })
            } else {
                Err(AuthError::InvalidToken)
            }
        },
        _ => Err(AuthError::InvalidToken),
    }
}

/// Decode and validate a refresh token at time `now`.
pub fn decode_refresh(token: &str, jwt_keys: &Keys, now: i64) -> (r: Result<
    RefreshTokenClaims,
    AuthError,
>)
    ensures
        r matches Ok(c) ==> refresh_decode_spec(token@, jwt_keys@, now) == Ok::<
            RefreshClaimsView,
            AuthError,
        >(c@),
        r matches Err(e) ==> refresh_decode_spec(token@, jwt_keys@, now) == Err::<
            RefreshClaimsView,
            AuthError,
        >(e),
{
    match jwt_decode(token, jwt_keys.secret.as_slice()) {
        Some((uid, exp, None)) => {
            if i32::MIN as i64 <= uid && uid <= i32::MAX as i64 && now < exp {
                Ok(RefreshTokenClaims { uid: uid as i32, exp })
            } else {
                Err(AuthError::InvalidToken)
            }
        },
        _ => Err(AuthError::InvalidToken),
    }
}

/// The expiry an access token issued at `now` carries.
pub open spec fn spec_access_expiry(now: i64) -> int {
    now + FIVE_MIN_IN_SECS
}

/// The expiry a refresh token issued at `now` carries.
pub open spec fn spec_refresh_expiry(now: i64) -> int {
    now + ONE_WEEK_IN_SECS
}

/// The `Set-Cookie` value that delivers a refresh token: secure (sent over
/// HTTPS only) and http-only (inaccessible to scripts).
pub open spec fn spec_refresh_cookie(t: Seq<char>) -> Seq<char> {
    "refresh_token="@ + t + "; HttpOnly; Secure"@
}

/// A freshly issued token pair: the body payload carrying the access token,
/// and the refresh token destined for the `refresh_token` cookie.
pub struct IssuedAuth {
    pub response: AuthResponse,
    pub refresh_token: String,
}

impl IssuedAuth {
    /// The cookie that delivers the refresh token. The access token is never
    /// placed in a cookie; the refresh token is never placed in the body.
    pub fn refresh_cookie(&self) -> (c: String)
        ensures
            c@ == spec_refresh_cookie(self.refresh_token@),
    {
        let mut c = String::from_str("refresh_token=");
        c.append(self.refresh_token.as_str());
        c.append("; HttpOnly; Secure");
        c
    }
}

/// Issue the token pair for a user at time `now`: an access token expiring
/// at `now + 300` and a refresh token expiring at `now + 604600`, both with
/// the user's id as subject. Issuance always succeeds — the signing
/// primitive has no failure path — and is deterministic: the token strings
/// are functions of the subject, the instant and the key.
pub fn generate_token(user: &User, jwt_keys: &Keys, now: i64) -> (r: Result<IssuedAuth, AuthError>)
    requires
        now <= i64::MAX - ONE_WEEK_IN_SECS,
    ensures
        r is Ok,
        r matches Ok(ia) ==> {
            &&& ia.response.user_id == user.id
            &&& ia.response.token@ == encoded_token(
                user.id as i64,
                spec_access_expiry(now) as i64,
                Some(0usize),
                jwt_keys@,
            )
            &&& ia.refresh_token@ == encoded_token(
                user.id as i64,
                spec_refresh_expiry(now) as i64,
                Option::<usize>::None,
                jwt_keys@,
            )
            &&& decoded_payload(ia.response.token@, jwt_keys@) == Some(
                (user.id as i64, spec_access_expiry(now) as i64, Some(0usize)),
            )
            &&& decoded_payload(ia.refresh_token@, jwt_keys@) == Some(
                (user.id as i64, spec_refresh_expiry(now) as i64, Option::<usize>::None),
            )
        },
{
    let claims = AccessTokenClaims { uid: user.id, exp: now + FIVE_MIN_IN_SECS, roles: Vec::new() };
    let refresh_claims = RefreshTokenClaims { uid: user.id, exp: now + ONE_WEEK_IN_SECS };
    let jwt = match encode_access(&claims, jwt_keys) {
        Ok(t) => t,
        Err(e) => {
            return Err(e);
        },
    };
    let refresh_token = match encode_refresh(&refresh_claims, jwt_keys) {
        Ok(t) => t,
        Err(e) => {
            return Err(e);
        },
    };
    let body = AuthResponse { user_id: user.id, token: jwt };
    Ok(IssuedAuth { response: body, refresh_token })
}

/// Law: decoding with the same key, at any time before the expiry carried in
/// the token, returns exactly the claims that were encoded.
pub proof fn lemma_access_roundtrip(
    token: Seq<char>,
    key: Seq<u8>,
    uid: i64,
    exp: i64,
    n_roles: usize,
    now: i64,
)
    requires
        decoded_payload(token, key) == Some((uid, exp, Some(n_roles))),
        i32::MIN <= uid <= i32::MAX,
        now < exp,
    ensures
        access_decode_spec(token, key, now) == Ok::<AccessClaimsView, AuthError>(
            AccessClaimsView {
                uid: uid as int,
                exp: exp as int,
                roles: Seq::new(n_roles as nat, |i: int| Role {  }),
            },
        ),
{
}

/// Law: the refresh-token round trip, under the same conditions.
pub proof fn lemma_refresh_roundtrip(token: Seq<char>, key: Seq<u8>, uid: i64, exp: i64, now: i64)
    requires
        decoded_payload(token, key) == Some((uid, exp, Option::<usize>::None)),
        i32::MIN <= uid <= i32::MAX,
        now < exp,
    ensures
        refresh_decode_spec(token, key, now) == Ok::<RefreshClaimsView, AuthError>(
            RefreshClaimsView { uid: uid as int, exp: exp as int },
        ),
{
}

/// Law: a token whose expiry has passed — or strikes exactly now — is
/// rejected with `InvalidToken` by both decode paths, even though its
/// signature verifies.
pub proof fn lemma_expired_token_rejected(token: Seq<char>, key: Seq<u8>, now: i64)
    requires
        decoded_payload(token, key) matches Some(p) && now >= p.1,
    ensures
        access_decode_spec(token, key, now) == Err::<AccessClaimsView, AuthError>(
            AuthError::InvalidToken,
        ),
        refresh_decode_spec(token, key, now) == Err::<RefreshClaimsView, AuthError>(
            AuthError::InvalidToken,
        ),
{
}

/// Law: a token that does not verify under a key — because it is malformed,
/// or because it was signed under a different key and the signature check
/// fails — is rejected with `InvalidToken` by both decode paths.
pub proof fn lemma_unverified_token_rejected(token: Seq<char>, key: Seq<u8>, now: i64)
    requires
        decoded_payload(token, key) is None,
    ensures
        access_decode_spec(token, key, now) == Err::<AccessClaimsView, AuthError>(
            AuthError::InvalidToken,
        ),
        refresh_decode_spec(token, key, now) == Err::<RefreshClaimsView, AuthError>(
            AuthError::InvalidToken,
        ),
{
}

/// Law: a well-formed access token is never accepted where a refresh token is
/// expected: its payload carries a `roles` claim, which the refresh decode
/// path rejects as the wrong token kind.
pub proof fn lemma_access_token_rejected_as_refresh(
    token: Seq<char>,
    key: Seq<u8>,
    uid: i64,
    exp: i64,
    n_roles: usize,
    now: i64,
)
    requires
        decoded_payload(token, key) == Some((uid, exp, Some(n_roles))),
    ensures
        refresh_decode_spec(token, key, now) == Err::<RefreshClaimsView, AuthError>(
            AuthError::InvalidToken,
        ),
{
}

/// Law: a token pair issued at time `now` carries an access expiry of
/// `now + 300` and a refresh expiry of `now + 604600`, and the access token
/// always expires strictly before the refresh token.
pub proof fn lemma_token_pair_expiries(now: i64)
    ensures
        spec_access_expiry(now) == now + FIVE_MIN_IN_SECS,
        spec_refresh_expiry(now) == now + ONE_WEEK_IN_SECS,
        spec_access_expiry(now) < spec_refresh_expiry(now),
{
}

} // verus!
