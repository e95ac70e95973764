use auth_core::errors::AuthError;
use auth_core::jwt::{
    decode_access, decode_refresh, encode_access, encode_refresh, generate_token,
    AccessTokenClaims, Keys, RefreshTokenClaims, FIVE_MIN_IN_SECS, ONE_WEEK_IN_SECS,
};
use auth_core::store::User;

fn test_user(id: i32) -> User {
    User {
        id,
        username: String::from("bob"),
        email: String::from("bob@x.com"),
        password: String::from("irrelevant"),
    }
}

#[test]
fn access_token_round_trip_before_expiry() {
    let keys = Keys::new(b"test-secret");
    let claims = AccessTokenClaims { uid: 7, exp: 1000, roles: vec![] };

    let token = encode_access(&claims, &keys).unwrap();
    let decoded = decode_access(&token, &keys, 999).unwrap();

    assert_eq!(decoded.uid, 7);
    assert_eq!(decoded.exp, 1000);
    assert_eq!(decoded.roles.len(), 0);
}

#[test]
fn refresh_token_round_trip_before_expiry() {
    let keys = Keys::new(b"test-secret");
    let claims = RefreshTokenClaims { uid: 9, exp: 5000 };

    let token = encode_refresh(&claims, &keys).unwrap();
    let decoded = decode_refresh(&token, &keys, 4999).unwrap();

    assert_eq!(decoded.uid, 9);
    assert_eq!(decoded.exp, 5000);
}

#[test]
fn decode_with_different_key_fails() {
    let keys = Keys::new(b"test-secret");
    let other = Keys::new(b"another-secret");
    let claims = AccessTokenClaims { uid: 7, exp: 1000, roles: vec![] };

    let token = encode_access(&claims, &keys).unwrap();

    assert!(matches!(decode_access(&token, &other, 1), Err(AuthError::InvalidToken)));

    let refresh = RefreshTokenClaims { uid: 7, exp: 1000 };
    let refresh_tok = encode_refresh(&refresh, &keys).unwrap();
    assert!(matches!(decode_refresh(&refresh_tok, &other, 1), Err(AuthError::InvalidToken)));
}

#[test]
fn decode_of_expired_token_fails_despite_correct_signature() {
    let keys = Keys::new(b"test-secret");
    let claims = AccessTokenClaims { uid: 7, exp: 1000, roles: vec![] };

    let token = encode_access(&claims, &keys).unwrap();

    // At the expiry instant and after it the token is rejected.
    assert!(matches!(decode_access(&token, &keys, 1000), Err(AuthError::InvalidToken)));
    assert!(matches!(decode_access(&token, &keys, 5000), Err(AuthError::InvalidToken)));
}

#[test]
fn tampered_token_fails() {
    let keys = Keys::new(b"test-secret");
    let claims = AccessTokenClaims { uid: 7, exp: 1000, roles: vec![] };

    let mut token = encode_access(&claims, &keys).unwrap();
    token.push('x');

    assert!(matches!(decode_access(&token, &keys, 1), Err(AuthError::InvalidToken)));
    assert!(matches!(decode_access("not.a.token", &keys, 1), Err(AuthError::InvalidToken)));
}

#[test]
fn issued_pair_carries_the_configured_windows() {
    let keys = Keys::new(b"test-secret");
    let user = test_user(42);
    let now: i64 = 50_000;

    let issued = generate_token(&user, &keys, now).unwrap();

    assert_eq!(issued.response.user_id, 42);

    let access = decode_access(&issued.response.token, &keys, now).unwrap();
    assert_eq!(access.uid, 42);
    assert_eq!(access.exp, now + 300);
    assert_eq!(access.exp, now + FIVE_MIN_IN_SECS);

    let refresh = decode_refresh(&issued.refresh_token, &keys, now).unwrap();
    assert_eq!(refresh.uid, 42);
    assert_eq!(refresh.exp, now + 604_600);
    assert_eq!(refresh.exp, now + ONE_WEEK_IN_SECS);

    assert!(access.exp < refresh.exp);
}

#[test]
fn issuance_is_deterministic_at_one_instant() {
    let keys = Keys::new(b"test-secret");
    let user = test_user(42);
    let now: i64 = 50_000;

    let first = generate_token(&user, &keys, now).unwrap();
    let second = generate_token(&user, &keys, now).unwrap();

    assert_eq!(first.response.token, second.response.token);
    assert_eq!(first.refresh_token, second.refresh_token);
}

#[test]
fn refresh_cookie_is_secure_and_http_only() {
    let keys = Keys::new(b"test-secret");
    let user = test_user(1);

    let issued = generate_token(&user, &keys, 1000).unwrap();
    let cookie = issued.refresh_cookie();

    assert_eq!(cookie, format!("refresh_token={}; HttpOnly; Secure", issued.refresh_token));
    // The access token is never placed in the cookie.
    assert!(!cookie.contains(&issued.response.token));
}

#[test]
fn access_token_is_rejected_where_a_refresh_token_is_expected() {
    let keys = Keys::new(b"test-secret");
    let claims = AccessTokenClaims { uid: 7, exp: 1000, roles: vec![] };

    let token = encode_access(&claims, &keys).unwrap();

    // Correct signature, wrong claim shape: the roles claim marks it as an
    // access token, and the refresh decode path rejects the kind.
    assert!(matches!(decode_refresh(&token, &keys, 1), Err(AuthError::InvalidToken)));
}

#[test]
fn refresh_token_is_rejected_where_an_access_token_is_expected() {
    let keys = Keys::new(b"test-secret");
    let claims = RefreshTokenClaims { uid: 7, exp: 1000 };

    let token = encode_refresh(&claims, &keys).unwrap();

    assert!(matches!(decode_access(&token, &keys, 1), Err(AuthError::InvalidToken)));
}
