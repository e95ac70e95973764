use auth_core::auth::AuthSubmission;
use auth_core::errors::{AppError, AuthError, UserRepoError};
use auth_core::gate::{auth_middleware, authorize, refresh_token, users_create};
use auth_core::jwt::{decode_access, encode_refresh, Keys, RefreshTokenClaims};
use auth_core::store::{CreateUser, UserStore};

fn submission(user_or_email: &str, password: &str) -> AuthSubmission {
    AuthSubmission {
        user_or_email: String::from(user_or_email),
        password: String::from(password),
    }
}

fn store_with_bob(keys_secret: &[u8]) -> (UserStore, Keys) {
    let mut store = UserStore::new();
    let created = users_create(
        &mut store,
        CreateUser {
            username: String::from("bob"),
            email: String::from("bob@x.com"),
            password: String::from("secret"),
        },
    )
    .unwrap();
    assert_eq!(created.id, 1);
    (store, Keys::new(keys_secret))
}

#[test]
fn login_with_empty_fields_is_rejected_in_order() {
    let (store, keys) = store_with_bob(b"k");

    let r = authorize(&store, &submission("", "x"), &keys, 1000);
    assert_eq!(r.err().unwrap(), AppError::AuthError(AuthError::MissingUserName));

    let r = authorize(&store, &submission("bob", ""), &keys, 1000);
    assert_eq!(r.err().unwrap(), AppError::AuthError(AuthError::MissingPassword));

    // An empty username wins over an empty password.
    let r = authorize(&store, &submission("", ""), &keys, 1000);
    assert_eq!(r.err().unwrap(), AppError::AuthError(AuthError::MissingUserName));
}

#[test]
fn login_succeeds_with_username_or_email_and_fails_on_wrong_password() {
    let (store, keys) = store_with_bob(b"k");
    let now: i64 = 1000;

    let issued = authorize(&store, &submission("bob", "secret"), &keys, now).unwrap();
    assert_eq!(issued.response.user_id, 1);
    let access = decode_access(&issued.response.token, &keys, now).unwrap();
    assert_eq!(access.uid, 1);
    assert!(issued.refresh_cookie().starts_with("refresh_token="));

    let by_email = authorize(&store, &submission("bob@x.com", "secret"), &keys, now).unwrap();
    assert_eq!(by_email.response.user_id, 1);

    let r = authorize(&store, &submission("bob", "wrong"), &keys, now);
    assert_eq!(r.err().unwrap(), AppError::AuthError(AuthError::IncorrectPassword));

    let r = authorize(&store, &submission("nobody", "secret"), &keys, now);
    assert_eq!(r.err().unwrap(), AppError::AuthError(AuthError::UserNotFound));
}

#[test]
fn duplicate_username_is_rejected() {
    let (mut store, _keys) = store_with_bob(b"k");

    let r = users_create(
        &mut store,
        CreateUser {
            username: String::from("bob"),
            email: String::from("second-bob@x.com"),
            password: String::from("pw"),
        },
    );
    assert_eq!(r.err().unwrap(), AppError::UserRepoError(UserRepoError::InvalidUserName));
}

#[test]
fn created_users_get_sequential_ids_and_are_found() {
    let (mut store, _keys) = store_with_bob(b"k");

    let alice = users_create(
        &mut store,
        CreateUser {
            username: String::from("alice"),
            email: String::from("alice@x.com"),
            password: String::from("pw"),
        },
    )
    .unwrap();
    assert_eq!(alice.id, 2);

    assert_eq!(store.find(2).unwrap().username, "alice");
    assert!(matches!(store.find(3), Err(UserRepoError::NotFound)));
    assert!(matches!(store.find(0), Err(UserRepoError::NotFound)));

    // The credential field never stores the plaintext.
    assert_ne!(store.find(2).unwrap().password, "pw");
}

#[test]
fn protected_route_without_or_with_bad_bearer_header() {
    let (store, keys) = store_with_bob(b"k");
    let now: i64 = 1000;

    let r = auth_middleware(&store, None, &keys, now);
    assert_eq!(r.err().unwrap(), AppError::AuthError(AuthError::TokenMissing));

    let r = auth_middleware(&store, Some("Token abc"), &keys, now);
    assert_eq!(r.err().unwrap(), AppError::AuthError(AuthError::TokenMissing));

    let r = auth_middleware(&store, Some("Bearer not.a.token"), &keys, now);
    assert_eq!(r.err().unwrap(), AppError::AuthError(AuthError::InvalidToken));
}

#[test]
fn protected_route_with_valid_then_expired_access_token() {
    let (store, keys) = store_with_bob(b"k");
    let now: i64 = 1000;

    let issued = authorize(&store, &submission("bob", "secret"), &keys, now).unwrap();
    let header = format!("Bearer {}", issued.response.token);

    let user = auth_middleware(&store, Some(&header), &keys, now + 10).unwrap();
    assert_eq!(user.id, 1);
    assert_eq!(user.username, "bob");

    // Five minutes later the access token has expired.
    let r = auth_middleware(&store, Some(&header), &keys, now + 300);
    assert_eq!(r.err().unwrap(), AppError::AuthError(AuthError::InvalidToken));
}

#[test]
fn protected_route_for_a_vanished_subject_is_unauthorized() {
    let (store, keys) = store_with_bob(b"k");
    let other_store = UserStore::new();
    let now: i64 = 1000;

    let issued = authorize(&store, &submission("bob", "secret"), &keys, now).unwrap();
    let header = format!("Bearer {}", issued.response.token);

    let r = auth_middleware(&other_store, Some(&header), &keys, now + 10);
    assert_eq!(r.err().unwrap(), AppError::AuthError(AuthError::UserNotFound));
}

#[test]
fn refresh_without_cookie_or_with_bad_cookie_header() {
    let (store, keys) = store_with_bob(b"k");
    let now: i64 = 1000;

    let r = refresh_token(&store, None, &keys, now);
    assert_eq!(r.err().unwrap(), AppError::AuthError(AuthError::MissingCookie));

    let r = refresh_token(&store, Some("garbage"), &keys, now);
    assert_eq!(r.err().unwrap(), AppError::AuthError(AuthError::InvalidCookie));

    let r = refresh_token(&store, Some("a=1; b=2"), &keys, now);
    assert_eq!(r.err().unwrap(), AppError::AuthError(AuthError::MissingCookie));
}

#[test]
fn refresh_with_valid_cookie_reissues_a_pair() {
    let (store, keys) = store_with_bob(b"k");
    let now: i64 = 1000;

    let issued = authorize(&store, &submission("bob", "secret"), &keys, now).unwrap();
    let cookie_header = format!("a=1; refresh_token={}", issued.refresh_token);

    // Well after the access window, the refresh token still buys a new pair.
    let later: i64 = now + 10_000;
    let renewed = refresh_token(&store, Some(&cookie_header), &keys, later).unwrap();
    assert_eq!(renewed.response.user_id, 1);
    let access = decode_access(&renewed.response.token, &keys, later).unwrap();
    assert_eq!(access.exp, later + 300);
}

#[test]
fn refresh_with_an_access_token_in_the_cookie_is_rejected() {
    let (store, keys) = store_with_bob(b"k");
    let now: i64 = 1000;

    let issued = authorize(&store, &submission("bob", "secret"), &keys, now).unwrap();
    let cookie_header = format!("refresh_token={}", issued.response.token);

    let r = refresh_token(&store, Some(&cookie_header), &keys, now);
    assert_eq!(r.err().unwrap(), AppError::AuthError(AuthError::InvalidToken));
}

#[test]
fn refresh_with_an_expired_refresh_token_is_rejected() {
    let (store, keys) = store_with_bob(b"k");
    let now: i64 = 1000;

    let issued = authorize(&store, &submission("bob", "secret"), &keys, now).unwrap();
    let cookie_header = format!("refresh_token={}", issued.refresh_token);

    let r = refresh_token(&store, Some(&cookie_header), &keys, now + 604_600);
    assert_eq!(r.err().unwrap(), AppError::AuthError(AuthError::InvalidToken));
}

#[test]
fn refresh_for_a_vanished_subject_fails_as_user_not_found() {
    let store = UserStore::new();
    let keys = Keys::new(b"k");
    let now: i64 = 1000;

    let token = encode_refresh(&RefreshTokenClaims { uid: 99, exp: now + 100 }, &keys).unwrap();
    let cookie_header = format!("refresh_token={}", token);

    let r = refresh_token(&store, Some(&cookie_header), &keys, now);
    assert_eq!(r.err().unwrap(), AppError::AuthError(AuthError::UserNotFound));
}

#[test]
fn failures_map_to_one_status_and_message_each() {
    let cases = [
        (AppError::UserRepoError(UserRepoError::NotFound), 404, "User not found"),
        (AppError::UserRepoError(UserRepoError::InvalidUserName), 422, "Invalid username"),
        (AppError::AuthError(AuthError::IncorrectPassword), 401, "Invalid password"),
        (AppError::AuthError(AuthError::UserNotFound), 401, "User not found"),
        (AppError::AuthError(AuthError::MissingUserName), 401, "Username is missing"),
        (AppError::AuthError(AuthError::MissingPassword), 401, "Password is missing"),
        (AppError::AuthError(AuthError::InvalidToken), 401, "Invalid token"),
        (AppError::AuthError(AuthError::TokenMissing), 401, "Missing token"),
        (AppError::AuthError(AuthError::MissingCookie), 401, "Missing cookie"),
        (AppError::AuthError(AuthError::InvalidCookie), 401, "Invalid cookie"),
        (AppError::AuthError(AuthError::TokenCreation), 500, "Unknown server error"),
    ];
    for (err, status, message) in cases {
        let (s, m) = err.status_and_message();
        assert_eq!(s, status);
        assert_eq!(m, message);
    }
}
