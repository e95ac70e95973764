use auth_core::jwt::{AccessTokenClaims, RefreshTokenClaims};
use auth_core::text::int_to_string;

#[test]
fn integers_format_in_decimal() {
    assert_eq!(int_to_string(0), "0");
    assert_eq!(int_to_string(7), "7");
    assert_eq!(int_to_string(604600), "604600");
    assert_eq!(int_to_string(-42), "-42");
    assert_eq!(int_to_string(i64::MAX), "9223372036854775807");
    assert_eq!(int_to_string(i64::MIN), "-9223372036854775808");
}

#[test]
fn claims_describe_subject_and_expiry() {
    let access = AccessTokenClaims { uid: 7, exp: 1000, roles: vec![] };
    assert_eq!(access.describe(), "User: 7\nExp: 1000");

    let refresh = RefreshTokenClaims { uid: -3, exp: 604600 };
    assert_eq!(refresh.describe(), "User: -3\nExp: 604600");
}
