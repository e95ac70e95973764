use auth_core::credentials::{Encryption, EncryptionService};
use auth_core::errors::EncryptionError;

#[test]
fn test_hash_successful() {
    let svc = EncryptionService::new();

    let string_to_hash = "string_to_hash";

    let hashed = svc.hash(string_to_hash).unwrap();

    svc.validate(string_to_hash, &hashed).expect("Hash could not be validated!")
}

#[test]
fn test_hash_not_successful() {
    let svc = EncryptionService::new();

    let string_to_hash = "string_to_hash";

    let hashed = svc.hash(string_to_hash).unwrap();

    let expected = Err(EncryptionError::VerifyError);

    let wrong_string_to_verify = "wrong_string";

    let result = svc.validate(wrong_string_to_verify, &hashed);

    assert_eq!(expected, result);
}

#[test]
fn two_hashes_of_same_plaintext_differ() {
    let svc = EncryptionService::new();

    let first = svc.hash("same_plaintext").unwrap();
    let second = svc.hash("same_plaintext").unwrap();

    assert_ne!(first, second);
    assert!(svc.validate("same_plaintext", &first).is_ok());
    assert!(svc.validate("same_plaintext", &second).is_ok());
}

#[test]
fn empty_plaintext_is_hashable() {
    let svc = EncryptionService::new();

    let hashed = svc.hash("").unwrap();

    assert!(svc.validate("", &hashed).is_ok());
    assert_eq!(svc.validate("x", &hashed), Err(EncryptionError::VerifyError));
}

#[test]
fn malformed_stored_hash_is_rejected_like_a_mismatch() {
    let svc = EncryptionService::new();

    let result = svc.validate("whatever", "not-a-phc-hash-string");

    assert_eq!(result, Err(EncryptionError::VerifyError));
}
