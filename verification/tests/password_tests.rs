use orrery::password::{encode_password, verify_password, PasswordError};

const KEY: &[u8] = b"password-signing-key";

#[test]
fn a_credential_verifies_against_its_own_password_and_salt() {
    for (pw, salt) in [("hunter2", "salt"), ("", ""), ("p\u{00e4}ssw\u{00f6}rd", "\u{76d0}")] {
        let stored = encode_password(pw, salt, KEY);
        assert_eq!(verify_password(pw, salt, &stored, KEY), Ok(()));
    }
}

#[test]
fn changing_the_password_or_the_salt_is_a_mismatch() {
    let stored = encode_password("hunter2", "salt", KEY);
    assert_eq!(
        verify_password("hunter3", "salt", &stored, KEY),
        Err(PasswordError::Mismatch)
    );
    assert_eq!(
        verify_password("hunter2", "other salt", &stored, KEY),
        Err(PasswordError::Mismatch)
    );
    assert_eq!(
        verify_password("hunter2", "salt", &stored, b"other key"),
        Err(PasswordError::Mismatch)
    );
}

#[test]
fn credentials_carry_the_version_tag() {
    let stored = encode_password("hunter2", "salt", KEY);
    assert!(stored.starts_with("#01#"));
    assert_eq!(stored.len(), 4 + 88);

    // a credential under another version tag never matches
    let retagged = stored.replacen("#01#", "#02#", 1);
    assert_eq!(
        verify_password("hunter2", "salt", &retagged, KEY),
        Err(PasswordError::Mismatch)
    );
}

#[test]
fn stored_credentials_are_pure_functions_of_their_inputs() {
    assert_eq!(
        encode_password("pw", "salt", KEY),
        encode_password("pw", "salt", KEY)
    );
    assert_ne!(
        encode_password("pw", "salt", KEY),
        encode_password("pw", "salt", b"other key")
    );
}
