use orrery::mac;
use orrery::security::{generate_web_token, validate_web_token};
use orrery::token::{issue_token, verify_token, FormatError, Token, TokenError};

const KEY: &[u8] = b"token-signing-key";
const T0: i64 = 1_700_000_000_000;

#[test]
fn serialize_round_trips_through_deserialize() {
    let token = Token {
        identifier: "some user".to_string(),
        expiration: "2030-01-01T00:00:00+00:00".to_string(),
        signature: "sig-chars_AZ09==".to_string(),
    };
    let wire = token.serialize();
    let back = Token::deserialize(&wire).unwrap();
    assert_eq!(back.identifier, "some user");
    assert_eq!(back.expiration, "2030-01-01T00:00:00+00:00");
    assert_eq!(back.signature, "sig-chars_AZ09==");
}

#[test]
fn serialize_round_trips_for_unicode_identifiers() {
    let token = Token {
        identifier: "\u{00dc}n\u{00ef}c\u{00f8}d\u{00e9} \u{7528}\u{6237}".to_string(),
        expiration: "exp with spaces.and.dots".to_string(),
        signature: "s".to_string(),
    };
    let back = Token::deserialize(&token.serialize()).unwrap();
    assert_eq!(back.identifier, token.identifier);
    assert_eq!(back.expiration, token.expiration);
    assert_eq!(back.signature, token.signature);
}

#[test]
fn serialize_literal_case() {
    let token = Token {
        identifier: "identifier".to_string(),
        expiration: "expiration".to_string(),
        signature: "signature".to_string(),
    };
    assert_eq!(
        token.serialize(),
        "aWRlbnRpZmllcg==.ZXhwaXJhdGlvbg==.signature"
    );
}

#[test]
fn deserialize_rejects_wrong_segment_counts() {
    assert_eq!(Token::deserialize("a.b"), Err(FormatError::FormatInvalid));
    assert_eq!(Token::deserialize("a.b.c.d"), Err(FormatError::FormatInvalid));
    assert_eq!(Token::deserialize(""), Err(FormatError::FormatInvalid));
    assert_eq!(Token::deserialize("abc"), Err(FormatError::FormatInvalid));
}

#[test]
fn deserialize_rejects_undecodable_segments() {
    assert_eq!(
        Token::deserialize("!!.YQ==.sig"),
        Err(FormatError::IdentifierDecodeFailure)
    );
    assert_eq!(
        Token::deserialize("YQ==.!!.sig"),
        Err(FormatError::ExpirationDecodeFailure)
    );
    // non-canonical encoding in the identifier segment
    assert_eq!(
        Token::deserialize("Zm9=.YQ==.sig"),
        Err(FormatError::IdentifierDecodeFailure)
    );
}

#[test]
fn issue_then_verify_at_explicit_instants() {
    let token = issue_token("user", 20, "salt", KEY, T0);
    assert_eq!(verify_token(&token, "salt", KEY, T0 + 10), Ok(()));
    assert_eq!(
        verify_token(&token, "salt", KEY, T0 + 21),
        Err(TokenError::Expired)
    );
}

#[test]
fn empty_identifier_and_salt_are_allowed() {
    let token = issue_token("", 20, "", KEY, T0);
    assert_eq!(verify_token(&token, "", KEY, T0 + 10), Ok(()));
    let back = Token::deserialize(&token.serialize()).unwrap();
    assert_eq!(back, token);
}

#[test]
fn issued_tokens_survive_the_wire() {
    let token = issue_token("user", 20, "salt", KEY, T0);
    let back = Token::deserialize(&token.serialize()).unwrap();
    assert_eq!(verify_token(&back, "salt", KEY, T0 + 10), Ok(()));
}

#[test]
fn verification_against_another_salt_fails() {
    let token = issue_token("user", 20, "salt", KEY, T0);
    assert_eq!(
        verify_token(&token, "rotated salt", KEY, T0 + 10),
        Err(TokenError::SignatureMismatch)
    );
}

#[test]
fn verification_against_another_key_fails() {
    let token = issue_token("user", 20, "salt", KEY, T0);
    assert_eq!(
        verify_token(&token, "salt", b"another key", T0 + 10),
        Err(TokenError::SignatureMismatch)
    );
}

#[test]
fn flipping_any_signature_character_is_detected() {
    let token = issue_token("user", 20_000, "salt", KEY, T0);
    let wire = token.serialize();
    let signature_start = wire.rfind('.').unwrap() + 1;
    assert!(signature_start < wire.len());
    for position in signature_start..wire.len() {
        let mut chars: Vec<char> = wire.chars().collect();
        chars[position] = if chars[position] == 'A' { 'B' } else { 'A' };
        let tampered: String = chars.into_iter().collect();
        let presented = Token::deserialize(&tampered).unwrap();
        assert_eq!(
            verify_token(&presented, "salt", KEY, T0 + 10),
            Err(TokenError::SignatureMismatch)
        );
    }
}

#[test]
fn a_correctly_signed_uncanonical_expiration_is_rejected() {
    let content = format!(
        "{}.{}",
        orrery::codec::encode_text("user"),
        orrery::codec::encode_text("not-a-timestamp")
    );
    let token = Token {
        identifier: "user".to_string(),
        expiration: "not-a-timestamp".to_string(),
        signature: mac::sign(KEY, &content, "salt"),
    };
    assert_eq!(
        verify_token(&token, "salt", KEY, T0),
        Err(TokenError::ExpirationNotCanonical)
    );
}

#[test]
fn issue_then_verify_with_the_real_clock() {
    // a 0.02 s lifetime: valid right after issue, expired 25 ms later
    let token = generate_web_token("user", 20, "salt", KEY);
    assert_eq!(validate_web_token(&token, "salt", KEY), Ok(()));
    assert_eq!(
        validate_web_token(&token, "other salt", KEY),
        Err(TokenError::SignatureMismatch)
    );
    busy_wait_ms(25);
    assert_eq!(
        validate_web_token(&token, "salt", KEY),
        Err(TokenError::Expired)
    );
}

fn busy_wait_ms(ms: u64) {
    let start = std::time::Instant::now();
    while start.elapsed() < std::time::Duration::from_millis(ms) {}
}
