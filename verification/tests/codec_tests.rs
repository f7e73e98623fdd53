use orrery::codec::{decode, decode_text, encode, encode_text, DecodeError};

#[test]
fn encode_known_values() {
    assert_eq!(encode(b""), "");
    assert_eq!(encode(b"f"), "Zg==");
    assert_eq!(encode(b"fo"), "Zm8=");
    assert_eq!(encode(b"foo"), "Zm9v");
    assert_eq!(encode(b"foob"), "Zm9vYg==");
    assert_eq!(encode(b"fooba"), "Zm9vYmE=");
    assert_eq!(encode(b"foobar"), "Zm9vYmFy");
    assert_eq!(encode_text("identifier"), "aWRlbnRpZmllcg==");
    assert_eq!(encode_text("expiration"), "ZXhwaXJhdGlvbg==");
}

#[test]
fn encode_uses_the_url_safe_alphabet() {
    // 0xfb 0xff encodes to sextets 62, 63, 60: the two URL-safe characters
    assert_eq!(encode(&[0xfb, 0xff]), "-_8=");
}

#[test]
fn decode_inverts_encode() {
    let cases: Vec<Vec<u8>> = vec![
        vec![],
        vec![0],
        vec![255],
        vec![1, 2],
        vec![1, 2, 3],
        vec![1, 2, 3, 4],
        b"arbitrary bytes \xf0\x9f\x8c\x8d with text".to_vec(),
    ];
    for bytes in cases {
        let text = encode(&bytes);
        assert_eq!(decode(&text).unwrap(), bytes);
    }
}

#[test]
fn decode_text_inverts_encode_text() {
    for case in ["", "identifier", "salted user", "\u{00dc}n\u{00ef}c\u{00f8}d\u{00e9} \u{7528}\u{6237}"] {
        let text = encode_text(case);
        assert_eq!(decode_text(&text).unwrap(), case);
    }
}

#[test]
fn decode_rejects_the_wrong_alphabet() {
    assert_eq!(decode("a+=="), Err(DecodeError::InvalidEncoding));
    assert_eq!(decode("a/=="), Err(DecodeError::InvalidEncoding));
    assert_eq!(decode("a.b="), Err(DecodeError::InvalidEncoding));
}

#[test]
fn decode_rejects_bad_lengths_and_padding() {
    assert_eq!(decode("Zg="), Err(DecodeError::InvalidEncoding));
    assert_eq!(decode("Zg"), Err(DecodeError::InvalidEncoding));
    assert_eq!(decode("Z==="), Err(DecodeError::InvalidEncoding));
    assert_eq!(decode("Zg=a"), Err(DecodeError::InvalidEncoding));
}

#[test]
fn decode_rejects_non_canonical_trailing_bits() {
    // canonical for "identifier" ends in `cg==`; `ch==` decodes to the same
    // byte only if the nonzero trailing bits are ignored, so it must fail
    assert!(decode("aWRlbnRpZmllcg==").is_ok());
    assert_eq!(decode("aWRlbnRpZmllch=="), Err(DecodeError::InvalidEncoding));
    assert_eq!(decode("Zm9="), Err(DecodeError::InvalidEncoding));
}

#[test]
fn decode_text_rejects_bytes_that_are_not_utf8() {
    let text = encode(&[0xff, 0xfe]);
    assert_eq!(decode_text(&text), Err(DecodeError::InvalidUtf8));
}
