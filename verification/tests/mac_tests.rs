use orrery::codec;
use orrery::mac::{sign, SignedContent};

/// RFC 4231 test case 1 for HMAC-SHA-512: key is twenty `0x0b` bytes and
/// the data is `Hi There`; here the data arrives as content `Hi ` followed
/// by salt `There`, since signing concatenates the two with no delimiter.
#[test]
fn sign_matches_the_published_hmac_sha512_vector() {
    let key = [0x0bu8; 20];
    let signature = sign(&key, "Hi ", "There");
    let digest = codec::decode(&signature).expect("a signature is canonical codec output");
    let hex: String = digest.iter().map(|b| format!("{:02x}", b)).collect();
    assert_eq!(
        hex,
        "87aa7cdea5ef619d4ff0b4241a1d6cb02379f4e2ce4ec2787ad0b30545e17cde\
         daa833b7d6b8a702038b274eaea3f4e4be9d914eeb61f1702e696c203a126854"
    );
}

#[test]
fn signatures_are_sixty_four_encoded_bytes() {
    let signature = sign(b"key", "content", "salt");
    let digest = codec::decode(&signature).unwrap();
    assert_eq!(digest.len(), 64);
    assert_eq!(signature.len(), 88);
}

#[test]
fn sign_depends_on_key_content_and_salt() {
    let base = sign(b"key", "content", "salt");
    assert_ne!(sign(b"other-key", "content", "salt"), base);
    assert_ne!(sign(b"key", "other content", "salt"), base);
    assert_ne!(sign(b"key", "content", "other salt"), base);
    assert_eq!(sign(b"key", "content", "salt"), base);
}

#[test]
fn signed_content_signs_like_the_free_function() {
    let pair = SignedContent {
        content: "content".to_string(),
        salt: "salt".to_string(),
    };
    assert_eq!(pair.sign(b"key"), sign(b"key", "content", "salt"));
}

#[test]
fn empty_keys_and_texts_are_accepted() {
    let signature = sign(b"", "", "");
    assert_eq!(codec::decode(&signature).unwrap().len(), 64);
}
