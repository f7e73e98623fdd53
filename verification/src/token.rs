//! The bearer token: a three-part value of subject identifier, expiry
//! timestamp and signature, with issue, serialize, deserialize and verify
//! operations.
//!
//! The signature covers the *encoded* identifier and expiration joined by
//! `.`, never the raw values; verification recomputes it the same way.

use vstd::prelude::*;
use vstd::string::{StrSliceExecFns, StringExecFns};
use vstd::utf8::encode_utf8;

use crate::codec;
use crate::mac;
use crate::timeutil;

verus! {

/// Errors from reading a serialized token back.
#[derive(Clone, Copy, Debug, PartialEq, Eq)]
pub enum FormatError {
    /// Not exactly three `.`-separated segments.
    FormatInvalid,
    /// The identifier segment is not canonical codec output over text.
    IdentifierDecodeFailure,
    /// The expiration segment is not canonical codec output over text.
    ExpirationDecodeFailure,
}

/// Errors from verifying a presented token.
#[derive(Clone, Copy, Debug, PartialEq, Eq)]
pub enum TokenError {
    /// The recomputed signature differs from the one the token carries.
    SignatureMismatch,
    /// The expiration text is not a well-formed timestamp.
    ExpirationNotCanonical,
    /// The expiration instant lies before the verification instant.
    Expired,
}

/// A bearer token: subject identifier, expiry timestamp, and a signature
/// over both. Stateless: the server keeps no record of issued tokens.
#[derive(Clone, Debug, PartialEq, Eq)]
pub struct Token {
    pub identifier: String,
    pub expiration: String,
    pub signature: String,
}

/// The mathematical value of a token: its three texts.
pub ghost struct TokenValue {
    pub identifier: Seq<char>,
    pub expiration: Seq<char>,
    pub signature: Seq<char>,
}

impl View for Token {
    type V = TokenValue;

    open spec fn view(&self) -> TokenValue {
        TokenValue {
            identifier: self.identifier@,
            expiration: self.expiration@,
            signature: self.signature@,
        }
    }
}

/// The content a token's signature covers: encoded identifier and encoded
/// expiration joined by `.`.
pub open spec fn signed_content(identifier: Seq<char>, expiration: Seq<char>) -> Seq<char> {
    codec::b64_encode(encode_utf8(identifier)) + seq!['.'] + codec::b64_encode(
        encode_utf8(expiration),
    )
}

/// The signature a token for `identifier` and `expiration` must carry
/// under `key` and `salt`.
pub open spec fn token_signature(
    key: Seq<u8>,
    identifier: Seq<char>,
    expiration: Seq<char>,
    salt: Seq<char>,
) -> Seq<char> {
    mac::sign_spec(key, signed_content(identifier, expiration), salt)
}

/// True when the token carries exactly the signature recomputed from its
/// own identifier and expiration under `key` and `salt`.
pub open spec fn signature_ok(key: Seq<u8>, salt: Seq<char>, t: TokenValue) -> bool {
    t.signature == token_signature(key, t.identifier, t.expiration, salt)
}

/// The wire form: encoded identifier, encoded expiration and the raw
/// signature, joined by `.`.
pub open spec fn serialized(t: TokenValue) -> Seq<char> {
    signed_content(t.identifier, t.expiration) + seq!['.'] + t.signature
}

/// Index of the first `.` in `s`, if any.
pub open spec fn first_dot(s: Seq<char>) -> Option<int>
    decreases s.len(),
{
    if s.len() == 0 {
        None
    } else if s[0] == '.' {
        Some(0int)
    } else {
        match first_dot(s.drop_first()) {
            None => None,
            Some(i) => Some(i + 1),
        }
    }
}

/// The three `.`-separated segments of `s`, when it has exactly two dots.
pub open spec fn split3(s: Seq<char>) -> Option<(Seq<char>, Seq<char>, Seq<char>)> {
    match first_dot(s) {
        None => None,
        Some(i) => {
            let rest = s.skip(i + 1);
            match first_dot(rest) {
                None => None,
                Some(j) => {
                    if first_dot(rest.skip(j + 1)) is None {
                        Some((s.take(i), rest.take(j), rest.skip(j + 1)))
                    } else {
                        None
                    }
                },
            }
        },
    }
}

/// What deserializing `s` yields: a token value, or the first failure.
pub open spec fn deserialized(s: Seq<char>) -> Result<TokenValue, FormatError> {
    match split3(s) {
        None => Err(FormatError::FormatInvalid),
        Some(segments) => match codec::b64_text_decoded(segments.0) {
            None => Err(FormatError::IdentifierDecodeFailure),
            Some(identifier) => match codec::b64_text_decoded(segments.1) {
                None => Err(FormatError::ExpirationDecodeFailure),
                Some(expiration) => Ok(
                    TokenValue { identifier, expiration, signature: segments.2 },
                ),
            },
        },
    }
}

/// The verdict of verifying token `t` under `key` and `salt` at instant
/// `now`: the signature check comes first, then the expiry check.
pub open spec fn verdict(key: Seq<u8>, salt: Seq<char>, t: TokenValue, now: int) -> Result<
    (),
    TokenError,
> {
    if !signature_ok(key, salt, t) {
        Err(TokenError::SignatureMismatch)
    } else {
        match timeutil::rfc3339_parse(t.expiration) {
            None => Err(TokenError::ExpirationNotCanonical),
            Some(expiry) => if expiry < now {
                Err(TokenError::Expired)
            } else {
                Ok(())
            },
        }
    }
}

proof fn lemma_first_dot_none(s: Seq<char>)
    ensures
        (first_dot(s) is None) <==> (forall|k: int| 0 <= k < s.len() ==> s[k] != '.'),
    decreases s.len(),
{
    if s.len() > 0 {
        lemma_first_dot_none(s.drop_first());
        assert(forall|k: int| 1 <= k < s.len() ==> s[k] == s.drop_first()[k - 1]);
    }
}

proof fn lemma_first_dot_at(s: Seq<char>, i: int)
    requires
        0 <= i < s.len(),
        s[i] == '.',
        forall|k: int| 0 <= k < i ==> s[k] != '.',
    ensures
        first_dot(s) == Some(i),
    decreases s.len(),
{
    if s[0] == '.' {
        assert(i == 0);
    } else {
        assert(forall|k: int| 0 <= k < s.len() - 1 ==> s.drop_first()[k] == s[k + 1]);
        lemma_first_dot_at(s.drop_first(), i - 1);
    }
}

/// Index of the first `.` in `text` at or after `from`, or the text's
/// length when there is none.
fn scan_dot(text: &str, from: usize) -> (at: usize)
    requires
        from <= text@.len(),
    ensures
        from <= at <= text@.len(),
        at < text@.len() ==> text@[at as int] == '.',
        forall|k: int| from <= k < at ==> text@[k] != '.',
{
    let n = text.unicode_len();
    let mut at = from;
    while at < n
        invariant
            n == text@.len(),
            from <= at <= n,
            forall|k: int| from <= k < at ==> text@[k] != '.',
        decreases n - at,
    {
        if text.get_char(at) == '.' {
            return at;
        }
        at = at + 1;
    }
    at
}

impl Token {
    /// Write the token out in its wire form:
    /// `encode(identifier) . encode(expiration) . signature`.
    pub fn serialize(&self) -> (out: String)
        requires
            4 * encode_utf8(self.identifier@).len() <= usize::MAX,
            4 * encode_utf8(self.expiration@).len() <= usize::MAX,
        ensures
            out@ == serialized(self@),
    {
        let mut out = codec::encode_text(self.identifier.as_str());
        out.append(".");
        let encoded_expiration = codec::encode_text(self.expiration.as_str());
        out.append(encoded_expiration.as_str());
        out.append(".");
        out.append(self.signature.as_str());
        proof {
            reveal_strlit(".");
            assert("."@ =~= seq!['.']);
            assert(out@ =~= serialized(self@));
        }
        out
    }

    /// Read a token back from its wire form: split on `.` into exactly
    /// three segments, decode the first two, take the third verbatim.
    pub fn deserialize(text: &str) -> (res: Result<Token, FormatError>)
        ensures
            (match res {
                Ok(t) => deserialized(text@) == Ok::<TokenValue, FormatError>(t@),
                Err(e) => deserialized(text@) == Err::<TokenValue, FormatError>(e),
            }),
    {
        let n = text.unicode_len();
        let d1 = scan_dot(text, 0);
        if d1 == n {
            proof {
                lemma_first_dot_none(text@);
            }
            return Err(FormatError::FormatInvalid);
        }
        proof {
            lemma_first_dot_at(text@, d1 as int);
        }
        let ghost rest = text@.skip(d1 as int + 1);
        let d2 = scan_dot(text, d1 + 1);
        if d2 == n {
            proof {
                assert(forall|k: int| 0 <= k < rest.len() ==> rest[k] == text@[k + d1 + 1]);
                lemma_first_dot_none(rest);
            }
            return Err(FormatError::FormatInvalid);
        }
        proof {
            assert(forall|k: int| 0 <= k < rest.len() ==> rest[k] == text@[k + d1 + 1]);
            lemma_first_dot_at(rest, d2 - d1 - 1);
        }
        let ghost tail = rest.skip(d2 - d1);
        let d3 = scan_dot(text, d2 + 1);
        proof {
            assert(forall|k: int| 0 <= k < tail.len() ==> tail[k] == text@[k + d2 + 1]);
        }
        if d3 < n {
            proof {
                lemma_first_dot_at(tail, d3 - d2 - 1);
            }
            return Err(FormatError::FormatInvalid);
        }
        proof {
            lemma_first_dot_none(tail);
            assert(split3(text@) == Some((text@.take(d1 as int), rest.take(d2 - d1 - 1), tail)));
        }
        let seg_identifier = text.substring_char(0, d1);
        let seg_expiration = text.substring_char(d1 + 1, d2);
        let seg_signature = text.substring_char(d2 + 1, n);
        proof {
            assert(seg_identifier@ =~= text@.take(d1 as int));
            assert(seg_expiration@ =~= rest.take(d2 - d1 - 1));
            assert(seg_signature@ =~= tail);
        }
        let identifier = match codec::decode_text(seg_identifier) {
            Ok(t) => t,
            Err(_) => {
                return Err(FormatError::IdentifierDecodeFailure);
            },
        };
        let expiration = match codec::decode_text(seg_expiration) {
            Ok(t) => t,
            Err(_) => {
                return Err(FormatError::ExpirationDecodeFailure);
            },
        };
        Ok(Token { identifier, expiration, signature: seg_signature.to_owned() })
    }
}

/// Law: reading a serialized token back yields the token unchanged, for
/// every token whose signature contains no `.` — as every signature the
/// library issues, being codec output, does.
pub proof fn lemma_token_round_trip(t: TokenValue)
    requires
        forall|k: int| 0 <= k < t.signature.len() ==> t.signature[k] != '.',
    ensures
        deserialized(serialized(t)) == Ok::<TokenValue, FormatError>(t),
{
    let seg0 = codec::b64_encode(encode_utf8(t.identifier));
    let seg1 = codec::b64_encode(encode_utf8(t.expiration));
    let s = serialized(t);
    codec::lemma_b64_encode_no_dot(encode_utf8(t.identifier));
    codec::lemma_b64_encode_no_dot(encode_utf8(t.expiration));
    assert(s =~= seg0 + seq!['.'] + seg1 + seq!['.'] + t.signature);
    let i = seg0.len() as int;
    assert(s[i] == '.');
    assert forall|k: int| 0 <= k < i implies s[k] != '.' by {
        assert(s[k] == seg0[k]);
    }
    lemma_first_dot_at(s, i);
    let rest = s.skip(i + 1);
    assert(rest =~= seg1 + seq!['.'] + t.signature);
    let j = seg1.len() as int;
    assert(rest[j] == '.');
    assert forall|k: int| 0 <= k < j implies rest[k] != '.' by {
        assert(rest[k] == seg1[k]);
    }
    lemma_first_dot_at(rest, j);
    let tail = rest.skip(j + 1);
    assert(tail =~= t.signature);
    lemma_first_dot_none(tail);
    assert(split3(s) == Some((s.take(i), rest.take(j), tail)));
    assert(s.take(i) =~= seg0);
    assert(rest.take(j) =~= seg1);
    codec::lemma_codec_round_trip(encode_utf8(t.identifier));
    codec::lemma_codec_round_trip(encode_utf8(t.expiration));
    vstd::utf8::encode_utf8_valid_utf8(t.identifier);
    vstd::utf8::encode_utf8_valid_utf8(t.expiration);
    vstd::utf8::encode_utf8_decode_utf8(t.identifier);
    vstd::utf8::encode_utf8_decode_utf8(t.expiration);
    assert(codec::b64_text_decoded(seg0) == Some(t.identifier));
    assert(codec::b64_text_decoded(seg1) == Some(t.expiration));
    assert(deserialized(s) == Ok::<TokenValue, FormatError>(
        TokenValue { identifier: t.identifier, expiration: t.expiration, signature: tail },
    ));
    assert(tail == t.signature);
}

/// Law: a correctly signed token always survives the wire — its signature
/// is codec output, which contains no `.`, so reading its serialized form
/// back yields the token unchanged.
pub proof fn lemma_signed_token_round_trip(key: Seq<u8>, salt: Seq<char>, t: TokenValue)
    requires
        signature_ok(key, salt, t),
    ensures
        deserialized(serialized(t)) == Ok::<TokenValue, FormatError>(t),
{
    codec::lemma_b64_encode_no_dot(
        mac::hmac_sha512(
            key,
            encode_utf8(signed_content(t.identifier, t.expiration)) + encode_utf8(salt),
        ),
    );
    lemma_token_round_trip(t);
}

/// Law: tampering with the signature is detected — a token that carries
/// the identifier and expiration of a genuinely signed token but any other
/// signature is rejected as `SignatureMismatch`, at every verification
/// instant.
pub proof fn lemma_tampered_signature_rejected(
    key: Seq<u8>,
    salt: Seq<char>,
    genuine: TokenValue,
    tampered: TokenValue,
    now: int,
)
    requires
        signature_ok(key, salt, genuine),
        tampered.identifier == genuine.identifier,
        tampered.expiration == genuine.expiration,
        tampered.signature != genuine.signature,
    ensures
        verdict(key, salt, tampered, now) == Err::<(), TokenError>(TokenError::SignatureMismatch),
{
}

/// Law: a correctly signed token whose expiration parses to an instant not
/// before the verification instant is accepted.
pub proof fn lemma_fresh_token_accepted(key: Seq<u8>, salt: Seq<char>, t: TokenValue, now: int)
    requires
        signature_ok(key, salt, t),
        timeutil::rfc3339_parse(t.expiration) matches Some(expiry) && expiry >= now,
    ensures
        verdict(key, salt, t, now) == Ok::<(), TokenError>(()),
{
}

/// Law: a correctly signed token whose expiration parses to an instant
/// before the verification instant is rejected as `Expired`.
pub proof fn lemma_stale_token_expired(key: Seq<u8>, salt: Seq<char>, t: TokenValue, now: int)
    requires
        signature_ok(key, salt, t),
        timeutil::rfc3339_parse(t.expiration) matches Some(expiry) && expiry < now,
    ensures
        verdict(key, salt, t, now) == Err::<(), TokenError>(TokenError::Expired),
{
}

/// Issue a token for `identifier`, expiring `duration_ms` milliseconds
/// after the instant `now_ms`, signed with `key` and the subject's `salt`.
pub fn issue_token(identifier: &str, duration_ms: i64, salt: &str, key: &[u8], now_ms: i64) -> (t:
    Token)
    requires
        0 <= now_ms,
        0 <= duration_ms,
        now_ms + duration_ms <= timeutil::MAX_TIMESTAMP_MS,
        4 * encode_utf8(identifier@).len() <= usize::MAX,
    ensures
        t@.identifier == identifier@,
        t@.expiration == timeutil::rfc3339_format(now_ms + duration_ms),
        timeutil::rfc3339_parse(t@.expiration) == Some((now_ms + duration_ms) as int),
        signature_ok(key@, salt@, t@),
        vstd::utf8::is_ascii_chars(t@.expiration),
        encode_utf8(t@.expiration).len() <= 35,
{
    let expiration = timeutil::format_ms(now_ms + duration_ms);
    proof {
        vstd::utf8::is_ascii_chars_encode_utf8(expiration@);
    }
    let mut content = codec::encode_text(identifier);
    content.append(".");
    let encoded_expiration = codec::encode_text(expiration.as_str());
    content.append(encoded_expiration.as_str());
    proof {
        reveal_strlit(".");
        assert("."@ =~= seq!['.']);
        assert(content@ =~= signed_content(identifier@, expiration@));
    }
    let signature = mac::sign(key, content.as_str(), salt);
    Token { identifier: identifier.to_owned(), expiration, signature }
}

/// Verify a presented token under `key` and `salt` at the instant
/// `now_ms`: recompute the signature over the token's own identifier and
/// expiration, then check the expiry.
pub fn verify_token(token: &Token, salt: &str, key: &[u8], now_ms: i64) -> (res: Result<
    (),
    TokenError,
>)
    requires
        4 * encode_utf8(token.identifier@).len() <= usize::MAX,
        4 * encode_utf8(token.expiration@).len() <= usize::MAX,
    ensures
        res == verdict(key@, salt@, token@, now_ms as int),
{
    let mut content = codec::encode_text(token.identifier.as_str());
    content.append(".");
    let encoded_expiration = codec::encode_text(token.expiration.as_str());
    content.append(encoded_expiration.as_str());
    proof {
        reveal_strlit(".");
        assert("."@ =~= seq!['.']);
        assert(content@ =~= signed_content(token.identifier@, token.expiration@));
    }
    let expected = mac::sign(key, content.as_str(), salt);
    if !mac::constant_time_eq(token.signature.as_str(), expected.as_str()) {
        return Err(TokenError::SignatureMismatch);
    }
    match timeutil::parse_ms(token.expiration.as_str()) {
        None => Err(TokenError::ExpirationNotCanonical),
        Some(expiry) => if expiry < now_ms {
            Err(TokenError::Expired)
        } else {
            Ok(())
        },
    }
}

} // verus!
