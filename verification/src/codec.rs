//! Canonical byte-to-text codec: URL-safe base64 with `=` padding.
//!
//! The encoding is pinned down from first principles by [`b64_encode`];
//! the executable encoder and decoder call the `base64ct` crate behind
//! trusted wrappers whose contracts state exactly that correspondence.
//! The alphabet contains neither `.` nor any other delimiter character,
//! so codec output can be embedded in `.`-separated records verbatim.

use vstd::prelude::*;
use vstd::utf8::{decode_utf8, encode_utf8, valid_utf8};

verus! {

/// Why a piece of text could not be decoded.
#[derive(Clone, Copy, Debug, PartialEq, Eq)]
pub enum DecodeError {
    /// Wrong alphabet, wrong length, bad padding, or a non-canonical encoding.
    InvalidEncoding,
    /// The decoded bytes are not valid UTF-8 text.
    InvalidUtf8,
}

/// Character `v` (0 to 63) of the URL-safe alphabet:
/// `A`-`Z`, `a`-`z`, `0`-`9`, `-`, `_`.
pub open spec fn b64_char(v: u8) -> char
    recommends
        v < 64,
{
    if v < 26 {
        (('A' as u32) + v as u32) as char
    } else if v < 52 {
        (('a' as u32) + (v - 26) as u32) as char
    } else if v < 62 {
        (('0' as u32) + (v - 52) as u32) as char
    } else if v == 62 {
        '-'
    } else {
        '_'
    }
}

/// Final encoded group for one trailing input byte: two data characters
/// and two padding characters.
pub open spec fn b64_group1(b0: u8) -> Seq<char> {
    seq![b64_char(b0 >> 2), b64_char((b0 & 0x03) << 4), '=', '=']
}

/// Final encoded group for two trailing input bytes: three data characters
/// and one padding character.
pub open spec fn b64_group2(b0: u8, b1: u8) -> Seq<char> {
    seq![
        b64_char(b0 >> 2),
        b64_char(((b0 & 0x03) << 4) | (b1 >> 4)),
        b64_char((b1 & 0x0f) << 2),
        '=',
    ]
}

/// Encoded group for three input bytes: four data characters.
pub open spec fn b64_group3(b0: u8, b1: u8, b2: u8) -> Seq<char> {
    seq![
        b64_char(b0 >> 2),
        b64_char(((b0 & 0x03) << 4) | (b1 >> 4)),
        b64_char(((b1 & 0x0f) << 2) | (b2 >> 6)),
        b64_char(b2 & 0x3f),
    ]
}

/// The canonical encoding of a byte string: input taken three bytes at a
/// time, a final short group padded with `=`.
pub open spec fn b64_encode(s: Seq<u8>) -> Seq<char>
    decreases s.len(),
{
    if s.len() == 0 {
        seq![]
    } else if s.len() == 1 {
        b64_group1(s[0])
    } else if s.len() == 2 {
        b64_group2(s[0], s[1])
    } else {
        b64_group3(s[0], s[1], s[2]) + b64_encode(s.skip(3))
    }
}

/// True when `s` is the canonical encoding of some byte string.
pub open spec fn b64_decodable(s: Seq<char>) -> bool {
    exists|x: Seq<u8>| s == b64_encode(x)
}

/// The byte string whose canonical encoding is `s`; meaningful only when
/// [`b64_decodable`] holds (and then unique, by [`lemma_b64_encode_injective`]).
pub open spec fn b64_decoded(s: Seq<char>) -> Seq<u8> {
    choose|x: Seq<u8>| s == b64_encode(x)
}

/// Every alphabet character is a letter, a digit, `-` or `_`: in particular
/// it is neither the `=` padding character nor a `.` delimiter.
pub proof fn lemma_b64_char_facts(v: u8)
    requires
        v < 64,
    ensures
        b64_char(v) != '=',
        b64_char(v) != '.',
{
}

/// Distinct sextets encode as distinct alphabet characters.
pub proof fn lemma_b64_char_injective(v1: u8, v2: u8)
    requires
        v1 < 64,
        v2 < 64,
        b64_char(v1) == b64_char(v2),
    ensures
        v1 == v2,
{
}

/// Length of the canonical encoding of an `n`-byte input.
pub open spec fn b64_encoded_len(n: nat) -> nat
    decreases n,
{
    if n == 0 {
        0
    } else if n <= 3 {
        4
    } else {
        (4 + b64_encoded_len((n - 3) as nat)) as nat
    }
}

pub proof fn lemma_b64_encode_len(s: Seq<u8>)
    ensures
        b64_encode(s).len() == b64_encoded_len(s.len()),
    decreases s.len(),
{
    if s.len() >= 3 {
        lemma_b64_encode_len(s.skip(3));
    }
}

proof fn lemma_b64_encoded_len_pos(n: nat)
    ensures
        n > 0 ==> b64_encoded_len(n) >= 4,
        n > 3 ==> b64_encoded_len(n) >= 8,
    decreases n,
{
    if n > 3 {
        lemma_b64_encoded_len_pos((n - 3) as nat);
    }
}

/// All six-bit values drawn from up to three bytes are below 64.
proof fn lemma_sextet_bounds(b0: u8, b1: u8, b2: u8)
    ensures
        b0 >> 2 < 64,
        (b0 & 0x03) << 4 < 64,
        ((b0 & 0x03) << 4) | (b1 >> 4) < 64,
        (b1 & 0x0f) << 2 < 64,
        ((b1 & 0x0f) << 2) | (b2 >> 6) < 64,
        b2 & 0x3f < 64,
{
    assert(b0 >> 2 < 64 && (b0 & 0x03) << 4 < 64 && ((b0 & 0x03) << 4) | (b1 >> 4) < 64 && (b1
        & 0x0f) << 2 < 64 && ((b1 & 0x0f) << 2) | (b2 >> 6) < 64 && b2 & 0x3f < 64) by (bit_vector);
}

/// No character of canonical codec output is the `.` delimiter.
pub proof fn lemma_b64_encode_no_dot(s: Seq<u8>)
    ensures
        forall|i: int| 0 <= i < b64_encode(s).len() ==> #[trigger] b64_encode(s)[i] != '.',
    decreases s.len(),
{
    if s.len() == 0 {
    } else if s.len() == 1 {
        lemma_sextet_bounds(s[0], 0, 0);
        lemma_b64_char_facts(s[0] >> 2);
        lemma_b64_char_facts((s[0] & 0x03) << 4);
    } else if s.len() == 2 {
        lemma_sextet_bounds(s[0], s[1], 0);
        lemma_b64_char_facts(s[0] >> 2);
        lemma_b64_char_facts(((s[0] & 0x03) << 4) | (s[1] >> 4));
        lemma_b64_char_facts((s[1] & 0x0f) << 2);
    } else {
        lemma_sextet_bounds(s[0], s[1], s[2]);
        lemma_b64_char_facts(s[0] >> 2);
        lemma_b64_char_facts(((s[0] & 0x03) << 4) | (s[1] >> 4));
        lemma_b64_char_facts(((s[1] & 0x0f) << 2) | (s[2] >> 6));
        lemma_b64_char_facts(s[2] & 0x3f);
        lemma_b64_encode_no_dot(s.skip(3));
        assert(b64_encode(s) == b64_group3(s[0], s[1], s[2]) + b64_encode(s.skip(3)));
        assert forall|i: int| 0 <= i < b64_encode(s).len() implies #[trigger] b64_encode(s)[i]
            != '.' by {
            if i < 4 {
                assert(b64_encode(s)[i] == b64_group3(s[0], s[1], s[2])[i]);
            } else {
                assert(b64_encode(s)[i] == b64_encode(s.skip(3))[i - 4]);
            }
        }
    }
}

proof fn lemma_group3_bytes(b0: u8, b1: u8, b2: u8, c0: u8, c1: u8, c2: u8)
    requires
        b64_group3(b0, b1, b2) == b64_group3(c0, c1, c2),
    ensures
        b0 == c0,
        b1 == c1,
        b2 == c2,
{
    lemma_sextet_bounds(b0, b1, b2);
    lemma_sextet_bounds(c0, c1, c2);
    assert(b64_group3(b0, b1, b2)[0] == b64_group3(c0, c1, c2)[0]);
    assert(b64_group3(b0, b1, b2)[1] == b64_group3(c0, c1, c2)[1]);
    assert(b64_group3(b0, b1, b2)[2] == b64_group3(c0, c1, c2)[2]);
    assert(b64_group3(b0, b1, b2)[3] == b64_group3(c0, c1, c2)[3]);
    lemma_b64_char_injective(b0 >> 2, c0 >> 2);
    lemma_b64_char_injective(((b0 & 0x03) << 4) | (b1 >> 4), ((c0 & 0x03) << 4) | (c1 >> 4));
    lemma_b64_char_injective(((b1 & 0x0f) << 2) | (b2 >> 6), ((c1 & 0x0f) << 2) | (c2 >> 6));
    lemma_b64_char_injective(b2 & 0x3f, c2 & 0x3f);
    assert(b0 == c0 && b1 == c1 && b2 == c2) by (bit_vector)
        requires
            b0 >> 2 == c0 >> 2,
            ((b0 & 0x03) << 4) | (b1 >> 4) == ((c0 & 0x03) << 4) | (c1 >> 4),
            ((b1 & 0x0f) << 2) | (b2 >> 6) == ((c1 & 0x0f) << 2) | (c2 >> 6),
            b2 & 0x3f == c2 & 0x3f,
    ;
}

proof fn lemma_group2_bytes(b0: u8, b1: u8, c0: u8, c1: u8)
    requires
        b64_group2(b0, b1) == b64_group2(c0, c1),
    ensures
        b0 == c0,
        b1 == c1,
{
    lemma_sextet_bounds(b0, b1, 0);
    lemma_sextet_bounds(c0, c1, 0);
    assert(b64_group2(b0, b1)[0] == b64_group2(c0, c1)[0]);
    assert(b64_group2(b0, b1)[1] == b64_group2(c0, c1)[1]);
    assert(b64_group2(b0, b1)[2] == b64_group2(c0, c1)[2]);
    lemma_b64_char_injective(b0 >> 2, c0 >> 2);
    lemma_b64_char_injective(((b0 & 0x03) << 4) | (b1 >> 4), ((c0 & 0x03) << 4) | (c1 >> 4));
    lemma_b64_char_injective((b1 & 0x0f) << 2, (c1 & 0x0f) << 2);
    assert(b0 == c0 && b1 == c1) by (bit_vector)
        requires
            b0 >> 2 == c0 >> 2,
            ((b0 & 0x03) << 4) | (b1 >> 4) == ((c0 & 0x03) << 4) | (c1 >> 4),
            (b1 & 0x0f) << 2 == (c1 & 0x0f) << 2,
    ;
}

proof fn lemma_group1_bytes(b0: u8, c0: u8)
    requires
        b64_group1(b0) == b64_group1(c0),
    ensures
        b0 == c0,
{
    lemma_sextet_bounds(b0, 0, 0);
    lemma_sextet_bounds(c0, 0, 0);
    assert(b64_group1(b0)[0] == b64_group1(c0)[0]);
    assert(b64_group1(b0)[1] == b64_group1(c0)[1]);
    lemma_b64_char_injective(b0 >> 2, c0 >> 2);
    lemma_b64_char_injective((b0 & 0x03) << 4, (c0 & 0x03) << 4);
    assert(b0 == c0) by (bit_vector)
        requires
            b0 >> 2 == c0 >> 2,
            (b0 & 0x03) << 4 == (c0 & 0x03) << 4,
    ;
}

/// Two byte strings with the same canonical encoding are the same:
/// canonical codec output determines its input.
pub proof fn lemma_b64_encode_injective(x: Seq<u8>, y: Seq<u8>)
    requires
        b64_encode(x) == b64_encode(y),
    ensures
        x == y,
    decreases x.len(),
{
    lemma_b64_encode_len(x);
    lemma_b64_encode_len(y);
    lemma_b64_encoded_len_pos(x.len());
    lemma_b64_encoded_len_pos(y.len());
    if x.len() == 0 {
        assert(b64_encoded_len(y.len()) == 0);
        assert(x =~= y);
    } else if y.len() == 0 {
        assert(b64_encoded_len(x.len()) == 0);
        assert(x =~= y);
    } else if x.len() <= 3 && y.len() <= 3 {
        // both encodings are a single group; the padding pattern in
        // positions 2 and 3 separates the three possible input lengths
        if x.len() == 3 {
            assert(b64_encode(x) =~= b64_group3(x[0], x[1], x[2]));
        }
        if y.len() == 3 {
            assert(b64_encode(y) =~= b64_group3(y[0], y[1], y[2]));
        }
        lemma_sextet_bounds(x[0], if x.len() >= 2 { x[1] } else { 0 }, if x.len() >= 3 { x[2] } else { 0 });
        lemma_sextet_bounds(y[0], if y.len() >= 2 { y[1] } else { 0 }, if y.len() >= 3 { y[2] } else { 0 });
        if x.len() == 1 {
            if y.len() == 2 {
                lemma_b64_char_facts((y[1] & 0x0f) << 2);
                assert(b64_encode(x)[2] == '=');
                assert(false);
            } else if y.len() == 3 {
                lemma_b64_char_facts(y[2] & 0x3f);
                assert(b64_encode(x)[3] == '=');
                assert(false);
            } else {
                lemma_group1_bytes(x[0], y[0]);
                assert(x =~= y);
            }
        } else if x.len() == 2 {
            if y.len() == 1 {
                lemma_b64_char_facts((x[1] & 0x0f) << 2);
                assert(b64_encode(y)[2] == '=');
                assert(false);
            } else if y.len() == 3 {
                lemma_b64_char_facts(y[2] & 0x3f);
                assert(b64_encode(x)[3] == '=');
                assert(false);
            } else {
                lemma_group2_bytes(x[0], x[1], y[0], y[1]);
                assert(x =~= y);
            }
        } else {
            if y.len() == 1 || y.len() == 2 {
                lemma_b64_char_facts(x[2] & 0x3f);
                assert(b64_encode(y)[3] == '=');
                assert(false);
            } else {
                lemma_group3_bytes(x[0], x[1], x[2], y[0], y[1], y[2]);
                assert(x =~= y);
            }
        }
    } else {
        // at least one side has two or more groups, so both do, the
        // encodings being equally long; peel the first group and recurse
        assert(x.len() > 3 && y.len() > 3) by {
            if x.len() <= 3 {
                assert(b64_encoded_len(x.len()) == 4);
                assert(b64_encoded_len(y.len()) >= 8);
            }
            if y.len() <= 3 {
                assert(b64_encoded_len(y.len()) == 4);
                assert(b64_encoded_len(x.len()) >= 8);
            }
        }
        assert(b64_encode(x) == b64_group3(x[0], x[1], x[2]) + b64_encode(x.skip(3)));
        assert(b64_encode(y) == b64_group3(y[0], y[1], y[2]) + b64_encode(y.skip(3)));
        assert(b64_group3(x[0], x[1], x[2]).len() == 4);
        assert(b64_group3(y[0], y[1], y[2]).len() == 4);
        assert(b64_group3(x[0], x[1], x[2]) =~= b64_group3(y[0], y[1], y[2])) by {
            assert(forall|i: int|
                0 <= i < 4 ==> #[trigger] b64_group3(x[0], x[1], x[2])[i] == b64_encode(x)[i]
                    && #[trigger] b64_group3(y[0], y[1], y[2])[i] == b64_encode(y)[i]);
        }
        lemma_group3_bytes(x[0], x[1], x[2], y[0], y[1], y[2]);
        assert(b64_encode(x.skip(3)) =~= b64_encode(y.skip(3))) by {
            assert(forall|i: int|
                0 <= i < b64_encode(x.skip(3)).len() ==> #[trigger] b64_encode(x.skip(3))[i]
                    == b64_encode(x)[i + 4]);
            assert(forall|i: int|
                0 <= i < b64_encode(y.skip(3)).len() ==> #[trigger] b64_encode(y.skip(3))[i]
                    == b64_encode(y)[i + 4]);
        }
        lemma_b64_encode_injective(x.skip(3), y.skip(3));
        assert(x =~= y) by {
            assert(forall|i: int|
                3 <= i < x.len() ==> #[trigger] x[i] == x.skip(3)[i - 3] && x.skip(3)[i - 3]
                    == y.skip(3)[i - 3] && y.skip(3)[i - 3] == y[i]);
        }
    }
}

/// Law: decoding inverts encoding — the canonical encoding of any byte
/// string is decodable, back to exactly that byte string.
pub proof fn lemma_codec_round_trip(x: Seq<u8>)
    ensures
        b64_decodable(b64_encode(x)),
        b64_decoded(b64_encode(x)) == x,
{
    assert(b64_encode(x) == b64_encode(x));
    assert(b64_decodable(b64_encode(x)));
    lemma_b64_encode_injective(b64_decoded(b64_encode(x)), x);
}

/// Relies on `base64ct::Base64Url::encode_string`: URL-safe base64 with `=`
/// padding, character for character the encoding written out by
/// [`b64_encode`]. It panics only when the encoded length would overflow
/// `usize`, which the precondition rules out.
#[verifier::external_body]
pub fn encode(bytes: &[u8]) -> (text: String)
    requires
        4 * bytes@.len() <= usize::MAX,
    ensures
        text@ == b64_encode(bytes@),
{
    <base64ct::Base64Url as base64ct::Encoding>::encode_string(bytes)
}

/// Relies on `base64ct::Base64Url::decode_vec`: it accepts exactly the
/// canonical encodings (padding present and well-formed, trailing bits
/// zero — the decoded last block is re-encoded and compared), and returns
/// the bytes the input encodes.
#[verifier::external_body]
pub fn decode(text: &str) -> (res: Result<Vec<u8>, DecodeError>)
    ensures
        (match res {
            Ok(bytes) => text@ == b64_encode(bytes@),
            Err(e) => e == DecodeError::InvalidEncoding,
        }),
        b64_decodable(text@) ==> res is Ok,
{
    match <base64ct::Base64Url as base64ct::Encoding>::decode_vec(text) {
        Ok(bytes) => Ok(bytes),
        Err(_) => Err(DecodeError::InvalidEncoding),
    }
}

/// Relies on `alloc::string::String::from_utf8`: it succeeds exactly on
/// valid UTF-8 input and returns the text whose UTF-8 encoding is that
/// input.
#[verifier::external_body]
fn bytes_to_text(bytes: Vec<u8>) -> (res: Option<String>)
    ensures
        (match res {
            Some(text) => encode_utf8(text@) == bytes@,
            None => !valid_utf8(bytes@),
        }),
        valid_utf8(bytes@) ==> res is Some,
{
    match String::from_utf8(bytes) {
        Ok(text) => Some(text),
        Err(_) => None,
    }
}

/// Encode a piece of text: the canonical encoding of its UTF-8 bytes.
pub fn encode_text(text: &str) -> (res: String)
    requires
        4 * encode_utf8(text@).len() <= usize::MAX,
    ensures
        res@ == b64_encode(encode_utf8(text@)),
{
    encode(text.as_bytes())
}

/// The text a canonical encoding stands for, when it encodes the UTF-8
/// bytes of some text.
pub open spec fn b64_text_decoded(s: Seq<char>) -> Option<Seq<char>> {
    if b64_decodable(s) && valid_utf8(b64_decoded(s)) {
        Some(decode_utf8(b64_decoded(s)))
    } else {
        None
    }
}

/// Decode canonical codec output back to the text whose UTF-8 bytes it
/// encodes; rejects anything else.
pub fn decode_text(text: &str) -> (res: Result<String, DecodeError>)
    ensures
        (match res {
            Ok(out) => b64_text_decoded(text@) == Some(out@),
            Err(DecodeError::InvalidEncoding) => !b64_decodable(text@),
            Err(DecodeError::InvalidUtf8) => b64_decodable(text@) && !valid_utf8(
                b64_decoded(text@),
            ),
        }),
{
    match decode(text) {
        Ok(bytes) => {
            proof {
                assert(b64_decodable(text@));
                assert(text@ == b64_encode(b64_decoded(text@)));
                lemma_b64_encode_injective(b64_decoded(text@), bytes@);
            }
            match bytes_to_text(bytes) {
                Some(out) => {
                    proof {
                        vstd::utf8::encode_utf8_valid_utf8(out@);
                        vstd::utf8::encode_utf8_decode_utf8(out@);
                    }
                    Ok(out)
                },
                None => Err(DecodeError::InvalidUtf8),
            }
        },
        Err(e) => Err(e),
    }
}

} // verus!
