//! Message-authentication primitive: a keyed digest (HMAC with SHA-512)
//! over the concatenation of a content text and a per-subject salt, the
//! raw digest bytes passed through the canonical codec.
//!
//! Content and salt are concatenated with no delimiter, so callers must
//! hand in self-delimiting content where ambiguity would matter.

use vstd::prelude::*;
use vstd::string::StrSliceExecFns;
use vstd::utf8::encode_utf8;

use crate::codec;

verus! {

/// What `hmac::Hmac<sha2::Sha512>` computes over a key and a message:
/// a 64-byte keyed digest, a pure function of its two arguments.
pub uninterp spec fn hmac_sha512(key: Seq<u8>, msg: Seq<u8>) -> Seq<u8>;

/// Relies on `hmac::Hmac` with `sha2::Sha512`: the digest is a pure
/// 64-byte function of key and message, and keys of any length are
/// accepted (`new_from_slice` on an HMAC never fails).
#[verifier::external_body]
fn hmac_sha512_digest(key: &[u8], msg: &[u8]) -> (digest: Vec<u8>)
    ensures
        digest@ == hmac_sha512(key@, msg@),
        digest@.len() == 64,
{
    let mut state = <hmac::Hmac<sha2::Sha512> as hmac::Mac>::new_from_slice(key).expect(
        "HMAC accepts keys of any length",
    );
    hmac::Mac::update(&mut state, msg);
    hmac::Mac::finalize(state).into_bytes().to_vec()
}

/// The signature text for `content` under `key` and `salt`: the canonical
/// encoding of the keyed digest of the UTF-8 bytes of `content` followed
/// by those of `salt`.
pub open spec fn sign_spec(key: Seq<u8>, content: Seq<char>, salt: Seq<char>) -> Seq<char> {
    codec::b64_encode(hmac_sha512(key, encode_utf8(content) + encode_utf8(salt)))
}

/// Sign `content` with `key`, mixing in the per-subject `salt`.
///
/// HMAC places no constraint on the key, so signing cannot fail.
pub fn sign(key: &[u8], content: &str, salt: &str) -> (sig: String)
    ensures
        sig@ == sign_spec(key@, content@, salt@),
{
    let mut msg = content.as_bytes_vec();
    let mut salt_bytes = salt.as_bytes_vec();
    msg.append(&mut salt_bytes);
    let digest = hmac_sha512_digest(key, msg.as_slice());
    codec::encode(digest.as_slice())
}

/// Compare two texts over their bytes, accumulating the difference across
/// every position instead of returning at the first mismatch, so that for
/// equal lengths the running time does not reveal where the texts part.
/// Signatures and stored credentials are compared with this.
pub fn constant_time_eq(a: &str, b: &str) -> (r: bool)
    ensures
        r == (a@ == b@),
{
    let left = a.as_bytes_vec();
    let right = b.as_bytes_vec();
    if left.len() != right.len() {
        proof {
            assert(a@ != b@);
        }
        return false;
    }
    let n = left.len();
    let mut diff: u8 = 0;
    let mut i: usize = 0;
    while i < n
        invariant
            n == left@.len(),
            n == right@.len(),
            i <= n,
            (diff == 0) <==> (forall|k: int| 0 <= k < i ==> left@[k] == right@[k]),
        decreases n - i,
    {
        let x = left[i];
        let y = right[i];
        let d = x ^ y;
        proof {
            assert(d == 0 <==> x == y) by (bit_vector)
                requires
                    d == (x ^ y),
            ;
            assert((diff | d) == 0 <==> diff == 0 && d == 0) by (bit_vector);
        }
        diff = diff | d;
        i = i + 1;
    }
    let r = diff == 0;
    proof {
        if r {
            assert(left@ =~= right@);
            vstd::utf8::encode_utf8_decode_utf8(a@);
            vstd::utf8::encode_utf8_decode_utf8(b@);
        } else {
            assert(a@ != b@);
        }
    }
    r
}

/// An ephemeral pair of a content text and a per-subject salt; it exists
/// only to be signed.
pub struct SignedContent {
    pub content: String,
    pub salt: String,
}

impl SignedContent {
    /// Sign this content with the given key.
    pub fn sign(&self, key: &[u8]) -> (sig: String)
        ensures
            sig@ == sign_spec(key@, self.content@, self.salt@),
    {
        sign(key, self.content.as_str(), self.salt.as_str())
    }
}

} // verus!
