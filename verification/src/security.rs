//! Token issue and verification against the process clock.
//!
//! These are the clock-bound fronts over [`crate::token`]: the key, salt
//! and lifetime are handed in explicitly, and the current time is read
//! once per call. Everything said here holds whatever instant the clock
//! returned.

use vstd::prelude::*;
use vstd::utf8::encode_utf8;

use crate::timeutil;
use crate::token::{self, Token, TokenError};

verus! {

/// Issue a token for `username` that expires `duration_ms` milliseconds
/// from now (the deadline pulled into the representable range): whatever
/// the clock returned, the expiration is the canonical text of some
/// in-range instant lying `duration_ms` after it.
pub fn generate_web_token(username: &str, duration_ms: i64, salt: &str, key: &[u8]) -> (t: Token)
    requires
        0 <= duration_ms <= timeutil::MAX_TIMESTAMP_MS,
        4 * encode_utf8(username@).len() <= usize::MAX,
    ensures
        t@.identifier == username@,
        token::signature_ok(key@, salt@, t@),
        exists|clock: int|
            0 <= clock && clock + duration_ms <= timeutil::MAX_TIMESTAMP_MS && t@.expiration
                == #[trigger] timeutil::rfc3339_format(clock + duration_ms)
                && timeutil::rfc3339_parse(t@.expiration) == Some(clock + duration_ms),
        encode_utf8(t@.expiration).len() <= 35,
{
    let now = timeutil::clamped_now_ms(duration_ms);
    token::issue_token(username, duration_ms, salt, key, now)
}

/// Verify a presented token against the current time. The signature and
/// format verdicts do not depend on the clock; only the expiry check does.
pub fn validate_web_token(presented: &Token, salt: &str, key: &[u8]) -> (res: Result<
    (),
    TokenError,
>)
    requires
        4 * encode_utf8(presented.identifier@).len() <= usize::MAX,
        4 * encode_utf8(presented.expiration@).len() <= usize::MAX,
    ensures
        exists|now: int| res == token::verdict(key@, salt@, presented@, now),
        res == Err::<(), TokenError>(TokenError::SignatureMismatch) <==> !token::signature_ok(
            key@,
            salt@,
            presented@,
        ),
        res == Err::<(), TokenError>(TokenError::ExpirationNotCanonical) <==> (
        token::signature_ok(key@, salt@, presented@) && timeutil::rfc3339_parse(
            presented@.expiration,
        ) is None),
        res is Ok ==> token::signature_ok(key@, salt@, presented@) && timeutil::rfc3339_parse(
            presented@.expiration,
        ) is Some,
{
    let now = timeutil::now_ms();
    let res = token::verify_token(presented, salt, key, now);
    proof {
        assert(res == token::verdict(key@, salt@, presented@, now as int));
    }
    res
}

} // verus!
