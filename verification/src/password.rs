//! Versioned password credentials: a storable text built from a clear-text
//! password and a per-user salt, verified by full recomputation.
//!
//! The stored form is `#01#` followed by the signature; the two-digit tag
//! names the algorithm generation, so a later algorithm can be added
//! without breaking stored credentials.

use vstd::prelude::*;
use vstd::string::StringExecFns;

use crate::mac;

verus! {

/// Failure to match a stored credential. A wrong password, a wrong salt
/// and a wrong version tag all collapse into this one answer, so the
/// caller learns nothing about which part differed.
#[derive(Clone, Copy, Debug, PartialEq, Eq)]
pub enum PasswordError {
    Mismatch,
}

/// The credential text stored for `password` under `key` and `salt`: the
/// `#01#` version tag followed by the signature of the raw password.
pub open spec fn password_credential(key: Seq<u8>, password: Seq<char>, salt: Seq<char>) -> Seq<
    char,
> {
    seq!['#', '0', '1', '#'] + mac::sign_spec(key, password, salt)
}

/// True when `stored` is exactly the credential recomputed from
/// `password`, `salt` and `key`.
pub open spec fn password_matches(
    key: Seq<u8>,
    password: Seq<char>,
    salt: Seq<char>,
    stored: Seq<char>,
) -> bool {
    stored == password_credential(key, password, salt)
}

/// Build the storable credential for a clear-text password.
pub fn encode_password(password: &str, salt: &str, key: &[u8]) -> (credential: String)
    ensures
        credential@ == password_credential(key@, password@, salt@),
{
    let signature = mac::sign(key, password, salt);
    let mut credential = "#01#".to_owned();
    credential.append(signature.as_str());
    proof {
        reveal_strlit("#01#");
        assert(credential@ =~= password_credential(key@, password@, salt@));
    }
    credential
}

/// Check a clear-text password against a stored credential: recompute the
/// full versioned text and compare.
pub fn verify_password(password: &str, salt: &str, stored: &str, key: &[u8]) -> (res: Result<
    (),
    PasswordError,
>)
    ensures
        res is Ok <==> password_matches(key@, password@, salt@, stored@),
        res is Err ==> res == Err::<(), PasswordError>(PasswordError::Mismatch),
{
    let recomputed = encode_password(password, salt, key);
    if mac::constant_time_eq(recomputed.as_str(), stored) {
        Ok(())
    } else {
        Err(PasswordError::Mismatch)
    }
}

/// Law: a credential verifies against the password and salt it was built
/// from — verifying `encode_password(password, salt)` with the same
/// password, salt and key succeeds.
pub proof fn lemma_password_round_trip(key: Seq<u8>, password: Seq<char>, salt: Seq<char>)
    ensures
        password_matches(key, password, salt, password_credential(key, password, salt)),
{
}

} // verus!
