//! User records, in the shapes the data layer exchanges them in.
//!
//! The storage itself lives outside this crate; these are the plain values
//! that cross its boundary. `UserLogin` and `UserAuth` carry the per-user
//! salts that the password and token operations take as arguments.

use vstd::prelude::*;

verus! {

/// Sent from the server to the client.
#[derive(Clone, Debug)]
pub struct User {
    pub id: i64,
    pub username: String,
}

/// Sent from the client to the server at account creation.
#[derive(Debug)]
pub struct UserCreate {
    pub username: String,
    pub pwd_clear: String,
}

/// Internal, second step of a user creation.
#[derive(Debug)]
pub struct UserInsert {
    pub username: String,
}

/// Read-only: everything needed to validate a login.
#[derive(Clone, Debug)]
pub struct UserLogin {
    pub id: i64,
    pub username: String,
    pub pwd: Option<String>,
    pub pwd_salt: String,
    pub token_salt: String,
}

/// Read-only subset of [`UserLogin`], enough to check a bearer token.
#[derive(Clone, Debug)]
pub struct UserAuth {
    pub id: i64,
    pub username: String,
    pub token_salt: String,
}

/// Marker trait for the user-shaped records the data layer can fetch.
pub trait UserBy {

}

impl UserBy for User {

}

impl UserBy for UserLogin {

}

impl UserBy for UserAuth {

}

} // verus!
