//! A small, verified authentication core and the plain data model around it.
//!
//! The heart of the crate is a stateless bearer-credential mechanism:
//! a canonical URL-safe byte codec, RFC 3339 time utilities, a keyed
//! message-authentication primitive, a versioned password credential
//! encoder, and a three-part signed token with issue, serialize,
//! deserialize and verify operations. Around it stand the plain data
//! shapes of the service: configuration, request context, users, and the
//! celestial catalog.

#![allow(unused_imports)]

pub mod catalog;
pub mod celestial;
pub mod codec;
pub mod config;
pub mod mac;
pub mod password;
pub mod regions;
pub mod request_context;
pub mod security;
pub mod timeutil;
pub mod token;
pub mod users;

pub use request_context::RequestContext;
