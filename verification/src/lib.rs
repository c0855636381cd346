//! Directory-backed authentication with server-revocable bearer tokens.
//!
//! A login is checked against an external identity directory (search for
//! exactly one entry, then bind with the caller's secret), recorded as a
//! session row, and answered with a signed, expiring token. A token is
//! accepted only while its signature verifies, its expiry has not passed,
//! and the backing session row still exists, so deleting the row revokes
//! the token early.

use vstd::prelude::*;

pub mod auth;
pub mod directory;
pub mod errors;
pub mod hex;
pub mod password;
pub mod requests;
pub mod session;
pub mod token;
pub mod users;

verus! {

/// Process-wide configuration, constructed once at startup and passed to
/// each component at construction; there is no ambient global lookup.
pub struct Configuration {
    pub database_name: String,
    pub database_user: String,
    pub database_password: String,
    pub database_host: String,
    pub migration_location: String,
    pub migration_version: String,
    pub file_storage_location: String,
    pub jwt_ttl: u64,
    pub jwt_secret: String,
    pub ldap_url: String,
    pub ldap_auth_base_dn: String,
}

} // verus!
