//! The closed error taxonomy, one tagged variant per failure kind.
//!
//! Identity-resolution and bind failures reach a login caller only as
//! `AuthenticationFailed`, so the caller cannot tell an unknown identity
//! from a wrong secret.

use vstd::prelude::*;

verus! {

/// Transport or protocol failure while talking to the identity directory.
#[derive(Debug, Clone, PartialEq, Eq)]
pub struct DirectoryError {
    pub message: String,
}

/// Identity resolution against the directory found no entry, or more than
/// one.
#[derive(Debug, Clone, PartialEq, Eq)]
pub enum ResolveError {
    NotFound,
    Ambiguous,
}

/// Failure of the session store.
///
/// `Conflict` defends against a session-id collision: the composite key
/// (user id, session id) already exists. `ResourceUnavailable` stands for
/// exhaustion of a bounded connection pool after its bounded wait.
#[derive(Debug, Clone, PartialEq, Eq)]
pub enum StoreError {
    Conflict,
    ResourceUnavailable,
}

/// Failure to accept a token: the signature is checked before the expiry,
/// and a token that does not parse at all is malformed.
#[derive(Debug, Clone, PartialEq, Eq)]
pub enum TokenError {
    SignatureInvalid,
    Expired,
    Malformed,
}

/// Failure of a login, logout or check operation.
#[derive(Debug, Clone, PartialEq, Eq)]
pub enum AuthServiceError {
    Directory(DirectoryError),
    AuthenticationFailed,
    Store(StoreError),
    Token(TokenError),
}

/// Failure of the read-only identity listing path.
#[derive(Debug, Clone, PartialEq, Eq)]
pub enum UserServiceError {
    Directory(DirectoryError),
    NotFound,
    Ambiguous,
}

} // verus!
