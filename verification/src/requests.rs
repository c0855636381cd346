//! Inbound request shapes: the login credentials and the validated-JSON
//! wrapper the transport layer fills in.

use vstd::prelude::*;

verus! {

/// The transient login input: identity and secret. Never stored.
#[derive(Debug, Clone)]
pub struct AuthRequest {
    pub email: String,
    pub password: String,
}

/// A value that arrived as JSON and passed validation at the transport
/// boundary.
#[derive(Debug)]
pub struct JsonValidator<T>(pub T);

impl<T> JsonValidator<T> {
    /// Deconstruct to an inner value.
    pub fn into_inner(self) -> (r: T)
        ensures
            r == self.0,
    {
        self.0
    }
}

} // verus!
