//! Local password hashing, offered beside the directory-delegated
//! credential check.

use vstd::prelude::*;

verus! {

#[verifier::external_type_specification]
#[verifier::external_body]
pub struct ExPwhashError(pwhash::error::Error);

/// Relies on pwhash's `bcrypt::hash_with`: the 2b variant at cost 5 (a
/// valid cost, the range being 4 to 31) over a randomly drawn salt. A
/// successful hash has the fixed 60-character form
/// `$2b$05$<22 salt chars><31 hash chars>`.
#[verifier::external_body]
pub fn hash_user_password(password: &str) -> (r: Result<String, pwhash::error::Error>)
    ensures
        r matches Ok(h) ==> h@.len() == 60,
{
    pwhash::bcrypt::hash_with(
        pwhash::bcrypt::BcryptSetup {
            variant: Some(pwhash::bcrypt::BcryptVariant::V2b),
            cost: Some(5),
            ..Default::default()
        },
        password,
    )
}

} // verus!
