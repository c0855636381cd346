//! What the library models of the identity directory: entries with the
//! fixed attribute set {distinguished name, common name, surname, user id},
//! the search DN construction, and the exactly-one resolution rule.
//!
//! The network round-trips themselves (search and bind) happen outside the
//! library; their outcomes are handed in as plain values.

use vstd::prelude::*;

use crate::errors::ResolveError;

verus! {

/// The fixed identity-class filter every directory search uses.
pub const IDENTITY_CLASS_FILTER: &'static str = "(objectClass=inetOrgPerson)";

/// One directory entry, projected onto the fixed attribute set the
/// searches request.
#[derive(Debug, Clone)]
pub struct DirEntry {
    pub dn: String,
    pub cn: String,
    pub sn: String,
    pub uid: String,
}

/// The DN under which an identity is searched: `cn=<identity>,<base dn>`.
pub fn search_dn(identity: &str, base_dn: &str) -> (r: String)
    ensures
        r@ == seq!['c', 'n', '='] + identity@ + seq![','] + base_dn@,
{
    proof {
        reveal_strlit("cn=");
        reveal_strlit(",");
    }
    let mut s = String::new();
    s.append("cn=");
    s.append(identity);
    s.append(",");
    s.append(base_dn);
    proof {
        assert("cn="@ =~= seq!['c', 'n', '=']);
        assert(","@ =~= seq![',']);
        assert(s@ =~= seq!['c', 'n', '='] + identity@ + seq![','] + base_dn@);
    }
    s
}

/// The exactly-one rule for identity resolution: zero matches are
/// `NotFound`, two or more are `Ambiguous` — a directory inconsistency is
/// a hard error, never silently resolved by picking an arbitrary entry.
pub fn resolve_single(entries: Vec<DirEntry>) -> (r: Result<DirEntry, ResolveError>)
    ensures
        entries@.len() == 0 ==> r == Err::<DirEntry, ResolveError>(ResolveError::NotFound),
        entries@.len() > 1 ==> r == Err::<DirEntry, ResolveError>(ResolveError::Ambiguous),
        entries@.len() == 1 ==> r == Ok::<DirEntry, ResolveError>(entries@[0]),
{
    if entries.len() == 0 {
        Err(ResolveError::NotFound)
    } else if entries.len() > 1 {
        Err(ResolveError::Ambiguous)
    } else {
        let mut entries = entries;
        let e = entries.pop().unwrap();
        Ok(e)
    }
}

} // verus!
