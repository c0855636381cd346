//! The auth orchestrator: composes directory resolution, the session
//! store and the token codec into login, logout and check.
//!
//! The sequencing is mandatory and shows in the contracts: a failed bind
//! never touches the store, and no token is issued without a freshly
//! created backing session row. Identity-resolution and bind failures
//! collapse into one externally visible `AuthenticationFailed`, so a
//! caller cannot enumerate identities.

use vstd::prelude::*;

use crate::directory::DirEntry;
use crate::errors::{AuthServiceError, DirectoryError, StoreError};
use crate::session::{SessionDTO, SessionRepository};
use crate::token::{b64u_of, dot_free, issue, token_of, Claims, ClaimsView};
use crate::users::{entry_to_user, AuthenticatedUserDTO, UserResponse};

verus! {

/// Relies on uuid's `Uuid::new_v4`: a freshly drawn random version-4
/// identifier, returned as its 128-bit value. Nothing is promised of the
/// value; callers must cope with every outcome.
#[verifier::external_body]
fn new_v4_u128() -> (r: u128) {
    uuid::Uuid::new_v4().as_u128()
}

/// The claims a login issues: the entry's common name as user id, the
/// fresh session id, and expiry `now + ttl`.
pub open spec fn issued_claims(cn: Seq<char>, uuid: u128, now: u64, ttl: u64) -> ClaimsView {
    ClaimsView { user_id: cn, uuid, exp: (now + ttl) as u64 }
}

/// A fresh-session login succeeded: some session id, new for this user,
/// was inserted, and the token was issued over exactly that session.
pub open spec fn fresh_login_ok(
    pre: AuthService,
    post: AuthService,
    entry: DirEntry,
    a: AuthenticatedUserDTO,
    now: u64,
) -> bool {
    exists|sid: u128|
        !pre.sessions().contains((entry.cn@, sid)) && post.sessions() == pre.sessions().insert(
            (entry.cn@, sid),
        ) && a.token@ == token_of(
            pre.jwt_secret@,
            #[trigger] issued_claims(entry.cn@, sid, now, pre.jwt_ttl),
        )
}

/// The auth orchestrator. It owns the session store; the signing secret
/// and token TTL are fixed at construction, as process-wide configuration.
pub struct AuthService {
    pub session_repository: SessionRepository,
    pub jwt_secret: String,
    pub jwt_ttl: u64,
    pub ldap_auth_base_dn: String,
}

/// Turns a login-path directory search outcome into the entry to bind
/// against. Resolution failures (no match, several matches) collapse into
/// `AuthenticationFailed`; only a transport failure stays distinguishable.
pub fn resolve_identity(search: Result<Vec<DirEntry>, DirectoryError>) -> (r: Result<
    DirEntry,
    AuthServiceError,
>)
    ensures
        search matches Err(e) ==> r == Err::<DirEntry, AuthServiceError>(
            AuthServiceError::Directory(e),
        ),
        search matches Ok(es) ==> ((es@.len() != 1 ==> r == Err::<DirEntry, AuthServiceError>(
            AuthServiceError::AuthenticationFailed,
        )) && (es@.len() == 1 ==> r == Ok::<DirEntry, AuthServiceError>(es@[0]))),
{
    let entries = match search {
        Ok(es) => es,
        Err(e) => {
            return Err(AuthServiceError::Directory(e));
        },
    };
    match crate::directory::resolve_single(entries) {
        Ok(e) => Ok(e),
        Err(_) => Err(AuthServiceError::AuthenticationFailed),
    }
}

/// The fail-closed policy for the revocation check: any store-level error
/// is reported as "unauthenticated". This deliberately masks a backend
/// outage as an auth failure rather than letting a revoked token pass.
pub fn check_outcome(res: Result<bool, StoreError>) -> (r: bool)
    ensures
        r == (res == Ok::<bool, StoreError>(true)),
{
    match res {
        Ok(b) => b,
        Err(_) => false,
    }
}

impl AuthService {
    /// The store's abstract state: the set of live (user id, session id)
    /// pairs.
    pub open spec fn sessions(self) -> Set<(Seq<char>, u128)> {
        self.session_repository@
    }

    pub open spec fn wf(self) -> bool {
        self.session_repository.wf()
    }

    /// The configuration is immutable: only the session rows ever change.
    pub open spec fn same_config(self, other: AuthService) -> bool {
        self.jwt_secret == other.jwt_secret && self.jwt_ttl == other.jwt_ttl
            && self.ldap_auth_base_dn == other.ldap_auth_base_dn
    }

    pub fn new(
        session_repository: SessionRepository,
        jwt_secret: String,
        jwt_ttl: u64,
        ldap_auth_base_dn: String,
    ) -> (r: AuthService)
        ensures
            r.session_repository == session_repository,
            r.jwt_secret == jwt_secret,
            r.jwt_ttl == jwt_ttl,
            r.ldap_auth_base_dn == ldap_auth_base_dn,
    {
        AuthService { session_repository, jwt_secret, jwt_ttl, ldap_auth_base_dn }
    }

    /// Creates the backing session row, then issues the token over it:
    /// persistence strictly before issuance, so no token is ever issued
    /// without a session row. A store conflict aborts the call unchanged.
    pub fn generate_jwt(&mut self, user_id: String, uuid: u128, now: u64) -> (r: Result<
        String,
        AuthServiceError,
    >)
        requires
            old(self).wf(),
            now + old(self).jwt_ttl <= u64::MAX,
        ensures
            final(self).wf(),
            final(self).same_config(*old(self)),
            old(self).sessions().contains((user_id@, uuid)) ==> r == Err::<
                String,
                AuthServiceError,
            >(AuthServiceError::Store(StoreError::Conflict)) && final(self).sessions() == old(self).sessions(),
            !old(self).sessions().contains((user_id@, uuid)) ==> (r matches Ok(t) && final(self).sessions() == old(self).sessions().insert((user_id@, uuid)) && t@ == token_of(
                old(self).jwt_secret@,
                issued_claims(user_id@, uuid, now, old(self).jwt_ttl),
            ) && dot_free(b64u_of(user_id@))),
    {
        let session = SessionDTO { user_id, uuid };
        let saved = match self.session_repository.save(session) {
            Ok(row) => row,
            Err(e) => {
                return Err(AuthServiceError::Store(e));
            },
        };
        let claims = Claims { user_id: saved.user_id, uuid: saved.uuid, exp: now + self.jwt_ttl };
        let token = issue(self.jwt_secret.as_str(), &claims);
        Ok(token)
    }

    /// Completes a login after the directory bind: a failed bind is one
    /// generic `AuthenticationFailed` and never touches the store; a
    /// successful bind creates the session row for the entry's common name
    /// and issues the token for it.
    pub fn login(
        &mut self,
        entry: &DirEntry,
        bind: Result<bool, DirectoryError>,
        uuid: u128,
        now: u64,
    ) -> (r: Result<AuthenticatedUserDTO, AuthServiceError>)
        requires
            old(self).wf(),
            now + old(self).jwt_ttl <= u64::MAX,
        ensures
            final(self).wf(),
            final(self).same_config(*old(self)),
            bind matches Err(e) ==> r == Err::<AuthenticatedUserDTO, AuthServiceError>(
                AuthServiceError::Directory(e),
            ) && final(self).sessions() == old(self).sessions(),
            bind == Ok::<bool, DirectoryError>(false) ==> r == Err::<
                AuthenticatedUserDTO,
                AuthServiceError,
            >(AuthServiceError::AuthenticationFailed) && final(self).sessions() == old(self).sessions(),
            bind == Ok::<bool, DirectoryError>(true) && old(self).sessions().contains(
                (entry.cn@, uuid),
            ) ==> r == Err::<AuthenticatedUserDTO, AuthServiceError>(
                AuthServiceError::Store(StoreError::Conflict),
            ) && final(self).sessions() == old(self).sessions(),
            bind == Ok::<bool, DirectoryError>(true) && !old(self).sessions().contains(
                (entry.cn@, uuid),
            ) ==> (r matches Ok(a) && final(self).sessions() == old(self).sessions().insert(
                (entry.cn@, uuid),
            ) && a.token@ == token_of(
                old(self).jwt_secret@,
                issued_claims(entry.cn@, uuid, now, old(self).jwt_ttl),
            ) && dot_free(b64u_of(entry.cn@)) && a.user.uid@ == entry.uid@ && a.user.name@
                == entry.sn@ && a.user.email@ == entry.cn@),
    {
        let bound = match bind {
            Ok(b) => b,
            Err(e) => {
                return Err(AuthServiceError::Directory(e));
            },
        };
        if !bound {
            return Err(AuthServiceError::AuthenticationFailed);
        }
        let user = entry_to_user(entry);
        let token = match self.generate_jwt(user.cn.clone(), uuid, now) {
            Ok(t) => t,
            Err(e) => {
                return Err(e);
            },
        };
        Ok(AuthenticatedUserDTO { user: UserResponse::user_to_response(&user), token })
    }

    /// As `login`, with the session id drawn fresh from the random source.
    /// Whatever id came back, a success has inserted exactly that one new
    /// row and issued the token over it.
    pub fn login_fresh(
        &mut self,
        entry: &DirEntry,
        bind: Result<bool, DirectoryError>,
        now: u64,
    ) -> (r: Result<AuthenticatedUserDTO, AuthServiceError>)
        requires
            old(self).wf(),
            now + old(self).jwt_ttl <= u64::MAX,
        ensures
            final(self).wf(),
            final(self).same_config(*old(self)),
            bind matches Err(e) ==> r == Err::<AuthenticatedUserDTO, AuthServiceError>(
                AuthServiceError::Directory(e),
            ) && final(self).sessions() == old(self).sessions(),
            bind == Ok::<bool, DirectoryError>(false) ==> r == Err::<
                AuthenticatedUserDTO,
                AuthServiceError,
            >(AuthServiceError::AuthenticationFailed) && final(self).sessions() == old(self).sessions(),
            r matches Ok(a) ==> (bind == Ok::<bool, DirectoryError>(true) && fresh_login_ok(
                *old(self),
                *final(self),
                *entry,
                a,
                now,
            ) && dot_free(b64u_of(entry.cn@))),
            r is Err ==> final(self).sessions() == old(self).sessions(),
    {
        let ghost pre = *self;
        let ghost bindg = bind;
        let uuid = new_v4_u128();
        let r = self.login(entry, bind, uuid, now);
        proof {
            if r is Ok {
                let a = r->Ok_0;
                assert(bindg matches Ok(b) && b == true);
                assert(bindg == Ok::<bool, DirectoryError>(true));
                assert(!pre.sessions().contains((entry.cn@, uuid)));
                assert(self.sessions() == pre.sessions().insert((entry.cn@, uuid)));
                assert(fresh_login_ok(pre, *self, *entry, a, now));
            } else {
                if bindg is Ok {
                    let b = bindg->Ok_0;
                    assert(bindg == Ok::<bool, DirectoryError>(b));
                    if b {
                        assert(pre.sessions().contains((entry.cn@, uuid)));
                    }
                }
                assert(self.sessions() == pre.sessions());
            }
        }
        r
    }

    /// Resolves the session the token refers to and deletes its row.
    /// Always reports success, even where the row was already absent, so
    /// a caller learns nothing about session existence.
    pub fn logout(&mut self, session: SessionDTO) -> (r: Result<(), AuthServiceError>)
        requires
            old(self).wf(),
        ensures
            final(self).wf(),
            final(self).same_config(*old(self)),
            final(self).sessions() == old(self).sessions().remove((session.user_id@, session.uuid)),
            r == Ok::<(), AuthServiceError>(()),
    {
        match self.session_repository.delete(session) {
            Ok(_) => Ok(()),
            Err(e) => Err(AuthServiceError::Store(e)),
        }
    }

    /// The revocation check for claims that already passed token
    /// verification upstream: true exactly while the backing session row
    /// exists. Store-level errors would read as "unauthenticated"
    /// (fail-closed, see `check_outcome`).
    pub fn check(&self, claims: &Claims) -> (r: bool)
        ensures
            r == self.sessions().contains((claims.user_id@, claims.uuid)),
    {
        let session = SessionDTO { user_id: claims.user_id.clone(), uuid: claims.uuid };
        check_outcome(self.session_repository.exists_session(&session))
    }

    /// The whole stateless-then-stateful acceptance path: the token must
    /// verify under the service's secret and its session row must still
    /// exist. A well-formed token is accepted exactly while it is
    /// unexpired and unrevoked.
    pub fn authenticate(&self, token: &str, now: u64) -> (r: bool)
        ensures
            r ==> exists|cv: ClaimsView|
                token@ == #[trigger] token_of(self.jwt_secret@, cv) && cv.exp >= now
                    && self.sessions().contains((cv.user_id, cv.uuid)),
            forall|cv: ClaimsView|
                token@ == #[trigger] token_of(self.jwt_secret@, cv) && dot_free(
                    b64u_of(cv.user_id),
                ) ==> r == (cv.exp >= now && self.sessions().contains((cv.user_id, cv.uuid))),
    {
        match crate::token::verify(self.jwt_secret.as_str(), token, now) {
            Ok(claims) => {
                let ok = self.check(&claims);
                proof {
                    if ok {
                        assert(token@ == token_of(self.jwt_secret@, claims@) && claims@.exp >= now
                            && self.sessions().contains((claims@.user_id, claims@.uuid)));
                    }
                }
                ok
            },
            Err(_) => false,
        }
    }
}

/// A token returned by a successful login passes the revocation check at
/// once: its claims are exactly the issued ones, its expiry lies `ttl`
/// ahead of `now`, and the session row it references was just inserted.
pub proof fn lemma_login_token_checks_immediately(
    pre: AuthService,
    post: AuthService,
    entry: DirEntry,
    uuid: u128,
    now: u64,
    a: AuthenticatedUserDTO,
)
    requires
        now + pre.jwt_ttl <= u64::MAX,
        post.same_config(pre),
        post.sessions() == pre.sessions().insert((entry.cn@, uuid)),
        a.token@ == token_of(pre.jwt_secret@, issued_claims(entry.cn@, uuid, now, pre.jwt_ttl)),
        dot_free(b64u_of(entry.cn@)),
    ensures
        ({
            let cv = issued_claims(entry.cn@, uuid, now, pre.jwt_ttl);
            &&& a.token@ == token_of(post.jwt_secret@, cv)
            &&& dot_free(b64u_of(cv.user_id))
            &&& cv.exp >= now
            &&& post.sessions().contains((cv.user_id, cv.uuid))
        }),
{
    broadcast use vstd::set::group_set_axioms;

}

/// After logout, the revocation check refuses the token's session, even
/// though the token's signature and expiry are untouched.
pub proof fn lemma_logout_revokes(pre: AuthService, post: AuthService, claims: Claims)
    requires
        post.sessions() == pre.sessions().remove((claims.user_id@, claims.uuid)),
    ensures
        !post.sessions().contains((claims.user_id@, claims.uuid)),
{
    broadcast use vstd::set::group_set_axioms;

}

} // verus!
