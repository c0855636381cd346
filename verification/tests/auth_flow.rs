use dirauth::auth::{check_outcome, resolve_identity, AuthService};
use dirauth::directory::DirEntry;
use dirauth::errors::{AuthServiceError, DirectoryError, StoreError, TokenError};
use dirauth::session::{SessionDTO, SessionRepository};
use dirauth::token::{issue, verify, Claims};

fn entry(cn: &str, uid: &str, sn: &str) -> DirEntry {
    DirEntry {
        dn: format!("cn={},ou=people,dc=example,dc=org", cn),
        cn: cn.to_string(),
        sn: sn.to_string(),
        uid: uid.to_string(),
    }
}

fn service(secret: &str, ttl: u64) -> AuthService {
    AuthService::new(
        SessionRepository::new(),
        secret.to_string(),
        ttl,
        "ou=people,dc=example,dc=org".to_string(),
    )
}

#[test]
fn alice_login_then_check_then_logout() {
    let mut svc = service("topsecret", 3600);
    let alice = entry("alice", "1001", "Liddell");
    let now: u64 = 1_700_000_000;
    let uuid: u128 = 42;

    let auth = svc.login(&alice, Ok(true), uuid, now).unwrap();
    assert_eq!(auth.user.email, "alice");
    assert_eq!(auth.user.name, "Liddell");
    assert_eq!(auth.user.uid, "1001");

    let claims = verify("topsecret", auth.token.as_str(), now).unwrap();
    assert_eq!(claims.user_id, "alice");
    assert_eq!(claims.uuid, uuid);
    assert_eq!(claims.exp, now + 3600);
    assert!(svc.check(&claims));
    assert!(svc.authenticate(auth.token.as_str(), now));

    svc.logout(SessionDTO::new("alice".to_string(), uuid)).unwrap();
    // The signature and expiry still verify, but the session is gone.
    let claims_again = verify("topsecret", auth.token.as_str(), now).unwrap();
    assert!(!svc.check(&claims_again));
    assert!(!svc.authenticate(auth.token.as_str(), now));
}

#[test]
fn logout_of_absent_session_still_succeeds() {
    let mut svc = service("topsecret", 3600);
    let r = svc.logout(SessionDTO::new("nobody".to_string(), 7));
    assert!(r.is_ok());
}

#[test]
fn bob_wrong_secret_fails_and_creates_no_session() {
    let mut svc = service("topsecret", 3600);
    let bob = entry("bob", "1002", "Builder");
    let now: u64 = 1_700_000_000;

    let r = svc.login(&bob, Ok(false), 77, now);
    assert!(matches!(r, Err(AuthServiceError::AuthenticationFailed)));
    let removed = svc
        .session_repository
        .delete_by_user_id("bob".to_string())
        .unwrap();
    assert_eq!(removed, 0);
}

#[test]
fn bind_transport_error_stays_distinguishable() {
    let mut svc = service("topsecret", 3600);
    let alice = entry("alice", "1001", "Liddell");
    let broken = DirectoryError {
        message: "connection reset".to_string(),
    };
    let r = svc.login(&alice, Err(broken.clone()), 1, 0);
    assert!(matches!(r, Err(AuthServiceError::Directory(e)) if e == broken));
    assert_eq!(
        svc.session_repository
            .exists_session(&SessionDTO::new("alice".to_string(), 1)),
        Ok(false)
    );
}

#[test]
fn session_id_collision_aborts_without_token() {
    let mut svc = service("topsecret", 3600);
    let alice = entry("alice", "1001", "Liddell");
    svc.login(&alice, Ok(true), 5, 0).unwrap();
    let r = svc.login(&alice, Ok(true), 5, 0);
    assert!(matches!(
        r,
        Err(AuthServiceError::Store(StoreError::Conflict))
    ));
}

#[test]
fn carol_concurrent_sessions_are_independent() {
    let mut svc = service("topsecret", 3600);
    let carol = entry("carol", "1003", "Danvers");
    let now: u64 = 1_700_000_000;

    let first = svc.login(&carol, Ok(true), 100, now).unwrap();
    let second = svc.login(&carol, Ok(true), 200, now).unwrap();
    assert_ne!(first.token, second.token);
    assert!(svc.authenticate(first.token.as_str(), now));
    assert!(svc.authenticate(second.token.as_str(), now));

    svc.logout(SessionDTO::new("carol".to_string(), 100)).unwrap();
    assert!(!svc.authenticate(first.token.as_str(), now));
    assert!(svc.authenticate(second.token.as_str(), now));
}

#[test]
fn login_fresh_draws_distinct_sessions() {
    let mut svc = service("topsecret", 3600);
    let carol = entry("carol", "1003", "Danvers");
    let now: u64 = 1_700_000_000;

    let first = svc.login_fresh(&carol, Ok(true), now).unwrap();
    let second = svc.login_fresh(&carol, Ok(true), now).unwrap();
    assert_ne!(first.token, second.token);
    assert!(svc.authenticate(first.token.as_str(), now));
    assert!(svc.authenticate(second.token.as_str(), now));
    let r = svc.login_fresh(&carol, Ok(false), now);
    assert!(matches!(r, Err(AuthServiceError::AuthenticationFailed)));
}

#[test]
fn bulk_revoke_kills_only_that_users_tokens() {
    let mut svc = service("topsecret", 3600);
    let carol = entry("carol", "1003", "Danvers");
    let dave = entry("dave", "1004", "Grohl");
    let now: u64 = 1_700_000_000;

    let c1 = svc.login(&carol, Ok(true), 1, now).unwrap();
    let c2 = svc.login(&carol, Ok(true), 2, now).unwrap();
    let d1 = svc.login(&dave, Ok(true), 3, now).unwrap();

    let removed = svc
        .session_repository
        .delete_by_user_id("carol".to_string())
        .unwrap();
    assert_eq!(removed, 2);
    assert!(!svc.authenticate(c1.token.as_str(), now));
    assert!(!svc.authenticate(c2.token.as_str(), now));
    assert!(svc.authenticate(d1.token.as_str(), now));
}

#[test]
fn expired_token_fails_verify_even_with_live_session() {
    let mut svc = service("topsecret", 10);
    let alice = entry("alice", "1001", "Liddell");
    let now: u64 = 1_000;

    let auth = svc.login(&alice, Ok(true), 9, now).unwrap();
    // The session row still exists, yet verification itself refuses the
    // token once its expiry (now + 10) lies in the past.
    assert_eq!(
        svc.session_repository
            .exists_session(&SessionDTO::new("alice".to_string(), 9)),
        Ok(true)
    );
    let r = verify("topsecret", auth.token.as_str(), now + 11);
    assert_eq!(r.unwrap_err(), TokenError::Expired);
    assert!(!svc.authenticate(auth.token.as_str(), now + 11));
    // At the very expiry second the token still passes.
    assert!(svc.authenticate(auth.token.as_str(), now + 10));
}

#[test]
fn tampered_signature_is_rejected_before_expiry() {
    let token = issue(
        "topsecret",
        &Claims {
            user_id: "alice".to_string(),
            uuid: 42,
            exp: 50,
        },
    );
    let mut tampered = token.clone();
    let last = tampered.pop().unwrap();
    tampered.push(if last == 'A' { 'B' } else { 'A' });
    // Signature is checked before expiry: even on an expired tampered
    // token the answer is SignatureInvalid.
    assert_eq!(
        verify("topsecret", tampered.as_str(), 100).unwrap_err(),
        TokenError::SignatureInvalid
    );
    assert_eq!(
        verify("topsecret", tampered.as_str(), 0).unwrap_err(),
        TokenError::SignatureInvalid
    );
}

#[test]
fn wrong_key_is_rejected() {
    let token = issue(
        "topsecret",
        &Claims {
            user_id: "alice".to_string(),
            uuid: 42,
            exp: 50,
        },
    );
    assert_eq!(
        verify("othersecret", token.as_str(), 0).unwrap_err(),
        TokenError::SignatureInvalid
    );
}

#[test]
fn malformed_tokens_are_rejected() {
    assert_eq!(
        verify("topsecret", "nodotsatall", 0).unwrap_err(),
        TokenError::Malformed
    );
    assert_eq!(
        verify("topsecret", "one.two", 0).unwrap_err(),
        TokenError::Malformed
    );
    // Four fields, but the session id is no 32-digit lowercase hex string.
    assert_eq!(
        verify("topsecret", "YWxpY2U.XYZ.00000000000000000000000000000032.s", 0).unwrap_err(),
        TokenError::Malformed
    );
    // An upper-case hex digit breaks the canonical form.
    assert_eq!(
        verify(
            "topsecret",
            "YWxpY2U.0000000000000000000000000000002A.00000000000000000000000000000032.s",
            0
        )
        .unwrap_err(),
        TokenError::Malformed
    );
    // A user id field that is no base64url string.
    assert_eq!(
        verify(
            "topsecret",
            "a&b.0000000000000000000000000000002a.00000000000000000000000000000032.s",
            0
        )
        .unwrap_err(),
        TokenError::Malformed
    );
}

#[test]
fn token_fields_are_encoded_not_plaintext() {
    let token = issue(
        "topsecret",
        &Claims {
            user_id: "alice".to_string(),
            uuid: 0xdeadbeef,
            exp: 0x10,
        },
    );
    let parts: Vec<&str> = token.split('.').collect();
    assert_eq!(parts.len(), 4);
    // base64url of "alice", with no padding.
    assert_eq!(parts[0], "YWxpY2U");
    assert_eq!(parts[1], "000000000000000000000000deadbeef");
    assert_eq!(parts[2], "00000000000000000000000000000010");
    assert!(!parts[3].is_empty());
    assert_ne!(parts[3], "topsecret");
}

#[test]
fn resolve_identity_collapses_resolution_failures() {
    let alice = entry("alice", "1001", "Liddell");
    let bis = entry("alice", "1005", "Lidell");

    let r = resolve_identity(Ok(vec![]));
    assert!(matches!(r, Err(AuthServiceError::AuthenticationFailed)));
    let r = resolve_identity(Ok(vec![alice.clone(), bis]));
    assert!(matches!(r, Err(AuthServiceError::AuthenticationFailed)));
    let r = resolve_identity(Ok(vec![alice])).unwrap();
    assert_eq!(r.cn, "alice");
    let broken = DirectoryError {
        message: "timeout".to_string(),
    };
    let r = resolve_identity(Err(broken.clone()));
    assert!(matches!(r, Err(AuthServiceError::Directory(e)) if e == broken));
}

#[test]
fn check_is_fail_closed_on_store_errors() {
    assert!(check_outcome(Ok(true)));
    assert!(!check_outcome(Ok(false)));
    assert!(!check_outcome(Err(StoreError::ResourceUnavailable)));
    assert!(!check_outcome(Err(StoreError::Conflict)));
}
