use dirauth::directory::{resolve_single, search_dn, DirEntry, IDENTITY_CLASS_FILTER};
use dirauth::errors::{DirectoryError, ResolveError, UserServiceError};
use dirauth::hex::{hex32_parse, hex32_render};
use dirauth::password::hash_user_password;
use dirauth::requests::{AuthRequest, JsonValidator};
use dirauth::users::{
    entry_to_user, Findable, User, UserDTO, UserRepository, UserResponse, UserService, Userable,
};

fn entry(cn: &str, uid: &str, sn: &str) -> DirEntry {
    DirEntry {
        dn: format!("cn={},ou=people,dc=example,dc=org", cn),
        cn: cn.to_string(),
        sn: sn.to_string(),
        uid: uid.to_string(),
    }
}

fn user_service() -> UserService {
    UserService::new(UserRepository::new("ou=people,dc=example,dc=org".to_string()))
}

#[test]
fn resolve_single_takes_exactly_one() {
    let e = resolve_single(vec![entry("alice", "1001", "Liddell")]).unwrap();
    assert_eq!(e.cn, "alice");
}

#[test]
fn resolve_single_empty_is_not_found() {
    assert_eq!(resolve_single(vec![]).unwrap_err(), ResolveError::NotFound);
}

#[test]
fn resolve_single_two_matches_is_ambiguous_never_arbitrary() {
    let twins = vec![
        entry("alice", "1001", "Liddell"),
        entry("alice", "1005", "Lidell"),
    ];
    assert_eq!(resolve_single(twins).unwrap_err(), ResolveError::Ambiguous);
    let triplets = vec![
        entry("alice", "1001", "Liddell"),
        entry("alice", "1005", "Lidell"),
        entry("alice", "1009", "Lydell"),
    ];
    assert_eq!(resolve_single(triplets).unwrap_err(), ResolveError::Ambiguous);
}

#[test]
fn find_user_by_id_maps_resolution_errors() {
    let svc = user_service();
    let r = svc.find_user_by_id(Ok(vec![]));
    assert_eq!(r.unwrap_err(), UserServiceError::NotFound);
    let r = svc.find_user_by_id(Ok(vec![
        entry("alice", "1001", "Liddell"),
        entry("alice", "1005", "Lidell"),
    ]));
    assert_eq!(r.unwrap_err(), UserServiceError::Ambiguous);
    let broken = DirectoryError {
        message: "unreachable".to_string(),
    };
    let r = svc.find_user_by_id(Err(broken.clone()));
    assert_eq!(r.unwrap_err(), UserServiceError::Directory(broken));
}

#[test]
fn find_user_by_id_projects_the_single_entry() {
    let svc = user_service();
    let d = svc
        .find_user_by_id(Ok(vec![entry("alice", "1001", "Liddell")]))
        .unwrap();
    assert_eq!(d.uid, "1001");
    assert_eq!(d.name, "Liddell");
    assert_eq!(d.email, "alice");
}

#[test]
fn findable_goes_through_the_same_lookup() {
    let svc = user_service();
    let d: UserDTO = Findable::find_by_id(&svc, Ok(vec![entry("bob", "1002", "Builder")])).unwrap();
    assert_eq!(d.email, "bob");
}

#[test]
fn find_all_projects_every_entry_in_order() {
    let svc = user_service();
    let ds = svc
        .find_all(Ok(vec![
            entry("alice", "1001", "Liddell"),
            entry("bob", "1002", "Builder"),
        ]))
        .unwrap();
    assert_eq!(ds.len(), 2);
    assert_eq!(ds[0].uid, "1001");
    assert_eq!(ds[0].name, "Liddell");
    assert_eq!(ds[0].email, "alice");
    assert_eq!(ds[1].uid, "1002");
    assert_eq!(ds[1].name, "Builder");
    assert_eq!(ds[1].email, "bob");
}

#[test]
fn find_all_passes_transport_failures_through() {
    let svc = user_service();
    let broken = DirectoryError {
        message: "down".to_string(),
    };
    let r = svc.find_all(Err(broken.clone()));
    assert_eq!(r.unwrap_err(), UserServiceError::Directory(broken));
}

#[test]
fn conversions_shuffle_the_fields_as_documented() {
    let e = entry("alice", "1001", "Liddell");
    let u: User = entry_to_user(&e);
    assert_eq!((u.cn.as_str(), u.uid.as_str(), u.sn.as_str()), ("alice", "1001", "Liddell"));

    let d = UserDTO::model_to_dto(u);
    assert_eq!(
        (d.uid.as_str(), d.name.as_str(), d.email.as_str()),
        ("1001", "Liddell", "alice")
    );
    assert_eq!(d.get_user_id(), "alice");

    let back = d.dto_to_model();
    assert_eq!(
        (back.cn.as_str(), back.uid.as_str(), back.sn.as_str()),
        ("alice", "1001", "Liddell")
    );

    let resp = UserResponse::dto_to_response(&d);
    assert_eq!(
        (resp.uid.as_str(), resp.name.as_str(), resp.email.as_str()),
        ("1001", "Liddell", "alice")
    );
    let resp2 = UserResponse::user_to_response(&back);
    assert_eq!(
        (resp2.uid.as_str(), resp2.name.as_str(), resp2.email.as_str()),
        ("1001", "Liddell", "alice")
    );
    let many = UserResponse::dtos_to_response(vec![d]);
    assert_eq!(many.len(), 1);
    assert_eq!(many[0].email, "alice");
}

#[test]
fn search_dn_builds_the_lookup_dn() {
    assert_eq!(
        search_dn("alice", "ou=people,dc=example,dc=org"),
        "cn=alice,ou=people,dc=example,dc=org"
    );
    assert_eq!(IDENTITY_CLASS_FILTER, "(objectClass=inetOrgPerson)");
}

#[test]
fn hex_rendering_is_fixed_width_lowercase() {
    assert_eq!(hex32_render(0), "00000000000000000000000000000000");
    assert_eq!(hex32_render(1), "00000000000000000000000000000001");
    assert_eq!(
        hex32_render(0xdead_beef),
        "000000000000000000000000deadbeef"
    );
    assert_eq!(hex32_render(u128::MAX), "ffffffffffffffffffffffffffffffff");
}

#[test]
fn hex_parsing_inverts_rendering_and_rejects_junk() {
    for n in [0u128, 1, 15, 16, 0xdead_beef, u128::MAX, u128::MAX - 1] {
        assert_eq!(hex32_parse(hex32_render(n).as_str()), Some(n));
    }
    assert_eq!(hex32_parse("deadbeef"), None); // too short
    assert_eq!(hex32_parse("000000000000000000000000DEADBEEF"), None); // upper case
    assert_eq!(hex32_parse("00000000000000000000000000000zzz"), None); // no hex
    assert_eq!(hex32_parse(""), None);
}

#[test]
fn password_hash_has_the_bcrypt_2b_cost_5_form() {
    let h = hash_user_password("hunter2").unwrap();
    assert_eq!(h.len(), 60);
    assert!(h.starts_with("$2b$05$"));
    assert_ne!(h, "hunter2");
    // A fresh salt is drawn each time.
    let h2 = hash_user_password("hunter2").unwrap();
    assert_ne!(h, h2);
}

#[test]
fn json_validator_hands_the_inner_value_back() {
    let req = JsonValidator(AuthRequest {
        email: "alice".to_string(),
        password: "secret1".to_string(),
    });
    let inner = req.into_inner();
    assert_eq!(inner.email, "alice");
    assert_eq!(inner.password, "secret1");
}
