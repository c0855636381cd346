use dirauth::errors::StoreError;
use dirauth::session::{Session, SessionDTO, SessionRepository};

fn dto(user: &str, uuid: u128) -> SessionDTO {
    SessionDTO::new(user.to_string(), uuid)
}

#[test]
fn save_returns_the_persisted_row() {
    let mut repo = SessionRepository::new();
    let row: Session = repo.save(dto("alice", 7)).unwrap();
    assert_eq!(row.user_id, "alice");
    assert_eq!(row.uuid, 7);
    assert_eq!(repo.exists_session(&dto("alice", 7)), Ok(true));
    assert_eq!(repo.exists_session(&dto("alice", 8)), Ok(false));
    assert_eq!(repo.exists_session(&dto("bob", 7)), Ok(false));
}

#[test]
fn save_conflicts_on_duplicate_composite_key() {
    let mut repo = SessionRepository::new();
    repo.save(dto("alice", 7)).unwrap();
    assert_eq!(repo.save(dto("alice", 7)).unwrap_err(), StoreError::Conflict);
    // The same session id under another user is a different key.
    assert!(repo.save(dto("bob", 7)).is_ok());
    // The same user under another session id is a different key too.
    assert!(repo.save(dto("alice", 8)).is_ok());
}

#[test]
fn delete_is_idempotent() {
    let mut repo = SessionRepository::new();
    repo.save(dto("alice", 7)).unwrap();
    // First call removes one row; the repeated call removes zero rows and
    // raises no error.
    assert_eq!(repo.delete(dto("alice", 7)), Ok(1));
    assert_eq!(repo.delete(dto("alice", 7)), Ok(0));
    assert_eq!(repo.exists_session(&dto("alice", 7)), Ok(false));
}

#[test]
fn delete_of_absent_row_reports_zero() {
    let mut repo = SessionRepository::new();
    assert_eq!(repo.delete(dto("ghost", 1)), Ok(0));
}

#[test]
fn delete_removes_only_the_named_row() {
    let mut repo = SessionRepository::new();
    repo.save(dto("alice", 1)).unwrap();
    repo.save(dto("alice", 2)).unwrap();
    assert_eq!(repo.delete(dto("alice", 1)), Ok(1));
    assert_eq!(repo.exists_session(&dto("alice", 1)), Ok(false));
    assert_eq!(repo.exists_session(&dto("alice", 2)), Ok(true));
}

#[test]
fn delete_by_user_id_removes_all_rows_of_that_user() {
    let mut repo = SessionRepository::new();
    repo.save(dto("alice", 1)).unwrap();
    repo.save(dto("alice", 2)).unwrap();
    repo.save(dto("alice", 3)).unwrap();
    repo.save(dto("bob", 4)).unwrap();

    assert_eq!(repo.delete_by_user_id("alice".to_string()), Ok(3));
    assert_eq!(repo.exists_session(&dto("alice", 1)), Ok(false));
    assert_eq!(repo.exists_session(&dto("alice", 2)), Ok(false));
    assert_eq!(repo.exists_session(&dto("alice", 3)), Ok(false));
    assert_eq!(repo.exists_session(&dto("bob", 4)), Ok(true));
    // A second bulk revoke finds nothing.
    assert_eq!(repo.delete_by_user_id("alice".to_string()), Ok(0));
}

#[test]
fn session_dto_new_keeps_its_fields() {
    let s = SessionDTO::new("carol".to_string(), 99);
    assert_eq!(s.user_id, "carol");
    assert_eq!(s.uuid, 99);
}
