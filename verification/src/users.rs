//! The read-only identity listing path and its data shapes.
//!
//! Identities are read from the directory per request, never cached or
//! persisted; this module projects directory entries into the user model
//! and the outward-facing response shapes.

use vstd::prelude::*;

use crate::directory::{resolve_single, DirEntry};
use crate::errors::{DirectoryError, ResolveError, UserServiceError};

verus! {

/// An identity as read from the directory: common name, user id, surname.
#[derive(Debug, Clone)]
pub struct User {
    pub cn: String,
    pub uid: String,
    pub sn: String,
}

/// An identity snapshot handed to callers: the common name serves as the
/// email-like identifier.
#[derive(Debug, Clone)]
pub struct UserDTO {
    pub uid: String,
    pub name: String,
    pub email: String,
}

/// The outward response shape for one identity.
#[derive(Debug, Clone)]
pub struct UserResponse {
    pub uid: String,
    pub name: String,
    pub email: String,
}

/// What a successful login hands back: the identity profile and the
/// signed token.
#[derive(Debug, Clone)]
pub struct AuthenticatedUserDTO {
    pub user: UserResponse,
    pub token: String,
}

/// A type that can name the user id it belongs to.
pub trait Userable {
    fn get_user_id(&self) -> String;
}

impl Userable for UserDTO {
    fn get_user_id(&self) -> String {
        self.email.clone()
    }
}

/// Lookup of one record by a directory search outcome.
pub trait Findable<T> {
    fn find_by_id(&self, search: Result<Vec<DirEntry>, DirectoryError>) -> Result<
        T,
        UserServiceError,
    >;
}

/// The projection of a directory entry into the user model.
pub fn entry_to_user(e: &DirEntry) -> (r: User)
    ensures
        r.cn@ == e.cn@,
        r.uid@ == e.uid@,
        r.sn@ == e.sn@,
{
    User { cn: e.cn.clone(), uid: e.uid.clone(), sn: e.sn.clone() }
}

impl UserDTO {
    /// The surname becomes the display name, the common name the email.
    pub fn model_to_dto(user: User) -> (r: UserDTO)
        ensures
            r.uid == user.uid,
            r.name == user.sn,
            r.email == user.cn,
    {
        UserDTO { uid: user.uid, name: user.sn, email: user.cn }
    }

    pub fn models_to_dto(users: Vec<User>) -> (r: Vec<UserDTO>)
        ensures
            r@.len() == users@.len(),
            forall|i: int|
                0 <= i < users@.len() ==> (#[trigger] r@[i]).uid == users@[i].uid && r@[i].name
                    == users@[i].sn && r@[i].email == users@[i].cn,
    {
        let mut users_dto: Vec<UserDTO> = Vec::new();
        let n = users.len();
        let mut users = users;
        let mut i: usize = 0;
        while i < n
            invariant
                i <= n,
                n == users@.len(),
                users_dto@.len() == i,
                forall|j: int|
                    0 <= j < i ==> (#[trigger] users_dto@[j]).uid == users@[j].uid
                        && users_dto@[j].name == users@[j].sn && users_dto@[j].email
                        == users@[j].cn,
            decreases n - i,
        {
            let u = &users[i];
            users_dto.push(
                UserDTO { uid: u.uid.clone(), name: u.sn.clone(), email: u.cn.clone() },
            );
            i += 1;
        }
        users_dto
    }

    /// The inverse projection, back into the user model.
    pub fn dto_to_model(&self) -> (r: User)
        ensures
            r.uid@ == self.uid@,
            r.sn@ == self.name@,
            r.cn@ == self.email@,
    {
        User { uid: self.uid.clone(), sn: self.name.clone(), cn: self.email.clone() }
    }
}

impl UserResponse {
    pub fn dto_to_response(dto: &UserDTO) -> (r: UserResponse)
        ensures
            r.uid@ == dto.uid@,
            r.name@ == dto.name@,
            r.email@ == dto.email@,
    {
        UserResponse { uid: dto.uid.clone(), name: dto.name.clone(), email: dto.email.clone() }
    }

    pub fn user_to_response(user: &User) -> (r: UserResponse)
        ensures
            r.uid@ == user.uid@,
            r.name@ == user.sn@,
            r.email@ == user.cn@,
    {
        UserResponse { uid: user.uid.clone(), name: user.sn.clone(), email: user.cn.clone() }
    }

    pub fn dtos_to_response(dtos: Vec<UserDTO>) -> (r: Vec<UserResponse>)
        ensures
            r@.len() == dtos@.len(),
            forall|i: int|
                0 <= i < dtos@.len() ==> (#[trigger] r@[i]).uid@ == dtos@[i].uid@ && r@[i].name@
                    == dtos@[i].name@ && r@[i].email@ == dtos@[i].email@,
    {
        let mut response_objects: Vec<UserResponse> = Vec::new();
        let n = dtos.len();
        let mut i: usize = 0;
        while i < n
            invariant
                i <= n,
                n == dtos@.len(),
                response_objects@.len() == i,
                forall|j: int|
                    0 <= j < i ==> (#[trigger] response_objects@[j]).uid@ == dtos@[j].uid@
                        && response_objects@[j].name@ == dtos@[j].name@
                        && response_objects@[j].email@ == dtos@[j].email@,
            decreases n - i,
        {
            response_objects.push(UserResponse::dto_to_response(&dtos[i]));
            i += 1;
        }
        response_objects
    }
}

/// The directory read path: projects search outcomes into the user model.
/// The searches themselves run outside; `base_dn` configures where they
/// are rooted.
pub struct UserRepository {
    pub ldap_auth_base_dn: String,
}

impl UserRepository {
    pub fn new(ldap_auth_base_dn: String) -> (r: UserRepository)
        ensures
            r.ldap_auth_base_dn == ldap_auth_base_dn,
    {
        UserRepository { ldap_auth_base_dn }
    }

    /// Projects every entry of a full listing; a transport failure passes
    /// through unchanged.
    pub fn find_all(&self, search: Result<Vec<DirEntry>, DirectoryError>) -> (r: Result<
        Vec<User>,
        DirectoryError,
    >)
        ensures
            search matches Err(e) ==> r == Err::<Vec<User>, DirectoryError>(e),
            search matches Ok(es) ==> (r matches Ok(us) && us@.len() == es@.len() && (forall|
                i: int,
            |
                0 <= i < es@.len() ==> (#[trigger] us@[i]).cn@ == es@[i].cn@ && us@[i].uid@
                    == es@[i].uid@ && us@[i].sn@ == es@[i].sn@)),
    {
        let entries = match search {
            Ok(es) => es,
            Err(e) => {
                return Err(e);
            },
        };
        let mut parsed_entries: Vec<User> = Vec::new();
        let n = entries.len();
        let mut i: usize = 0;
        while i < n
            invariant
                i <= n,
                n == entries@.len(),
                parsed_entries@.len() == i,
                forall|j: int|
                    0 <= j < i ==> (#[trigger] parsed_entries@[j]).cn@ == entries@[j].cn@
                        && parsed_entries@[j].uid@ == entries@[j].uid@ && parsed_entries@[j].sn@
                        == entries@[j].sn@,
            decreases n - i,
        {
            parsed_entries.push(entry_to_user(&entries[i]));
            i += 1;
        }
        Ok(parsed_entries)
    }

    /// Resolves a search outcome to exactly one user: zero matches are
    /// `NotFound`, several are `Ambiguous`, and a transport failure passes
    /// through.
    pub fn find_by_id(&self, search: Result<Vec<DirEntry>, DirectoryError>) -> (r: Result<
        User,
        UserServiceError,
    >)
        ensures
            search matches Err(e) ==> r == Err::<User, UserServiceError>(
                UserServiceError::Directory(e),
            ),
            search matches Ok(es) ==> ((es@.len() == 0 ==> r == Err::<User, UserServiceError>(
                UserServiceError::NotFound,
            )) && (es@.len() > 1 ==> r == Err::<User, UserServiceError>(
                UserServiceError::Ambiguous,
            )) && (es@.len() == 1 ==> (r matches Ok(u) && u.cn@ == es@[0].cn@ && u.uid@
                == es@[0].uid@ && u.sn@ == es@[0].sn@))),
    {
        let entries = match search {
            Ok(es) => es,
            Err(e) => {
                return Err(UserServiceError::Directory(e));
            },
        };
        match resolve_single(entries) {
            Ok(e) => Ok(entry_to_user(&e)),
            Err(ResolveError::NotFound) => Err(UserServiceError::NotFound),
            Err(ResolveError::Ambiguous) => Err(UserServiceError::Ambiguous),
        }
    }
}

/// The user directory service: a pure pass-through to the directory read
/// path with projection into the read DTO; no caching, every call
/// re-queries the directory.
pub struct UserService {
    pub user_repository: UserRepository,
}

impl UserService {
    pub fn new(user_repository: UserRepository) -> (r: UserService)
        ensures
            r.user_repository == user_repository,
    {
        UserService { user_repository }
    }

    /// Lists every identity of a full search outcome.
    pub fn find_all(&self, search: Result<Vec<DirEntry>, DirectoryError>) -> (r: Result<
        Vec<UserDTO>,
        UserServiceError,
    >)
        ensures
            search matches Err(e) ==> r == Err::<Vec<UserDTO>, UserServiceError>(
                UserServiceError::Directory(e),
            ),
            search matches Ok(es) ==> (r matches Ok(ds) && ds@.len() == es@.len() && (forall|
                i: int,
            |
                0 <= i < es@.len() ==> (#[trigger] ds@[i]).uid@ == es@[i].uid@ && ds@[i].name@
                    == es@[i].sn@ && ds@[i].email@ == es@[i].cn@)),
    {
        match self.user_repository.find_all(search) {
            Ok(users) => Ok(UserDTO::models_to_dto(users)),
            Err(e) => Err(UserServiceError::Directory(e)),
        }
    }

    /// Looks one identity up by a search outcome for its id.
    pub fn find_user_by_id(&self, search: Result<Vec<DirEntry>, DirectoryError>) -> (r: Result<
        UserDTO,
        UserServiceError,
    >)
        ensures
            search matches Err(e) ==> r == Err::<UserDTO, UserServiceError>(
                UserServiceError::Directory(e),
            ),
            search matches Ok(es) ==> ((es@.len() == 0 ==> r == Err::<UserDTO, UserServiceError>(
                UserServiceError::NotFound,
            )) && (es@.len() > 1 ==> r == Err::<UserDTO, UserServiceError>(
                UserServiceError::Ambiguous,
            )) && (es@.len() == 1 ==> (r matches Ok(d) && d.uid@ == es@[0].uid@ && d.name@
                == es@[0].sn@ && d.email@ == es@[0].cn@))),
    {
        match self.user_repository.find_by_id(search) {
            Ok(user) => Ok(UserDTO::model_to_dto(user)),
            Err(e) => Err(e),
        }
    }
}

impl Findable<UserDTO> for UserService {
    fn find_by_id(&self, search: Result<Vec<DirEntry>, DirectoryError>) -> Result<
        UserDTO,
        UserServiceError,
    > {
        self.find_user_by_id(search)
    }
}

} // verus!
