//! The data-access contract: the storage-agnostic interface the core calls
//! and never implements ad hoc. Every backend presents the same view — a map
//! from user id to user record — and the same integrity guarantees, so the
//! core is fully exercisable against the in-memory backend with no
//! behavioral divergence from a production one.

use vstd::prelude::*;

use crate::error::Error;
use crate::permission::{grant, revoke, Permission};
use crate::project_types::{Layout, Project, ProjectView, User, UserView};

verus! {

/// Some stored user owns `key`.
pub open spec fn store_has_key(users: Map<u32, UserView>, key: Seq<char>) -> bool {
    exists|uid: u32| users.contains_key(uid) && users[uid].public_key == key
}

/// Some stored user is called `name`.
pub open spec fn store_has_name(users: Map<u32, UserView>, name: Seq<char>) -> bool {
    exists|uid: u32| users.contains_key(uid) && users[uid].name == name
}

/// The user record `uid` with `perm` granted or revoked.
pub open spec fn with_permission_set(u: UserView, perm: Permission, add: bool) -> UserView {
    UserView {
        name: u.name,
        public_key: u.public_key,
        permissions: if add {
            grant(u.permissions, perm)
        } else {
            revoke(u.permissions, perm)
        },
    }
}

/// The storage contract. A backend stores user records under stable numeric
/// ids; names and public keys are unique across the store. Reads are exact:
/// a lookup succeeds if and only if the store holds a match. A write may
/// fail with `StorageError` only for a backend cause such as exhausted
/// capacity, never in place of a duplicate verdict, and always leaves the
/// store unchanged.
pub trait ProtonDao: Sized {
    /// The stored users, by user id.
    spec fn users(&self) -> Map<u32, UserView>;

    /// The stored projects, by project name.
    spec fn projects(&self) -> Map<Seq<char>, ProjectView>;

    /// The layout a project plays on when none is chosen.
    spec fn default_layout(&self) -> Layout;

    /// The backend's integrity invariant; every operation preserves it.
    spec fn inv(&self) -> bool;

    /// Uniqueness of identities: no two stored users share a name or a key.
    proof fn lemma_users_unique(&self)
        requires
            self.inv(),
        ensures
            forall|a: u32, b: u32|
                self.users().contains_key(a) && self.users().contains_key(b) && a != b
                    ==> self.users()[a].name != self.users()[b].name
                        && self.users()[a].public_key != self.users()[b].public_key,
    ;

    /// Consistency of the project map: each record is stored under its own
    /// name.
    proof fn lemma_projects_named(&self)
        requires
            self.inv(),
        ensures
            forall|n: Seq<char>|
                #[trigger] self.projects().contains_key(n) ==> self.projects()[n].name == n,
    ;

    /// The id of the user owning `public_key`, when one exists.
    fn get_user_id(&self, public_key: &str) -> (r: Result<u32, Error>)
        requires
            self.inv(),
        ensures
            match r {
                Ok(uid) => self.users().contains_key(uid)
                    && self.users()[uid].public_key == public_key@,
                Err(e) => (e matches Error::UserNotFound)
                    && !store_has_key(self.users(), public_key@),
            },
    ;

    /// The full record of the user with id `uid`, when one exists.
    fn get_user(&self, uid: u32) -> (r: Result<User, Error>)
        requires
            self.inv(),
        ensures
            match r {
                Ok(u) => self.users().contains_key(uid) && u@ == self.users()[uid],
                Err(e) => (e matches Error::UserNotFound) && !self.users().contains_key(uid),
            },
    ;

    /// Stores a new user with no permissions under a fresh id. Fails
    /// `DuplicateUser` exactly when the name or the key is already stored.
    fn add_user(&mut self, name: &str, private_key: &str, public_key: &str) -> (r: Result<
        u32,
        Error,
    >)
        requires
            old(self).inv(),
        ensures
            final(self).inv(),
            final(self).default_layout() == old(self).default_layout(),
            final(self).projects() == old(self).projects(),
            match r {
                Ok(uid) => !old(self).users().contains_key(uid)
                    && !store_has_key(old(self).users(), public_key@)
                    && !store_has_name(old(self).users(), name@)
                    && final(self).users() == old(self).users().insert(uid, UserView {
                        name: name@,
                        public_key: public_key@,
                        permissions: Seq::<Permission>::empty(),
                    }),
                Err(e) => final(self).users() == old(self).users() && match e {
                    Error::DuplicateUser(k, n) => k@ == public_key@ && n@ == name@
                        && (store_has_key(old(self).users(), public_key@)
                            || store_has_name(old(self).users(), name@)),
                    Error::StorageError(_) => !store_has_key(old(self).users(), public_key@)
                        && !store_has_name(old(self).users(), name@),
                    _ => false,
                },
            },
    ;

    /// Deletes the user with id `uid`, when one exists.
    fn remove_user(&mut self, uid: u32) -> (r: Result<(), Error>)
        requires
            old(self).inv(),
        ensures
            final(self).inv(),
            final(self).default_layout() == old(self).default_layout(),
            final(self).projects() == old(self).projects(),
            match r {
                Ok(()) => old(self).users().contains_key(uid)
                    && final(self).users() == old(self).users().remove(uid),
                Err(e) => final(self).users() == old(self).users()
                    && (e matches Error::UserNotFound)
                    && !old(self).users().contains_key(uid),
            },
    ;

    /// The permission set of the user with id `uid`, when one exists.
    fn get_permissions(&self, uid: u32) -> (r: Result<Vec<Permission>, Error>)
        requires
            self.inv(),
        ensures
            match r {
                Ok(perms) => self.users().contains_key(uid)
                    && perms@ == self.users()[uid].permissions,
                Err(e) => (e matches Error::UserNotFound) && !self.users().contains_key(uid),
            },
    ;

    /// Grants (`add`) or revokes (`!add`) one permission of the user with id
    /// `uid`, when one exists; everything else is untouched.
    fn set_permission(&mut self, uid: u32, perm: &Permission, add: bool) -> (r: Result<(), Error>)
        requires
            old(self).inv(),
        ensures
            final(self).inv(),
            final(self).default_layout() == old(self).default_layout(),
            final(self).projects() == old(self).projects(),
            match r {
                Ok(()) => old(self).users().contains_key(uid) && final(self).users() == old(
                    self,
                ).users().insert(uid, with_permission_set(old(self).users()[uid], *perm, add)),
                Err(e) => final(self).users() == old(self).users()
                    && (e matches Error::UserNotFound)
                    && !old(self).users().contains_key(uid),
            },
    ;

    /// The full record of the project called `name`, when one exists.
    fn get_project(&self, name: &str) -> (r: Result<Project, Error>)
        requires
            self.inv(),
        ensures
            match r {
                Ok(p) => self.projects().contains_key(name@) && p@ == self.projects()[name@],
                Err(e) => (e matches Error::LoadProjectError) && !self.projects().contains_key(
                    name@,
                ),
            },
    ;

    /// Stores a new, empty project under `name`; a taken name is a
    /// constraint violation.
    fn new_project(&mut self, name: &str, layout_id: u32) -> (r: Result<(), Error>)
        requires
            old(self).inv(),
        ensures
            final(self).inv(),
            final(self).users() == old(self).users(),
            final(self).default_layout() == old(self).default_layout(),
            match r {
                Ok(()) => !old(self).projects().contains_key(name@) && final(self).projects()
                    == old(self).projects().insert(name@, ProjectView {
                    name: name@,
                    layout_id: layout_id,
                    sequences: Seq::empty(),
                    users: Seq::empty(),
                }),
                Err(e) => final(self).projects() == old(self).projects()
                    && (e matches Error::StorageError(_)) && old(self).projects().contains_key(
                    name@,
                ),
            },
    ;

    /// Replaces the stored project of the same name with `project`, as the
    /// sequence and layout write operations leave it.
    fn set_project(&mut self, project: &Project) -> (r: Result<(), Error>)
        requires
            old(self).inv(),
        ensures
            final(self).inv(),
            final(self).users() == old(self).users(),
            final(self).default_layout() == old(self).default_layout(),
            match r {
                Ok(()) => old(self).projects().contains_key(project@.name)
                    && final(self).projects() == old(self).projects().insert(
                    project@.name,
                    project@,
                ),
                Err(e) => final(self).projects() == old(self).projects()
                    && (e matches Error::LoadProjectError)
                    && !old(self).projects().contains_key(project@.name),
            },
    ;

    /// The backend's default layout.
    fn get_default_layout(&self) -> (r: Layout)
        requires
            self.inv(),
        ensures
            r == self.default_layout(),
    ;
}

} // verus!
