//! The project's data model: users identified by their public key, and the
//! project record that the descriptor serializes.

use vstd::prelude::*;
use vstd::string::StringExecFns;

use crate::error::Error;
use crate::keys;
use crate::permission::{grant, revoke, Permission};

verus! {

/// Mathematical model of a user: a name, the PEM public-key text that is the
/// identity, and the set of granted permissions (as a duplicate-free order of
/// grant).
pub ghost struct UserView {
    pub name: Seq<char>,
    pub public_key: Seq<char>,
    pub permissions: Seq<Permission>,
}

/// A project member. `name` and `public_key` are unique within a project and
/// never change once the user is created; `permissions` changes only through
/// grant and revoke operations.
#[derive(Clone, Debug, PartialEq, Eq)]
pub struct User {
    pub name: String,
    pub public_key: String,
    pub permissions: Vec<Permission>,
}

impl View for User {
    type V = UserView;

    open spec fn view(&self) -> UserView {
        UserView {
            name: self.name@,
            public_key: self.public_key@,
            permissions: self.permissions@,
        }
    }
}

impl User {
    /// Checks that `pub_key` is a syntactically valid PEM-encoded RSA public
    /// key; there is no notion of partial validity.
    pub fn validate_public_key(pub_key: &str) -> (r: Result<(), Error>)
        requires
            keys::fits_key_buffer(pub_key),
        ensures
            r is Ok <==> keys::is_valid_rsa_pem(pub_key@),
            r is Err ==> (r->Err_0 matches Error::InvalidPublicKey(k) && k@ == pub_key@),
    {
        if keys::rsa_public_key_parses(pub_key) {
            Ok(())
        } else {
            Err(Error::InvalidPublicKey(pub_key.to_owned()))
        }
    }

    /// Creates a user with no permissions; fails exactly when the key is not
    /// a valid PEM-encoded RSA public key.
    pub fn new(name: &str, pub_key: &str) -> (r: Result<User, Error>)
        requires
            keys::fits_key_buffer(pub_key),
        ensures
            match r {
                Ok(u) => keys::is_valid_rsa_pem(pub_key@) && u@ == (UserView {
                    name: name@,
                    public_key: pub_key@,
                    permissions: Seq::<Permission>::empty(),
                }),
                Err(e) => !keys::is_valid_rsa_pem(pub_key@)
                    && (e matches Error::InvalidPublicKey(k) && k@ == pub_key@),
            },
    {
        match User::validate_public_key(pub_key) {
            Err(e) => Err(e),
            Ok(()) => Ok(
                User {
                    name: name.to_owned(),
                    public_key: pub_key.to_owned(),
                    permissions: Vec::new(),
                },
            ),
        }
    }

    /// Grants `perm`: appends it unless an identical permission is already
    /// held. Name and key are untouched.
    pub fn add_permission(&mut self, perm: &Permission)
        ensures
            final(self)@.permissions == grant(old(self)@.permissions, *perm),
            final(self)@.name == old(self)@.name,
            final(self)@.public_key == old(self)@.public_key,
    {
        if !crate::permission::contains_permission(&self.permissions, perm) {
            self.permissions.push(*perm);
        }
    }

    /// Revokes `perm`: removes every identical permission, keeping the rest
    /// in order. Name and key are untouched.
    pub fn remove_permission(&mut self, perm: &Permission)
        ensures
            final(self)@.permissions == revoke(old(self)@.permissions, *perm),
            final(self)@.name == old(self)@.name,
            final(self)@.public_key == old(self)@.public_key,
    {
        let ghost orig = self@.permissions;
        let mut kept: Vec<Permission> = Vec::new();
        let mut i: usize = 0;
        proof {
            assert(orig.subrange(0, 0) =~= Seq::<Permission>::empty());
            reveal(Seq::filter);
        }
        while i < self.permissions.len()
            invariant
                0 <= i <= self.permissions@.len(),
                self.permissions@ == orig,
                kept@ == revoke(orig.subrange(0, i as int), *perm),
            decreases self.permissions@.len() - i,
        {
            let q = self.permissions[i];
            proof {
                reveal(Seq::filter);
                assert(orig.subrange(0, i + 1).drop_last() =~= orig.subrange(0, i as int));
                assert(orig.subrange(0, i + 1).last() == orig[i as int]);
            }
            if q != *perm {
                kept.push(q);
            }
            i += 1;
        }
        proof {
            assert(orig.subrange(0, orig.len() as int) =~= orig);
        }
        self.permissions = kept;
    }

    /// Whether this user holds exactly `perm` (structural equality of tag and
    /// scope fields; no implicit hierarchy).
    pub fn has_permission(&self, perm: &Permission) -> (r: bool)
        ensures
            r == self@.permissions.contains(*perm),
    {
        crate::permission::contains_permission(&self.permissions, perm)
    }
}

/// A lighting layout reference; the backend stores which layout a sequence
/// plays on and which one is the default.
#[derive(Clone, Copy, Debug, PartialEq, Eq, Structural)]
pub struct Layout {
    pub layout_id: u32,
}

/// Mathematical model of a project record.
pub ghost struct ProjectView {
    pub name: Seq<char>,
    pub layout_id: u32,
    pub sequences: Seq<u32>,
    pub users: Seq<UserView>,
}

/// A project: its name, the layout it plays on, the ordered list of sequence
/// references, and its users.
#[derive(Clone, Debug, PartialEq, Eq)]
pub struct Project {
    pub name: String,
    pub layout_id: u32,
    pub sequences: Vec<u32>,
    pub users: Vec<User>,
}

impl View for Project {
    type V = ProjectView;

    open spec fn view(&self) -> ProjectView {
        ProjectView {
            name: self.name@,
            layout_id: self.layout_id,
            sequences: self.sequences@,
            users: self.users@.map_values(|u: User| u@),
        }
    }
}

/// The sequence list with every reference to `seqid` removed, order kept.
pub open spec fn without_sequence(s: Seq<u32>, seqid: u32) -> Seq<u32> {
    s.filter(|x: u32| x != seqid)
}

/// No two users of the project share a name, and no two share a public key.
pub open spec fn users_unique(users: Seq<UserView>) -> bool {
    forall|i: int, j: int|
        0 <= i < j < users.len() ==> users[i].name != users[j].name
            && users[i].public_key != users[j].public_key
}

/// The state a freshly bootstrapped project is in: no name yet, the default
/// layout, no sequences, and a single administrator named "admin" holding
/// `Administrate`.
pub open spec fn initial_project(admin_key: Seq<char>) -> ProjectView {
    ProjectView {
        name: ""@,
        layout_id: 0,
        sequences: Seq::empty(),
        users: seq![
            UserView {
                name: "admin"@,
                public_key: admin_key,
                permissions: seq![Permission::Administrate],
            },
        ],
    }
}

impl Project {
    /// The initial project for a given administrator key: empty but for the
    /// one genesis administrator. Fails exactly when the key is invalid.
    pub fn empty(admin_pub_key: &str) -> (r: Result<Project, Error>)
        requires
            keys::fits_key_buffer(admin_pub_key),
        ensures
            match r {
                Ok(p) => keys::is_valid_rsa_pem(admin_pub_key@)
                    && p@ == initial_project(admin_pub_key@),
                Err(e) => !keys::is_valid_rsa_pem(admin_pub_key@)
                    && (e matches Error::InvalidPublicKey(k) && k@ == admin_pub_key@),
            },
    {
        let admin_name = String::from_str("admin");
        let mut admin = match User::new(admin_name.as_str(), admin_pub_key) {
            Ok(u) => u,
            Err(e) => {
                return Err(e);
            },
        };
        admin.add_permission(&Permission::Administrate);
        let mut users: Vec<User> = Vec::new();
        users.push(admin);
        let p = Project {
            name: String::new(),
            layout_id: 0,
            sequences: Vec::new(),
            users,
        };
        proof {
            reveal_strlit("");
            assert(p@.name =~= initial_project(admin_pub_key@).name);
            assert(p@.users =~~= initial_project(admin_pub_key@).users);
            assert(p@ == initial_project(admin_pub_key@));
        }
        Ok(p)
    }

    /// Adds a user to the project record. Fails `InvalidPublicKey` on a bad
    /// key, and `DuplicateUser` when the name or the key is already taken;
    /// on success the new user is appended with no permissions.
    pub fn add_user(&mut self, name: &str, pub_key: &str) -> (r: Result<(), Error>)
        requires
            keys::fits_key_buffer(pub_key),
        ensures
            match r {
                Ok(()) => keys::is_valid_rsa_pem(pub_key@)
                    && (forall|i: int| 0 <= i < old(self)@.users.len()
                        ==> old(self)@.users[i].name != name@
                            && old(self)@.users[i].public_key != pub_key@)
                    && final(self)@.users == old(self)@.users.push(UserView {
                        name: name@,
                        public_key: pub_key@,
                        permissions: Seq::<Permission>::empty(),
                    })
                    && final(self)@.name == old(self)@.name
                    && final(self)@.layout_id == old(self)@.layout_id
                    && final(self)@.sequences == old(self)@.sequences
                    && (users_unique(old(self)@.users) ==> users_unique(final(self)@.users)),
                Err(e) => *final(self) == *old(self) && match e {
                    Error::InvalidPublicKey(k) => k@ == pub_key@
                        && !keys::is_valid_rsa_pem(pub_key@),
                    Error::DuplicateUser(k, n) => k@ == pub_key@ && n@ == name@
                        && keys::is_valid_rsa_pem(pub_key@)
                        && (exists|i: int| 0 <= i < old(self)@.users.len()
                            && (old(self)@.users[i].name == name@
                                || old(self)@.users[i].public_key == pub_key@)),
                    _ => false,
                },
            },
    {
        let u = match User::new(name, pub_key) {
            Ok(u) => u,
            Err(e) => {
                return Err(e);
            },
        };
        let mut i: usize = 0;
        while i < self.users.len()
            invariant
                0 <= i <= self.users.len(),
                *self == *old(self),
                u@ == (UserView {
                    name: name@,
                    public_key: pub_key@,
                    permissions: Seq::<Permission>::empty(),
                }),
                keys::is_valid_rsa_pem(pub_key@),
                forall|j: int| 0 <= j < i ==> self@.users[j].name != name@
                    && self@.users[j].public_key != pub_key@,
            decreases self.users.len() - i,
        {
            let name_taken = self.users[i].name.eq(&u.name);
            let key_taken = self.users[i].public_key.eq(&u.public_key);
            if name_taken || key_taken {
                proof {
                    assert(self@.users[i as int] == self.users@[i as int]@);
                    assert(self@.users[i as int].name == name@
                        || self@.users[i as int].public_key == pub_key@);
                }
                return Err(Error::DuplicateUser(pub_key.to_owned(), name.to_owned()));
            }
            proof {
                assert(self@.users[i as int] == self.users@[i as int]@);
            }
            i += 1;
        }
        self.users.push(u);
        proof {
            assert(self@.users =~= old(self)@.users.push(UserView {
                name: name@,
                public_key: pub_key@,
                permissions: Seq::<Permission>::empty(),
            }));
        }
        Ok(())
    }

    /// Inserts a sequence reference at `index`, or appends when no index is
    /// given. An index past the end is a constraint violation.
    pub fn insert_sequence(&mut self, seqid: u32, index: Option<usize>) -> (r: Result<(), Error>)
        ensures
            match r {
                Ok(()) => match index {
                    Some(i) => i <= old(self)@.sequences.len()
                        && final(self)@.sequences == old(self)@.sequences.insert(i as int, seqid),
                    None => final(self)@.sequences == old(self)@.sequences.push(seqid),
                },
                Err(e) => *final(self) == *old(self) && (e matches Error::StorageError(_))
                    && (index matches Some(i) && i > old(self)@.sequences.len()),
            },
            r is Ok ==> final(self)@.name == old(self)@.name && final(self)@.layout_id == old(
                self,
            )@.layout_id && final(self)@.users == old(self)@.users,
    {
        match index {
            None => {
                self.sequences.push(seqid);
                Ok(())
            },
            Some(i) => {
                if i > self.sequences.len() {
                    return Err(
                        Error::StorageError(
                            String::from_str("constraint violation: index out of range"),
                        ),
                    );
                }
                self.sequences.insert(i, seqid);
                Ok(())
            },
        }
    }

    /// Removes every reference to `seqid`; fails when none is present.
    pub fn remove_sequence(&mut self, seqid: u32) -> (r: Result<(), Error>)
        ensures
            match r {
                Ok(()) => old(self)@.sequences.contains(seqid)
                    && final(self)@.sequences == without_sequence(old(self)@.sequences, seqid)
                    && final(self)@.name == old(self)@.name
                    && final(self)@.layout_id == old(self)@.layout_id
                    && final(self)@.users == old(self)@.users,
                Err(e) => *final(self) == *old(self) && (e matches Error::StorageError(_))
                    && !old(self)@.sequences.contains(seqid),
            },
    {
        let ghost orig = self@.sequences;
        let mut kept: Vec<u32> = Vec::new();
        let mut found = false;
        let mut i: usize = 0;
        proof {
            assert(orig.subrange(0, 0) =~= Seq::<u32>::empty());
            reveal(Seq::filter);
        }
        while i < self.sequences.len()
            invariant
                0 <= i <= self.sequences.len(),
                self.sequences@ == orig,
                kept@ == without_sequence(orig.subrange(0, i as int), seqid),
                found == exists|j: int| 0 <= j < i && orig[j] == seqid,
            decreases self.sequences.len() - i,
        {
            let s = self.sequences[i];
            proof {
                reveal(Seq::filter);
                assert(orig.subrange(0, i + 1).drop_last() =~= orig.subrange(0, i as int));
                assert(orig.subrange(0, i + 1).last() == orig[i as int]);
            }
            if s != seqid {
                kept.push(s);
            } else {
                found = true;
            }
            i += 1;
        }
        proof {
            assert(orig.subrange(0, orig.len() as int) =~= orig);
        }
        if !found {
            return Err(Error::StorageError(String::from_str("not-found: sequence")));
        }
        self.sequences = kept;
        Ok(())
    }
}

} // verus!
