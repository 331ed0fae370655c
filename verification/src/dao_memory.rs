//! The in-memory storage backend: the test double of the data-access
//! contract. It keeps user records in a vector of `(id, record)` pairs and
//! presents them as the map the contract speaks of; ids are handed out from a
//! counter and never reused.

use vstd::prelude::*;
use vstd::string::StringExecFns;

use crate::dao::{store_has_key, store_has_name, with_permission_set, ProtonDao};
use crate::error::Error;
use crate::permission::{copy_permissions, Permission};
use crate::project_types::{Layout, Project, ProjectView, User, UserView};

verus! {

/// The map a sequence of `(id, record)` pairs presents: later pairs shadow
/// earlier ones, which never happens when the ids are distinct.
pub open spec fn user_map_of(s: Seq<(u32, User)>) -> Map<u32, UserView>
    decreases s.len(),
{
    if s.len() == 0 {
        Map::empty()
    } else {
        user_map_of(s.drop_last()).insert(s.last().0, s.last().1@)
    }
}

/// No two pairs share an id, a user name, or a public key.
pub open spec fn entries_distinct(s: Seq<(u32, User)>) -> bool {
    forall|i: int, j: int|
        0 <= i < j < s.len() ==> s[i].0 != s[j].0 && s[i].1@.name != s[j].1@.name
            && s[i].1@.public_key != s[j].1@.public_key
}

/// With distinct ids, the map of a pair sequence holds exactly the ids of
/// the pairs, each mapped to its own record.
pub proof fn lemma_user_map_of_props(s: Seq<(u32, User)>)
    requires
        entries_distinct(s),
    ensures
        forall|uid: u32|
            #[trigger] user_map_of(s).contains_key(uid) ==> exists|i: int|
                0 <= i < s.len() && s[i].0 == uid,
        forall|i: int|
            0 <= i < s.len() ==> user_map_of(s).contains_key(#[trigger] s[i].0) && user_map_of(
                s,
            )[s[i].0] == s[i].1@,
    decreases s.len(),
{
    if s.len() > 0 {
        let t = s.drop_last();
        assert(forall|i: int| 0 <= i < t.len() ==> t[i] == s[i]);
        assert(entries_distinct(t));
        lemma_user_map_of_props(t);
        assert forall|i: int| 0 <= i < s.len() implies user_map_of(s).contains_key(
            #[trigger] s[i].0,
        ) && user_map_of(s)[s[i].0] == s[i].1@ by {
            if i < s.len() - 1 {
                assert(s[i].0 != s.last().0);
                assert(user_map_of(t).contains_key(s[i].0) && user_map_of(t)[s[i].0] == s[i].1@);
            }
        }
        assert forall|uid: u32| #[trigger] user_map_of(s).contains_key(uid) implies exists|i: int|
            0 <= i < s.len() && s[i].0 == uid by {
            if uid == s.last().0 {
                assert(s[s.len() - 1].0 == uid);
            } else {
                assert(user_map_of(t).contains_key(uid));
                let i = choose|i: int| 0 <= i < t.len() && t[i].0 == uid;
                assert(s[i].0 == uid);
            }
        }
    }
}

/// Appending a pair with a fresh id inserts its record into the map.
pub proof fn lemma_user_map_of_push(s: Seq<(u32, User)>, pair: (u32, User))
    requires
        entries_distinct(s),
        forall|i: int|
            0 <= i < s.len() ==> (#[trigger] s[i]).0 != pair.0 && s[i].1@.name != pair.1@.name
                && s[i].1@.public_key != pair.1@.public_key,
    ensures
        entries_distinct(s.push(pair)),
        user_map_of(s.push(pair)) == user_map_of(s).insert(pair.0, pair.1@),
{
    let p = s.push(pair);
    assert(forall|i: int| 0 <= i < s.len() ==> p[i] == s[i]);
    assert(p[p.len() - 1] == pair);
    assert(p.drop_last() =~= s);
}

/// Removing the pair at `i` removes exactly its id from the map.
pub proof fn lemma_user_map_of_remove(s: Seq<(u32, User)>, i: int)
    requires
        entries_distinct(s),
        0 <= i < s.len(),
    ensures
        entries_distinct(s.remove(i)),
        user_map_of(s.remove(i)) == user_map_of(s).remove(s[i].0),
{
    let t = s.remove(i);
    assert(forall|j: int| 0 <= j < i ==> t[j] == s[j]);
    assert(forall|j: int| i <= j < t.len() ==> t[j] == s[j + 1]);
    assert(entries_distinct(t));
    lemma_user_map_of_props(s);
    lemma_user_map_of_props(t);
    assert forall|uid: u32| #[trigger] user_map_of(t).contains_key(uid) implies user_map_of(
        s,
    ).remove(s[i].0).contains_key(uid) by {
        let j = choose|j: int| 0 <= j < t.len() && t[j].0 == uid;
        let k = if j < i {
            j
        } else {
            j + 1
        };
        assert(s[k].0 == uid);
        assert(k != i ==> s[k].0 != s[i].0);
    }
    assert forall|uid: u32|
        #[trigger] user_map_of(s).remove(s[i].0).contains_key(uid) implies user_map_of(
        t,
    ).contains_key(uid) && user_map_of(t)[uid] == user_map_of(s).remove(s[i].0)[uid] by {
        let k = choose|k: int| 0 <= k < s.len() && s[k].0 == uid;
        assert(k != i);
        let j = if k < i {
            k
        } else {
            k - 1
        };
        assert(t[j] == s[k]);
        assert(user_map_of(t)[uid] == t[j].1@);
    }
    assert(user_map_of(t) =~= user_map_of(s).remove(s[i].0));
}

/// The map a sequence of projects presents, keyed by name: later records
/// shadow earlier ones, which never happens when the names are distinct.
pub open spec fn project_map_of(s: Seq<Project>) -> Map<Seq<char>, ProjectView>
    decreases s.len(),
{
    if s.len() == 0 {
        Map::empty()
    } else {
        project_map_of(s.drop_last()).insert(s.last()@.name, s.last()@)
    }
}

/// No two projects share a name.
pub open spec fn project_names_distinct(s: Seq<Project>) -> bool {
    forall|i: int, j: int| 0 <= i < j < s.len() ==> s[i]@.name != s[j]@.name
}

/// With distinct names, the map of a project sequence holds exactly the
/// names of the records, each mapped to its own record.
pub proof fn lemma_project_map_of_props(s: Seq<Project>)
    requires
        project_names_distinct(s),
    ensures
        forall|n: Seq<char>|
            #[trigger] project_map_of(s).contains_key(n) ==> exists|i: int|
                0 <= i < s.len() && s[i]@.name == n,
        forall|i: int|
            0 <= i < s.len() ==> project_map_of(s).contains_key(#[trigger] s[i]@.name)
                && project_map_of(s)[s[i]@.name] == s[i]@,
    decreases s.len(),
{
    if s.len() > 0 {
        let t = s.drop_last();
        assert(forall|i: int| 0 <= i < t.len() ==> t[i] == s[i]);
        assert(project_names_distinct(t));
        lemma_project_map_of_props(t);
        assert forall|i: int| 0 <= i < s.len() implies project_map_of(s).contains_key(
            #[trigger] s[i]@.name,
        ) && project_map_of(s)[s[i]@.name] == s[i]@ by {
            if i < s.len() - 1 {
                assert(s[i]@.name != s.last()@.name);
                assert(project_map_of(t).contains_key(s[i]@.name) && project_map_of(t)[s[i]@.name]
                    == s[i]@);
            }
        }
        assert forall|n: Seq<char>| #[trigger] project_map_of(s).contains_key(n) implies exists|
            i: int,
        | 0 <= i < s.len() && s[i]@.name == n by {
            if n == s.last()@.name {
                assert(s[s.len() - 1]@.name == n);
            } else {
                assert(project_map_of(t).contains_key(n));
                let i = choose|i: int| 0 <= i < t.len() && t[i]@.name == n;
                assert(s[i]@.name == n);
            }
        }
    }
}

/// Appending a project with a fresh name inserts its record into the map.
pub proof fn lemma_project_map_of_push(s: Seq<Project>, p: Project)
    requires
        project_names_distinct(s),
        forall|i: int| 0 <= i < s.len() ==> (#[trigger] s[i])@.name != p@.name,
    ensures
        project_names_distinct(s.push(p)),
        project_map_of(s.push(p)) == project_map_of(s).insert(p@.name, p@),
{
    let t = s.push(p);
    assert(forall|i: int| 0 <= i < s.len() ==> t[i] == s[i]);
    assert(t[t.len() - 1] == p);
    assert(t.drop_last() =~= s);
}

/// Removing the project at `i` removes exactly its name from the map.
pub proof fn lemma_project_map_of_remove(s: Seq<Project>, i: int)
    requires
        project_names_distinct(s),
        0 <= i < s.len(),
    ensures
        project_names_distinct(s.remove(i)),
        project_map_of(s.remove(i)) == project_map_of(s).remove(s[i]@.name),
{
    let t = s.remove(i);
    assert(forall|j: int| 0 <= j < i ==> t[j] == s[j]);
    assert(forall|j: int| i <= j < t.len() ==> t[j] == s[j + 1]);
    assert(project_names_distinct(t));
    lemma_project_map_of_props(s);
    lemma_project_map_of_props(t);
    assert forall|n: Seq<char>| #[trigger] project_map_of(t).contains_key(n) implies project_map_of(
        s,
    ).remove(s[i]@.name).contains_key(n) by {
        let j = choose|j: int| 0 <= j < t.len() && t[j]@.name == n;
        let k = if j < i {
            j
        } else {
            j + 1
        };
        assert(s[k]@.name == n);
        assert(k != i ==> s[k]@.name != s[i]@.name);
    }
    assert forall|n: Seq<char>|
        #[trigger] project_map_of(s).remove(s[i]@.name).contains_key(n) implies project_map_of(
        t,
    ).contains_key(n) && project_map_of(t)[n] == project_map_of(s).remove(s[i]@.name)[n] by {
        let k = choose|k: int| 0 <= k < s.len() && s[k]@.name == n;
        assert(k != i);
        let j = if k < i {
            k
        } else {
            k - 1
        };
        assert(t[j] == s[k]);
        assert(project_map_of(t)[n] == t[j]@);
    }
    assert(project_map_of(t) =~= project_map_of(s).remove(s[i]@.name));
}

/// An element-wise copy of a sequence-reference vector.
fn copy_sequences(v: &Vec<u32>) -> (r: Vec<u32>)
    ensures
        r@ == v@,
{
    let mut r: Vec<u32> = Vec::new();
    let mut i: usize = 0;
    while i < v.len()
        invariant
            0 <= i <= v@.len(),
            r@ == v@.subrange(0, i as int),
        decreases v@.len() - i,
    {
        r.push(v[i]);
        proof {
            assert(r@ =~= v@.subrange(0, i + 1));
        }
        i += 1;
    }
    proof {
        assert(v@.subrange(0, v@.len() as int) =~= v@);
    }
    r
}

/// A copy of a user record with an equal view.
fn clone_user(u: &User) -> (r: User)
    ensures
        r@ == u@,
{
    User {
        name: u.name.clone(),
        public_key: u.public_key.clone(),
        permissions: copy_permissions(&u.permissions),
    }
}

/// A copy of a project record with an equal view.
fn clone_project(p: &Project) -> (r: Project)
    ensures
        r@ == p@,
{
    let mut users: Vec<User> = Vec::new();
    let mut i: usize = 0;
    while i < p.users.len()
        invariant
            0 <= i <= p.users@.len(),
            users@.map_values(|u: User| u@) == p.users@.map_values(|u: User| u@).subrange(
                0,
                i as int,
            ),
        decreases p.users@.len() - i,
    {
        let cu = clone_user(&p.users[i]);
        let ghost prev = users@;
        users.push(cu);
        proof {
            assert(cu@ == p.users@[i as int]@);
            assert(users@.map_values(|u: User| u@) =~= prev.map_values(|u: User| u@).push(cu@));
            assert(prev.map_values(|u: User| u@).push(cu@) =~= p.users@.map_values(
                |u: User| u@,
            ).subrange(0, i + 1));
        }
        i += 1;
    }
    proof {
        let views = p.users@.map_values(|u: User| u@);
        assert(views.subrange(0, views.len() as int) =~= views);
    }
    Project {
        name: p.name.clone(),
        layout_id: p.layout_id,
        sequences: copy_sequences(&p.sequences),
        users,
    }
}

/// The in-memory backend. Ids are handed out from a counter in increasing
/// order and never reused; once the counter is spent, adding a user is a
/// `StorageError`.
pub struct MemoryDao {
    users: Vec<(u32, User)>,
    projects: Vec<Project>,
    next_uid: u32,
    default_layout: Layout,
}

impl MemoryDao {
    /// An empty store whose default layout is layout 0.
    pub fn new() -> (r: MemoryDao)
        ensures
            r.inv(),
            r.users() == Map::<u32, UserView>::empty(),
            r.projects() == Map::<Seq<char>, ProjectView>::empty(),
            r.default_layout() == (Layout { layout_id: 0 }),
    {
        MemoryDao {
            users: Vec::new(),
            projects: Vec::new(),
            next_uid: 0,
            default_layout: Layout { layout_id: 0 },
        }
    }

    fn find_by_uid(&self, uid: u32) -> (r: Option<usize>)
        ensures
            match r {
                Some(i) => i < self.users@.len() && self.users@[i as int].0 == uid,
                None => forall|i: int| 0 <= i < self.users@.len() ==> self.users@[i].0 != uid,
            },
    {
        let mut i: usize = 0;
        while i < self.users.len()
            invariant
                0 <= i <= self.users@.len(),
                forall|j: int| 0 <= j < i ==> self.users@[j].0 != uid,
            decreases self.users@.len() - i,
        {
            if self.users[i].0 == uid {
                return Some(i);
            }
            i += 1;
        }
        None
    }

    fn find_by_key(&self, public_key: &str) -> (r: Option<usize>)
        ensures
            match r {
                Some(i) => i < self.users@.len() && self.users@[i as int].1@.public_key
                    == public_key@,
                None => forall|i: int|
                    0 <= i < self.users@.len() ==> self.users@[i].1@.public_key != public_key@,
            },
    {
        let key = public_key.to_owned();
        let mut i: usize = 0;
        while i < self.users.len()
            invariant
                0 <= i <= self.users@.len(),
                key@ == public_key@,
                forall|j: int| 0 <= j < i ==> self.users@[j].1@.public_key != public_key@,
            decreases self.users@.len() - i,
        {
            if self.users[i].1.public_key.eq(&key) {
                return Some(i);
            }
            i += 1;
        }
        None
    }

    fn find_by_name(&self, name: &str) -> (r: Option<usize>)
        ensures
            match r {
                Some(i) => i < self.users@.len() && self.users@[i as int].1@.name == name@,
                None => forall|i: int|
                    0 <= i < self.users@.len() ==> self.users@[i].1@.name != name@,
            },
    {
        let name_s = name.to_owned();
        let mut i: usize = 0;
        while i < self.users.len()
            invariant
                0 <= i <= self.users@.len(),
                name_s@ == name@,
                forall|j: int| 0 <= j < i ==> self.users@[j].1@.name != name@,
            decreases self.users@.len() - i,
        {
            if self.users[i].1.name.eq(&name_s) {
                return Some(i);
            }
            i += 1;
        }
        None
    }

    fn find_project(&self, name: &str) -> (r: Option<usize>)
        ensures
            match r {
                Some(i) => i < self.projects@.len() && self.projects@[i as int]@.name == name@,
                None => forall|i: int|
                    0 <= i < self.projects@.len() ==> self.projects@[i]@.name != name@,
            },
    {
        let name_s = name.to_owned();
        let mut i: usize = 0;
        while i < self.projects.len()
            invariant
                0 <= i <= self.projects@.len(),
                name_s@ == name@,
                forall|j: int| 0 <= j < i ==> self.projects@[j]@.name != name@,
            decreases self.projects@.len() - i,
        {
            if self.projects[i].name.eq(&name_s) {
                return Some(i);
            }
            i += 1;
        }
        None
    }
}

impl ProtonDao for MemoryDao {
    closed spec fn users(&self) -> Map<u32, UserView> {
        user_map_of(self.users@)
    }

    closed spec fn projects(&self) -> Map<Seq<char>, ProjectView> {
        project_map_of(self.projects@)
    }

    closed spec fn default_layout(&self) -> Layout {
        self.default_layout
    }

    closed spec fn inv(&self) -> bool {
        &&& entries_distinct(self.users@)
        &&& project_names_distinct(self.projects@)
        &&& forall|i: int| 0 <= i < self.users@.len() ==> (#[trigger] self.users@[i]).0 < self.next_uid
    }

    proof fn lemma_users_unique(&self) {
        lemma_user_map_of_props(self.users@);
        assert forall|a: u32, b: u32|
            self.users().contains_key(a) && self.users().contains_key(b) && a
                != b implies self.users()[a].name != self.users()[b].name
            && self.users()[a].public_key != self.users()[b].public_key by {
            let i = choose|i: int| 0 <= i < self.users@.len() && self.users@[i].0 == a;
            let j = choose|j: int| 0 <= j < self.users@.len() && self.users@[j].0 == b;
            assert(self.users()[a] == self.users@[i].1@);
            assert(self.users()[b] == self.users@[j].1@);
        }
    }

    proof fn lemma_projects_named(&self) {
        lemma_project_map_of_props(self.projects@);
        assert forall|n: Seq<char>|
            #[trigger] self.projects().contains_key(n) implies self.projects()[n].name == n by {
            let i = choose|i: int| 0 <= i < self.projects@.len() && self.projects@[i]@.name == n;
            assert(self.projects()[n] == self.projects@[i]@);
        }
    }

    fn get_user_id(&self, public_key: &str) -> (r: Result<u32, Error>) {
        proof {
            lemma_user_map_of_props(self.users@);
        }
        match self.find_by_key(public_key) {
            Some(i) => Ok(self.users[i].0),
            None => {
                proof {
                    assert(!store_has_key(self.users(), public_key@)) by {
                        if store_has_key(self.users(), public_key@) {
                            let uid = choose|uid: u32|
                                self.users().contains_key(uid) && self.users()[uid].public_key
                                    == public_key@;
                            let i = choose|i: int|
                                0 <= i < self.users@.len() && self.users@[i].0 == uid;
                            assert(self.users()[uid] == self.users@[i].1@);
                        }
                    }
                }
                Err(Error::UserNotFound)
            },
        }
    }

    fn get_user(&self, uid: u32) -> (r: Result<User, Error>) {
        proof {
            lemma_user_map_of_props(self.users@);
        }
        match self.find_by_uid(uid) {
            Some(i) => {
                let u = User {
                    name: self.users[i].1.name.clone(),
                    public_key: self.users[i].1.public_key.clone(),
                    permissions: copy_permissions(&self.users[i].1.permissions),
                };
                proof {
                    assert(u@ == self.users@[i as int].1@);
                }
                Ok(u)
            },
            None => Err(Error::UserNotFound),
        }
    }

    fn add_user(&mut self, name: &str, private_key: &str, public_key: &str) -> (r: Result<
        u32,
        Error,
    >) {
        proof {
            lemma_user_map_of_props(self.users@);
        }
        let name_clash = self.find_by_name(name);
        let key_clash = self.find_by_key(public_key);
        match (name_clash, key_clash) {
            (None, None) => {
                proof {
                    assert(!store_has_key(self.users(), public_key@)) by {
                        if store_has_key(self.users(), public_key@) {
                            let w = choose|w: u32|
                                self.users().contains_key(w) && self.users()[w].public_key
                                    == public_key@;
                            let i = choose|i: int|
                                0 <= i < self.users@.len() && self.users@[i].0 == w;
                            assert(self.users()[w] == self.users@[i].1@);
                        }
                    }
                    assert(!store_has_name(self.users(), name@)) by {
                        if store_has_name(self.users(), name@) {
                            let w = choose|w: u32|
                                self.users().contains_key(w) && self.users()[w].name == name@;
                            let i = choose|i: int|
                                0 <= i < self.users@.len() && self.users@[i].0 == w;
                            assert(self.users()[w] == self.users@[i].1@);
                        }
                    }
                }
                if self.next_uid == u32::MAX {
                    return Err(
                        Error::StorageError(String::from_str("constraint violation: ids exhausted")),
                    );
                }
                let uid = self.next_uid;
                let u = User {
                    name: name.to_owned(),
                    public_key: public_key.to_owned(),
                    permissions: Vec::new(),
                };
                let ghost before = self.users@;
                proof {
                    assert(!self.users().contains_key(uid)) by {
                        if self.users().contains_key(uid) {
                            let i = choose|i: int|
                                0 <= i < self.users@.len() && self.users@[i].0 == uid;
                        }
                    }
                    lemma_user_map_of_push(self.users@, (uid, u));
                }
                self.users.push((uid, u));
                self.next_uid = self.next_uid + 1;
                proof {
                    assert(self.users@ == before.push((uid, u)));
                }
                Ok(uid)
            },
            _ => {
                proof {
                    if name_clash is Some {
                        let i = name_clash->0 as int;
                        assert(store_has_name(self.users(), name@)) by {
                            assert(self.users().contains_key(self.users@[i].0));
                            assert(self.users()[self.users@[i].0] == self.users@[i].1@);
                        }
                    } else {
                        let i = key_clash->0 as int;
                        assert(store_has_key(self.users(), public_key@)) by {
                            assert(self.users().contains_key(self.users@[i].0));
                            assert(self.users()[self.users@[i].0] == self.users@[i].1@);
                        }
                    }
                }
                Err(Error::DuplicateUser(public_key.to_owned(), name.to_owned()))
            },
        }
    }

    fn remove_user(&mut self, uid: u32) -> (r: Result<(), Error>) {
        proof {
            lemma_user_map_of_props(self.users@);
        }
        match self.find_by_uid(uid) {
            Some(i) => {
                proof {
                    lemma_user_map_of_remove(self.users@, i as int);
                }
                let _removed = self.users.remove(i);
                Ok(())
            },
            None => {
                proof {
                    assert(!self.users().contains_key(uid)) by {
                        if self.users().contains_key(uid) {
                            let i = choose|i: int|
                                0 <= i < self.users@.len() && self.users@[i].0 == uid;
                        }
                    }
                }
                Err(Error::UserNotFound)
            },
        }
    }

    fn get_permissions(&self, uid: u32) -> (r: Result<Vec<Permission>, Error>) {
        proof {
            lemma_user_map_of_props(self.users@);
        }
        match self.find_by_uid(uid) {
            Some(i) => Ok(copy_permissions(&self.users[i].1.permissions)),
            None => {
                proof {
                    assert(!self.users().contains_key(uid)) by {
                        if self.users().contains_key(uid) {
                            let i = choose|i: int|
                                0 <= i < self.users@.len() && self.users@[i].0 == uid;
                        }
                    }
                }
                Err(Error::UserNotFound)
            },
        }
    }

    fn set_permission(&mut self, uid: u32, perm: &Permission, add: bool) -> (r: Result<(), Error>) {
        proof {
            lemma_user_map_of_props(self.users@);
        }
        match self.find_by_uid(uid) {
            Some(i) => {
                let ghost before = self.users@;
                proof {
                    lemma_user_map_of_remove(self.users@, i as int);
                }
                let mut pair = self.users.remove(i);
                if add {
                    pair.1.add_permission(perm);
                } else {
                    pair.1.remove_permission(perm);
                }
                proof {
                    assert(pair.0 == uid);
                    assert(pair.1@ == with_permission_set(before[i as int].1@, *perm, add));
                    assert forall|j: int| 0 <= j < self.users@.len() implies (
                    #[trigger] self.users@[j]).0 != pair.0 && self.users@[j].1@.name
                        != pair.1@.name && self.users@[j].1@.public_key != pair.1@.public_key by {
                        let k = if j < i {
                            j
                        } else {
                            j + 1
                        };
                        assert(self.users@[j] == before[k]);
                    }
                    lemma_user_map_of_push(self.users@, pair);
                }
                self.users.push(pair);
                proof {
                    assert(user_map_of(self.users@) =~= user_map_of(before).insert(
                        uid,
                        with_permission_set(user_map_of(before)[uid], *perm, add),
                    ));
                }
                Ok(())
            },
            None => {
                proof {
                    assert(!self.users().contains_key(uid)) by {
                        if self.users().contains_key(uid) {
                            let i = choose|i: int|
                                0 <= i < self.users@.len() && self.users@[i].0 == uid;
                        }
                    }
                }
                Err(Error::UserNotFound)
            },
        }
    }

    fn get_project(&self, name: &str) -> (r: Result<Project, Error>) {
        proof {
            lemma_project_map_of_props(self.projects@);
        }
        match self.find_project(name) {
            Some(i) => {
                let p = clone_project(&self.projects[i]);
                Ok(p)
            },
            None => {
                proof {
                    assert(!self.projects().contains_key(name@)) by {
                        if self.projects().contains_key(name@) {
                            let i = choose|i: int|
                                0 <= i < self.projects@.len() && self.projects@[i]@.name == name@;
                        }
                    }
                }
                Err(Error::LoadProjectError)
            },
        }
    }

    fn new_project(&mut self, name: &str, layout_id: u32) -> (r: Result<(), Error>) {
        proof {
            lemma_project_map_of_props(self.projects@);
        }
        match self.find_project(name) {
            Some(i) => {
                proof {
                    assert(self.projects().contains_key(name@)) by {
                        assert(self.projects().contains_key(self.projects@[i as int]@.name));
                    }
                }
                Err(Error::StorageError(String::from_str("constraint violation: name taken")))
            },
            None => {
                let ghost before = self.projects@;
                let p = Project {
                    name: name.to_owned(),
                    layout_id,
                    sequences: Vec::new(),
                    users: Vec::new(),
                };
                proof {
                    assert(!self.projects().contains_key(name@)) by {
                        if self.projects().contains_key(name@) {
                            let i = choose|i: int|
                                0 <= i < self.projects@.len() && self.projects@[i]@.name == name@;
                        }
                    }
                    lemma_project_map_of_push(self.projects@, p);
                    assert(p@.users =~= Seq::<UserView>::empty());
                    assert(p@ == (ProjectView {
                        name: name@,
                        layout_id: layout_id,
                        sequences: Seq::empty(),
                        users: Seq::empty(),
                    }));
                }
                self.projects.push(p);
                Ok(())
            },
        }
    }

    fn set_project(&mut self, project: &Project) -> (r: Result<(), Error>) {
        proof {
            lemma_project_map_of_props(self.projects@);
        }
        match self.find_project(project.name.as_str()) {
            Some(i) => {
                let ghost before = self.projects@;
                proof {
                    lemma_project_map_of_remove(self.projects@, i as int);
                }
                let _old = self.projects.remove(i);
                let p = clone_project(project);
                proof {
                    assert forall|j: int| 0 <= j < self.projects@.len() implies (
                    #[trigger] self.projects@[j])@.name != p@.name by {
                        let k = if j < i {
                            j
                        } else {
                            j + 1
                        };
                        assert(self.projects@[j] == before[k]);
                    }
                    lemma_project_map_of_push(self.projects@, p);
                }
                self.projects.push(p);
                proof {
                    assert(project_map_of(self.projects@) =~= project_map_of(before).insert(
                        project@.name,
                        project@,
                    ));
                }
                Ok(())
            },
            None => {
                proof {
                    assert(!self.projects().contains_key(project@.name)) by {
                        if self.projects().contains_key(project@.name) {
                            let i = choose|i: int|
                                0 <= i < self.projects@.len() && self.projects@[i]@.name
                                    == project@.name;
                        }
                    }
                }
                Err(Error::LoadProjectError)
            },
        }
    }

    fn get_default_layout(&self) -> (r: Layout) {
        self.default_layout
    }
}

} // verus!
