//! Project creation against the data-access contract. A new project is
//! never empty of members: it is born with exactly one genesis
//! administrator, whose freshly generated public key is handed back to the
//! caller.

use vstd::prelude::*;
use vstd::string::StringExecFns;

use crate::dao::ProtonDao;
use crate::error::Error;
use crate::keys;
use crate::permission::Permission;
use crate::project_types::{initial_project, Project, ProjectView, User, UserView};

verus! {

/// Creates the named project with a fresh genesis administrator: a new key
/// pair is generated, the stored record holds exactly one user — "admin",
/// under the new valid public key, holding `Administrate` — and that public
/// key is returned. Fails `StorageError` exactly when the name is taken
/// (the store untouched), and `Io` when key generation fails (likewise).
pub fn new_project<PD: ProtonDao>(dao: &mut PD, name: &str, layout_id: u32) -> (r: Result<
    String,
    Error,
>)
    requires
        old(dao).inv(),
    ensures
        final(dao).inv(),
        final(dao).users() == old(dao).users(),
        final(dao).default_layout() == old(dao).default_layout(),
        match r {
            Ok(k) => keys::is_valid_rsa_pem(k@) && !old(dao).projects().contains_key(name@)
                && final(dao).projects() == old(dao).projects().insert(name@, ProjectView {
                name: name@,
                layout_id: layout_id,
                sequences: Seq::empty(),
                users: initial_project(k@).users,
            }),
            Err(e) => final(dao).projects() == old(dao).projects() && match e {
                Error::Io(_) => true,
                Error::StorageError(_) => old(dao).projects().contains_key(name@),
                _ => false,
            },
        },
{
    let (pub_key, _private_key) = match keys::create_pub_priv_keys() {
        Ok(pair) => pair,
        Err(e) => {
            return Err(e);
        },
    };
    // a generated key of implausible size is refused rather than handed to
    // the parser, whose buffer is bounded
    let key_str = pub_key.as_str();
    let key_bytes = key_str.as_bytes();
    if key_bytes.len() > 0x7fffffff {
        return Err(Error::Io(String::from_str("generated key is too large")));
    }
    proof {
        assert(keys::fits_key_buffer(key_str));
    }
    match dao.new_project(name, layout_id) {
        Ok(()) => {},
        Err(e) => {
            return Err(e);
        },
    }
    let admin_name = String::from_str("admin");
    let mut admin = match User::new(admin_name.as_str(), key_str) {
        Ok(u) => u,
        Err(e) => {
            return Err(e);
        },
    };
    admin.add_permission(&Permission::Administrate);
    let mut users: Vec<User> = Vec::new();
    users.push(admin);
    let project = Project { name: name.to_owned(), layout_id, sequences: Vec::new(), users };
    proof {
        assert(project@.users =~~= initial_project(pub_key@).users);
        assert(project@.sequences =~= Seq::<u32>::empty());
    }
    match dao.set_project(&project) {
        Ok(()) => {
            proof {
                assert(dao.projects() =~= old(dao).projects().insert(name@, project@));
            }
            Ok(pub_key)
        },
        Err(e) => Err(e),
    }
}

} // verus!
