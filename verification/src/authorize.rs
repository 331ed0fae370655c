//! The authorization engine: the single choke point every mutating operation
//! must pass before touching storage. It resolves the caller's public key to
//! a stored user, then decides pass/fail against a set of acceptable
//! permissions — an administrator passes any check; anyone else passes when
//! they structurally hold some element of the required set.

use vstd::prelude::*;

use crate::dao::{store_has_key, ProtonDao};
use crate::error::Error;
use crate::keys;
use crate::permission::{
    contains_any, contains_permission, copy_permissions, lemma_administrate_passes_any, passes,
    Permission,
};
use crate::project_types::{User, UserView};

verus! {

/// The engine grants access for `key` against `required`: some stored user
/// owns `key` and passes the pass/fail rule.
pub open spec fn authorized(
    users: Map<u32, UserView>,
    key: Seq<char>,
    required: Seq<Permission>,
) -> bool {
    exists|uid: u32|
        #![auto]
        users.contains_key(uid) && users[uid].public_key == key && passes(
            users[uid].permissions,
            required,
        )
}

/// A stored administrator is authorized against any non-empty requirement.
pub proof fn lemma_admin_always_authorized(
    users: Map<u32, UserView>,
    uid: u32,
    key: Seq<char>,
    required: Seq<Permission>,
)
    requires
        users.contains_key(uid),
        users[uid].public_key == key,
        users[uid].permissions.contains(Permission::Administrate),
        required.len() > 0,
    ensures
        authorized(users, key, required),
{
    lemma_administrate_passes_any(users[uid].permissions, required);
}

/// Decides whether the caller behind `public_key` may perform an operation
/// guarded by `required`, a set of acceptable alternative grants. On success
/// the caller's full record is returned. The outcome is exact: `Ok` if and
/// only if the key is valid, a stored user owns it, and that user passes.
pub fn authorize<PD: ProtonDao>(
    dao: &PD,
    public_key: &str,
    required: &Vec<Permission>,
) -> (r: Result<User, Error>)
    requires
        dao.inv(),
        keys::fits_key_buffer(public_key),
    ensures
        r is Ok <==> (keys::is_valid_rsa_pem(public_key@) && authorized(
            dao.users(),
            public_key@,
            required@,
        )),
        match r {
            Ok(u) => u@.public_key == public_key@ && passes(u@.permissions, required@) && (
            exists|uid: u32|
                #![auto]
                dao.users().contains_key(uid) && dao.users()[uid] == u@),
            Err(e) => match e {
                Error::InvalidPublicKey(k) => k@ == public_key@ && !keys::is_valid_rsa_pem(
                    public_key@,
                ),
                Error::UserNotFound => keys::is_valid_rsa_pem(public_key@) && !store_has_key(
                    dao.users(),
                    public_key@,
                ),
                Error::AuthorizationDenied(req) => req@ == required@ && keys::is_valid_rsa_pem(
                    public_key@,
                ) && (exists|uid: u32|
                    #![auto]
                    dao.users().contains_key(uid) && dao.users()[uid].public_key == public_key@
                        && !passes(dao.users()[uid].permissions, required@)),
                _ => false,
            },
        },
{
    match User::validate_public_key(public_key) {
        Err(e) => {
            return Err(e);
        },
        Ok(()) => {},
    }
    let uid = match dao.get_user_id(public_key) {
        Ok(uid) => uid,
        Err(_) => {
            return Err(Error::UserNotFound);
        },
    };
    let user = match dao.get_user(uid) {
        Ok(u) => u,
        Err(_) => {
            return Err(Error::UserNotFound);
        },
    };
    if contains_permission(&user.permissions, &Permission::Administrate) {
        return Ok(user);
    }
    if contains_any(&user.permissions, required) {
        return Ok(user);
    }
    proof {
        dao.lemma_users_unique();
        assert(!authorized(dao.users(), public_key@, required@)) by {
            if authorized(dao.users(), public_key@, required@) {
                let w = choose|w: u32|
                    #![auto]
                    dao.users().contains_key(w) && dao.users()[w].public_key == public_key@
                        && passes(dao.users()[w].permissions, required@);
                assert(w == uid);
            }
        }
    }
    Err(Error::AuthorizationDenied(copy_permissions(required)))
}

} // verus!
