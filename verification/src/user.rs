//! User management against the data-access contract: lookup by credential,
//! creation with freshly generated keys, and removal.

use vstd::prelude::*;

use crate::authorize::{authorize, authorized};
use crate::dao::{store_has_key, store_has_name, with_permission_set, ProtonDao};
use crate::error::Error;
use crate::keys;
use crate::permission::Permission;
use crate::project_types::{User, UserView};

verus! {

/// Looks up the user owning `public_key`. The key text is what the caller's
/// credential file resolved to; it is validated before the store is asked.
pub fn get_user<PD: ProtonDao>(dao: &PD, public_key: &str) -> (r: Result<User, Error>)
    requires
        dao.inv(),
        keys::fits_key_buffer(public_key),
    ensures
        match r {
            Ok(u) => keys::is_valid_rsa_pem(public_key@) && u@.public_key == public_key@ && (
            exists|uid: u32|
                #![auto]
                dao.users().contains_key(uid) && dao.users()[uid] == u@),
            Err(e) => match e {
                Error::InvalidPublicKey(k) => k@ == public_key@ && !keys::is_valid_rsa_pem(
                    public_key@,
                ),
                Error::UserNotFound => keys::is_valid_rsa_pem(public_key@) && !store_has_key(
                    dao.users(),
                    public_key@,
                ),
                _ => false,
            },
        },
{
    match User::validate_public_key(public_key) {
        Err(e) => {
            return Err(e);
        },
        Ok(()) => {},
    }
    let uid = match dao.get_user_id(public_key) {
        Ok(uid) => uid,
        Err(_) => {
            return Err(Error::UserNotFound);
        },
    };
    match dao.get_user(uid) {
        Ok(u) => Ok(u),
        Err(_) => Err(Error::UserNotFound),
    }
}

/// Creates a user: generates a fresh RSA key pair, stores the new user under
/// `name`, and returns the public key that now identifies them.
pub fn new_user<PD: ProtonDao>(dao: &mut PD, name: &str) -> (r: Result<String, Error>)
    requires
        old(dao).inv(),
    ensures
        final(dao).inv(),
        final(dao).projects() == old(dao).projects(),
        final(dao).default_layout() == old(dao).default_layout(),
        match r {
            Ok(k) => keys::is_valid_rsa_pem(k@) && !store_has_key(old(dao).users(), k@)
                && !store_has_name(
                old(dao).users(),
                name@,
            ) && (exists|uid: u32|
                #![auto]
                !old(dao).users().contains_key(uid) && final(dao).users() == old(
                    dao,
                ).users().insert(uid, UserView {
                    name: name@,
                    public_key: k@,
                    permissions: Seq::<Permission>::empty(),
                })),
            Err(e) => final(dao).users() == old(dao).users() && match e {
                Error::Io(_) => true,
                Error::StorageError(_) => !store_has_name(old(dao).users(), name@),
                Error::DuplicateUser(k, n) => n@ == name@ && (store_has_key(
                    old(dao).users(),
                    k@,
                ) || store_has_name(old(dao).users(), name@)),
                _ => false,
            },
        },
{
    let (user_pub_key, user_private_key) = match keys::create_pub_priv_keys() {
        Ok(pair) => pair,
        Err(e) => {
            return Err(e);
        },
    };
    match dao.add_user(name, user_private_key.as_str(), user_pub_key.as_str()) {
        Ok(_) => Ok(user_pub_key),
        Err(e) => Err(e),
    }
}

/// User creation behind the engine: the caller behind `admin_key` must
/// pass authorization for `Administrate` before the store is touched, as
/// every mutating command must.
pub fn guarded_new_user<PD: ProtonDao>(dao: &mut PD, admin_key: &str, name: &str) -> (r: Result<
    String,
    Error,
>)
    requires
        old(dao).inv(),
        keys::fits_key_buffer(admin_key),
    ensures
        final(dao).inv(),
        final(dao).projects() == old(dao).projects(),
        final(dao).default_layout() == old(dao).default_layout(),
        match r {
            Ok(k) => authorized(old(dao).users(), admin_key@, seq![Permission::Administrate])
                && keys::is_valid_rsa_pem(admin_key@) && keys::is_valid_rsa_pem(k@)
                && !store_has_key(old(dao).users(), k@) && !store_has_name(
                old(dao).users(),
                name@,
            ) && (exists|uid: u32|
                #![auto]
                !old(dao).users().contains_key(uid) && final(dao).users() == old(
                    dao,
                ).users().insert(uid, UserView {
                    name: name@,
                    public_key: k@,
                    permissions: Seq::<Permission>::empty(),
                })),
            Err(e) => final(dao).users() == old(dao).users() && match e {
                Error::InvalidPublicKey(k2) => k2@ == admin_key@ && !keys::is_valid_rsa_pem(
                    admin_key@,
                ),
                Error::UserNotFound => keys::is_valid_rsa_pem(admin_key@) && !store_has_key(
                    old(dao).users(),
                    admin_key@,
                ),
                Error::AuthorizationDenied(req) => req@ == seq![Permission::Administrate]
                    && !authorized(old(dao).users(), admin_key@, seq![Permission::Administrate]),
                Error::Io(_) => authorized(
                    old(dao).users(),
                    admin_key@,
                    seq![Permission::Administrate],
                ),
                Error::StorageError(_) => !store_has_name(old(dao).users(), name@) && authorized(
                    old(dao).users(),
                    admin_key@,
                    seq![Permission::Administrate],
                ),
                Error::DuplicateUser(k2, n2) => n2@ == name@ && (store_has_key(
                    old(dao).users(),
                    k2@,
                ) || store_has_name(old(dao).users(), name@)) && authorized(
                    old(dao).users(),
                    admin_key@,
                    seq![Permission::Administrate],
                ),
                _ => false,
            },
        },
{
    let mut required: Vec<Permission> = Vec::new();
    required.push(Permission::Administrate);
    proof {
        assert(required@ =~= seq![Permission::Administrate]);
    }
    match authorize(dao, admin_key, &required) {
        Ok(_) => {},
        Err(e) => {
            return Err(e);
        },
    }
    new_user(dao, name)
}

/// Granting or revoking a permission behind the engine: the caller behind
/// `admin_key` must pass authorization for `Administrate` before the target
/// user's record is touched.
pub fn guarded_set_permission<PD: ProtonDao>(
    dao: &mut PD,
    admin_key: &str,
    uid: u32,
    perm: &Permission,
    add: bool,
) -> (r: Result<(), Error>)
    requires
        old(dao).inv(),
        keys::fits_key_buffer(admin_key),
    ensures
        final(dao).inv(),
        final(dao).projects() == old(dao).projects(),
        final(dao).default_layout() == old(dao).default_layout(),
        match r {
            Ok(()) => authorized(old(dao).users(), admin_key@, seq![Permission::Administrate])
                && keys::is_valid_rsa_pem(admin_key@) && old(dao).users().contains_key(uid)
                && final(dao).users() == old(dao).users().insert(
                uid,
                with_permission_set(old(dao).users()[uid], *perm, add),
            ),
            Err(e) => final(dao).users() == old(dao).users() && match e {
                Error::InvalidPublicKey(k2) => k2@ == admin_key@ && !keys::is_valid_rsa_pem(
                    admin_key@,
                ),
                Error::UserNotFound => (keys::is_valid_rsa_pem(admin_key@) && !store_has_key(
                    old(dao).users(),
                    admin_key@,
                )) || (authorized(old(dao).users(), admin_key@, seq![Permission::Administrate])
                    && !old(dao).users().contains_key(uid)),
                Error::AuthorizationDenied(req) => req@ == seq![Permission::Administrate]
                    && !authorized(old(dao).users(), admin_key@, seq![Permission::Administrate]),
                _ => false,
            },
        },
{
    let mut required: Vec<Permission> = Vec::new();
    required.push(Permission::Administrate);
    proof {
        assert(required@ =~= seq![Permission::Administrate]);
    }
    match authorize(dao, admin_key, &required) {
        Ok(_) => {},
        Err(e) => {
            return Err(e);
        },
    }
    dao.set_permission(uid, perm, add)
}

/// Removes a user. Not yet built: the rules for who may remove whom (an
/// administrator cannot be removed by a plain editor, nor the last
/// administrator by anyone) are still open, so this always returns the
/// explicit `TodoErr` marker and touches nothing.
pub fn remove_user<PD: ProtonDao>(dao: &PD, name: &str) -> (r: Result<(), Error>)
    ensures
        r == Err::<(), Error>(Error::TodoErr),
{
    Err(Error::TodoErr)
}

} // verus!
