//! Sequence-list operations against the data-access contract: loading the
//! named project, editing its ordered sequence list, and storing it back.

use vstd::prelude::*;

use crate::authorize::{authorize, authorized};
use crate::dao::{store_has_key, ProtonDao};
use crate::error::Error;
use crate::keys;
use crate::permission::Permission;
use crate::project_types::{without_sequence, ProjectView};

verus! {

/// The project record with `seqid` inserted at `index` (or appended).
pub open spec fn with_sequence_inserted(
    p: ProjectView,
    seqid: u32,
    index: Option<usize>,
) -> ProjectView {
    ProjectView {
        name: p.name,
        layout_id: p.layout_id,
        sequences: match index {
            Some(i) => p.sequences.insert(i as int, seqid),
            None => p.sequences.push(seqid),
        },
        users: p.users,
    }
}

/// The project record with every reference to `seqid` removed.
pub open spec fn with_sequence_removed(p: ProjectView, seqid: u32) -> ProjectView {
    ProjectView {
        name: p.name,
        layout_id: p.layout_id,
        sequences: without_sequence(p.sequences, seqid),
        users: p.users,
    }
}

/// Inserts a sequence reference into the named project's ordered list, at
/// `index` or at the end, and stores the updated record.
pub fn insert_sequence<PD: ProtonDao>(
    dao: &mut PD,
    proj_name: &str,
    seqid: u32,
    index: Option<usize>,
) -> (r: Result<(), Error>)
    requires
        old(dao).inv(),
    ensures
        final(dao).inv(),
        final(dao).users() == old(dao).users(),
        final(dao).default_layout() == old(dao).default_layout(),
        match r {
            Ok(()) => old(dao).projects().contains_key(proj_name@) && (match index {
                Some(i) => i <= old(dao).projects()[proj_name@].sequences.len(),
                None => true,
            }) && final(dao).projects() == old(dao).projects().insert(
                proj_name@,
                with_sequence_inserted(old(dao).projects()[proj_name@], seqid, index),
            ),
            Err(e) => match e {
                Error::LoadProjectError => final(dao).projects() == old(dao).projects()
                    && !old(dao).projects().contains_key(proj_name@),
                Error::StorageError(_) => final(dao).projects() == old(dao).projects()
                    && old(dao).projects().contains_key(proj_name@)
                    && (index matches Some(i) && i > old(
                    dao,
                ).projects()[proj_name@].sequences.len()),
                _ => false,
            },
        },
{
    proof {
        dao.lemma_projects_named();
    }
    let mut project = match dao.get_project(proj_name) {
        Ok(p) => p,
        Err(_) => {
            return Err(Error::LoadProjectError);
        },
    };
    let ghost orig = project@;
    match project.insert_sequence(seqid, index) {
        Ok(()) => {},
        Err(e) => {
            return Err(e);
        },
    }
    proof {
        assert(project@ == with_sequence_inserted(orig, seqid, index));
        assert(project@.name == proj_name@);
    }
    match dao.set_project(&project) {
        Ok(()) => Ok(()),
        Err(e) => Err(e),
    }
}

/// Removes every reference to `seqid` from the named project's list and
/// stores the updated record; a sequence that is not referenced is a
/// storage-level not-found.
pub fn remove_sequence<PD: ProtonDao>(dao: &mut PD, proj_name: &str, seqid: u32) -> (r: Result<
    (),
    Error,
>)
    requires
        old(dao).inv(),
    ensures
        final(dao).inv(),
        final(dao).users() == old(dao).users(),
        final(dao).default_layout() == old(dao).default_layout(),
        match r {
            Ok(()) => old(dao).projects().contains_key(proj_name@) && old(
                dao,
            ).projects()[proj_name@].sequences.contains(seqid) && final(dao).projects() == old(
                dao,
            ).projects().insert(
                proj_name@,
                with_sequence_removed(old(dao).projects()[proj_name@], seqid),
            ),
            Err(e) => match e {
                Error::LoadProjectError => final(dao).projects() == old(dao).projects()
                    && !old(dao).projects().contains_key(proj_name@),
                Error::StorageError(_) => final(dao).projects() == old(dao).projects() && old(
                    dao,
                ).projects().contains_key(proj_name@) && !old(
                    dao,
                ).projects()[proj_name@].sequences.contains(seqid),
                _ => false,
            },
        },
{
    proof {
        dao.lemma_projects_named();
    }
    let mut project = match dao.get_project(proj_name) {
        Ok(p) => p,
        Err(_) => {
            return Err(Error::LoadProjectError);
        },
    };
    let ghost orig = project@;
    match project.remove_sequence(seqid) {
        Ok(()) => {},
        Err(e) => {
            return Err(e);
        },
    }
    proof {
        assert(project@ == with_sequence_removed(orig, seqid));
        assert(project@.name == proj_name@);
    }
    match dao.set_project(&project) {
        Ok(()) => Ok(()),
        Err(e) => Err(e),
    }
}

/// Sequence insertion behind the engine: the caller behind `admin_key`
/// must pass authorization for `Administrate` before the project record is
/// touched.
pub fn guarded_insert_sequence<PD: ProtonDao>(
    dao: &mut PD,
    admin_key: &str,
    proj_name: &str,
    seqid: u32,
    index: Option<usize>,
) -> (r: Result<(), Error>)
    requires
        old(dao).inv(),
        keys::fits_key_buffer(admin_key),
    ensures
        final(dao).inv(),
        final(dao).users() == old(dao).users(),
        final(dao).default_layout() == old(dao).default_layout(),
        match r {
            Ok(()) => authorized(old(dao).users(), admin_key@, seq![Permission::Administrate])
                && keys::is_valid_rsa_pem(admin_key@) && old(dao).projects().contains_key(
                proj_name@,
            ) && (match index {
                Some(i) => i <= old(dao).projects()[proj_name@].sequences.len(),
                None => true,
            }) && final(dao).projects() == old(dao).projects().insert(
                proj_name@,
                with_sequence_inserted(old(dao).projects()[proj_name@], seqid, index),
            ),
            Err(e) => final(dao).projects() == old(dao).projects() && match e {
                Error::InvalidPublicKey(k) => k@ == admin_key@ && !keys::is_valid_rsa_pem(
                    admin_key@,
                ),
                Error::UserNotFound => keys::is_valid_rsa_pem(admin_key@) && !store_has_key(
                    old(dao).users(),
                    admin_key@,
                ),
                Error::AuthorizationDenied(req) => req@ == seq![Permission::Administrate]
                    && !authorized(old(dao).users(), admin_key@, seq![Permission::Administrate]),
                Error::LoadProjectError => authorized(
                    old(dao).users(),
                    admin_key@,
                    seq![Permission::Administrate],
                ) && !old(dao).projects().contains_key(proj_name@),
                Error::StorageError(_) => authorized(
                    old(dao).users(),
                    admin_key@,
                    seq![Permission::Administrate],
                ) && old(dao).projects().contains_key(proj_name@) && (index matches Some(i) && i
                    > old(dao).projects()[proj_name@].sequences.len()),
                _ => false,
            },
        },
{
    let mut required: Vec<Permission> = Vec::new();
    required.push(Permission::Administrate);
    proof {
        assert(required@ =~= seq![Permission::Administrate]);
    }
    match authorize(dao, admin_key, &required) {
        Ok(_) => {},
        Err(e) => {
            return Err(e);
        },
    }
    insert_sequence(dao, proj_name, seqid, index)
}

/// Sequence removal behind the engine. Either alternative grant is
/// acceptable: `Administrate`, or the one scoped to exactly this sequence.
pub fn guarded_remove_sequence<PD: ProtonDao>(
    dao: &mut PD,
    admin_key: &str,
    proj_name: &str,
    seqid: u32,
) -> (r: Result<(), Error>)
    requires
        old(dao).inv(),
        keys::fits_key_buffer(admin_key),
    ensures
        final(dao).inv(),
        final(dao).users() == old(dao).users(),
        final(dao).default_layout() == old(dao).default_layout(),
        match r {
            Ok(()) => authorized(
                old(dao).users(),
                admin_key@,
                seq![Permission::Administrate, Permission::EditSequence(seqid)],
            ) && keys::is_valid_rsa_pem(admin_key@) && old(dao).projects().contains_key(
                proj_name@,
            ) && old(dao).projects()[proj_name@].sequences.contains(seqid)
                && final(dao).projects() == old(dao).projects().insert(
                proj_name@,
                with_sequence_removed(old(dao).projects()[proj_name@], seqid),
            ),
            Err(e) => final(dao).projects() == old(dao).projects() && match e {
                Error::InvalidPublicKey(k) => k@ == admin_key@ && !keys::is_valid_rsa_pem(
                    admin_key@,
                ),
                Error::UserNotFound => keys::is_valid_rsa_pem(admin_key@) && !store_has_key(
                    old(dao).users(),
                    admin_key@,
                ),
                Error::AuthorizationDenied(req) => req@ == seq![
                    Permission::Administrate,
                    Permission::EditSequence(seqid),
                ] && !authorized(
                    old(dao).users(),
                    admin_key@,
                    seq![Permission::Administrate, Permission::EditSequence(seqid)],
                ),
                Error::LoadProjectError => authorized(
                    old(dao).users(),
                    admin_key@,
                    seq![Permission::Administrate, Permission::EditSequence(seqid)],
                ) && !old(dao).projects().contains_key(proj_name@),
                Error::StorageError(_) => authorized(
                    old(dao).users(),
                    admin_key@,
                    seq![Permission::Administrate, Permission::EditSequence(seqid)],
                ) && old(dao).projects().contains_key(proj_name@) && !old(
                    dao,
                ).projects()[proj_name@].sequences.contains(seqid),
                _ => false,
            },
        },
{
    let mut required: Vec<Permission> = Vec::new();
    required.push(Permission::Administrate);
    required.push(Permission::EditSequence(seqid));
    proof {
        assert(required@ =~= seq![Permission::Administrate, Permission::EditSequence(seqid)]);
    }
    match authorize(dao, admin_key, &required) {
        Ok(_) => {},
        Err(e) => {
            return Err(e);
        },
    }
    remove_sequence(dao, proj_name, seqid)
}

} // verus!
