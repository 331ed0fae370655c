use proton_cli::error::Error;
use proton_cli::permission::Permission;
use proton_cli::project_types::User;

fn user_with(perms: &[Permission]) -> User {
    User {
        name: String::from("someone"),
        public_key: String::from("irrelevant"),
        permissions: perms.to_vec(),
    }
}

#[test]
fn equality_is_structural() {
    assert_eq!(Permission::Administrate, Permission::Administrate);
    assert_eq!(Permission::EditSequence(5), Permission::EditSequence(5));
    assert_ne!(Permission::EditSequence(5), Permission::EditSequence(6));
    assert_ne!(
        Permission::EditSection(5, 3),
        Permission::EditSeqSec(3),
    );
}

#[test]
fn has_permission_matches_exactly() {
    let u = user_with(&[Permission::EditSequence(5)]);
    assert!(u.has_permission(&Permission::EditSequence(5)));
    assert!(!u.has_permission(&Permission::EditSequence(6)));
    // no implicit hierarchy: holding the sequence does not give its sections
    assert!(!u.has_permission(&Permission::EditSection(5, 3)));
    assert!(!u.has_permission(&Permission::Administrate));
}

#[test]
fn add_permission_is_idempotent() {
    let mut u = user_with(&[]);
    u.add_permission(&Permission::EditSeqSec(7));
    u.add_permission(&Permission::EditSeqSec(7));
    assert_eq!(u.permissions, vec![Permission::EditSeqSec(7)]);
}

#[test]
fn remove_permission_revokes_and_keeps_order() {
    let mut u = user_with(&[
        Permission::EditSequence(1),
        Permission::Administrate,
        Permission::EditSequence(2),
    ]);
    u.remove_permission(&Permission::Administrate);
    assert_eq!(
        u.permissions,
        vec![Permission::EditSequence(1), Permission::EditSequence(2)]
    );
    // revoking something absent changes nothing
    u.remove_permission(&Permission::EditSection(9, 9));
    assert_eq!(
        u.permissions,
        vec![Permission::EditSequence(1), Permission::EditSequence(2)]
    );
}

#[test]
fn from_parts_builds_each_variant() {
    assert_eq!(
        Permission::from_parts("Administrate", None, None),
        Ok(Permission::Administrate)
    );
    assert_eq!(
        Permission::from_parts("EditSequence", Some(5), None),
        Ok(Permission::EditSequence(5))
    );
    assert_eq!(
        Permission::from_parts("EditSection", Some(5), Some(3)),
        Ok(Permission::EditSection(5, 3))
    );
    assert_eq!(
        Permission::from_parts("EditSeqSec", None, Some(3)),
        Ok(Permission::EditSeqSec(3))
    );
}

#[test]
fn from_parts_rejects_unknown_or_incomplete() {
    assert_eq!(
        Permission::from_parts("GrantPerm", None, None),
        Err(Error::TodoErr)
    );
    assert_eq!(
        Permission::from_parts("EditSequence", None, None),
        Err(Error::TodoErr)
    );
    assert_eq!(
        Permission::from_parts("EditSection", Some(5), None),
        Err(Error::TodoErr)
    );
}

#[test]
fn error_descriptions_are_stable() {
    assert_eq!(Error::TodoErr.description(), "Todo");
    assert_eq!(
        Error::FolderNotEmpty(String::from("root"), 2).description(),
        "Root folder was not empty"
    );
    assert_eq!(
        Error::InvalidPublicKey(String::from("junk")).description(),
        "Invalid public key"
    );
}
