use proton_cli::authorize::authorize;
use proton_cli::dao::ProtonDao;
use proton_cli::dao_memory::MemoryDao;
use proton_cli::error::Error;
use proton_cli::keys::create_pub_priv_keys;
use proton_cli::permission::Permission;
use proton_cli::sequence::{insert_sequence, remove_sequence};
use proton_cli::user::{get_user, new_user, remove_user};

#[test]
fn add_and_look_up_a_user() {
    let mut dao = MemoryDao::new();
    let uid = dao
        .add_user("Test User", "priv", "pub-key-1")
        .expect("adding user failed");
    assert_eq!(dao.get_user_id("pub-key-1"), Ok(uid));
    let u = dao.get_user(uid).expect("loading user failed");
    assert_eq!(u.name, "Test User");
    assert_eq!(u.public_key, "pub-key-1");
    assert!(u.permissions.is_empty());
}

#[test]
fn fails_with_duplicate_user_key() {
    let mut dao = MemoryDao::new();
    dao.add_user("Test User 1", "priv-a", "same-key")
        .expect("adding first user failed");
    assert_eq!(
        dao.add_user("Test User 2", "priv-b", "same-key"),
        Err(Error::DuplicateUser(
            String::from("same-key"),
            String::from("Test User 2")
        ))
    );
}

#[test]
fn fails_with_duplicate_user_name() {
    let mut dao = MemoryDao::new();
    dao.add_user("Test User", "priv-a", "key-a")
        .expect("adding first user failed");
    assert_eq!(
        dao.add_user("Test User", "priv-b", "key-b"),
        Err(Error::DuplicateUser(
            String::from("key-b"),
            String::from("Test User")
        ))
    );
}

#[test]
fn unknown_lookups_fail_user_not_found() {
    let mut dao = MemoryDao::new();
    assert_eq!(dao.get_user_id("nobody"), Err(Error::UserNotFound));
    assert_eq!(dao.get_user(7), Err(Error::UserNotFound));
    assert_eq!(dao.get_permissions(7), Err(Error::UserNotFound));
    assert_eq!(
        dao.set_permission(7, &Permission::Administrate, true),
        Err(Error::UserNotFound)
    );
    assert_eq!(dao.remove_user(7), Err(Error::UserNotFound));
}

#[test]
fn permissions_are_granted_and_revoked() {
    let mut dao = MemoryDao::new();
    let uid = dao.add_user("U", "priv", "key").expect("add failed");
    dao.set_permission(uid, &Permission::EditSequence(5), true)
        .expect("grant failed");
    dao.set_permission(uid, &Permission::Administrate, true)
        .expect("grant failed");
    assert_eq!(
        dao.get_permissions(uid),
        Ok(vec![Permission::EditSequence(5), Permission::Administrate])
    );
    dao.set_permission(uid, &Permission::EditSequence(5), false)
        .expect("revoke failed");
    assert_eq!(dao.get_permissions(uid), Ok(vec![Permission::Administrate]));
}

#[test]
fn removed_users_are_gone() {
    let mut dao = MemoryDao::new();
    let uid = dao.add_user("U", "priv", "key").expect("add failed");
    dao.remove_user(uid).expect("remove failed");
    assert_eq!(dao.get_user(uid), Err(Error::UserNotFound));
    assert_eq!(dao.get_user_id("key"), Err(Error::UserNotFound));
}

#[test]
fn administrate_passes_any_requirement() {
    let mut dao = MemoryDao::new();
    let (admin_key, _priv) = create_pub_priv_keys().expect("key generation failed");
    let uid = dao.add_user("admin", "priv", &admin_key).expect("add failed");
    dao.set_permission(uid, &Permission::Administrate, true)
        .expect("grant failed");
    // an administrator passes checks that name entirely different grants
    let required = vec![Permission::EditSequence(41), Permission::EditSeqSec(2)];
    let u = authorize(&dao, &admin_key, &required).expect("authorization failed");
    assert_eq!(u.name, "admin");
}

#[test]
fn exact_grant_passes_and_wrong_scope_fails() {
    let mut dao = MemoryDao::new();
    let (key, _priv) = create_pub_priv_keys().expect("key generation failed");
    let uid = dao.add_user("editor", "priv", &key).expect("add failed");
    dao.set_permission(uid, &Permission::EditSequence(5), true)
        .expect("grant failed");

    let accepted = vec![Permission::Administrate, Permission::EditSequence(5)];
    let u = authorize(&dao, &key, &accepted).expect("authorization failed");
    assert_eq!(u.name, "editor");

    let other = vec![Permission::EditSequence(6)];
    assert_eq!(
        authorize(&dao, &key, &other),
        Err(Error::AuthorizationDenied(other.clone()))
    );
}

#[test]
fn authorize_rejects_invalid_and_unknown_keys() {
    let dao = MemoryDao::new();
    let required = vec![Permission::Administrate];
    assert_eq!(
        authorize(&dao, "not a key", &required),
        Err(Error::InvalidPublicKey(String::from("not a key")))
    );
    let (unknown, _priv) = create_pub_priv_keys().expect("key generation failed");
    assert_eq!(
        authorize(&dao, &unknown, &required),
        Err(Error::UserNotFound)
    );
}

#[test]
fn new_user_stores_a_fresh_identity() {
    let mut dao = MemoryDao::new();
    let pub_key = new_user(&mut dao, "Test User").expect("creating user failed");
    let u = get_user(&dao, &pub_key).expect("lookup failed");
    assert_eq!(u.name, "Test User");
    assert_eq!(u.public_key, pub_key);
}

#[test]
fn remove_user_by_name_is_not_built_yet() {
    let dao = MemoryDao::new();
    assert_eq!(remove_user(&dao, "anyone"), Err(Error::TodoErr));
}

#[test]
fn projects_are_stored_and_loaded_by_name() {
    let mut dao = MemoryDao::new();
    assert_eq!(dao.get_project("show"), Err(Error::LoadProjectError));
    dao.new_project("show", 3).expect("creating project failed");
    let p = dao.get_project("show").expect("loading project failed");
    assert_eq!(p.name, "show");
    assert_eq!(p.layout_id, 3);
    assert!(p.sequences.is_empty());
    assert!(p.users.is_empty());
    assert!(matches!(
        dao.new_project("show", 4),
        Err(Error::StorageError(_))
    ));
}

#[test]
fn sequence_edits_persist_through_the_store() {
    let mut dao = MemoryDao::new();
    dao.new_project("show", 0).expect("creating project failed");
    insert_sequence(&mut dao, "show", 10, None).expect("append failed");
    insert_sequence(&mut dao, "show", 30, None).expect("append failed");
    insert_sequence(&mut dao, "show", 20, Some(1)).expect("insert failed");
    assert_eq!(dao.get_project("show").unwrap().sequences, vec![10, 20, 30]);

    remove_sequence(&mut dao, "show", 20).expect("remove failed");
    assert_eq!(dao.get_project("show").unwrap().sequences, vec![10, 30]);

    assert!(matches!(
        remove_sequence(&mut dao, "show", 99),
        Err(Error::StorageError(_))
    ));
    assert_eq!(
        insert_sequence(&mut dao, "nowhere", 1, None),
        Err(Error::LoadProjectError)
    );
}
