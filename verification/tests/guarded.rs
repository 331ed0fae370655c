use proton_cli::dao::ProtonDao;
use proton_cli::dao_memory::MemoryDao;
use proton_cli::error::Error;
use proton_cli::keys::create_pub_priv_keys;
use proton_cli::permission::Permission;
use proton_cli::project::new_project;
use proton_cli::project_types::User;
use proton_cli::sequence::{guarded_insert_sequence, guarded_remove_sequence};
use proton_cli::user::{guarded_new_user, guarded_set_permission};

fn store_with_admin(dao: &mut MemoryDao) -> String {
    let (admin_key, _priv) = create_pub_priv_keys().expect("key generation failed");
    let uid = dao
        .add_user("root admin", "priv", &admin_key)
        .expect("storing admin failed");
    dao.set_permission(uid, &Permission::Administrate, true)
        .expect("granting failed");
    admin_key
}

#[test]
fn guarded_new_user_gates_then_creates() {
    let mut dao = MemoryDao::new();
    let admin_key = store_with_admin(&mut dao);

    let new_key = guarded_new_user(&mut dao, &admin_key, "Member").expect("creation failed");
    assert_eq!(User::validate_public_key(&new_key), Ok(()));
    let uid = dao.get_user_id(&new_key).expect("lookup failed");
    assert_eq!(dao.get_user(uid).unwrap().name, "Member");
}

#[test]
fn guarded_new_user_refuses_non_administrators() {
    let mut dao = MemoryDao::new();
    let admin_key = store_with_admin(&mut dao);
    let member_key = guarded_new_user(&mut dao, &admin_key, "Member").expect("creation failed");

    assert_eq!(
        guarded_new_user(&mut dao, &member_key, "Another"),
        Err(Error::AuthorizationDenied(vec![Permission::Administrate]))
    );
    let (stranger, _priv) = create_pub_priv_keys().expect("key generation failed");
    assert_eq!(
        guarded_new_user(&mut dao, &stranger, "Another"),
        Err(Error::UserNotFound)
    );
    assert_eq!(
        guarded_new_user(&mut dao, "not a key", "Another"),
        Err(Error::InvalidPublicKey(String::from("not a key")))
    );
}

#[test]
fn guarded_set_permission_gates_then_grants() {
    let mut dao = MemoryDao::new();
    let admin_key = store_with_admin(&mut dao);
    let member_key = guarded_new_user(&mut dao, &admin_key, "Member").expect("creation failed");
    let member_uid = dao.get_user_id(&member_key).expect("lookup failed");

    guarded_set_permission(
        &mut dao,
        &admin_key,
        member_uid,
        &Permission::EditSequence(5),
        true,
    )
    .expect("grant failed");
    assert_eq!(
        dao.get_permissions(member_uid),
        Ok(vec![Permission::EditSequence(5)])
    );

    // a plain editor may not grant
    assert_eq!(
        guarded_set_permission(&mut dao, &member_key, member_uid, &Permission::Administrate, true),
        Err(Error::AuthorizationDenied(vec![Permission::Administrate]))
    );
}

#[test]
fn guarded_sequence_edits_accept_either_grant() {
    let mut dao = MemoryDao::new();
    let admin_key = store_with_admin(&mut dao);
    dao.new_project("show", 0).expect("creating project failed");

    guarded_insert_sequence(&mut dao, &admin_key, "show", 7, None).expect("insert failed");
    assert_eq!(dao.get_project("show").unwrap().sequences, vec![7]);

    // an editor holding exactly EditSequence(7) may remove sequence 7...
    let editor_key = guarded_new_user(&mut dao, &admin_key, "Editor").expect("creation failed");
    let editor_uid = dao.get_user_id(&editor_key).expect("lookup failed");
    guarded_set_permission(&mut dao, &admin_key, editor_uid, &Permission::EditSequence(7), true)
        .expect("grant failed");
    guarded_remove_sequence(&mut dao, &editor_key, "show", 7).expect("remove failed");
    assert!(dao.get_project("show").unwrap().sequences.is_empty());

    // ...but may not insert, which asks for Administrate alone
    assert_eq!(
        guarded_insert_sequence(&mut dao, &editor_key, "show", 8, None),
        Err(Error::AuthorizationDenied(vec![Permission::Administrate]))
    );
}

#[test]
fn new_project_creates_the_genesis_administrator() {
    let mut dao = MemoryDao::new();
    let root_key = new_project(&mut dao, "show", 4).expect("creating project failed");
    assert_eq!(User::validate_public_key(&root_key), Ok(()));

    let p = dao.get_project("show").expect("loading project failed");
    assert_eq!(p.layout_id, 4);
    assert_eq!(p.users.len(), 1);
    assert_eq!(p.users[0].name, "admin");
    assert_eq!(p.users[0].public_key, root_key);
    assert_eq!(p.users[0].permissions, vec![Permission::Administrate]);

    assert!(matches!(
        new_project(&mut dao, "show", 9),
        Err(Error::StorageError(_))
    ));
}

#[test]
fn messages_render_the_payloads() {
    assert_eq!(
        Error::FolderNotEmpty(String::from("some/root"), 2).message(),
        "some/root was not empty: 2 files exist"
    );
    assert_eq!(
        Error::FolderNotEmpty(String::from("r"), 41).message(),
        "r was not empty: 41 files exist"
    );
    assert_eq!(
        Error::DuplicateUser(String::from("KEY"), String::from("Name")).message(),
        "User 'Name' with key 'KEY' already exists"
    );
    assert_eq!(
        Error::InvalidPublicKey(String::from("junk")).message(),
        "Public key 'junk' is invalid"
    );
    assert_eq!(
        Error::Io(String::from("disk gone")).message(),
        "IO error occurred: disk gone"
    );
    assert_eq!(Error::UserNotFound.message(), "User not found");
}
