use proton_cli::authorize::authorize;
use proton_cli::codec::decode_project;
use proton_cli::dao::ProtonDao;
use proton_cli::dao_memory::MemoryDao;
use proton_cli::error::Error;
use proton_cli::init::{
    make_project_folder, make_protonfile, InitAction, InitEvent, InitState, ProjectInit,
};
use proton_cli::keys::create_pub_priv_keys;
use proton_cli::permission::Permission;
use proton_cli::project_types::Project;

#[test]
fn walks_every_stage_to_the_genesis_commit() {
    let (admin_key, _priv) = create_pub_priv_keys().expect("key generation failed");
    let mut pi = ProjectInit::new("some/root", &admin_key).expect("starting bootstrap failed");

    assert_eq!(pi.state, InitState::NotStarted);
    assert_eq!(pi.next_action(), InitAction::PrepareFolder);
    pi.handle(InitEvent::FolderChecked(0));

    assert_eq!(pi.state, InitState::FolderPrepared);
    assert_eq!(pi.next_action(), InitAction::WriteDescriptor);
    pi.handle(InitEvent::DescriptorStored);

    assert_eq!(pi.state, InitState::DescriptorWritten);
    assert_eq!(pi.next_action(), InitAction::InitRepository);
    pi.handle(InitEvent::RepositoryReady);

    assert_eq!(pi.state, InitState::RepositoryInitialized);
    assert_eq!(pi.next_action(), InitAction::CommitDescriptor);
    pi.handle(InitEvent::CommitDone);

    assert_eq!(pi.state, InitState::Committed);
    assert_eq!(pi.next_action(), InitAction::Done);
}

#[test]
fn fails_with_a_non_empty_root() {
    let (admin_key, _priv) = create_pub_priv_keys().expect("key generation failed");
    let mut pi = ProjectInit::new("busy/root", &admin_key).expect("starting bootstrap failed");
    pi.handle(InitEvent::FolderChecked(3));
    assert_eq!(
        pi.state,
        InitState::Failed(Error::FolderNotEmpty(String::from("busy/root"), 3))
    );
    assert_eq!(pi.next_action(), InitAction::Done);
}

#[test]
fn fails_with_a_bad_admin_key() {
    assert_eq!(
        ProjectInit::new("root", "junk key"),
        Err(Error::InvalidPublicKey(String::from("junk key")))
    );
}

#[test]
fn records_io_and_git_failures() {
    let (admin_key, _priv) = create_pub_priv_keys().expect("key generation failed");
    let mut pi = ProjectInit::new("root", &admin_key).expect("starting bootstrap failed");
    pi.handle(InitEvent::FolderFailed(String::from("permission denied")));
    assert_eq!(
        pi.state,
        InitState::Failed(Error::Io(String::from("permission denied")))
    );

    let mut pi2 = ProjectInit::new("root", &admin_key).expect("starting bootstrap failed");
    pi2.handle(InitEvent::FolderChecked(0));
    pi2.handle(InitEvent::DescriptorStored);
    pi2.handle(InitEvent::RepositoryFailed(String::from("init failed")));
    assert_eq!(
        pi2.state,
        InitState::Failed(Error::Git(String::from("init failed")))
    );
}

#[test]
fn folder_rule_accepts_only_an_empty_root() {
    assert_eq!(make_project_folder("root", 0), Ok(()));
    assert_eq!(
        make_project_folder("root", 2),
        Err(Error::FolderNotEmpty(String::from("root"), 2))
    );
}

#[test]
fn descriptor_lists_one_administrator() {
    let (admin_key, _priv) = create_pub_priv_keys().expect("key generation failed");
    let text = make_protonfile(&admin_key).expect("building descriptor failed");
    let project = decode_project(&text).expect("decoding descriptor failed");
    assert_eq!(project.users.len(), 1);
    let admin = &project.users[0];
    assert_eq!(admin.name, "admin");
    assert_eq!(admin.public_key, admin_key);
    assert_eq!(admin.permissions, vec![Permission::Administrate]);
    assert!(project.sequences.is_empty());

    // the same project the bootstrap itself would persist
    let expected = Project::empty(&admin_key).expect("building initial project failed");
    assert_eq!(project, expected);
}

#[test]
fn bootstrapped_admin_authorizes_and_strangers_do_not() {
    let (admin_key, admin_priv) = create_pub_priv_keys().expect("key generation failed");
    let pi = ProjectInit::new("root", &admin_key).expect("starting bootstrap failed");
    let project = decode_project(&pi.descriptor).expect("decoding descriptor failed");

    // mirror the descriptor into a store, as a driver would after the commit
    let mut dao = MemoryDao::new();
    let uid = dao
        .add_user(&project.users[0].name, &admin_priv, &project.users[0].public_key)
        .expect("storing admin failed");
    for p in &project.users[0].permissions {
        dao.set_permission(uid, p, true).expect("granting failed");
    }

    let required = vec![Permission::Administrate];
    let admin = authorize(&dao, &admin_key, &required).expect("authorization failed");
    assert_eq!(admin.name, "admin");

    let (other_key, _other_priv) = create_pub_priv_keys().expect("key generation failed");
    assert_eq!(
        authorize(&dao, &other_key, &required),
        Err(Error::UserNotFound)
    );
}

#[test]
fn duplicate_project_member_is_refused() {
    let (admin_key, _priv) = create_pub_priv_keys().expect("key generation failed");
    let (member_key, _mpriv) = create_pub_priv_keys().expect("key generation failed");
    let mut project = Project::empty(&admin_key).expect("building project failed");
    project
        .add_user("member", &member_key)
        .expect("adding member failed");
    assert_eq!(
        project.add_user("member", &admin_key),
        Err(Error::DuplicateUser(
            admin_key.clone(),
            String::from("member")
        ))
    );
}

#[test]
fn sequences_keep_their_order() {
    let (admin_key, _priv) = create_pub_priv_keys().expect("key generation failed");
    let mut project = Project::empty(&admin_key).expect("building project failed");
    project.insert_sequence(10, None).expect("append failed");
    project.insert_sequence(30, None).expect("append failed");
    project.insert_sequence(20, Some(1)).expect("insert failed");
    assert_eq!(project.sequences, vec![10, 20, 30]);

    let err = project.insert_sequence(40, Some(9)).unwrap_err();
    assert!(matches!(err, Error::StorageError(_)));
    assert_eq!(project.sequences, vec![10, 20, 30]);

    project.remove_sequence(20).expect("remove failed");
    assert_eq!(project.sequences, vec![10, 30]);
    assert!(matches!(
        project.remove_sequence(99),
        Err(Error::StorageError(_))
    ));
}
