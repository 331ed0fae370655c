use proton_cli::codec::{decode_project, encode_project};
use proton_cli::error::Error;
use proton_cli::permission::Permission;
use proton_cli::project_types::{Project, User};

fn plain_user(name: &str, key: &str, perms: Vec<Permission>) -> User {
    User {
        name: String::from(name),
        public_key: String::from(key),
        permissions: perms,
    }
}

#[test]
fn encodes_the_empty_project_exactly() {
    let p = Project {
        name: String::new(),
        layout_id: 0,
        sequences: Vec::new(),
        users: Vec::new(),
    };
    assert_eq!(
        encode_project(&p),
        "{\"name\":\"\",\"layout_id\":0,\"sequences\":[],\"users\":[]}"
    );
}

#[test]
fn encodes_a_full_project_exactly() {
    let p = Project {
        name: String::from("show"),
        layout_id: 12,
        sequences: vec![3, 1, 4],
        users: vec![plain_user(
            "admin",
            "KEY",
            vec![Permission::Administrate, Permission::EditSection(5, 3)],
        )],
    };
    assert_eq!(
        encode_project(&p),
        "{\"name\":\"show\",\"layout_id\":12,\"sequences\":[3,1,4],\"users\":[{\"name\":\"admin\",\"public_key\":\"KEY\",\"permissions\":[[0],[2,5,3]]}]}"
    );
}

#[test]
fn round_trips_with_no_users() {
    let p = Project {
        name: String::from("empty show"),
        layout_id: 7,
        sequences: Vec::new(),
        users: Vec::new(),
    };
    assert_eq!(decode_project(&encode_project(&p)), Ok(p));
}

#[test]
fn round_trips_with_one_user() {
    let p = Project {
        name: String::from("one"),
        layout_id: 4294967295,
        sequences: vec![0, 4294967295],
        users: vec![plain_user("admin", "KEY-1", vec![Permission::Administrate])],
    };
    assert_eq!(decode_project(&encode_project(&p)), Ok(p));
}

#[test]
fn round_trips_with_many_users() {
    let p = Project {
        name: String::from("many"),
        layout_id: 1,
        sequences: vec![10, 20, 30],
        users: vec![
            plain_user("admin", "KEY-1", vec![Permission::Administrate]),
            plain_user("a", "KEY-2", vec![]),
            plain_user(
                "b",
                "KEY-3",
                vec![
                    Permission::EditSequence(5),
                    Permission::EditSection(5, 3),
                    Permission::EditSeqSec(9),
                ],
            ),
        ],
    };
    assert_eq!(decode_project(&encode_project(&p)), Ok(p));
}

#[test]
fn round_trips_names_that_need_escaping() {
    let p = Project {
        name: String::from("a \"quoted\" \\ show\nwith lines"),
        layout_id: 2,
        sequences: Vec::new(),
        users: vec![plain_user("user \"x\"", "----\\KEY\\----", vec![])],
    };
    assert_eq!(decode_project(&encode_project(&p)), Ok(p));
}

#[test]
fn rejects_text_that_is_not_a_descriptor() {
    assert_eq!(
        decode_project("not a descriptor"),
        Err(Error::JsonDecode)
    );
    assert_eq!(decode_project(""), Err(Error::JsonDecode));
    // trailing garbage after a well-formed record is refused too
    let p = Project {
        name: String::new(),
        layout_id: 0,
        sequences: Vec::new(),
        users: Vec::new(),
    };
    let mut text = encode_project(&p);
    text.push(' ');
    assert_eq!(decode_project(&text), Err(Error::JsonDecode));
}

#[test]
fn rejects_numbers_beyond_range() {
    assert_eq!(
        decode_project(
            "{\"name\":\"\",\"layout_id\":4294967296,\"sequences\":[],\"users\":[]}"
        ),
        Err(Error::JsonDecode)
    );
}
