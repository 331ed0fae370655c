use proton_cli::error::Error;
use proton_cli::keys::create_pub_priv_keys;
use proton_cli::project_types::User;

#[test]
fn generated_public_key_validates() {
    let (pub_key, _priv_key) = create_pub_priv_keys().expect("key generation failed");
    assert_eq!(User::validate_public_key(&pub_key), Ok(()));
}

#[test]
fn generated_private_key_is_not_a_public_key() {
    let (_pub_key, priv_key) = create_pub_priv_keys().expect("key generation failed");
    assert_eq!(
        User::validate_public_key(&priv_key),
        Err(Error::InvalidPublicKey(priv_key.clone()))
    );
}

#[test]
fn non_pem_text_is_rejected() {
    let junk = "this is not a pem key";
    assert_eq!(
        User::validate_public_key(junk),
        Err(Error::InvalidPublicKey(String::from(junk)))
    );
}

#[test]
fn corrupted_pem_is_rejected() {
    let (pub_key, _priv_key) = create_pub_priv_keys().expect("key generation failed");
    // break the PEM framing, keeping the body
    let corrupted = pub_key.replace("PUBLIC", "PUBLIK");
    assert_eq!(
        User::validate_public_key(&corrupted),
        Err(Error::InvalidPublicKey(corrupted.clone()))
    );
}

#[test]
fn new_user_requires_a_valid_key() {
    let (pub_key, _priv_key) = create_pub_priv_keys().expect("key generation failed");
    let u = User::new("Test User", &pub_key).expect("creating user failed");
    assert_eq!(u.name, "Test User");
    assert_eq!(u.public_key, pub_key);
    assert!(u.permissions.is_empty());

    assert_eq!(
        User::new("Test User", "garbage"),
        Err(Error::InvalidPublicKey(String::from("garbage")))
    );
}
