use argon2::password_hash::SaltString;
use argon2::{Argon2, PasswordHasher};
use base64::Engine;
use zero2prod::authentication::AuthError;
use zero2prod::credentials::{
    basic_authentication, get_stored_credentials, validate_credentials, verify_password_hash,
    Credentials, StoredUser,
};

fn hash(password: &str) -> String {
    let salt = SaltString::encode_b64(b"a fixed salt 16b").unwrap();
    Argon2::default().hash_password(password.as_bytes(), &salt).unwrap().to_string()
}

fn users() -> Vec<StoredUser> {
    vec![
        StoredUser { user_id: 1, username: "admin".to_string(), password_hash: hash("everythinghastostartsomewhere") },
        StoredUser { user_id: 2, username: "broken".to_string(), password_hash: "not a phc string".to_string() },
    ]
}

fn credentials(username: &str, password: &str) -> Credentials {
    Credentials { username: username.to_string(), password: password.to_string() }
}

fn header(text: &str) -> String {
    format!("Basic {}", base64::engine::general_purpose::STANDARD.encode(text))
}

#[test]
fn successful_login_yields_the_user_id() {
    let r = validate_credentials(&users(), &credentials("admin", "everythinghastostartsomewhere"));
    assert!(matches!(r, Ok(1)));
}

#[test]
fn invalid_password_is_rejected() {
    let r = validate_credentials(&users(), &credentials("admin", "wrong password"));
    assert!(matches!(r, Err(AuthError::InvalidCredentials(_))));
}

#[test]
fn non_existing_user_is_rejected() {
    let r = validate_credentials(&users(), &credentials("nobody", "everythinghastostartsomewhere"));
    assert!(matches!(r, Err(AuthError::InvalidCredentials(_))));
}

#[test]
fn a_malformed_stored_hash_is_unexpected() {
    let r = validate_credentials(&users(), &credentials("broken", "anything"));
    assert!(matches!(r, Err(AuthError::UnexpectedError(_))));
}

#[test]
fn stored_credentials_are_found_by_username() {
    let u = users();
    let (id, h) = get_stored_credentials(&u, "admin").unwrap();
    assert_eq!(id, 1);
    assert!(h.starts_with("$argon2id$"));
    assert!(get_stored_credentials(&u, "Admin").is_none());
}

#[test]
fn basic_credentials_are_decoded() {
    let h = header("admin:pass:word");
    let c = basic_authentication(Some(&h)).ok().unwrap();
    assert_eq!(c.username, "admin");
    assert_eq!(c.password, "pass:word");
    let h = header(":");
    let c = basic_authentication(Some(&h)).ok().unwrap();
    assert_eq!(c.username, "");
    assert_eq!(c.password, "");
}

#[test]
fn requests_missing_authorization_are_rejected() {
    assert_eq!(basic_authentication(None).err().unwrap(), "The 'Authorization' header was missing");
}

#[test]
fn malformed_basic_headers_are_rejected() {
    assert_eq!(
        basic_authentication(Some("Bearer abc")).err().unwrap(),
        "The authorization scheme was not 'Basic'"
    );
    assert_eq!(
        basic_authentication(Some("Basic")).err().unwrap(),
        "The authorization scheme was not 'Basic'"
    );
    assert_eq!(
        basic_authentication(Some("Basic ***")).err().unwrap(),
        "Failed to base64-decode 'Basic' credentials"
    );
    let bad_utf8 = format!("Basic {}", base64::engine::general_purpose::STANDARD.encode([0xffu8, 0xfe]));
    assert_eq!(
        basic_authentication(Some(&bad_utf8)).err().unwrap(),
        "The decoded credential string is not a valid UTF-8"
    );
    assert_eq!(
        basic_authentication(Some(&header("no-colon"))).err().unwrap(),
        "A username must be provided in 'Basic' auth"
    );
}

#[test]
fn password_hashes_are_checked() {
    let h = hash("secret-password");
    assert!(verify_password_hash(&h, "secret-password").is_ok());
    assert!(matches!(verify_password_hash(&h, "other"), Err(AuthError::InvalidCredentials(_))));
}

#[test]
fn usernames_are_found_by_id() {
    let u = users();
    assert_eq!(zero2prod::credentials::get_username(&u, 2).ok(), Some("broken".to_string()));
    assert_eq!(
        zero2prod::credentials::get_username(&u, 3).err(),
        Some("Failed to perform a query to retrieve a username".to_string())
    );
}
