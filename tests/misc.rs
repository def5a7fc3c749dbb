use zero2prod::authentication::{
    validate_password, AuthError, AuthorizedSessionLayer, AccessDecision, SessionLookup,
};
use zero2prod::dashboard::Dashboard;
use zero2prod::request_id::RequestUuid;
use zero2prod::utils::{e422, e500, HttpError};

static PROTECTED: &[&str] = &["/admin/dashboard", "/admin/newsletters"];

#[test]
fn too_short_password_is_rejected() {
    let password = "a".repeat(11);
    assert_eq!(validate_password(&password), Err("Password must be at least 12 characters long."));
}

#[test]
fn too_long_password_is_rejected() {
    let password = "a".repeat(129);
    assert_eq!(validate_password(&password), Err("Passwords must be at most 128 characters long."));
}

#[test]
fn password_bounds_are_inclusive_and_counted_in_bytes() {
    assert_eq!(validate_password(&"a".repeat(12)), Ok(()));
    assert_eq!(validate_password(&"a".repeat(128)), Ok(()));
    // six two-byte characters: twelve bytes
    assert_eq!(validate_password(&"ę".repeat(6)), Ok(()));
}

#[test]
fn protected_paths_need_a_session_user() {
    let layer = AuthorizedSessionLayer::new(PROTECTED);
    let guard = layer.layer(());
    assert!(guard.is_protected("/admin/dashboard"));
    assert!(!guard.is_protected("/login"));
    assert_eq!(guard.decide("/admin/dashboard", SessionLookup::Found(9)), AccessDecision::Forward(Some(9)));
    assert_eq!(guard.decide("/admin/dashboard", SessionLookup::Missing), AccessDecision::RedirectToLogin);
    assert_eq!(guard.decide("/admin/newsletters", SessionLookup::Failed), AccessDecision::InternalServerError);
    assert_eq!(guard.decide("/admin/newsletters", SessionLookup::NoSession), AccessDecision::InternalServerError);
    assert_eq!(guard.decide("/login", SessionLookup::Missing), AccessDecision::Forward(None));
}

#[test]
fn http_errors_map_to_status_codes() {
    let a: HttpError<String> = e422("bad".to_string());
    let b: HttpError<String> = e500("worse".to_string());
    assert_eq!(a.status_code(), 422);
    assert_eq!(b.status_code(), 500);
    assert!(matches!(a, HttpError::UnprocessableEntity(ref m) if m == "bad"));
    assert!(matches!(b, HttpError::InternalServerError(ref m) if m == "worse"));
}

#[test]
fn auth_errors_have_messages() {
    assert_eq!(AuthError::InvalidCredentials("x".to_string()).message(), "Invalid credentials");
    assert_eq!(AuthError::UnexpectedError("db down".to_string()).message(), "db down");
}

#[test]
fn request_ids_are_hyphenated_uuids() {
    let mut maker = RequestUuid;
    let a = maker.make_request_id();
    let b = maker.make_request_id();
    assert_eq!(a.len(), 36);
    assert_eq!(a.matches('-').count(), 4);
    assert_eq!(&a[14..15], "4");
    assert_ne!(a, b);
}

#[test]
fn the_dashboard_greets_its_user() {
    let d = Dashboard::for_user("admin".to_string());
    assert_eq!(d.title, "Admin Dashboard");
    assert_eq!(d.welcome, "Welcome");
    assert_eq!(d.username, "admin");
}

#[test]
fn request_ids_are_lowercase_uuid_text() {
    let id = RequestUuid.make_request_id();
    let parsed = uuid::Uuid::parse_str(&id).expect("a uuid");
    assert_eq!(parsed.hyphenated().to_string(), id);
    assert_eq!(id.to_lowercase(), id);
}
