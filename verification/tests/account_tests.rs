use ouja_skins::model::{ApiError, LoginParams, RegisterParams, UpdateEmailParams,
    UpdateUserParams};
use ouja_skins::service::Service;

fn service() -> Service {
    Service::new("unit-test-key".to_string())
}

fn csrf(s: &Service) -> String {
    s.codec.encrypt("csrf-nonce")
}

fn register_params(username: &str, email: &str, password: &str, conf: &str) -> RegisterParams {
    RegisterParams {
        username: username.to_string(),
        email: email.to_string(),
        password: password.to_string(),
        conf_password: conf.to_string(),
        agreed: true,
    }
}

fn registered_service() -> Service {
    let mut s = service();
    let c = csrf(&s);
    let r = s.register(Some(&c), &register_params("Alice", "a@x.com", "p1", "p1"), 1000);
    assert!(r.is_ok());
    s
}

#[test]
fn register_success_creates_account() {
    let s = registered_service();
    assert_eq!(s.accounts.len(), 1);
    let a = &s.accounts[0];
    assert_eq!(a.username, "Alice");
    assert_eq!(a.email, s.codec.encrypt("a@x.com"));
    assert_eq!(a.password, s.codec.encrypt("p1"));
    assert_eq!(a.session, None);
    assert_eq!(a.about_me, None);
    assert_eq!(a.profile_picture, None);
    assert_eq!(a.date, 1000);
    assert_eq!(a.id.len(), 36);
}

#[test]
fn register_requires_csrf() {
    let mut s = service();
    let r = s.register(None, &register_params("Alice", "a@x.com", "p1", "p1"), 0);
    assert_eq!(r, Err(ApiError::InvalidCsrf));
    assert_eq!(s.accounts.len(), 0);
}

#[test]
fn register_rejects_case_insensitive_duplicate_username() {
    let mut s = registered_service();
    let c = csrf(&s);
    let r = s.register(Some(&c), &register_params("alice", "b@x.com", "p2", "p2"), 2000);
    assert_eq!(r, Err(ApiError::NameExists));
    assert_eq!(ApiError::NameExists.message(), "Name already exists!");
    assert_eq!(s.accounts.len(), 1);
}

#[test]
fn register_rejects_duplicate_email() {
    let mut s = registered_service();
    let c = csrf(&s);
    let r = s.register(Some(&c), &register_params("Bob", "a@x.com", "p2", "p2"), 2000);
    assert_eq!(r, Err(ApiError::EmailExists));
}

#[test]
fn register_rejects_password_mismatch() {
    let mut s = service();
    let c = csrf(&s);
    let r = s.register(Some(&c), &register_params("Alice", "a@x.com", "p1", "p2"), 0);
    assert_eq!(r, Err(ApiError::PasswordMismatch));
}

#[test]
fn register_rejects_long_fields() {
    let mut s = service();
    let c = csrf(&s);
    let long_name = "x".repeat(17);
    let r = s.register(Some(&c), &register_params(&long_name, "a@x.com", "p", "p"), 0);
    assert_eq!(r, Err(ApiError::UsernameTooLong));

    let long_email = format!("{}@x.com", "e".repeat(255));
    let r = s.register(Some(&c), &register_params("Alice", &long_email, "p", "p"), 0);
    assert_eq!(r, Err(ApiError::EmailTooLong));

    let long_pw = "p".repeat(257);
    let r = s.register(Some(&c), &register_params("Alice", "a@x.com", &long_pw, &long_pw), 0);
    assert_eq!(r, Err(ApiError::PasswordTooLong));
}

#[test]
fn register_accepts_boundary_lengths() {
    let mut s = service();
    let c = csrf(&s);
    let name16 = "x".repeat(16);
    let pw256 = "p".repeat(256);
    let r = s.register(Some(&c), &register_params(&name16, "a@x.com", &pw256, &pw256), 0);
    assert!(r.is_ok());
}

#[test]
fn me_without_header_is_unauthorized_with_no_account_data() {
    let s = registered_service();
    let r = s.me(None);
    assert_eq!(r.unwrap_err(), ApiError::Unauthorized);
    assert_eq!(ApiError::Unauthorized.status(), 401);
    assert_eq!(ApiError::Unauthorized.message(), "");
}

#[test]
fn me_with_unknown_token_is_not_found() {
    let s = registered_service();
    let r = s.me(Some("no-such-token"));
    assert_eq!(r.unwrap_err(), ApiError::SessionNotFound);
}

#[test]
fn login_issues_token_that_authenticates() {
    let mut s = registered_service();
    let c = csrf(&s);
    let params = LoginParams {
        email: "a@x.com".to_string(),
        password: "p1".to_string(),
        remember_me: false,
    };
    let token = s.login(Some(&c), &params).unwrap();
    let me = s.me(Some(&token)).unwrap();
    assert_eq!(me.username, "Alice");
    assert_eq!(me.email, "a@x.com");
    assert_eq!(me.session, token);
    assert_eq!(me.about_me, "");
    assert_eq!(me.profile_picture, "");
}

#[test]
fn second_login_rotates_the_session_token() {
    let mut s = registered_service();
    let c = csrf(&s);
    let params = LoginParams {
        email: "a@x.com".to_string(),
        password: "p1".to_string(),
        remember_me: false,
    };
    let first = s.login(Some(&c), &params).unwrap();
    let second = s.login(Some(&c), &params).unwrap();
    assert_ne!(first, second);
    assert!(s.me(Some(&second)).is_ok());
    assert_eq!(s.me(Some(&first)).unwrap_err(), ApiError::SessionNotFound);
}

#[test]
fn login_with_wrong_password_is_not_found() {
    let mut s = registered_service();
    let c = csrf(&s);
    let params = LoginParams {
        email: "a@x.com".to_string(),
        password: "wrong".to_string(),
        remember_me: false,
    };
    assert_eq!(s.login(Some(&c), &params), Err(ApiError::AccountNotFound));
}

#[test]
fn login_requires_csrf() {
    let mut s = registered_service();
    let params = LoginParams {
        email: "a@x.com".to_string(),
        password: "p1".to_string(),
        remember_me: false,
    };
    assert_eq!(s.login(None, &params), Err(ApiError::InvalidCsrf));
}

fn logged_in() -> (Service, String) {
    let mut s = registered_service();
    let c = csrf(&s);
    let params = LoginParams {
        email: "a@x.com".to_string(),
        password: "p1".to_string(),
        remember_me: false,
    };
    let token = s.login(Some(&c), &params).unwrap();
    (s, token)
}

#[test]
fn update_user_overwrites_profile_fields() {
    let (mut s, token) = logged_in();
    let c = csrf(&s);
    let params = UpdateUserParams {
        username: "Alicia".to_string(),
        about_me: "hi there".to_string(),
    };
    assert!(s.update_user(Some(&c), Some(&token), &params).is_ok());
    let me = s.me(Some(&token)).unwrap();
    assert_eq!(me.username, "Alicia");
    assert_eq!(me.about_me, "hi there");
}

#[test]
fn update_user_rejects_long_fields_and_checks_about_me_first() {
    let (mut s, token) = logged_in();
    let c = csrf(&s);
    let params = UpdateUserParams {
        username: "x".repeat(17),
        about_me: "a".repeat(257),
    };
    assert_eq!(s.update_user(Some(&c), Some(&token), &params), Err(ApiError::AboutMeTooLong));
    let params = UpdateUserParams {
        username: "x".repeat(17),
        about_me: "ok".to_string(),
    };
    assert_eq!(s.update_user(Some(&c), Some(&token), &params), Err(ApiError::UsernameTooLong));
}

#[test]
fn update_user_requires_csrf_and_session() {
    let (mut s, token) = logged_in();
    let params = UpdateUserParams {
        username: "A".to_string(),
        about_me: String::new(),
    };
    assert_eq!(s.update_user(None, Some(&token), &params), Err(ApiError::InvalidCsrf));
    let c = csrf(&s);
    assert_eq!(s.update_user(Some(&c), None, &params), Err(ApiError::AuthFailed));
    assert_eq!(s.update_user(Some(&c), Some("bad"), &params), Err(ApiError::AuthFailed));
}

#[test]
fn update_email_reencrypts_and_login_follows() {
    let (mut s, token) = logged_in();
    let c = csrf(&s);
    let params = UpdateEmailParams { email: "new@x.com".to_string() };
    assert!(s.update_email(Some(&c), Some(&token), &params).is_ok());
    let me = s.me(Some(&token)).unwrap();
    assert_eq!(me.email, "new@x.com");
    let login = LoginParams {
        email: "new@x.com".to_string(),
        password: "p1".to_string(),
        remember_me: false,
    };
    assert!(s.login(Some(&c), &login).is_ok());
}

#[test]
fn update_email_rejects_long_email() {
    let (mut s, token) = logged_in();
    let c = csrf(&s);
    let params = UpdateEmailParams { email: "e".repeat(257) };
    assert_eq!(s.update_email(Some(&c), Some(&token), &params), Err(ApiError::EmailTooLong));
}

#[test]
fn index_resolves_username_case_insensitively() {
    let s = registered_service();
    let profile = s.index("ALICE").unwrap();
    assert_eq!(profile.username, "Alice");
    assert_eq!(profile.about_me, None);
    assert_eq!(profile.id, s.accounts[0].id);
}

#[test]
fn index_unknown_user_is_not_found() {
    let s = registered_service();
    assert_eq!(s.index("nobody").unwrap_err(), ApiError::ProfileNotFound);
    assert_eq!(ApiError::ProfileNotFound.message(), "Not found");
}

#[test]
fn get_user_skins_unknown_user_is_not_found() {
    let s = registered_service();
    assert_eq!(s.get_user_skins("nobody").unwrap_err(), ApiError::UserNotFound);
    assert_eq!(ApiError::UserNotFound.message(), "User not found");
}

#[test]
fn register_with_injected_id_pins_the_record_id() {
    let mut s = service();
    let c = csrf(&s);
    let id = "00000000-0000-4000-8000-00000000000a".to_string();
    let r = s.register_with_id(
        Some(&c),
        &register_params("Alice", "a@x.com", "p1", "p1"),
        id.clone(),
        5,
    );
    assert!(r.is_ok());
    assert_eq!(s.accounts[0].id, id);
}

#[test]
fn login_with_injected_token_stores_and_returns_it() {
    let mut s = registered_service();
    let c = csrf(&s);
    let params = LoginParams {
        email: "a@x.com".to_string(),
        password: "p1".to_string(),
        remember_me: false,
    };
    let token = s.codec.encrypt("fixed-session-id");
    let r = s.login_with_token(Some(&c), &params, token.clone());
    assert_eq!(r, Ok(token.clone()));
    assert_eq!(s.accounts[0].session, Some(token.clone()));
    assert_eq!(s.me(Some(&token)).unwrap().username, "Alice");
}
