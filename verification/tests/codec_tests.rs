use ouja_skins::model::ApiError;
use ouja_skins::service::Service;

fn service() -> Service {
    Service::new("unit-test-key".to_string())
}

#[test]
fn round_trip_basic() {
    let s = service();
    let c = s.codec.encrypt("hello world");
    assert_eq!(s.codec.decrypt(&c), Some("hello world".to_string()));
}

#[test]
fn round_trip_empty_string() {
    let s = service();
    let c = s.codec.encrypt("");
    assert_eq!(s.codec.decrypt(&c), Some(String::new()));
}

#[test]
fn round_trip_unicode() {
    let s = service();
    let c = s.codec.encrypt("héllo wörld ✓");
    assert_eq!(s.codec.decrypt(&c), Some("héllo wörld ✓".to_string()));
}

#[test]
fn encrypt_is_deterministic() {
    let s = service();
    assert_eq!(s.codec.encrypt("same input"), s.codec.encrypt("same input"));
}

#[test]
fn different_plaintexts_different_ciphertexts() {
    let s = service();
    assert_ne!(s.codec.encrypt("one"), s.codec.encrypt("two"));
}

#[test]
fn decrypt_rejects_malformed_input() {
    let s = service();
    assert_eq!(s.codec.decrypt("not valid base64 !!!"), None);
}

#[test]
fn decrypt_under_wrong_key_never_returns_plaintext() {
    let a = Service::new("key-a".to_string());
    let b = Service::new("key-b".to_string());
    let c = a.codec.encrypt("secret payload");
    assert_ne!(b.codec.decrypt(&c), Some("secret payload".to_string()));
}

#[test]
fn csrf_accepts_encrypted_nonempty_token() {
    let s = service();
    let token = s.codec.encrypt("nonce");
    assert!(s.codec.verified_csrf(Some(&token)));
}

#[test]
fn csrf_rejects_missing_header() {
    let s = service();
    assert!(!s.codec.verified_csrf(None));
}

#[test]
fn csrf_rejects_malformed_token() {
    let s = service();
    assert!(!s.codec.verified_csrf(Some("garbage???")));
}

#[test]
fn csrf_rejects_empty_plaintext() {
    let s = service();
    let token = s.codec.encrypt("");
    assert!(!s.codec.verified_csrf(Some(&token)));
}

#[test]
fn error_status_and_message() {
    assert_eq!(ApiError::NameExists.status(), 200);
    assert_eq!(ApiError::NameExists.message(), "Name already exists!");
    assert_eq!(ApiError::Unauthorized.status(), 401);
    assert_eq!(ApiError::Unauthorized.message(), "");
    assert_eq!(ApiError::SkinTooLarge.status(), 413);
    assert_eq!(
        ApiError::SkinTooLarge.message(),
        "Skin file is too large. It must be less than 5KB!"
    );
    assert_eq!(ApiError::SkinExists.status(), 403);
    assert_eq!(ApiError::SkinExists.message(), "Skin file already exists!");
    assert_eq!(ApiError::TitleExists.status(), 401);
    assert_eq!(ApiError::TitleExists.message(), "Title already exists!");
    assert_eq!(ApiError::AccountNotFound.status(), 404);
    assert_eq!(ApiError::AccountNotFound.message(), "Account not found.");
    assert_eq!(ApiError::BadDimensions.message(), "Skin must be 64x64 or 64x32");
    assert_eq!(ApiError::UnsupportedMedia.message(), "Skin must be a png or jpeg!");
}
