use ouja_skins::ingest::UploadField;
use ouja_skins::model::{ApiError, LoginParams, RegisterParams, SkinMeta};
use ouja_skins::service::Service;

/// A buffer that sniffs as PNG and whose header declares the given
/// dimensions, padded with zero bytes to exactly `total` bytes.
fn png_bytes(width: u32, height: u32, total: usize) -> Vec<u8> {
    let mut b: Vec<u8> = Vec::new();
    b.extend_from_slice(&[0x89, b'P', b'N', b'G', 0x0d, 0x0a, 0x1a, 0x0a]);
    b.extend_from_slice(&13u32.to_be_bytes());
    b.extend_from_slice(b"IHDR");
    b.extend_from_slice(&width.to_be_bytes());
    b.extend_from_slice(&height.to_be_bytes());
    b.extend_from_slice(&[8, 6, 0, 0, 0]);
    b.extend_from_slice(&[0, 0, 0, 0]);
    assert!(total >= b.len());
    b.resize(total, 0);
    b
}

fn field(name: &str, chunks: Vec<Vec<u8>>, filename: Option<&str>) -> UploadField {
    UploadField {
        name: name.to_string(),
        chunks,
        filename: filename.map(|f| f.to_string()),
    }
}

fn upload_fields(title: &str, description: &str, data: &[u8]) -> Vec<UploadField> {
    vec![
        field("title", vec![title.as_bytes().to_vec()], None),
        field("description", vec![description.as_bytes().to_vec()], None),
        field("skin", vec![data.to_vec()], Some("skin.png")),
    ]
}

fn logged_in() -> (Service, String) {
    let mut s = Service::new("unit-test-key".to_string());
    let csrf = s.codec.encrypt("csrf-nonce");
    let params = RegisterParams {
        username: "Alice".to_string(),
        email: "a@x.com".to_string(),
        password: "p1".to_string(),
        conf_password: "p1".to_string(),
        agreed: true,
    };
    s.register(Some(&csrf), &params, 1).unwrap();
    let login = LoginParams {
        email: "a@x.com".to_string(),
        password: "p1".to_string(),
        remember_me: false,
    };
    let token = s.login(Some(&csrf), &login).unwrap();
    (s, token)
}

#[test]
fn upload_valid_png_succeeds_and_duplicate_bytes_conflict() {
    let (mut s, token) = logged_in();
    let data = png_bytes(64, 64, 4000);
    let id = s
        .upload_skin(Some(&token), &upload_fields("Cool", "a skin", &data), 99)
        .unwrap();
    assert_eq!(id.len(), 36);
    assert_eq!(s.skins.len(), 1);
    let rec = &s.skins[0];
    assert_eq!(rec.id, id);
    assert_eq!(rec.title, "Cool");
    assert_eq!(rec.description, "a skin");
    assert_eq!(rec.size, 4000);
    assert_eq!(rec.filename, "skin.png");
    assert_eq!(rec.owner, s.accounts[0].id);
    assert_eq!(rec.date, 99);
    assert_eq!(rec.hash.len(), 48);
    assert_eq!(
        rec.metadata,
        SkinMeta::Image { width: 64, height: 64, content_type: "image/png".to_string() }
    );

    let again = s.upload_skin(Some(&token), &upload_fields("Other", "x", &data), 100);
    assert_eq!(again, Err(ApiError::SkinExists));
    assert_eq!(s.skins.len(), 1);
}

#[test]
fn upload_of_exactly_5000_bytes_succeeds_and_5001_fails() {
    let (mut s, token) = logged_in();
    let at_limit = png_bytes(64, 32, 5000);
    let r = s.upload_skin(Some(&token), &upload_fields("AtLimit", "", &at_limit), 1);
    assert!(r.is_ok());
    assert_eq!(s.skins[0].size, 5000);

    let over = png_bytes(64, 32, 5001);
    let r = s.upload_skin(Some(&token), &upload_fields("Over", "", &over), 2);
    assert_eq!(r, Err(ApiError::SkinTooLarge));
}

#[test]
fn dimension_boundaries() {
    let (mut s, token) = logged_in();
    let ok = png_bytes(64, 32, 900);
    assert!(s.upload_skin(Some(&token), &upload_fields("Wide", "", &ok), 1).is_ok());

    let bad_h = png_bytes(64, 48, 901);
    assert_eq!(
        s.upload_skin(Some(&token), &upload_fields("BadH", "", &bad_h), 2),
        Err(ApiError::BadDimensions)
    );

    let bad_w = png_bytes(32, 64, 902);
    assert_eq!(
        s.upload_skin(Some(&token), &upload_fields("BadW", "", &bad_w), 3),
        Err(ApiError::BadDimensions)
    );
}

#[test]
fn upload_without_skin_field_is_rejected() {
    let (mut s, token) = logged_in();
    let fields = vec![field("title", vec![b"T".to_vec()], None)];
    assert_eq!(s.upload_skin(Some(&token), &fields, 1), Err(ApiError::SkinFileMissing));
}

#[test]
fn upload_of_non_image_bytes_is_rejected() {
    let (mut s, token) = logged_in();
    let data = b"hello, this is just plain text and not an image at all".to_vec();
    assert_eq!(
        s.upload_skin(Some(&token), &upload_fields("Text", "", &data), 1),
        Err(ApiError::UnsupportedMedia)
    );
}

#[test]
fn upload_rejects_long_title_and_description() {
    let (mut s, token) = logged_in();
    let data = png_bytes(64, 64, 500);
    let long_title = "t".repeat(17);
    assert_eq!(
        s.upload_skin(Some(&token), &upload_fields(&long_title, "", &data), 1),
        Err(ApiError::TitleTooLong)
    );
    let long_desc = "d".repeat(257);
    assert_eq!(
        s.upload_skin(Some(&token), &upload_fields("Ok", &long_desc, &data), 2),
        Err(ApiError::DescriptionTooLong)
    );
}

#[test]
fn upload_rejects_case_insensitive_duplicate_title() {
    let (mut s, token) = logged_in();
    let first = png_bytes(64, 64, 600);
    assert!(s.upload_skin(Some(&token), &upload_fields("Cool", "", &first), 1).is_ok());
    let second = png_bytes(64, 32, 601);
    assert_eq!(
        s.upload_skin(Some(&token), &upload_fields("cOOl", "", &second), 2),
        Err(ApiError::TitleExists)
    );
}

#[test]
fn upload_requires_session() {
    let mut s = Service::new("unit-test-key".to_string());
    let data = png_bytes(64, 64, 500);
    assert_eq!(
        s.upload_skin(None, &upload_fields("T", "", &data), 1),
        Err(ApiError::AuthFailed)
    );
    assert_eq!(
        s.upload_skin(Some("bad-token"), &upload_fields("T", "", &data), 1),
        Err(ApiError::AuthFailed)
    );
}

#[test]
fn upload_rejects_invalid_utf8_title() {
    let (mut s, token) = logged_in();
    let data = png_bytes(64, 64, 500);
    let fields = vec![
        field("title", vec![vec![0xff, 0xfe, 0xfd]], None),
        field("skin", vec![data], Some("skin.png")),
    ];
    assert_eq!(s.upload_skin(Some(&token), &fields, 1), Err(ApiError::BadFieldText));
}

#[test]
fn skin_bytes_may_arrive_in_several_chunks() {
    let (mut s, token) = logged_in();
    let data = png_bytes(64, 32, 700);
    let (a, b) = data.split_at(100);
    let fields = vec![
        field("title", vec![b"Chunked".to_vec()], None),
        field("skin", vec![a.to_vec(), b.to_vec()], Some("skin.png")),
    ];
    let r = s.upload_skin(Some(&token), &fields, 1);
    assert!(r.is_ok());
    assert_eq!(s.skins[0].size, 700);
    assert_eq!(s.skins[0].description, "");
}

#[test]
fn later_title_chunk_overwrites_earlier() {
    let (mut s, token) = logged_in();
    let data = png_bytes(64, 32, 710);
    let fields = vec![
        field("title", vec![b"First".to_vec(), b"Second".to_vec()], None),
        field("skin", vec![data], Some("skin.png")),
    ];
    s.upload_skin(Some(&token), &fields, 1).unwrap();
    assert_eq!(s.skins[0].title, "Second");
}

#[test]
fn uploaded_skin_appears_in_user_listing() {
    let (mut s, token) = logged_in();
    let data = png_bytes(64, 64, 800);
    let id = s
        .upload_skin(Some(&token), &upload_fields("Listed", "mine", &data), 42)
        .unwrap();
    let skins = s.get_user_skins("alice").unwrap();
    assert_eq!(skins.len(), 1);
    assert_eq!(skins[0].id, id);
    assert_eq!(skins[0].title, "Listed");
    assert_eq!(skins[0].description, "mine");
    assert_eq!(skins[0].date, 42);
    assert_eq!(skins[0].owner, s.accounts[0].id);
}

#[test]
fn identical_bytes_conflict_even_under_a_new_session() {
    let (mut s, token) = logged_in();
    let data = png_bytes(64, 64, 950);
    s.upload_skin(Some(&token), &upload_fields("Original", "", &data), 1).unwrap();

    let csrf = s.codec.encrypt("csrf-nonce");
    let login = LoginParams {
        email: "a@x.com".to_string(),
        password: "p1".to_string(),
        remember_me: false,
    };
    let fresh = s.login(Some(&csrf), &login).unwrap();
    let r = s.upload_skin(Some(&fresh), &upload_fields("Again", "", &data), 2);
    assert_eq!(r, Err(ApiError::SkinExists));
}

#[test]
fn upload_with_injected_mime_and_id_is_deterministic() {
    let (mut s, token) = logged_in();
    let data = png_bytes(64, 64, 450);
    let id = "00000000-0000-4000-8000-000000000001".to_string();
    let r = s.upload_skin_with_mime(
        Some(&token),
        &upload_fields("Pinned", "", &data),
        "image/png",
        id.clone(),
        7,
    );
    assert_eq!(r, Ok(id.clone()));
    assert_eq!(s.skins[0].id, id);

    let r = s.upload_skin_with_mime(
        Some(&token),
        &upload_fields("OtherTitle", "", &data),
        "text/plain",
        "00000000-0000-4000-8000-000000000002".to_string(),
        8,
    );
    assert_eq!(r, Err(ApiError::UnsupportedMedia));
}
