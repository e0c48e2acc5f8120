//! The data model: account and skin records as the store holds them, the
//! form-parameter and response shapes of the endpoints, and the error
//! taxonomy with the status and message each error surfaces.

use vstd::prelude::*;

verus! {

/// An account record. `email` and `password` hold ciphertext only; `session`
/// holds the encrypted token of the single active session, present only
/// after a successful login.
#[derive(Debug)]
pub struct Accounts {
    pub date: u64,
    pub id: String,
    pub username: String,
    pub email: String,
    pub password: String,
    pub session: Option<String>,
    pub about_me: Option<String>,
    pub profile_picture: Option<String>,
}

/// The tagged metadata of a stored skin.
#[derive(Debug, PartialEq)]
pub enum SkinMeta {
    Image { width: usize, height: usize, content_type: String },
}

/// A skin record, created once on successful ingestion and never mutated.
#[derive(Debug)]
pub struct SkinCollection {
    pub date: u64,
    pub id: String,
    pub hash: String,
    pub filename: String,
    pub title: String,
    pub description: String,
    pub size: usize,
    pub metadata: SkinMeta,
    pub owner: String,
}

pub struct LoginParams {
    pub email: String,
    pub password: String,
    pub remember_me: bool,
}

pub struct RegisterParams {
    pub username: String,
    pub email: String,
    pub password: String,
    pub conf_password: String,
    pub agreed: bool,
}

/// The account payload of the `@me` endpoint: the email decrypted for
/// display, the optional fields flattened to empty strings.
#[derive(Debug)]
pub struct RespondAccount {
    pub id: String,
    pub email: String,
    pub session: String,
    pub username: String,
    pub about_me: String,
    pub profile_picture: String,
}

pub struct UpdateEmailParams {
    pub email: String,
}

pub struct UpdateUserParams {
    pub username: String,
    pub about_me: String,
}

/// The per-skin payload of the user skin listing.
#[derive(Debug)]
pub struct RespondSkin {
    pub id: String,
    pub date: u64,
    pub title: String,
    pub description: String,
    pub owner: String,
}

/// The public profile payload of the user lookup.
#[derive(Debug)]
pub struct UserProfile {
    pub id: String,
    pub username: String,
    pub about_me: Option<String>,
    pub profile_picture: Option<String>,
}

/// Every way a request can fail, with the status code and the message the
/// response carries. Validation failures surface with status 200 and
/// `success: false`; only authentication, lookup and store-level failures
/// carry an error status of their own.
#[derive(Clone, Copy, Debug, PartialEq, Eq, Structural)]
pub enum ApiError {
    /// Session header missing on `@me`; the response carries no message.
    Unauthorized,
    /// Session header present on `@me` but matching no account.
    SessionNotFound,
    /// Session missing or unknown on the mutating and upload endpoints.
    AuthFailed,
    /// CSRF token missing or invalid on a mutating endpoint.
    InvalidCsrf,
    NameExists,
    EmailExists,
    PasswordMismatch,
    UsernameTooLong,
    EmailTooLong,
    PasswordTooLong,
    AboutMeTooLong,
    /// Login found no account with that email and password.
    AccountNotFound,
    /// The skin-listing endpoint knows no such user.
    UserNotFound,
    /// The profile endpoint knows no such user.
    ProfileNotFound,
    /// No skin bytes were collected from the upload.
    SkinFileMissing,
    SkinTooLarge,
    TitleTooLong,
    DescriptionTooLong,
    /// The uploaded bytes are neither PNG nor JPEG.
    UnsupportedMedia,
    /// The image is not 64 wide with height 32 or 64.
    BadDimensions,
    /// A record with the same content fingerprint already exists.
    SkinExists,
    TitleExists,
    /// A stored ciphertext failed to decrypt; recoverable, never a crash.
    DecodeFailed,
    /// A text field of the upload was not valid UTF-8.
    BadFieldText,
}

impl ApiError {
    /// The status code the response body carries for this error.
    pub open spec fn spec_status(self) -> u16 {
        match self {
            ApiError::Unauthorized => 401,
            ApiError::SessionNotFound => 404,
            ApiError::AuthFailed => 401,
            ApiError::InvalidCsrf => 401,
            ApiError::NameExists => 200,
            ApiError::EmailExists => 200,
            ApiError::PasswordMismatch => 200,
            ApiError::UsernameTooLong => 200,
            ApiError::EmailTooLong => 200,
            ApiError::PasswordTooLong => 200,
            ApiError::AboutMeTooLong => 200,
            ApiError::AccountNotFound => 404,
            ApiError::UserNotFound => 404,
            ApiError::ProfileNotFound => 404,
            ApiError::SkinFileMissing => 400,
            ApiError::SkinTooLarge => 413,
            ApiError::TitleTooLong => 403,
            ApiError::DescriptionTooLong => 403,
            ApiError::UnsupportedMedia => 415,
            ApiError::BadDimensions => 400,
            ApiError::SkinExists => 403,
            ApiError::TitleExists => 401,
            ApiError::DecodeFailed => 500,
            ApiError::BadFieldText => 400,
        }
    }

    /// The human-readable message of the response, empty where the service
    /// answers with no message.
    pub open spec fn spec_message(self) -> Seq<char> {
        match self {
            ApiError::Unauthorized => ""@,
            ApiError::SessionNotFound => "Session not found."@,
            ApiError::AuthFailed => "Could not authenticate request."@,
            ApiError::InvalidCsrf => "Invalid CSRF Token!"@,
            ApiError::NameExists => "Name already exists!"@,
            ApiError::EmailExists => "Email already exists!"@,
            ApiError::PasswordMismatch => "Password does not match"@,
            ApiError::UsernameTooLong => "Username is too long!"@,
            ApiError::EmailTooLong => "Email is too long!"@,
            ApiError::PasswordTooLong => "Password is too long!"@,
            ApiError::AboutMeTooLong => "About me is too long!"@,
            ApiError::AccountNotFound => "Account not found."@,
            ApiError::UserNotFound => "User not found"@,
            ApiError::ProfileNotFound => "Not found"@,
            ApiError::SkinFileMissing => "Could not find skin file."@,
            ApiError::SkinTooLarge => "Skin file is too large. It must be less than 5KB!"@,
            ApiError::TitleTooLong => "Title cannot be larger than 16 characters!"@,
            ApiError::DescriptionTooLong => "Description cannot be larger than 256 characters!"@,
            ApiError::UnsupportedMedia => "Skin must be a png or jpeg!"@,
            ApiError::BadDimensions => "Skin must be 64x64 or 64x32"@,
            ApiError::SkinExists => "Skin file already exists!"@,
            ApiError::TitleExists => "Title already exists!"@,
            ApiError::DecodeFailed => "Could not decode stored data."@,
            ApiError::BadFieldText => "Invalid text field encoding."@,
        }
    }

    pub fn status(&self) -> (r: u16)
        ensures
            r == self.spec_status(),
    {
        match self {
            ApiError::Unauthorized => 401,
            ApiError::SessionNotFound => 404,
            ApiError::AuthFailed => 401,
            ApiError::InvalidCsrf => 401,
            ApiError::NameExists => 200,
            ApiError::EmailExists => 200,
            ApiError::PasswordMismatch => 200,
            ApiError::UsernameTooLong => 200,
            ApiError::EmailTooLong => 200,
            ApiError::PasswordTooLong => 200,
            ApiError::AboutMeTooLong => 200,
            ApiError::AccountNotFound => 404,
            ApiError::UserNotFound => 404,
            ApiError::ProfileNotFound => 404,
            ApiError::SkinFileMissing => 400,
            ApiError::SkinTooLarge => 413,
            ApiError::TitleTooLong => 403,
            ApiError::DescriptionTooLong => 403,
            ApiError::UnsupportedMedia => 415,
            ApiError::BadDimensions => 400,
            ApiError::SkinExists => 403,
            ApiError::TitleExists => 401,
            ApiError::DecodeFailed => 500,
            ApiError::BadFieldText => 400,
        }
    }

    pub fn message(&self) -> (r: &'static str)
        ensures
            r@ == self.spec_message(),
    {
        match self {
            ApiError::Unauthorized => "",
            ApiError::SessionNotFound => "Session not found.",
            ApiError::AuthFailed => "Could not authenticate request.",
            ApiError::InvalidCsrf => "Invalid CSRF Token!",
            ApiError::NameExists => "Name already exists!",
            ApiError::EmailExists => "Email already exists!",
            ApiError::PasswordMismatch => "Password does not match",
            ApiError::UsernameTooLong => "Username is too long!",
            ApiError::EmailTooLong => "Email is too long!",
            ApiError::PasswordTooLong => "Password is too long!",
            ApiError::AboutMeTooLong => "About me is too long!",
            ApiError::AccountNotFound => "Account not found.",
            ApiError::UserNotFound => "User not found",
            ApiError::ProfileNotFound => "Not found",
            ApiError::SkinFileMissing => "Could not find skin file.",
            ApiError::SkinTooLarge => "Skin file is too large. It must be less than 5KB!",
            ApiError::TitleTooLong => "Title cannot be larger than 16 characters!",
            ApiError::DescriptionTooLong => "Description cannot be larger than 256 characters!",
            ApiError::UnsupportedMedia => "Skin must be a png or jpeg!",
            ApiError::BadDimensions => "Skin must be 64x64 or 64x32",
            ApiError::SkinExists => "Skin file already exists!",
            ApiError::TitleExists => "Title already exists!",
            ApiError::DecodeFailed => "Could not decode stored data.",
            ApiError::BadFieldText => "Invalid text field encoding.",
        }
    }
}

} // verus!
