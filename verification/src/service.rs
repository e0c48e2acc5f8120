//! The service state — the account and skin collections plus the codec — and
//! the account endpoints: profile fetch, registration, login, profile and
//! email updates. Every check-then-write sequence of the store is modelled
//! here directly, with no transactional wrapper, exactly as the endpoints
//! perform it.

use vstd::prelude::*;
use vstd::string::StrSliceExecFns;

use crate::codec::{cipher_of, csrf_token_ok, lower_of, lower_str, plain_of, SymmetricCodec};
use crate::model::{Accounts, ApiError, LoginParams, RegisterParams, RespondAccount, SkinCollection,
    UpdateEmailParams, UpdateUserParams};

verus! {

/// Relies on `uuid::Uuid::new_v4` and its `Display` form: a random
/// version-4 UUID rendered hyphenated, always 36 characters. Nothing is
/// promised about its value.
#[verifier::external_body]
pub(crate) fn new_uuid() -> (r: String)
    ensures
        r@.len() == 36,
{
    uuid::Uuid::new_v4().to_string()
}

/// String equality by content, proved through the standard library's
/// `String` comparison.
pub(crate) fn str_eq(a: &str, b: &str) -> (r: bool)
    ensures
        r == (a@ == b@),
{
    let x = a.to_owned();
    let y = b.to_owned();
    x == y
}

pub open spec fn opt_str_view(o: Option<&str>) -> Option<Seq<char>> {
    match o {
        Some(s) => Some(s@),
        None => None,
    }
}

pub open spec fn opt_string_view(o: Option<String>) -> Option<Seq<char>> {
    match o {
        Some(s) => Some(s@),
        None => None,
    }
}

pub open spec fn or_empty(o: Option<String>) -> Seq<char> {
    match o {
        Some(s) => s@,
        None => Seq::empty(),
    }
}

/// The account's stored session token equals `t`.
pub open spec fn session_is(a: Accounts, t: Seq<char>) -> bool {
    a.session matches Some(s) && s@ == t
}

pub open spec fn some_session_match(accounts: Seq<Accounts>, t: Seq<char>) -> bool {
    exists|i: int| 0 <= i < accounts.len() && session_is(accounts[i], t)
}

/// `i` is the index the session lookup resolves: the first account whose
/// stored token equals `t`.
pub open spec fn first_session_match(accounts: Seq<Accounts>, t: Seq<char>, i: int) -> bool {
    &&& 0 <= i < accounts.len()
    &&& session_is(accounts[i], t)
    &&& forall|j: int| 0 <= j < i ==> !session_is(accounts[j], t)
}

pub proof fn lemma_first_session_match_unique(
    accounts: Seq<Accounts>,
    t: Seq<char>,
    i: int,
    j: int,
)
    requires
        first_session_match(accounts, t, i),
        first_session_match(accounts, t, j),
    ensures
        i == j,
{
    if i < j {
        assert(!session_is(accounts[i], t));
    }
    if j < i {
        assert(!session_is(accounts[j], t));
    }
}

/// Some account already carries a username equal to `name` up to case.
pub open spec fn username_taken(accounts: Seq<Accounts>, name: Seq<char>) -> bool {
    exists|i: int| 0 <= i < accounts.len()
        && lower_of(accounts[i].username@) == lower_of(name)
}

/// `i` is the first account whose username equals `name` up to case.
pub open spec fn first_username_match(accounts: Seq<Accounts>, name: Seq<char>, i: int) -> bool {
    &&& 0 <= i < accounts.len()
    &&& lower_of(accounts[i].username@) == lower_of(name)
    &&& forall|j: int| 0 <= j < i ==> lower_of(accounts[j].username@) != lower_of(name)
}

/// Some account already stores exactly this email ciphertext.
pub open spec fn email_taken(accounts: Seq<Accounts>, email_cipher: Seq<char>) -> bool {
    exists|i: int| 0 <= i < accounts.len() && accounts[i].email@ == email_cipher
}

pub open spec fn login_match(a: Accounts, email_cipher: Seq<char>, pw_cipher: Seq<char>) -> bool {
    a.email@ == email_cipher && a.password@ == pw_cipher
}

pub open spec fn some_login_match(
    accounts: Seq<Accounts>,
    email_cipher: Seq<char>,
    pw_cipher: Seq<char>,
) -> bool {
    exists|i: int| 0 <= i < accounts.len() && login_match(accounts[i], email_cipher, pw_cipher)
}

pub open spec fn first_login_match(
    accounts: Seq<Accounts>,
    email_cipher: Seq<char>,
    pw_cipher: Seq<char>,
    i: int,
) -> bool {
    &&& 0 <= i < accounts.len()
    &&& login_match(accounts[i], email_cipher, pw_cipher)
    &&& forall|j: int| 0 <= j < i ==> !login_match(accounts[j], email_cipher, pw_cipher)
}

pub proof fn lemma_first_login_match_unique(
    accounts: Seq<Accounts>,
    email_cipher: Seq<char>,
    pw_cipher: Seq<char>,
    i: int,
    j: int,
)
    requires
        first_login_match(accounts, email_cipher, pw_cipher, i),
        first_login_match(accounts, email_cipher, pw_cipher, j),
    ensures
        i == j,
{
    if i < j {
        assert(!login_match(accounts[i], email_cipher, pw_cipher));
    }
    if j < i {
        assert(!login_match(accounts[j], email_cipher, pw_cipher));
    }
}

/// No two accounts share a username, even up to case.
pub open spec fn usernames_unique(accounts: Seq<Accounts>) -> bool {
    forall|i: int, j: int| 0 <= i < j < accounts.len()
        ==> lower_of(accounts[i].username@) != lower_of(accounts[j].username@)
}

/// No two accounts store the same email ciphertext.
pub open spec fn emails_unique(accounts: Seq<Accounts>) -> bool {
    forall|i: int, j: int| 0 <= i < j < accounts.len()
        ==> accounts[i].email@ != accounts[j].email@
}

/// The error that registration answers, or `None` on success, in the exact
/// order the checks run.
pub open spec fn register_err(
    s: Service,
    csrf: Option<Seq<char>>,
    p: RegisterParams,
) -> Option<ApiError> {
    if !csrf_token_ok(s.codec.key@, csrf) {
        Some(ApiError::InvalidCsrf)
    } else if username_taken(s.accounts@, p.username@) {
        Some(ApiError::NameExists)
    } else if email_taken(s.accounts@, cipher_of(s.codec.key@, p.email@)) {
        Some(ApiError::EmailExists)
    } else if p.password@ != p.conf_password@ {
        Some(ApiError::PasswordMismatch)
    } else if p.username@.len() > 16 {
        Some(ApiError::UsernameTooLong)
    } else if p.email@.len() > 256 {
        Some(ApiError::EmailTooLong)
    } else if p.password@.len() > 256 {
        Some(ApiError::PasswordTooLong)
    } else {
        None
    }
}

/// The account that a successful registration writes, apart from its id:
/// username kept as given, email and password stored as ciphertext, no
/// session, no profile fields.
pub open spec fn account_from_params(
    key: Seq<char>,
    p: RegisterParams,
    now: u64,
    a: Accounts,
) -> bool {
    &&& a.username@ == p.username@
    &&& a.email@ == cipher_of(key, p.email@)
    &&& a.password@ == cipher_of(key, p.password@)
    &&& a.session is None
    &&& a.about_me is None
    &&& a.profile_picture is None
    &&& a.date == now
}

/// `b` is `a` with its session token overwritten by `t` and every other
/// field kept.
pub open spec fn session_updated(a: Accounts, b: Accounts, t: Seq<char>) -> bool {
    &&& b.session matches Some(s) && s@ == t
    &&& b.id == a.id
    &&& b.username == a.username
    &&& b.email == a.email
    &&& b.password == a.password
    &&& b.about_me == a.about_me
    &&& b.profile_picture == a.profile_picture
    &&& b.date == a.date
}

/// The whole backend state: the shared codec and the two collections.
pub struct Service {
    pub codec: SymmetricCodec,
    pub accounts: Vec<Accounts>,
    pub skins: Vec<SkinCollection>,
}

impl Service {
    pub fn new(key: String) -> (r: Service)
        ensures
            r.codec.key@ == key@,
            r.accounts@ =~= Seq::<Accounts>::empty(),
            r.skins@ =~= Seq::<SkinCollection>::empty(),
    {
        Service { codec: SymmetricCodec::new(key), accounts: Vec::new(), skins: Vec::new() }
    }

    /// The index the session lookup resolves for this raw token, if any.
    pub(crate) fn find_session_index(&self, token: &str) -> (r: Option<usize>)
        ensures
            match r {
                Some(i) => first_session_match(self.accounts@, token@, i as int),
                None => !some_session_match(self.accounts@, token@),
            },
    {
        let n = self.accounts.len();
        let mut i: usize = 0;
        while i < n
            invariant
                n == self.accounts@.len(),
                i <= n,
                forall|j: int| 0 <= j < i ==> !session_is(self.accounts@[j], token@),
            decreases n - i,
        {
            let matched = match &self.accounts[i].session {
                Some(s) => str_eq(s.as_str(), token),
                None => false,
            };
            if matched {
                return Some(i);
            }
            i += 1;
        }
        None
    }

    /// True iff some account's username equals `name` up to case.
    pub(crate) fn username_exists(&self, name: &str) -> (r: bool)
        ensures
            r == username_taken(self.accounts@, name@),
    {
        let target = lower_str(name);
        let n = self.accounts.len();
        let mut i: usize = 0;
        while i < n
            invariant
                n == self.accounts@.len(),
                i <= n,
                target@ == lower_of(name@),
                forall|j: int| 0 <= j < i
                    ==> lower_of(self.accounts@[j].username@) != lower_of(name@),
            decreases n - i,
        {
            let low = lower_str(self.accounts[i].username.as_str());
            if str_eq(low.as_str(), target.as_str()) {
                return true;
            }
            i += 1;
        }
        false
    }

    /// True iff some account stores exactly this email ciphertext.
    pub(crate) fn email_exists(&self, email_cipher: &str) -> (r: bool)
        ensures
            r == email_taken(self.accounts@, email_cipher@),
    {
        let n = self.accounts.len();
        let mut i: usize = 0;
        while i < n
            invariant
                n == self.accounts@.len(),
                i <= n,
                forall|j: int| 0 <= j < i ==> self.accounts@[j].email@ != email_cipher@,
            decreases n - i,
        {
            if str_eq(self.accounts[i].email.as_str(), email_cipher) {
                return true;
            }
            i += 1;
        }
        false
    }

    /// The `@me` read path: resolve the session header to an account, decrypt
    /// the email for display, hand profile fields and the session token back.
    /// No session header answers 401 with no account data at all.
    pub fn me(&self, session_token: Option<&str>) -> (r: Result<RespondAccount, ApiError>)
        ensures
            ({
                let accounts = self.accounts@;
                let key = self.codec.key@;
                match session_token {
                    None => r == Err::<RespondAccount, ApiError>(ApiError::Unauthorized),
                    Some(t) => {
                        if !some_session_match(accounts, t@) {
                            r == Err::<RespondAccount, ApiError>(ApiError::SessionNotFound)
                        } else {
                            forall|i: int| first_session_match(accounts, t@, i) ==> {
                                let a = accounts[i];
                                match plain_of(key, a.email@) {
                                    Some(p) => r matches Ok(resp)
                                        && resp.id@ == a.id@
                                        && resp.email@ == p
                                        && resp.session@ == t@
                                        && resp.username@ == a.username@
                                        && resp.about_me@ == or_empty(a.about_me)
                                        && resp.profile_picture@ == or_empty(a.profile_picture),
                                    None => r == Err::<RespondAccount, ApiError>(
                                        ApiError::DecodeFailed,
                                    ),
                                }
                            }
                        }
                    },
                }
            }),
    {
        let t = match session_token {
            None => {
                return Err(ApiError::Unauthorized);
            },
            Some(t) => t,
        };
        let i = match self.find_session_index(t) {
            None => {
                return Err(ApiError::SessionNotFound);
            },
            Some(i) => i,
        };
        proof {
            assert forall|i2: int| first_session_match(self.accounts@, t@, i2) implies i2
                == i as int by {
                lemma_first_session_match_unique(self.accounts@, t@, i as int, i2);
            }
        }
        let a = &self.accounts[i];
        let email_plain = match self.codec.decrypt(a.email.as_str()) {
            None => {
                return Err(ApiError::DecodeFailed);
            },
            Some(p) => p,
        };
        let about_me = match &a.about_me {
            Some(s) => s.clone(),
            None => String::new(),
        };
        let profile_picture = match &a.profile_picture {
            Some(s) => s.clone(),
            None => String::new(),
        };
        Ok(RespondAccount {
            id: a.id.clone(),
            email: email_plain,
            session: t.to_owned(),
            username: a.username.clone(),
            about_me,
            profile_picture,
        })
    }

    /// Registration with the fresh id injected: CSRF first, then the
    /// uniqueness checks, the password comparison and the length bounds, in
    /// that order, then the write. On success the
    /// new record is appended and both uniqueness invariants are preserved.
    pub fn register_with_id(
        &mut self,
        csrf: Option<&str>,
        params: &RegisterParams,
        id: String,
        now: u64,
    ) -> (r: Result<(), ApiError>)
        ensures
            match r {
                Err(e) => register_err(*old(self), opt_str_view(csrf), *params) == Some(e)
                    && *final(self) == *old(self),
                Ok(_) => register_err(*old(self), opt_str_view(csrf), *params) is None
                    && final(self).accounts@.len() == old(self).accounts@.len() + 1
                    && final(self).accounts@ == old(self).accounts@.push(
                    final(self).accounts@.last())
                    && account_from_params(old(self).codec.key@, *params, now,
                    final(self).accounts@.last())
                    && final(self).accounts@.last().id@ == id@
                    && final(self).skins@ == old(self).skins@
                    && final(self).codec.key@ == old(self).codec.key@
                    && (usernames_unique(old(self).accounts@) ==> usernames_unique(
                    final(self).accounts@))
                    && (emails_unique(old(self).accounts@) ==> emails_unique(
                    final(self).accounts@)),
            },
    {
        if !self.codec.verified_csrf(csrf) {
            return Err(ApiError::InvalidCsrf);
        }
        if self.username_exists(params.username.as_str()) {
            return Err(ApiError::NameExists);
        }
        let email_cipher = self.codec.encrypt(params.email.as_str());
        if self.email_exists(email_cipher.as_str()) {
            return Err(ApiError::EmailExists);
        }
        if !str_eq(params.password.as_str(), params.conf_password.as_str()) {
            return Err(ApiError::PasswordMismatch);
        }
        if params.username.as_str().unicode_len() > 16 {
            return Err(ApiError::UsernameTooLong);
        }
        if params.email.as_str().unicode_len() > 256 {
            return Err(ApiError::EmailTooLong);
        }
        if params.password.as_str().unicode_len() > 256 {
            return Err(ApiError::PasswordTooLong);
        }
        let password_cipher = self.codec.encrypt(params.password.as_str());
        let account = Accounts {
            date: now,
            id,
            username: params.username.clone(),
            email: email_cipher,
            password: password_cipher,
            session: None,
            about_me: None,
            profile_picture: None,
        };
        self.accounts.push(account);
        proof {
            let pre = old(self).accounts@;
            let post = self.accounts@;
            if usernames_unique(pre) {
                assert forall|i: int, j: int| 0 <= i < j < post.len() implies lower_of(
                    post[i].username@) != lower_of(post[j].username@) by {
                    if j < pre.len() {
                        assert(post[i] == pre[i] && post[j] == pre[j]);
                    } else {
                        assert(post[i] == pre[i]);
                        assert(!username_taken(pre, params.username@));
                    }
                }
            }
            if emails_unique(pre) {
                assert forall|i: int, j: int| 0 <= i < j < post.len() implies post[i].email@
                    != post[j].email@ by {
                    if j < pre.len() {
                        assert(post[i] == pre[i] && post[j] == pre[j]);
                    } else {
                        assert(post[i] == pre[i]);
                        assert(!email_taken(pre, cipher_of(old(self).codec.key@,
                            params.email@)));
                    }
                }
            }
        }
        Ok(())
    }

    /// Registration as the endpoint runs it: a fresh random id, then
    /// [`Self::register_with_id`]. The id of the new record is pinned only in
    /// length; everything else is exact.
    pub fn register(&mut self, csrf: Option<&str>, params: &RegisterParams, now: u64) -> (r:
        Result<(), ApiError>)
        ensures
            match r {
                Err(e) => register_err(*old(self), opt_str_view(csrf), *params) == Some(e)
                    && *final(self) == *old(self),
                Ok(_) => register_err(*old(self), opt_str_view(csrf), *params) is None
                    && final(self).accounts@.len() == old(self).accounts@.len() + 1
                    && final(self).accounts@ == old(self).accounts@.push(
                    final(self).accounts@.last())
                    && account_from_params(old(self).codec.key@, *params, now,
                    final(self).accounts@.last())
                    && final(self).accounts@.last().id@.len() == 36
                    && final(self).skins@ == old(self).skins@
                    && final(self).codec.key@ == old(self).codec.key@
                    && (usernames_unique(old(self).accounts@) ==> usernames_unique(
                    final(self).accounts@))
                    && (emails_unique(old(self).accounts@) ==> emails_unique(
                    final(self).accounts@)),
            },
    {
        let id = new_uuid();
        self.register_with_id(csrf, params, id, now)
    }

    /// The index the login lookup resolves for these two ciphertexts, if any.
    pub(crate) fn find_login_index(&self, email_cipher: &str, pw_cipher: &str) -> (r: Option<
        usize>)
        ensures
            match r {
                Some(i) => first_login_match(self.accounts@, email_cipher@, pw_cipher@, i as int),
                None => !some_login_match(self.accounts@, email_cipher@, pw_cipher@),
            },
    {
        let n = self.accounts.len();
        let mut i: usize = 0;
        while i < n
            invariant
                n == self.accounts@.len(),
                i <= n,
                forall|j: int| 0 <= j < i
                    ==> !login_match(self.accounts@[j], email_cipher@, pw_cipher@),
            decreases n - i,
        {
            if str_eq(self.accounts[i].email.as_str(), email_cipher) && str_eq(
                self.accounts[i].password.as_str(), pw_cipher) {
                return Some(i);
            }
            i += 1;
        }
        None
    }

    /// Login with the fresh session token injected: find the account whose
    /// encrypted email and password both match, overwrite its session with
    /// the token — one active session, a new login invalidates the old one —
    /// and return the token.
    pub fn login_with_token(&mut self, csrf: Option<&str>, params: &LoginParams, token: String)
        -> (r: Result<String, ApiError>)
        ensures
            ({
                let key = old(self).codec.key@;
                let ec = cipher_of(key, params.email@);
                let pc = cipher_of(key, params.password@);
                if !csrf_token_ok(key, opt_str_view(csrf)) {
                    r == Err::<String, ApiError>(ApiError::InvalidCsrf) && *final(self) == *old(
                        self)
                } else if !some_login_match(old(self).accounts@, ec, pc) {
                    r == Err::<String, ApiError>(ApiError::AccountNotFound) && *final(self)
                        == *old(self)
                } else {
                    r matches Ok(tk) && tk@ == token@
                        && final(self).skins@ == old(self).skins@
                        && final(self).codec.key@ == old(self).codec.key@
                        && final(self).accounts@.len() == old(self).accounts@.len()
                        && forall|i: int| first_login_match(old(self).accounts@, ec, pc, i)
                            ==> (forall|j: int| 0 <= j < old(self).accounts@.len() && j != i
                                ==> final(self).accounts@[j] == old(self).accounts@[j])
                            && session_updated(old(self).accounts@[i], final(self).accounts@[i],
                                token@)
                }
            }),
    {
        if !self.codec.verified_csrf(csrf) {
            return Err(ApiError::InvalidCsrf);
        }
        let email_cipher = self.codec.encrypt(params.email.as_str());
        let pw_cipher = self.codec.encrypt(params.password.as_str());
        let i = match self.find_login_index(email_cipher.as_str(), pw_cipher.as_str()) {
            None => {
                return Err(ApiError::AccountNotFound);
            },
            Some(i) => i,
        };
        proof {
            assert forall|i2: int| first_login_match(self.accounts@, email_cipher@, pw_cipher@,
                i2) implies i2 == i as int by {
                lemma_first_login_match_unique(self.accounts@, email_cipher@, pw_cipher@,
                    i as int, i2);
            }
        }
        self.accounts[i].session = Some(token.clone());
        Ok(token)
    }

    /// Login as the endpoint runs it: a fresh random identifier, encrypted to
    /// form the session token, then [`Self::login_with_token`]. The token is
    /// pinned to be an encryption under the service key of a 36-character
    /// identifier; everything else is exact.
    pub fn login(&mut self, csrf: Option<&str>, params: &LoginParams) -> (r: Result<String,
        ApiError>)
        ensures
            ({
                let key = old(self).codec.key@;
                let ec = cipher_of(key, params.email@);
                let pc = cipher_of(key, params.password@);
                if !csrf_token_ok(key, opt_str_view(csrf)) {
                    r == Err::<String, ApiError>(ApiError::InvalidCsrf) && *final(self) == *old(
                        self)
                } else if !some_login_match(old(self).accounts@, ec, pc) {
                    r == Err::<String, ApiError>(ApiError::AccountNotFound) && *final(self)
                        == *old(self)
                } else {
                    r matches Ok(tk)
                        && (exists|u: Seq<char>| u.len() == 36 && tk@ == cipher_of(key, u))
                        && final(self).skins@ == old(self).skins@
                        && final(self).codec.key@ == old(self).codec.key@
                        && final(self).accounts@.len() == old(self).accounts@.len()
                        && forall|i: int| first_login_match(old(self).accounts@, ec, pc, i)
                            ==> (forall|j: int| 0 <= j < old(self).accounts@.len() && j != i
                                ==> final(self).accounts@[j] == old(self).accounts@[j])
                            && session_updated(old(self).accounts@[i], final(self).accounts@[i],
                                tk@)
                }
            }),
    {
        let fresh = new_uuid();
        let token = self.codec.encrypt(fresh.as_str());
        let r = self.login_with_token(csrf, params, token);
        proof {
            if r is Ok {
                assert(exists|u: Seq<char>| u.len() == 36 && (r->Ok_0)@ == cipher_of(
                    old(self).codec.key@, u)) by {
                    assert(fresh@.len() == 36 && (r->Ok_0)@ == cipher_of(old(self).codec.key@,
                        fresh@));
                }
            }
        }
        r
    }

    /// Profile update: CSRF, then session, then the length bounds — the
    /// about-me bound checked before the username bound — then both
    /// fields overwritten verbatim. No uniqueness check applies here.
    pub fn update_user(
        &mut self,
        csrf: Option<&str>,
        session_token: Option<&str>,
        params: &UpdateUserParams,
    ) -> (r: Result<(), ApiError>)
        ensures
            ({
                let key = old(self).codec.key@;
                let accounts = old(self).accounts@;
                if !csrf_token_ok(key, opt_str_view(csrf)) {
                    r == Err::<(), ApiError>(ApiError::InvalidCsrf) && *final(self) == *old(self)
                } else {
                    match session_token {
                        None => r == Err::<(), ApiError>(ApiError::AuthFailed) && *final(self)
                            == *old(self),
                        Some(t) => {
                            if !some_session_match(accounts, t@) {
                                r == Err::<(), ApiError>(ApiError::AuthFailed) && *final(self)
                                    == *old(self)
                            } else if params.about_me@.len() > 256 {
                                r == Err::<(), ApiError>(ApiError::AboutMeTooLong) && *final(self)
                                    == *old(self)
                            } else if params.username@.len() > 16 {
                                r == Err::<(), ApiError>(ApiError::UsernameTooLong) && *final(
                                    self) == *old(self)
                            } else {
                                r is Ok
                                    && final(self).skins@ == old(self).skins@
                                    && final(self).codec.key@ == old(self).codec.key@
                                    && final(self).accounts@.len() == accounts.len()
                                    && forall|i: int| first_session_match(accounts, t@, i)
                                        ==> (forall|j: int| 0 <= j < accounts.len() && j != i
                                            ==> final(self).accounts@[j] == accounts[j])
                                        && ({
                                            let a = accounts[i];
                                            let b = final(self).accounts@[i];
                                            b.username@ == params.username@
                                                && (b.about_me matches Some(m) && m@
                                                == params.about_me@)
                                                && b.id == a.id && b.email == a.email
                                                && b.password == a.password
                                                && b.session == a.session
                                                && b.profile_picture == a.profile_picture
                                                && b.date == a.date
                                        })
                            }
                        },
                    }
                }
            }),
    {
        if !self.codec.verified_csrf(csrf) {
            return Err(ApiError::InvalidCsrf);
        }
        let t = match session_token {
            None => {
                return Err(ApiError::AuthFailed);
            },
            Some(t) => t,
        };
        let i = match self.find_session_index(t) {
            None => {
                return Err(ApiError::AuthFailed);
            },
            Some(i) => i,
        };
        if params.about_me.as_str().unicode_len() > 256 {
            return Err(ApiError::AboutMeTooLong);
        }
        if params.username.as_str().unicode_len() > 16 {
            return Err(ApiError::UsernameTooLong);
        }
        proof {
            assert forall|i2: int| first_session_match(self.accounts@, t@, i2) implies i2
                == i as int by {
                lemma_first_session_match_unique(self.accounts@, t@, i as int, i2);
            }
        }
        self.accounts[i].username = params.username.clone();
        self.accounts[i].about_me = Some(params.about_me.clone());
        Ok(())
    }

    /// Email update: CSRF, then session, then the length bound, then the
    /// field overwritten with fresh ciphertext. No uniqueness check applies
    /// here.
    pub fn update_email(
        &mut self,
        csrf: Option<&str>,
        session_token: Option<&str>,
        params: &UpdateEmailParams,
    ) -> (r: Result<(), ApiError>)
        ensures
            ({
                let key = old(self).codec.key@;
                let accounts = old(self).accounts@;
                if !csrf_token_ok(key, opt_str_view(csrf)) {
                    r == Err::<(), ApiError>(ApiError::InvalidCsrf) && *final(self) == *old(self)
                } else {
                    match session_token {
                        None => r == Err::<(), ApiError>(ApiError::AuthFailed) && *final(self)
                            == *old(self),
                        Some(t) => {
                            if !some_session_match(accounts, t@) {
                                r == Err::<(), ApiError>(ApiError::AuthFailed) && *final(self)
                                    == *old(self)
                            } else if params.email@.len() > 256 {
                                r == Err::<(), ApiError>(ApiError::EmailTooLong) && *final(self)
                                    == *old(self)
                            } else {
                                r is Ok
                                    && final(self).skins@ == old(self).skins@
                                    && final(self).codec.key@ == old(self).codec.key@
                                    && final(self).accounts@.len() == accounts.len()
                                    && forall|i: int| first_session_match(accounts, t@, i)
                                        ==> (forall|j: int| 0 <= j < accounts.len() && j != i
                                            ==> final(self).accounts@[j] == accounts[j])
                                        && ({
                                            let a = accounts[i];
                                            let b = final(self).accounts@[i];
                                            b.email@ == cipher_of(key, params.email@)
                                                && b.id == a.id && b.username == a.username
                                                && b.password == a.password
                                                && b.session == a.session
                                                && b.about_me == a.about_me
                                                && b.profile_picture == a.profile_picture
                                                && b.date == a.date
                                        })
                            }
                        },
                    }
                }
            }),
    {
        if !self.codec.verified_csrf(csrf) {
            return Err(ApiError::InvalidCsrf);
        }
        let t = match session_token {
            None => {
                return Err(ApiError::AuthFailed);
            },
            Some(t) => t,
        };
        let i = match self.find_session_index(t) {
            None => {
                return Err(ApiError::AuthFailed);
            },
            Some(i) => i,
        };
        if params.email.as_str().unicode_len() > 256 {
            return Err(ApiError::EmailTooLong);
        }
        proof {
            assert forall|i2: int| first_session_match(self.accounts@, t@, i2) implies i2
                == i as int by {
                lemma_first_session_match_unique(self.accounts@, t@, i as int, i2);
            }
        }
        let email_cipher = self.codec.encrypt(params.email.as_str());
        self.accounts[i].email = email_cipher;
        Ok(())
    }
}

} // verus!
