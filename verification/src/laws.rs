//! The cross-function guarantees of the library, each proved from the
//! contracts the endpoints state.

use vstd::prelude::*;

use crate::codec::csrf_token_ok;
use crate::model::{Accounts, ApiError, RegisterParams, SkinCollection};
use crate::ingest::{fingerprint_of, hash_taken, ingest_error, ingest_post};
use crate::service::{first_session_match, register_err, session_is, username_taken, Service};

verus! {

/// Registration under a username that some account already carries up to
/// case always fails with the uniqueness error: whenever the lowercased
/// usernames collide and the CSRF gate is passed, [`Service::register`]
/// answers exactly `NameExists` and writes nothing.
pub proof fn lemma_case_insensitive_username_conflict(
    s: Service,
    csrf: Option<Seq<char>>,
    p: RegisterParams,
)
    requires
        csrf_token_ok(s.codec.key@, csrf),
        username_taken(s.accounts@, p.username@),
    ensures
        register_err(s, csrf, p) == Some(ApiError::NameExists),
{
}

/// Resubmitting an upload with identical bytes after a successful ingestion
/// always fails the duplicate check: once any record carries the fingerprint
/// of those bytes, the validation chain that accepted them before — same
/// title, same description, same sniffed type — answers exactly `SkinExists`.
pub proof fn lemma_duplicate_upload_rejected(
    key: Seq<char>,
    skins_before: Seq<SkinCollection>,
    skins_after: Seq<SkinCollection>,
    data: Seq<u8>,
    title: Seq<char>,
    desc: Seq<char>,
    mime: Seq<char>,
)
    requires
        ingest_error(key, skins_before, data, title, desc, mime) is None,
        hash_taken(skins_after, fingerprint_of(key, data)),
    ensures
        ingest_error(key, skins_after, data, title, desc, mime) == Some(ApiError::SkinExists),
{
}

/// The state a successful upload leaves behind rejects the same bytes: the
/// record just written carries their fingerprint, so the chain that accepted
/// them answers `SkinExists` from then on.
pub proof fn lemma_resubmit_after_success(
    pre: Service,
    post: Service,
    r: Result<String, ApiError>,
    owner: Seq<char>,
    data: Seq<u8>,
    title: Seq<char>,
    desc: Seq<char>,
    filename: Seq<char>,
    mime: Seq<char>,
    id: Seq<char>,
    now: u64,
)
    requires
        ingest_post(pre, post, r, owner, data, title, desc, filename, mime, id, now),
        r is Ok,
    ensures
        ingest_error(post.codec.key@, post.skins@, data, title, desc, mime) == Some(
            ApiError::SkinExists),
{
    assert(ingest_error(pre.codec.key@, pre.skins@, data, title, desc, mime) is None);
    let k = post.skins@.len() - 1;
    assert(post.skins@[k].hash@ == fingerprint_of(post.codec.key@, data));
    assert(hash_taken(post.skins@, fingerprint_of(post.codec.key@, data)));
    lemma_duplicate_upload_rejected(post.codec.key@, pre.skins@, post.skins@, data, title, desc,
        mime);
}

/// A token no account carried before authenticates exactly the account that
/// login stored it on: after the overwrite at index `i`, the session lookup
/// resolves the token to `i` and to no earlier account.
pub proof fn lemma_fresh_token_authenticates(
    pre: Seq<Accounts>,
    post: Seq<Accounts>,
    i: int,
    token: Seq<char>,
)
    requires
        0 <= i < pre.len(),
        post.len() == pre.len(),
        forall|j: int| 0 <= j < pre.len() ==> !session_is(pre[j], token),
        forall|j: int| 0 <= j < post.len() && j != i ==> post[j] == pre[j],
        session_is(post[i], token),
    ensures
        first_session_match(post, token, i),
{
    assert forall|j: int| 0 <= j < i implies !session_is(post[j], token) by {
        assert(post[j] == pre[j]);
    }
}

} // verus!
