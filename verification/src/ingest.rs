//! The skin ingestion pipeline: demultiplex the multipart fields, then a
//! single validation pass — presence, size, field lengths, content sniff,
//! dimensions — then the content fingerprint, the two duplicate checks, and
//! the write. The pipeline short-circuits to its first error; a record is
//! inserted only as the very last step, so no partial record is ever visible.

use vstd::prelude::*;
use vstd::string::StrSliceExecFns;

use crate::codec::{cipher_of, lower_of, lower_str, SymmetricCodec};
use crate::model::{ApiError, SkinCollection, SkinMeta};
use crate::service::{first_session_match, lemma_first_session_match_unique, new_uuid,
    opt_str_view, some_session_match, str_eq, Service};

verus! {

/// The text that `String::from_utf8_lossy` decodes from these bytes,
/// substituting the replacement character for invalid sequences: a pure
/// function of the bytes.
pub uninterp spec fn lossy_of(bytes: Seq<u8>) -> Seq<char>;

/// The outcome of strict UTF-8 decoding of these bytes, `None` where they
/// are not valid UTF-8: a pure function of the bytes.
pub uninterp spec fn utf8_of(bytes: Seq<u8>) -> Option<Seq<char>>;

/// The image dimensions `imagesize` reads from the leading bytes, `None`
/// where it recognises no image header: a pure function of the bytes.
pub uninterp spec fn dims_of(bytes: Seq<u8>) -> Option<(usize, usize)>;

/// Relies on `String::from_utf8_lossy`: deterministic lossy decoding.
#[verifier::external_body]
fn lossy_utf8(b: &Vec<u8>) -> (r: String)
    ensures
        r@ == lossy_of(b@),
{
    String::from_utf8_lossy(b.as_slice()).into_owned()
}

/// Relies on `std::str::from_utf8`: deterministic strict decoding, an error
/// exactly on invalid UTF-8.
#[verifier::external_body]
fn utf8_vec(b: &Vec<u8>) -> (r: Option<String>)
    ensures
        r matches Some(s) ==> utf8_of(b@) == Some(s@),
        r is None ==> utf8_of(b@) is None,
{
    match std::str::from_utf8(b.as_slice()) {
        Ok(s) => Some(s.to_owned()),
        Err(_) => None,
    }
}

/// Relies on `imagesize::blob_size`: pure header inspection of the byte
/// slice, an error where no supported header is recognised.
#[verifier::external_body]
fn image_dims(b: &Vec<u8>) -> (r: Option<(usize, usize)>)
    ensures
        r == dims_of(b@),
{
    match imagesize::blob_size(b.as_slice()) {
        Ok(s) => Some((s.width, s.height)),
        Err(_) => None,
    }
}

/// Relies on `tree_magic::from_u8`: MIME detection from the bytes alone. The
/// answer depends on the shared-MIME database of the machine, so nothing is
/// promised of it; the pipeline states its outcome for every possible answer,
/// and [`Service::upload_skin_with_mime`] is exact in the answer.
#[verifier::external_body]
fn sniff_mime(b: &Vec<u8>) -> String {
    tree_magic::from_u8(b.as_slice())
}

/// One demultiplexed multipart field: its name, its data chunks in arrival
/// order, and the client-declared filename if one came with it.
pub struct UploadField {
    pub name: String,
    pub chunks: Vec<Vec<u8>>,
    pub filename: Option<String>,
}

/// The bytes of the last chunk carried by any field of this name — later
/// fields and later chunks overwrite earlier ones, a field with no chunks
/// leaves the earlier value — or `None` where no such chunk arrived.
pub open spec fn last_chunk_named(fields: Seq<UploadField>, name: Seq<char>) -> Option<Seq<u8>>
    decreases fields.len(),
{
    if fields.len() == 0 {
        None
    } else if fields.last().name@ == name && fields.last().chunks@.len() > 0 {
        Some(fields.last().chunks@.last()@)
    } else {
        last_chunk_named(fields.drop_last(), name)
    }
}

/// All bytes of all chunks of all fields of this name, concatenated in
/// arrival order.
pub open spec fn data_bytes(fields: Seq<UploadField>, name: Seq<char>) -> Seq<u8>
    decreases fields.len(),
{
    if fields.len() == 0 {
        Seq::empty()
    } else {
        let rest = data_bytes(fields.drop_last(), name);
        if fields.last().name@ == name {
            rest + chunk_concat(fields.last().chunks@)
        } else {
            rest
        }
    }
}

pub open spec fn chunk_concat(chunks: Seq<Vec<u8>>) -> Seq<u8>
    decreases chunks.len(),
{
    if chunks.len() == 0 {
        Seq::empty()
    } else {
        chunk_concat(chunks.drop_last()) + chunks.last()@
    }
}

/// The declared filename of the last field of this name, empty where it
/// declared none, empty where no such field arrived.
pub open spec fn named_filename(fields: Seq<UploadField>, name: Seq<char>) -> Seq<char>
    decreases fields.len(),
{
    if fields.len() == 0 {
        Seq::empty()
    } else if fields.last().name@ == name {
        match fields.last().filename {
            Some(f) => f@,
            None => Seq::empty(),
        }
    } else {
        named_filename(fields.drop_last(), name)
    }
}

/// The title text the collection step yields: the last title chunk decoded
/// strictly, the empty string where none arrived, `None` where decoding
/// fails.
pub open spec fn collected_title(fields: Seq<UploadField>) -> Option<Seq<char>> {
    match last_chunk_named(fields, "title"@) {
        None => Some(Seq::empty()),
        Some(b) => utf8_of(b),
    }
}

/// The description text the collection step yields, likewise.
pub open spec fn collected_desc(fields: Seq<UploadField>) -> Option<Seq<char>> {
    match last_chunk_named(fields, "description"@) {
        None => Some(Seq::empty()),
        Some(b) => utf8_of(b),
    }
}

/// What the collection step hands the validation chain.
pub struct Collected {
    pub title: String,
    pub description: String,
    pub data: Vec<u8>,
    pub filename: String,
}

/// Demultiplex the multipart fields by name into the title, the description,
/// the accumulated skin bytes and the declared filename. Fails only where a
/// text field is not valid UTF-8 — a recoverable error, never a crash.
pub fn collect_fields(fields: &Vec<UploadField>) -> (r: Result<Collected, ApiError>)
    ensures
        match r {
            Ok(c) => Some(c.title@) == collected_title(fields@)
                && Some(c.description@) == collected_desc(fields@)
                && c.data@ == data_bytes(fields@, "skin"@)
                && c.filename@ == named_filename(fields@, "skin"@),
            Err(e) => e == ApiError::BadFieldText
                && (collected_title(fields@) is None || collected_desc(fields@) is None),
        },
{
    proof {
        reveal_strlit("title");
        reveal_strlit("description");
        reveal_strlit("skin");
    }
    let mut title_chunk: Option<&Vec<u8>> = None;
    let mut desc_chunk: Option<&Vec<u8>> = None;
    let mut data: Vec<u8> = Vec::new();
    let mut filename: String = String::new();
    let n = fields.len();
    let mut i: usize = 0;
    while i < n
        invariant
            n == fields@.len(),
            i <= n,
            (match title_chunk {
                Some(b) => last_chunk_named(fields@.take(i as int), "title"@) == Some(b@),
                None => last_chunk_named(fields@.take(i as int), "title"@) is None,
            }),
            (match desc_chunk {
                Some(b) => last_chunk_named(fields@.take(i as int), "description"@) == Some(b@),
                None => last_chunk_named(fields@.take(i as int), "description"@) is None,
            }),
            data@ == data_bytes(fields@.take(i as int), "skin"@),
            filename@ == named_filename(fields@.take(i as int), "skin"@),
        decreases n - i,
    {
        proof {
            // The three field names are pairwise distinct; their revealed
            // lengths are what settles that for the solver.
            reveal_strlit("title");
            reveal_strlit("description");
            reveal_strlit("skin");
            assert("title"@.len() == 5);
            assert("description"@.len() == 11);
            assert("skin"@.len() == 4);
            assert(fields@.take(i as int + 1).drop_last() =~= fields@.take(i as int));
            assert(fields@.take(i as int + 1).last() == fields@[i as int]);
        }
        let f = &fields[i];
        if str_eq(f.name.as_str(), "title") {
            if f.chunks.len() > 0 {
                title_chunk = Some(&f.chunks[f.chunks.len() - 1]);
            }
        } else if str_eq(f.name.as_str(), "description") {
            if f.chunks.len() > 0 {
                desc_chunk = Some(&f.chunks[f.chunks.len() - 1]);
            }
        } else if str_eq(f.name.as_str(), "skin") {
            let m = f.chunks.len();
            let mut j: usize = 0;
            while j < m
                invariant
                    m == f.chunks@.len(),
                    j <= m,
                    data@ == data_bytes(fields@.take(i as int), "skin"@) + chunk_concat(
                        f.chunks@.take(j as int)),
                decreases m - j,
            {
                proof {
                    assert(f.chunks@.take(j as int + 1).drop_last() =~= f.chunks@.take(j as int));
                    assert(f.chunks@.take(j as int + 1).last() == f.chunks@[j as int]);
                }
                let chunk = &f.chunks[j];
                let len = chunk.len();
                let mut k: usize = 0;
                while k < len
                    invariant
                        len == chunk@.len(),
                        k <= len,
                        data@ == data_bytes(fields@.take(i as int), "skin"@) + chunk_concat(
                            f.chunks@.take(j as int)) + chunk@.take(k as int),
                    decreases len - k,
                {
                    data.push(chunk[k]);
                    proof {
                        assert(chunk@.take(k as int + 1) =~= chunk@.take(k as int).push(
                            chunk@[k as int]));
                        assert(data@ == data_bytes(fields@.take(i as int), "skin"@)
                            + chunk_concat(f.chunks@.take(j as int)) + chunk@.take(k as int + 1));
                    }
                    k += 1;
                }
                proof {
                    assert(chunk@.take(len as int) =~= chunk@);
                    assert(chunk_concat(f.chunks@.take(j as int + 1)) == chunk_concat(
                        f.chunks@.take(j as int)) + f.chunks@[j as int]@);
                    assert(data@ == data_bytes(fields@.take(i as int), "skin"@) + chunk_concat(
                        f.chunks@.take(j as int + 1)));
                }
                j += 1;
            }
            proof {
                assert(f.chunks@.take(m as int) =~= f.chunks@);
            }
            filename = match &f.filename {
                Some(s) => s.clone(),
                None => String::new(),
            };
        }
        i += 1;
    }
    proof {
        assert(fields@.take(n as int) =~= fields@);
    }
    let title = match title_chunk {
        None => String::new(),
        Some(b) => match utf8_vec(b) {
            None => {
                return Err(ApiError::BadFieldText);
            },
            Some(s) => s,
        },
    };
    let description = match desc_chunk {
        None => String::new(),
        Some(b) => match utf8_vec(b) {
            None => {
                return Err(ApiError::BadFieldText);
            },
            Some(s) => s,
        },
    };
    Ok(Collected { title, description, data, filename })
}

/// Only these two content types pass the sniff.
pub open spec fn mime_ok(mime: Seq<char>) -> bool {
    mime == "image/png"@ || mime == "image/jpeg"@
}

/// Only width 64 with height 32 or 64 passes the dimension check.
pub open spec fn dims_ok(d: Option<(usize, usize)>) -> bool {
    d matches Some(wh) && wh.0 == 64 && (wh.1 == 32 || wh.1 == 64)
}

/// The content fingerprint: the bytes decoded with lossy UTF-8 substitution,
/// encrypted under the service key, and the last 48 characters of that
/// ciphertext taken — the whole ciphertext where it is shorter, so that no
/// input slices out of range.
pub open spec fn fingerprint_of(key: Seq<char>, data: Seq<u8>) -> Seq<char> {
    let c = cipher_of(key, lossy_of(data));
    if c.len() >= 48 {
        c.subrange(c.len() - 48, c.len() as int)
    } else {
        c
    }
}

/// Some record already carries this fingerprint.
pub open spec fn hash_taken(skins: Seq<SkinCollection>, h: Seq<char>) -> bool {
    exists|i: int| 0 <= i < skins.len() && skins[i].hash@ == h
}

/// Some record already carries a title equal to `t` up to case.
pub open spec fn skin_title_taken(skins: Seq<SkinCollection>, t: Seq<char>) -> bool {
    exists|i: int| 0 <= i < skins.len() && lower_of(skins[i].title@) == lower_of(t)
}

/// The first error of the validation chain on the collected values, or
/// `None` where every check passes, in the exact order the pipeline runs:
/// presence, size, title length, description length, content type,
/// dimensions, fingerprint dedup, title uniqueness.
pub open spec fn ingest_error(
    key: Seq<char>,
    skins: Seq<SkinCollection>,
    data: Seq<u8>,
    title: Seq<char>,
    desc: Seq<char>,
    mime: Seq<char>,
) -> Option<ApiError> {
    if data.len() == 0 {
        Some(ApiError::SkinFileMissing)
    } else if data.len() > 5000 {
        Some(ApiError::SkinTooLarge)
    } else if title.len() > 16 {
        Some(ApiError::TitleTooLong)
    } else if desc.len() > 256 {
        Some(ApiError::DescriptionTooLong)
    } else if !mime_ok(mime) {
        Some(ApiError::UnsupportedMedia)
    } else if !dims_ok(dims_of(data)) {
        Some(ApiError::BadDimensions)
    } else if hash_taken(skins, fingerprint_of(key, data)) {
        Some(ApiError::SkinExists)
    } else if skin_title_taken(skins, title) {
        Some(ApiError::TitleExists)
    } else {
        None
    }
}

/// The record a successful ingestion writes.
pub open spec fn skin_record_matches(
    key: Seq<char>,
    data: Seq<u8>,
    title: Seq<char>,
    desc: Seq<char>,
    filename: Seq<char>,
    mime: Seq<char>,
    id: Seq<char>,
    now: u64,
    owner: Seq<char>,
    rec: SkinCollection,
) -> bool {
    &&& rec.id@ == id
    &&& rec.date == now
    &&& rec.hash@ == fingerprint_of(key, data)
    &&& rec.filename@ == filename
    &&& rec.size == data.len()
    &&& rec.title@ == title
    &&& rec.description@ == desc
    &&& (rec.metadata matches SkinMeta::Image { width, height, content_type }
        && dims_of(data) == Some((width, height)) && content_type@ == mime)
    &&& rec.owner@ == owner
}

/// Everything [`Service::upload_skin`] guarantees: authentication first,
/// collection next, then — for whatever answer the sniffer gave and whatever
/// fresh id was drawn — the outcome of the validation chain.
pub open spec fn upload_outcome(
    pre: Service,
    post: Service,
    r: Result<String, ApiError>,
    token: Option<Seq<char>>,
    fields: Seq<UploadField>,
    now: u64,
) -> bool {
    match token {
        None => r == Err::<String, ApiError>(ApiError::AuthFailed) && post == pre,
        Some(t) => {
            if !some_session_match(pre.accounts@, t) {
                r == Err::<String, ApiError>(ApiError::AuthFailed) && post == pre
            } else if collected_title(fields) is None || collected_desc(fields) is None {
                r == Err::<String, ApiError>(ApiError::BadFieldText) && post == pre
            } else {
                forall|i: int| first_session_match(pre.accounts@, t, i)
                    ==> exists|m: Seq<char>, idv: Seq<char>|
                    idv.len() == 36 && ingest_post(pre, post, r, pre.accounts@[i].id@,
                        data_bytes(fields, "skin"@), collected_title(fields)->Some_0,
                        collected_desc(fields)->Some_0, named_filename(fields, "skin"@), m, idv,
                        now)
            }
        },
    }
}

/// Everything the pipeline guarantees once the fields are collected: the
/// first failing check answers its error and changes nothing; where every
/// check passes, exactly one record is appended and the fresh id returned.
pub open spec fn ingest_post(
    pre: Service,
    post: Service,
    r: Result<String, ApiError>,
    owner: Seq<char>,
    data: Seq<u8>,
    title: Seq<char>,
    desc: Seq<char>,
    filename: Seq<char>,
    mime: Seq<char>,
    id: Seq<char>,
    now: u64,
) -> bool {
    match ingest_error(pre.codec.key@, pre.skins@, data, title, desc, mime) {
        Some(e) => r == Err::<String, ApiError>(e) && post == pre,
        None => {
            &&& r matches Ok(rid) && rid@ == id
            &&& post.accounts@ == pre.accounts@
            &&& post.codec == pre.codec
            &&& post.skins@ == pre.skins@.push(post.skins@.last())
            &&& skin_record_matches(pre.codec.key@, data, title, desc, filename, mime, id, now,
                owner, post.skins@.last())
        },
    }
}

impl Service {
    /// True iff some record already carries this fingerprint.
    pub(crate) fn hash_exists(&self, h: &str) -> (r: bool)
        ensures
            r == hash_taken(self.skins@, h@),
    {
        let n = self.skins.len();
        let mut i: usize = 0;
        while i < n
            invariant
                n == self.skins@.len(),
                i <= n,
                forall|j: int| 0 <= j < i ==> self.skins@[j].hash@ != h@,
            decreases n - i,
        {
            if str_eq(self.skins[i].hash.as_str(), h) {
                return true;
            }
            i += 1;
        }
        false
    }

    /// True iff some record carries a title equal to `t` up to case.
    pub(crate) fn skin_title_exists(&self, t: &str) -> (r: bool)
        ensures
            r == skin_title_taken(self.skins@, t@),
    {
        let target = lower_str(t);
        let n = self.skins.len();
        let mut i: usize = 0;
        while i < n
            invariant
                n == self.skins@.len(),
                i <= n,
                target@ == lower_of(t@),
                forall|j: int| 0 <= j < i ==> lower_of(self.skins@[j].title@) != lower_of(t@),
            decreases n - i,
        {
            let low = lower_str(self.skins[i].title.as_str());
            if str_eq(low.as_str(), target.as_str()) {
                return true;
            }
            i += 1;
        }
        false
    }

    /// The validation chain and the write on collected values, with the
    /// sniffed content type, the fresh id and the timestamp injected.
    fn ingest_collected(
        &mut self,
        owner_idx: usize,
        c: Collected,
        mime: &str,
        id: String,
        now: u64,
    ) -> (r: Result<String, ApiError>)
        requires
            owner_idx < old(self).accounts@.len(),
        ensures
            ingest_post(*old(self), *final(self), r,
                old(self).accounts@[owner_idx as int].id@, c.data@, c.title@, c.description@,
                c.filename@, mime@, id@, now),
    {
        if c.data.len() == 0 {
            return Err(ApiError::SkinFileMissing);
        }
        if c.data.len() > 5000 {
            return Err(ApiError::SkinTooLarge);
        }
        if c.title.as_str().unicode_len() > 16 {
            return Err(ApiError::TitleTooLong);
        }
        if c.description.as_str().unicode_len() > 256 {
            return Err(ApiError::DescriptionTooLong);
        }
        let is_png = str_eq(mime, "image/png");
        let is_jpeg = str_eq(mime, "image/jpeg");
        if !is_png && !is_jpeg {
            return Err(ApiError::UnsupportedMedia);
        }
        let wh = match image_dims(&c.data) {
            None => {
                return Err(ApiError::BadDimensions);
            },
            Some(wh) => wh,
        };
        let width = wh.0;
        let height = wh.1;
        if !(width == 64 && (height == 32 || height == 64)) {
            return Err(ApiError::BadDimensions);
        }
        let hash = fingerprint(&self.codec, &c.data);
        if self.hash_exists(hash.as_str()) {
            return Err(ApiError::SkinExists);
        }
        if self.skin_title_exists(c.title.as_str()) {
            return Err(ApiError::TitleExists);
        }
        let owner = self.accounts[owner_idx].id.clone();
        let rid = id.clone();
        let size = c.data.len();
        let rec = SkinCollection {
            date: now,
            id,
            hash,
            filename: c.filename,
            title: c.title,
            description: c.description,
            size,
            metadata: SkinMeta::Image { width, height, content_type: mime.to_owned() },
            owner,
        };
        self.skins.push(rec);
        Ok(rid)
    }

    /// The whole upload with the sniffed content type injected: session
    /// check, field collection, then the validation chain. Exact for every
    /// value of the content type, which is how the environmental sniffer is
    /// kept out of the verified logic.
    pub fn upload_skin_with_mime(
        &mut self,
        session_token: Option<&str>,
        fields: &Vec<UploadField>,
        mime: &str,
        id: String,
        now: u64,
    ) -> (r: Result<String, ApiError>)
        ensures
            ({
                let pre = *old(self);
                let post = *final(self);
                match session_token {
                    None => r == Err::<String, ApiError>(ApiError::AuthFailed) && post == pre,
                    Some(t) => {
                        if !some_session_match(pre.accounts@, t@) {
                            r == Err::<String, ApiError>(ApiError::AuthFailed) && post == pre
                        } else {
                            match (collected_title(fields@), collected_desc(fields@)) {
                                (Some(title), Some(desc)) => forall|i: int|
                                    first_session_match(pre.accounts@, t@, i)
                                        ==> ingest_post(pre, post, r, pre.accounts@[i].id@,
                                        data_bytes(fields@, "skin"@), title, desc,
                                        named_filename(fields@, "skin"@), mime@, id@, now),
                                _ => r == Err::<String, ApiError>(ApiError::BadFieldText) && post
                                    == pre,
                            }
                        }
                    },
                }
            }),
    {
        let t = match session_token {
            None => {
                return Err(ApiError::AuthFailed);
            },
            Some(t) => t,
        };
        let idx = match self.find_session_index(t) {
            None => {
                return Err(ApiError::AuthFailed);
            },
            Some(i) => i,
        };
        proof {
            assert forall|i2: int| first_session_match(self.accounts@, t@, i2) implies i2
                == idx as int by {
                lemma_first_session_match_unique(self.accounts@, t@, idx as int, i2);
            }
        }
        let c = match collect_fields(fields) {
            Err(e) => {
                return Err(e);
            },
            Ok(c) => c,
        };
        self.ingest_collected(idx, c, mime, id, now)
    }

    /// The upload endpoint: session check, field collection, content sniff,
    /// fresh record id, then the validation chain and the write. The sniffed
    /// type and the random id are pinned only existentially; everything else
    /// is as exact as [`Self::upload_skin_with_mime`].
    pub fn upload_skin(
        &mut self,
        session_token: Option<&str>,
        fields: &Vec<UploadField>,
        now: u64,
    ) -> (r: Result<String, ApiError>)
        ensures
            upload_outcome(*old(self), *final(self), r, opt_str_view(session_token), fields@,
                now),
    {
        let t = match session_token {
            None => {
                return Err(ApiError::AuthFailed);
            },
            Some(t) => t,
        };
        let idx = match self.find_session_index(t) {
            None => {
                return Err(ApiError::AuthFailed);
            },
            Some(i) => i,
        };
        proof {
            assert forall|i2: int| first_session_match(self.accounts@, t@, i2) implies i2
                == idx as int by {
                lemma_first_session_match_unique(self.accounts@, t@, idx as int, i2);
            }
        }
        let c = match collect_fields(fields) {
            Err(e) => {
                return Err(e);
            },
            Ok(c) => c,
        };
        let mime = sniff_mime(&c.data);
        let id = new_uuid();
        let ghost m_wit: Seq<char> = mime@;
        let ghost id_wit: Seq<char> = id@;
        let ghost c_data: Seq<u8> = c.data@;
        let ghost c_title: Seq<char> = c.title@;
        let ghost c_desc: Seq<char> = c.description@;
        let ghost c_filename: Seq<char> = c.filename@;
        let r = self.ingest_collected(idx, c, mime.as_str(), id, now);
        proof {
            assert(collected_title(fields@)->Some_0 == c_title);
            assert(collected_desc(fields@)->Some_0 == c_desc);
            assert forall|i: int| first_session_match(old(self).accounts@, t@, i)
                implies exists|m: Seq<char>, idv: Seq<char>| idv.len() == 36 && ingest_post(
                *old(self), *self, r, old(self).accounts@[i].id@, data_bytes(fields@, "skin"@),
                collected_title(fields@)->Some_0, collected_desc(fields@)->Some_0,
                named_filename(fields@, "skin"@), m, idv, now) by {
                assert(i == idx as int);
                assert(ingest_post(*old(self), *self, r, old(self).accounts@[i].id@,
                    data_bytes(fields@, "skin"@), collected_title(fields@)->Some_0,
                    collected_desc(fields@)->Some_0, named_filename(fields@, "skin"@), m_wit,
                    id_wit, now));
            }
            assert(upload_outcome(*old(self), *self, r, opt_str_view(session_token), fields@,
                now));
        }
        r
    }
}

/// The content fingerprint of the uploaded bytes, exactly as stored.
pub fn fingerprint(codec: &SymmetricCodec, data: &Vec<u8>) -> (r: String)
    ensures
        r@ == fingerprint_of(codec.key@, data@),
{
    let text = lossy_utf8(data);
    let cipher = codec.encrypt(text.as_str());
    let n = cipher.as_str().unicode_len();
    if n >= 48 {
        cipher.as_str().substring_char(n - 48, n).to_owned()
    } else {
        cipher
    }
}

} // verus!
