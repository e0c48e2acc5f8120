//! Reversible symmetric encryption of strings, keyed by a single secret
//! configured at construction, together with the CSRF guard that rests on it.
//!
//! Encryption is AES-256-CBC through the `magic_crypt` crate: the key bytes
//! are hashed with SHA-256, the IV is fixed (all zeroes), the padded blocks
//! are base64-encoded. The transform is therefore a deterministic function of
//! the key and the plaintext, which is what makes ciphertext usable as an
//! exact-match store filter value.

use vstd::prelude::*;
use magic_crypt::MagicCryptTrait;

verus! {

/// The ciphertext that `magic_crypt` AES-256 produces for a key and a
/// plaintext: a pure function of the two, never written out here.
pub uninterp spec fn cipher_of(key: Seq<char>, plain: Seq<char>) -> Seq<char>;

/// The outcome of `magic_crypt` AES-256 base64 decryption for a key and an
/// input string: `None` where the input is not ciphertext under that key
/// (malformed base64, wrong padding, non-UTF-8 plaintext), also a pure
/// function of the two.
pub uninterp spec fn plain_of(key: Seq<char>, cipher: Seq<char>) -> Option<Seq<char>>;

/// The lowercase form of a string as `str::to_lowercase` computes it, used
/// for the case-insensitive uniqueness rules.
pub uninterp spec fn lower_of(s: Seq<char>) -> Seq<char>;

/// Relies on `magic_crypt::MagicCrypt256::new` and
/// `MagicCryptTrait::encrypt_str_to_base64`: with no IV given the cipher is
/// built deterministically from the key alone, so the ciphertext is a
/// function of the key and the plaintext. The second clause is the round
/// trip: CBC with PKCS#7 padding decrypts its own output, and the plaintext
/// was UTF-8 to begin with, so decryption of the result gives the plaintext
/// back.
#[verifier::external_body]
fn enc_base64(key: &str, plain: &str) -> (r: String)
    ensures
        r@ == cipher_of(key@, plain@),
        plain_of(key@, r@) == Some(plain@),
{
    let mc = magic_crypt::MagicCrypt256::new(key, None::<&[u8]>);
    mc.encrypt_str_to_base64(plain)
}

/// Relies on `magic_crypt::MagicCrypt256::new` and
/// `MagicCryptTrait::decrypt_base64_to_string`: decryption is deterministic
/// for a key, fails on inputs that are not valid ciphertext, and inverts
/// `encrypt_str_to_base64` on every string (CBC with PKCS#7 padding decrypts
/// its own output, and the plaintext was UTF-8 to begin with).
#[verifier::external_body]
fn dec_base64(key: &str, cipher: &str) -> (r: Option<String>)
    ensures
        r matches Some(p) ==> plain_of(key@, cipher@) == Some(p@),
        r is None ==> plain_of(key@, cipher@) is None,
{
    let mc = magic_crypt::MagicCrypt256::new(key, None::<&[u8]>);
    mc.decrypt_base64_to_string(cipher).ok()
}

/// Relies on `str::to_lowercase`: the result depends on the characters alone.
#[verifier::external_body]
pub(crate) fn lower_str(s: &str) -> (r: String)
    ensures
        r@ == lower_of(s@),
{
    s.to_lowercase()
}

/// A CSRF token is valid exactly when it decrypts under the shared key to a
/// non-empty plaintext.
pub open spec fn csrf_token_ok(key: Seq<char>, token: Option<Seq<char>>) -> bool {
    &&& token matches Some(t)
    &&& plain_of(key, t) matches Some(p) && p.len() > 0
}

/// The codec holding the process-wide secret, injected at construction.
pub struct SymmetricCodec {
    pub key: String,
}

impl SymmetricCodec {
    pub fn new(key: String) -> (r: SymmetricCodec)
        ensures
            r.key@ == key@,
    {
        SymmetricCodec { key }
    }

    /// Encrypting is deterministic per key and plaintext, so the result can
    /// serve as an exact-match filter value on encrypted fields. The second
    /// clause, together with the contract of [`Self::decrypt`], is the round
    /// trip: decrypting an encryption of any string gives that string back.
    pub fn encrypt(&self, plain: &str) -> (r: String)
        ensures
            r@ == cipher_of(self.key@, plain@),
            plain_of(self.key@, r@) == Some(plain@),
    {
        enc_base64(self.key.as_str(), plain)
    }

    /// Decryption never panics: malformed input yields `None`. The result is
    /// exactly what [`plain_of`] holds for the key and the input, so on a
    /// string [`Self::encrypt`] produced it is the original plaintext.
    pub fn decrypt(&self, cipher: &str) -> (r: Option<String>)
        ensures
            (match r {
                Some(p) => plain_of(self.key@, cipher@) == Some(p@),
                None => plain_of(self.key@, cipher@) is None,
            }),
    {
        dec_base64(self.key.as_str(), cipher)
    }

    /// The CSRF guard: valid iff decryption succeeds and the plaintext is
    /// non-empty. Independent of any session state by design.
    pub fn verified_csrf(&self, token: Option<&str>) -> (r: bool)
        ensures
            r == csrf_token_ok(self.key@, match token {
                Some(t) => Some(t@),
                None => None,
            }),
    {
        match token {
            None => false,
            Some(t) => match self.decrypt(t) {
                None => false,
                Some(p) => !p.as_str().is_empty(),
            },
        }
    }
}

} // verus!
