//! Encodings, digests and random bytes.
use vstd::prelude::*;

verus! {

/// The base64 text of a byte string, in the URL-safe alphabet and without padding.
pub uninterp spec fn base64url(bytes: Seq<u8>) -> Seq<char>;

/// The byte string that a base64 text stands for; `None` for a text that is not the
/// unpadded URL-safe base64 text of any byte string.
pub uninterp spec fn base64url_decoded(text: Seq<char>) -> Option<Seq<u8>>;

/// The SHA-256 digest of a byte string.
pub uninterp spec fn sha256(bytes: Seq<u8>) -> Seq<u8>;

/// The HMAC-SHA256 tag of a message under a key.
pub uninterp spec fn hmac_sha256(key: Seq<u8>, message: Seq<u8>) -> Seq<u8>;

/// A character of the URL-safe base64 alphabet: a letter, a digit, `-` or `_`.
pub open spec fn is_base64url_char(c: char) -> bool {
    ('A' <= c <= 'Z') || ('a' <= c <= 'z') || ('0' <= c <= '9') || c == '-' || c == '_'
}

/// `base64::Engine::encode` of `URL_SAFE_NO_PAD`: the text is made of characters of the
/// URL-safe alphabet alone, and decoding it gives the bytes back.
#[verifier::external_body]
pub(crate) fn base64url_encode(bytes: &[u8]) -> (text: String)
    ensures
        text@ == base64url(bytes@),
        base64url_decoded(text@) == Some(bytes@),
        forall|i: int| 0 <= i < text@.len() ==> is_base64url_char(#[trigger] text@[i]),
{
    base64::Engine::encode(&base64::engine::general_purpose::URL_SAFE_NO_PAD, bytes)
}

/// `base64::Engine::decode` of `URL_SAFE_NO_PAD`; `None` where the crate reports an error.
#[verifier::external_body]
pub(crate) fn base64url_decode(text: &str) -> (bytes: Option<Vec<u8>>)
    ensures
        bytes is Some ==> base64url_decoded(text@) == Some(bytes->0@),
        bytes is None ==> base64url_decoded(text@) is None,
{
    match base64::Engine::decode(&base64::engine::general_purpose::URL_SAFE_NO_PAD, text) {
        Ok(bytes) => Some(bytes),
        Err(_) => None,
    }
}

/// `sha2::Sha256::digest`: 32 bytes that depend on the input alone.
#[verifier::external_body]
pub(crate) fn sha256_digest(bytes: &[u8]) -> (digest: Vec<u8>)
    ensures
        digest@ == sha256(bytes@),
        digest@.len() == 32,
{
    <sha2::Sha256 as sha2::Digest>::digest(bytes).to_vec()
}

/// `hmac::Hmac<sha2::Sha256>`, keyed by `new_from_slice`, fed by `update` and closed by
/// `finalize`: 32 bytes that depend on the key and the message alone. A key of any
/// length is accepted.
#[verifier::external_body]
pub(crate) fn hmac_sha256_tag(key: &[u8], message: &[u8]) -> (tag: Option<Vec<u8>>)
    ensures
        tag is Some,
        tag->0@ == hmac_sha256(key@, message@),
        tag->0@.len() == 32,
{
    match <hmac::Hmac<sha2::Sha256> as hmac::Mac>::new_from_slice(key) {
        Ok(mut mac) => {
            hmac::Mac::update(&mut mac, message);
            Some(hmac::Mac::finalize(mac).into_bytes().to_vec())
        },
        Err(_) => None,
    }
}

/// `subtle::ConstantTimeEq::ct_eq` on byte slices: whether the two are equal, in time
/// that does not depend on their contents.
#[verifier::external_body]
pub(crate) fn constant_time_eq(a: &[u8], b: &[u8]) -> (same: bool)
    ensures
        same == (a@ == b@),
{
    bool::from(subtle::ConstantTimeEq::ct_eq(a, b))
}

/// `rand::RngCore::try_fill_bytes` of `rand::rngs::OsRng` on 32 bytes; `None` where the
/// operating system gives no random bytes. Nothing is promised of the bytes.
#[verifier::external_body]
pub(crate) fn random_secret() -> (bytes: Option<Vec<u8>>)
    ensures
        bytes is Some ==> bytes->0@.len() == 32,
{
    let mut secret = vec![0u8; 32];
    match rand::RngCore::try_fill_bytes(&mut rand::rngs::OsRng, &mut secret) {
        Ok(()) => Some(secret),
        Err(_) => None,
    }
}

} // verus!
