//! Identifiers are opaque 128-bit values; this module makes fresh ones and moves them
//! between their numeric and their textual form.
use vstd::prelude::*;

verus! {

/// The canonical text of an identifier: 32 lower-case hexadecimal digits in five groups
/// separated by hyphens.
pub uninterp spec fn uuid_text(id: u128) -> Seq<char>;

/// The identifier that a text denotes, if it denotes one.
pub uninterp spec fn uuid_parse(text: Seq<char>) -> Option<u128>;

/// `uuid::Uuid::new_v4`: a random identifier. Nothing is promised of its value. The call
/// does not return where the operating system gives no random bytes; no argument brings
/// that about.
#[verifier::external_body]
pub(crate) fn random_id() -> (id: u128) {
    uuid::Uuid::new_v4().as_u128()
}

/// A character of the canonical text of an identifier: a lower-case hexadecimal digit
/// or a hyphen.
pub open spec fn is_uuid_char(c: char) -> bool {
    ('0' <= c <= '9') || ('a' <= c <= 'f') || c == '-'
}

/// `Display` of `uuid::Uuid`: the hyphenated lower-case form, which is 36 characters long,
/// made of hexadecimal digits and hyphens, and which `uuid::Uuid::parse_str` reads back
/// as the same identifier.
#[verifier::external_body]
pub(crate) fn id_text(id: u128) -> (text: String)
    ensures
        text@ == uuid_text(id),
        text@.len() == 36,
        forall|i: int| 0 <= i < text@.len() ==> is_uuid_char(#[trigger] text@[i]),
        uuid_parse(text@) == Some(id),
{
    uuid::Uuid::from_u128(id).to_string()
}

/// `uuid::Uuid::parse_str`: the identifier a text denotes, `None` where it denotes none.
#[verifier::external_body]
pub(crate) fn parse_id(text: &str) -> (id: Option<u128>)
    ensures
        id == uuid_parse(text@),
{
    match uuid::Uuid::parse_str(text) {
        Ok(parsed) => Some(parsed.as_u128()),
        Err(_) => None,
    }
}

} // verus!
