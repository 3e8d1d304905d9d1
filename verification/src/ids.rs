//! Identifiers as text: how a 128-bit identifier is written and read.

use vstd::prelude::*;

verus! {

/// The error of reading an identifier.
#[verifier::external_type_specification]
#[verifier::external_body]
pub struct ExUuidError(uuid::Error);

/// The text of an identifier: its thirty-two hexadecimal digits in lower
/// case, in five groups joined by hyphens.
pub uninterp spec fn hyphenated(id: u128) -> Seq<char>;

/// The identifier that a text stands for, if it stands for one.
pub uninterp spec fn parsed_uuid(text: Seq<char>) -> Option<u128>;

/// Writes an identifier as text.
///
/// Makes a `uuid::Uuid` with `Uuid::from_u128` and writes it by its
/// `Display`. Trusted: the text is `hyphenated` of the identifier.
#[verifier::external_body]
pub(crate) fn uuid_text(id: u128) -> (text: String)
    ensures
        text@ == hyphenated(id),
{
    uuid::Uuid::from_u128(id).to_string()
}

/// Reads an identifier from text.
///
/// Calls `uuid::Uuid::parse_str` and reads the result with `Uuid::as_u128`.
/// Trusted: the call succeeds exactly on the texts for which `parsed_uuid`
/// gives an identifier, and returns that identifier.
#[verifier::external_body]
pub(crate) fn parse_uuid(text: &str) -> (id: Result<u128, uuid::Error>)
    ensures
        id is Ok <==> parsed_uuid(text@) is Some,
        id matches Ok(value) ==> parsed_uuid(text@) == Some(value),
{
    uuid::Uuid::parse_str(text).map(|u| u.as_u128())
}

/// Reads an identifier from text, or `None` for a text that stands for none.
pub fn read_id(text: &str) -> (id: Option<u128>)
    ensures
        id == parsed_uuid(text@),
{
    match parse_uuid(text) {
        Ok(value) => Some(value),
        Err(_) => None,
    }
}

} // verus!
