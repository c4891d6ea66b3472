//! Random and parsed UUID text, through the uuid crate.

use vstd::prelude::*;

verus! {

/// Length of a UUID in its hyphenated text form.
pub const UUID_TEXT_LEN: usize = 36;

/// Canonical (lowercase, hyphenated) text of the UUID that `s` spells, if
/// it spells one in any of the accepted notations.
pub uninterp spec fn parsed_uuid(s: Seq<char>) -> Option<Seq<char>>;

/// Relies on `uuid::Uuid::new_v4`, rendered through its `Display` impl: a
/// fresh random UUID in its 36-character hyphenated form.
#[verifier::external_body]
pub(crate) fn new_uuid_text() -> (r: String)
    ensures
        r@.len() == UUID_TEXT_LEN,
{
    uuid::Uuid::new_v4().to_string()
}

/// Relies on `uuid::Uuid::parse_str`, rendered through `Display` on success:
/// the canonical 36-character text of the parsed UUID, or the crate's error
/// description.
#[verifier::external_body]
pub(crate) fn parse_uuid_text(s: &str) -> (r: Result<String, String>)
    ensures
        r matches Ok(c) ==> parsed_uuid(s@) == Some(c@) && c@.len() == UUID_TEXT_LEN,
        r is Err ==> parsed_uuid(s@) is None,
{
    match uuid::Uuid::parse_str(s) {
        Ok(u) => Ok(u.to_string()),
        Err(e) => Err(e.to_string()),
    }
}

} // verus!
