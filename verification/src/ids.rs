//! Identifiers.
use vstd::prelude::*;

verus! {

/// A text is an identifier that `uuid::Uuid::parse_str` reads.
pub uninterp spec fn uuid_text(s: Seq<char>) -> bool;

/// Calls `uuid::Uuid::parse_str` and says whether it read an identifier; the
/// result is a function of the text alone.
#[verifier::external_body]
pub(crate) fn is_uuid(s: &str) -> (r: bool)
    ensures
        r == uuid_text(s@),
{
    uuid::Uuid::parse_str(s).is_ok()
}

/// Calls `uuid::Uuid::now_v7` and prints the identifier. It holds the time and
/// chance; that much is said that `parse_str` reads it.
#[verifier::external_body]
pub(crate) fn fresh_id() -> (r: String)
    ensures
        uuid_text(r@),
{
    uuid::Uuid::now_v7().to_string()
}

/// Calls `uuid::Uuid::new_v4` and prints the identifier. It is drawn by chance;
/// that much is said that `parse_str` reads it.
#[verifier::external_body]
pub(crate) fn random_id() -> (r: String)
    ensures
        uuid_text(r@),
{
    uuid::Uuid::new_v4().to_string()
}

} // verus!
