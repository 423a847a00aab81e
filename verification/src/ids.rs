//! Ids of players and host tokens: 128-bit numbers that stand for UUIDs.

use vstd::prelude::*;

verus! {

/// `Uuid::new_v4`, as the 128-bit number that `Uuid::as_u128` gives.
/// Nothing is promised of the value.
#[verifier::external_body]
pub(crate) fn fresh_id() -> (id: u128) {
    uuid::Uuid::new_v4().as_u128()
}

/// The id that a text spells in one of the notations of `Uuid::parse_str`.
pub uninterp spec fn parsed_id(text: Seq<char>) -> Option<u128>;

/// `Uuid::parse_str`, with the error dropped and the id as the 128-bit
/// number that `Uuid::as_u128` gives: the result is named `parsed_id` of
/// the text.
#[verifier::external_body]
pub(crate) fn parse_id(text: &str) -> (id: Option<u128>)
    ensures
        id == parsed_id(text@),
{
    match uuid::Uuid::parse_str(text) {
        Ok(id) => Some(id.as_u128()),
        Err(_) => None,
    }
}

} // verus!
