//! Ids for records that come without one.

use vstd::prelude::*;

verus! {

/// Draws an id: calls `uuid::Uuid::new_v4` and writes the result out, which
/// `uuid` does in its hyphenated form. Which id comes is open, and nothing
/// here says that two calls give two ids; the contract claims the length of
/// the hyphenated form, 36 characters.
#[verifier::external_body]
pub(crate) fn new_id() -> (id: String)
    ensures
        id@.len() == 36,
{
    uuid::Uuid::new_v4().to_string()
}

} // verus!
