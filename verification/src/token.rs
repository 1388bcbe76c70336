//! Random identifiers and challenge tokens.

use vstd::prelude::*;

verus! {

/// Relies on Uuid::new_v4 (uuid): a fresh random identifier, rendered in the
/// 36-character hyphenated form.
#[verifier::external_body]
pub fn new_token() -> (r: String)
    ensures
        r@.len() == 36,
        vstd::string::string_is_ascii(&r),
{
    uuid::Uuid::new_v4().to_string()
}

} // verus!
