//! Values the outside world draws fresh: the current instant and new unique
//! message ids.

use vstd::prelude::*;

verus! {

/// Relies on `chrono::Utc::now` and `DateTime::to_rfc3339`. The clock is not a
/// function of anything the library sees, so nothing is promised of the value.
#[verifier::external_body]
pub(crate) fn now_rfc3339() -> String {
    chrono::Utc::now().to_rfc3339()
}

/// Relies on `uuid::Uuid::new_v4` and its hyphenated `to_string`: a random
/// UUID prints as 36 characters. Random: nothing more is promised.
#[verifier::external_body]
pub(crate) fn fresh_uuid() -> (r: String)
    ensures
        r@.len() == 36,
{
    uuid::Uuid::new_v4().to_string()
}

} // verus!
