//! Identifiers and timestamps. Both come from outside the relay and differ
//! from call to call, so nothing is promised of them.

use vstd::prelude::*;

verus! {

/// Trusted: a new random identifier, `uuid::Uuid::new_v4` written with
/// `to_string`. Nothing is claimed of the text.
#[verifier::external_body]
pub(crate) fn fresh_id() -> (id: String) {
    uuid::Uuid::new_v4().to_string()
}

/// Trusted: the current time, `std::time::SystemTime::now` turned into a
/// `chrono::DateTime<chrono::Utc>` and written with `to_rfc3339`. Nothing is
/// claimed of the text.
#[verifier::external_body]
pub(crate) fn current_timestamp() -> (timestamp: String) {
    chrono::DateTime::<chrono::Utc>::from(std::time::SystemTime::now()).to_rfc3339()
}

} // verus!
