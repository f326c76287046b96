//! The wall clock, read through `chrono`.
use vstd::prelude::*;

verus! {

/// The current UTC time as RFC 3339 text: `std::time::SystemTime::now()`
/// converted by chrono's `From<SystemTime> for DateTime<Utc>` and rendered by
/// `DateTime::to_rfc3339`.
///
/// The value depends on the system clock, so the contract names no value: it
/// states only what every rendering holds, that the text carries at least the
/// `YYYY-MM-DDTHH:MM:SS` part (19 characters). The conversion accepts clocks
/// before the Unix epoch as well as after it; it panics only for a clock
/// outside the dates chrono can represent (roughly 262,000 years either side
/// of year 0), which the contract does not mention.
#[verifier::external_body]
pub(crate) fn now_rfc3339() -> (r: String)
    ensures
        r@.len() >= 19,
{
    chrono::DateTime::<chrono::Utc>::from(std::time::SystemTime::now()).to_rfc3339()
}

} // verus!
