//! The current date and time, relied on from the chrono crate. Nothing is
//! promised of the values: they depend on the clock.

use vstd::prelude::*;

verus! {

/// Relies on chrono's `Local::now` and `DateTime::format`: the current
/// local date rendered as `%Y-%m-%d`.
#[verifier::external_body]
pub(crate) fn local_date_string() -> String {
    chrono::Local::now().format("%Y-%m-%d").to_string()
}

/// Relies on chrono's `Local::now` and `DateTime::format`: the current
/// local time rendered as `%Y%m%d_%H%M%S`.
#[verifier::external_body]
pub(crate) fn local_timestamp_string() -> String {
    chrono::Local::now().format("%Y%m%d_%H%M%S").to_string()
}

} // verus!
