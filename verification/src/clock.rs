//! The one reading the library takes from the outside world's clock:
//! the current local time as display text for the workout's metadata.

use vstd::prelude::*;

verus! {

/// Relies on chrono's `Local::now` and `DateTime::format`: the current
/// local wall-clock time rendered as `YYYY-MM-DD HH:MM:SS`. The result
/// depends on the machine's clock and time zone, so nothing is promised
/// of it.
#[verifier::external_body]
pub(crate) fn now_local_formatted() -> String {
    chrono::Local::now().format("%Y-%m-%d %H:%M:%S").to_string()
}

} // verus!
