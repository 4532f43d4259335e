//! The two points where the library reads the world: the clock and the
//! home directory.

use vstd::prelude::*;

verus! {

/// Relies on chrono's `Utc::now` (read the system clock) and
/// `DateTime::timestamp_millis` (convert it to milliseconds since the Unix
/// epoch). Nothing can be promised of a clock reading.
#[verifier::external_body]
pub fn now_millis() -> i64 {
    chrono::Utc::now().timestamp_millis()
}

/// Relies on dirs' `home_dir`: the user's home directory, when the platform
/// reports one and its path is valid Unicode. Nothing can be promised of the
/// environment.
#[verifier::external_body]
pub fn home_dir_string() -> Option<String> {
    match dirs::home_dir() {
        Some(p) => match p.to_str() {
            Some(s) => Some(s.to_string()),
            None => None,
        },
        None => None,
    }
}

} // verus!
