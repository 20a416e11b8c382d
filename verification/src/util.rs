//! Time, as the rest of the library consumes it.

use vstd::prelude::*;

use std::time::{SystemTime, UNIX_EPOCH};

verus! {

/// Relies on std's `SystemTime::now`: seconds since the Unix epoch, as the
/// system clock reports them. Nothing is promised of the value; callers that
/// need monotonic time enforce it themselves (see the store's clock).
#[verifier::external_body]
pub fn current_unix_time() -> (r: i64) {
    SystemTime::now()
        .duration_since(UNIX_EPOCH)
        .expect("Time since the unix epoch should never fail")
        .as_secs() as i64
}

} // verus!
