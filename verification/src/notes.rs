//! The notes endpoint's payload.

use vstd::prelude::*;

verus! {

/// What the notes route answers.
pub fn get_notes() -> (r: &'static str)
    ensures
        r@ == "test"@,
{
    "test"
}

} // verus!
