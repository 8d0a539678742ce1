//! Small helpers on optional text.
use vstd::prelude::*;

verus! {

/// A copy of the optional text `s`.
pub fn copy_text(s: &Option<String>) -> (r: Option<String>)
    ensures
        r == *s,
{
    match s {
        Some(t) => Some(t.clone()),
        None => None,
    }
}

} // verus!
