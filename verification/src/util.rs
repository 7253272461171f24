//! Small helpers shared by the log formats.

use vstd::prelude::*;

verus! {

/// The text of an optional field: the empty string for `None`, the content for `Some`.
pub fn format_opt(file: Option<String>) -> (text: String)
    ensures
        text@ == match file {
            Some(f) => f@,
            None => Seq::<char>::empty(),
        },
{
    match file {
        None => String::new(),
        Some(f) => f,
    }
}

} // verus!
