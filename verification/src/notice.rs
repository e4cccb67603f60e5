//! The notice that goes with a reduction of nothing.

use vstd::prelude::*;

verus! {

/// The text of the notice for an empty input.
pub open spec fn notice_text() -> Seq<char> {
    "Input vector is empty. Returning 0."@
}

/// The notice that a reducer's caller is to report for a sequence of `len`
/// elements: the empty-input notice for an empty sequence, none otherwise.
pub fn empty_input_notice(len: usize) -> (r: Option<&'static str>)
    ensures
        r is Some <==> len == 0,
        r is Some ==> r->Some_0@ == notice_text(),
{
    if len == 0 {
        Some("Input vector is empty. Returning 0.")
    } else {
        None
    }
}

} // verus!
