//! Small helpers on text.

use vstd::prelude::*;
use vstd::string::*;

verus! {

/// `head` followed by `tail`.
pub(crate) fn join(head: &str, tail: &str) -> (text: String)
    ensures
        text@ == head@ + tail@,
{
    let mut text: String = head.to_owned();
    text.append(tail);
    text
}

/// Whether `text` is `other`.
pub(crate) fn same(text: &String, other: &str) -> (equal: bool)
    ensures
        equal == (text@ == other@),
{
    *text == other.to_owned()
}

} // verus!
