//! Absent-value normalization shared by the part and row codecs.

use vstd::prelude::*;
use crate::text::{is_blank, is_blank_str};

verus! {

/// Empty-string to absent-value normalization: a blank string denotes
/// an absent optional attribute.
pub open spec fn none_if_empty_spec(s: Seq<char>) -> Option<Seq<char>> {
    if is_blank(s) {
        None
    } else {
        Some(s)
    }
}

/// Turns a blank string into an absent value and keeps any other intact.
pub trait Normalise: View<V = Seq<char>> + Sized {
    fn none_if_empty(self) -> (r: Option<String>)
        ensures
            r.deep_view() == none_if_empty_spec(self@),
    ;
}

impl Normalise for String {
    fn none_if_empty(self) -> (r: Option<String>) {
        if is_blank_str(self.as_str()) {
            None
        } else {
            Some(self)
        }
    }
}

} // verus!
