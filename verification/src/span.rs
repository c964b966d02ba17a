//! Source locations, carried through inference for diagnostics.

use vstd::prelude::*;

verus! {

/// A byte range in the source text of the module being checked.
#[derive(Clone, Copy, Debug, PartialEq, Eq, Structural)]
pub struct Span {
    pub start: usize,
    pub end: usize,
}

impl Span {
    /// The empty location, used where no source position applies.
    pub fn empty() -> (s: Span)
        ensures
            s.start == 0 && s.end == 0,
    {
        Span { start: 0, end: 0 }
    }

    /// A location spanning `start` to `end`.
    pub fn new(start: usize, end: usize) -> (s: Span)
        ensures
            s.start == start && s.end == end,
    {
        Span { start, end }
    }
}

} // verus!
