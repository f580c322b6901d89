use vstd::prelude::*;

verus! {

/// A source location in the host's program text, as byte offsets. Spans are
/// carried by values, calls and error labels for diagnostics only; they take
/// no part in structural equality of values.
#[derive(Clone, Copy, PartialEq, Eq, Structural, Debug)]
pub struct Span {
    pub start: usize,
    pub end: usize,
}

impl Span {
    pub fn new(start: usize, end: usize) -> (s: Span)
        ensures
            s == (Span { start, end }),
    {
        Span { start, end }
    }

    /// A placeholder location for values that originate outside the host's
    /// program text.
    pub fn unknown() -> (s: Span)
        ensures
            s == (Span { start: 0usize, end: 0usize }),
    {
        Span { start: 0, end: 0 }
    }
}

} // verus!
