//! Extents of source text, measured in characters.

use vstd::prelude::*;

verus! {

/// A marker for the start and the length of a section of text, both counted
/// in Unicode scalar values.
#[derive(Debug, Copy, Clone, PartialEq, Eq, Structural)]
pub struct Span(pub usize, pub usize);

impl Span {
    /// The position at which the section starts.
    pub fn start(&self) -> (r: usize)
        ensures
            r == self.0,
    {
        self.0
    }

    /// The number of characters in the section.
    pub fn length(&self) -> (r: usize)
        ensures
            r == self.1,
    {
        self.1
    }

    /// The position just behind the section, as a mathematical integer.
    pub open spec fn spec_end(self) -> int {
        self.0 + self.1
    }

    /// The position just behind the section.
    pub fn end(&self) -> (r: usize)
        requires
            self.spec_end() <= usize::MAX,
        ensures
            r == self.spec_end(),
    {
        self.0 + self.1
    }

    /// Whether `self` followed by `last` can be merged: `last` must not end
    /// before `self` starts, and its end must be a representable position.
    pub open spec fn precedes(self, last: Span) -> bool {
        self.0 <= last.spec_end() <= usize::MAX
    }

    /// The span from the start of `self` to the end of `last`.
    pub open spec fn spec_combine(self, last: Span) -> Span {
        Span(self.0, (last.spec_end() - self.0) as usize)
    }

    /// Merges `self` followed by `last` into the span that runs from the start
    /// of `self` to the end of `last`. The operands are ordered: this is not a
    /// difference of lengths, and swapping them gives another span.
    pub fn combine(self, last: Span) -> (r: Span)
        requires
            self.precedes(last),
        ensures
            r == self.spec_combine(last),
            r.0 == self.0,
            r.spec_end() == last.spec_end(),
    {
        Span(self.0, last.end() - self.0)
    }
}

/// Anything that covers an extent of source text.
pub trait Spans {
    /// The extent that `span` returns.
    spec fn spec_span(&self) -> Span;

    fn span(&self) -> (r: Span)
        ensures
            r == self.spec_span(),
    ;
}

/// A value together with the extent of text it was read from.
#[derive(Debug)]
pub struct Spanning<T>(pub Span, pub T);

impl<T: Clone> Clone for Spanning<T> {
    fn clone(&self) -> (r: Self)
        ensures
            r.0 == self.0,
            cloned::<T>(self.1, r.1),
    {
        Spanning(self.0, self.1.clone())
    }
}

impl<T: View> View for Spanning<T> {
    type V = Spanning<T::V>;

    open spec fn view(&self) -> Spanning<T::V> {
        Spanning(self.0, self.1@)
    }
}

impl<T> Spans for Spanning<T> {
    open spec fn spec_span(&self) -> Span {
        self.0
    }

    fn span(&self) -> (r: Span) {
        self.0
    }
}

} // verus!
