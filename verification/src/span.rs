//! Source-offset ranges and spanned values.

use vstd::prelude::*;

verus! {

/// An immutable range of byte offsets into one source file.
///
/// Invariant: `start <= end`.
#[derive(Debug, Clone, Copy, PartialEq, Eq, Structural)]
pub struct Span {
    pub start: usize,
    pub end: usize,
}

impl Span {
    /// Well-formedness: the range is not inverted.
    pub open spec fn wf(self) -> bool {
        self.start <= self.end
    }

    /// An empty span at `start`.
    pub fn new(start: usize) -> (r: Span)
        ensures
            r.start == start,
            r.end == start,
            r.wf(),
    {
        Span { start, end: start }
    }

    /// The same span, closed at `end`.
    pub fn end(self, end: usize) -> (r: Span)
        requires
            self.start <= end,
        ensures
            r.start == self.start,
            r.end == end,
            r.wf(),
    {
        Span { start: self.start, end }
    }

    /// The same span, closed `len` bytes after its start.
    pub fn len(self, len: usize) -> (r: Span)
        requires
            self.start + len <= usize::MAX,
        ensures
            r.start == self.start,
            r.end == self.start + len,
            r.wf(),
    {
        Span { start: self.start, end: self.start + len }
    }

    /// The range from this span's start to `other`'s end; `other` must not
    /// begin or end before `self` does.
    pub fn extend(self, other: &Span) -> (r: Span)
        requires
            self.wf(),
            other.wf(),
            self.start <= other.start,
            self.end <= other.end,
        ensures
            r.start == self.start,
            r.end == other.end,
            r.wf(),
    {
        Span { start: self.start, end: other.end }
    }
}

/// A payload of any kind wrapped together with the span it came from.
#[derive(Clone)]
pub struct Sp<T> {
    pub span: Span,
    pub elem: T,
}

/// Wrapping a value with a span.
pub trait Spannable: Sized {
    fn span(self, span: Span) -> (r: Sp<Self>)
        ensures
            r.span == span,
            r.elem == self,
    ;
}

impl<T> Spannable for T {
    fn span(self, span: Span) -> (r: Sp<Self>)
    {
        Sp { span, elem: self }
    }
}

} // verus!
