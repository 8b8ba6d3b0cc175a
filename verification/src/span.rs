use vstd::prelude::*;

verus! {

/// A region of a source file: the file's number and a half-open range of byte offsets.
#[derive(Clone, Copy, Debug, PartialEq, Eq, Structural, Hash)]
pub struct Span {
    pub file: u16,
    pub start: u32,
    pub end: u32,
}

/// A value together with the span of source text it came from.
#[derive(Clone, Copy, Debug)]
pub struct Spanned<T> {
    pub s: Span,
    pub v: T,
}

impl Span {
    pub open spec fn spec_new(file: u16, start: u32, end: u32) -> Span {
        Span { file, start, end }
    }

    pub fn new(file: u16, start: u32, end: u32) -> (s: Span)
        ensures
            s == Span::spec_new(file, start, end),
    {
        Span { file, start, end }
    }

    /// The span that stands for generated code: file 0, the empty range at 0.
    pub open spec fn spec_default() -> Span {
        Span { file: 0, start: 0, end: 0 }
    }

    pub open spec fn spec_join(self, other: Span) -> Span {
        Span {
            file: self.file,
            start: if self.start <= other.start { self.start } else { other.start },
            end: if self.end >= other.end { self.end } else { other.end },
        }
    }

    /// The smallest span of `self`'s file that covers both spans.
    pub fn join(self, other: Span) -> (s: Span)
        ensures
            s == self.spec_join(other),
    {
        let start = if self.start <= other.start { self.start } else { other.start };
        let end = if self.end >= other.end { self.end } else { other.end };
        Span { file: self.file, start, end }
    }
}

impl Default for Span {
    fn default() -> (s: Span)
        ensures
            s == Span::spec_default(),
    {
        Span { file: 0, start: 0, end: 0 }
    }
}

impl<T> Spanned<T> {
    pub fn new(s: Span, v: T) -> (r: Spanned<T>)
        ensures
            r.s == s,
            r.v == v,
    {
        Spanned { s, v }
    }
}

/// Joining is commutative on spans of one file, and a span joined with itself is unchanged.
pub proof fn lemma_join_laws(a: Span, b: Span)
    ensures
        a.file == b.file ==> a.spec_join(b) == b.spec_join(a),
        a.spec_join(a) == a,
        a.spec_join(b).start <= a.start && a.spec_join(b).start <= b.start,
        a.spec_join(b).end >= a.end && a.spec_join(b).end >= b.end,
{
}

} // verus!
