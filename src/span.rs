use vstd::prelude::*;

verus! {

/// A byte range in one source file.
#[derive(Debug, Clone, Copy, PartialEq, Eq, Structural)]
pub struct Span {
    pub file_id: usize,
    pub start: usize,
    pub end: usize,
}

impl Span {
    pub fn new(file_id: usize, start: usize, end: usize) -> (r: Span)
        ensures
            r == (Span { file_id, start, end }),
    {
        Span { file_id, start, end }
    }

    pub open spec fn unknown_span() -> Span {
        Span { file_id: 0, start: 0, end: 0 }
    }

    pub open spec fn to_spec(self, other: Span) -> Span {
        Span { file_id: self.file_id, start: self.start, end: other.end }
    }

    pub open spec fn with_start_spec(self, start: usize) -> Span {
        Span { file_id: self.file_id, start, end: self.end }
    }

    pub open spec fn with_end_spec(self, end: usize) -> Span {
        Span { file_id: self.file_id, start: self.start, end }
    }

    /// The span of something that has no place in the source.
    pub fn unknown() -> (r: Span)
        ensures
            r == Span::unknown_span(),
    {
        Span { file_id: 0, start: 0, end: 0 }
    }

    /// The span from the start of `self` to the end of `other`.
    pub fn to(&self, other: &Span) -> (r: Span)
        ensures
            r == (Span { file_id: self.file_id, start: self.start, end: other.end }),
    {
        Span { file_id: self.file_id, start: self.start, end: other.end }
    }

    pub fn with_start(&self, start: usize) -> (r: Span)
        ensures
            r == (Span { file_id: self.file_id, start, end: self.end }),
    {
        Span { file_id: self.file_id, start, end: self.end }
    }

    pub fn with_end(&self, end: usize) -> (r: Span)
        ensures
            r == (Span { file_id: self.file_id, start: self.start, end }),
    {
        Span { file_id: self.file_id, start: self.start, end }
    }
}

} // verus!
