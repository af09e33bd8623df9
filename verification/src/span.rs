//! Byte spans and source locations attached to diagnostics and instructions.

use vstd::prelude::*;

verus! {

/// Identifies a source file within a compile unit.
pub type SourceId = usize;

/// A half-open byte range `[start, end)` within one source.
#[derive(Debug, Clone, Copy, PartialEq, Eq, Structural)]
pub struct Span {
    /// Offset of the first byte covered.
    pub start: usize,
    /// Offset one past the last byte covered.
    pub end: usize,
}

impl Span {
    /// A span is well formed when it does not end before it starts.
    pub open spec fn wf(self) -> bool {
        self.start <= self.end
    }

    /// Construct a span from its bounds.
    pub fn new(start: usize, end: usize) -> (r: Span)
        requires
            start <= end,
        ensures
            r == (Span { start, end }),
            r.wf(),
    {
        Span { start, end }
    }

    /// The empty span at a given offset.
    pub fn point(at: usize) -> (r: Span)
        ensures
            r == (Span { start: at, end: at }),
            r.wf(),
    {
        Span { start: at, end: at }
    }

    /// Number of bytes covered.
    pub fn len(&self) -> (r: usize)
        requires
            self.wf(),
        ensures
            r == self.end - self.start,
    {
        self.end - self.start
    }
}

/// A span paired with the source file it refers to.
#[derive(Debug, Clone, Copy, PartialEq, Eq, Structural)]
pub struct Location {
    /// The source file.
    pub source_id: SourceId,
    /// The span within that source.
    pub span: Span,
}

impl Location {
    /// Construct a location.
    pub fn new(source_id: SourceId, span: Span) -> (r: Location)
        ensures
            r == (Location { source_id, span }),
    {
        Location { source_id, span }
    }
}

} // verus!
