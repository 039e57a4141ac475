use vstd::prelude::*;

verus! {

/// A half-open range of character positions in the source buffer.  For the
/// ASCII input that C1 is made of, character positions coincide with byte
/// offsets.
#[derive(Clone, PartialEq, Eq, Structural, Default, Copy, Debug)]
pub struct Span {
    pub start: usize,
    pub end: usize,
}

/// The location a token refers to, as a half-open `[begin, end)` range.
#[derive(Clone, PartialEq, Eq, Structural, Default, Copy, Debug)]
pub struct Loc {
    /// Begin of the `Loc` range
    pub begin: u32,

    /// End of the `Loc` range
    pub end: u32,
}

impl Loc {
    /// Converts the location to a range.
    pub fn to_range(&self) -> (r: std::ops::Range<u32>)
        ensures
            r.start == self.begin,
            r.end == self.end,
    {
        self.begin..self.end
    }

    /// Builds a location from a lexer span; positions beyond `u32` are
    /// clamped to `u32::MAX`.
    pub fn from_span(span: &Span) -> (r: Self)
        ensures
            r.begin == if span.start <= u32::MAX as usize { span.start as u32 } else { u32::MAX },
            r.end == if span.end <= u32::MAX as usize { span.end as u32 } else { u32::MAX },
    {
        let begin: u32 = if span.start <= u32::MAX as usize {
            span.start as u32
        } else {
            u32::MAX
        };
        let end: u32 = if span.end <= u32::MAX as usize {
            span.end as u32
        } else {
            u32::MAX
        };
        Loc { begin, end }
    }
}

} // verus!
