//! Positions in the source text and the ranges between them.

use vstd::prelude::*;

verus! {

/// A position in the source text, counted in bytes.
pub type BytePos = u32;

/// A range of the source text, from `lo` up to and without `hi`.
#[derive(Clone, Copy, Debug, PartialEq, Eq, Structural)]
pub struct Span {
    pub lo: BytePos,
    pub hi: BytePos,
}

impl Span {
    /// Where the span starts.
    pub fn lo(&self) -> (pos: BytePos)
        ensures
            pos == self.lo,
    {
        self.lo
    }

    /// Where the span ends.
    pub fn hi(&self) -> (pos: BytePos)
        ensures
            pos == self.hi,
    {
        self.hi
    }
}

/// The range between two positions, whichever of them comes first.
pub open spec fn between(a: BytePos, b: BytePos) -> Span {
    if a <= b {
        Span { lo: a, hi: b }
    } else {
        Span { lo: b, hi: a }
    }
}

/// The span between two positions. They may be given in either order.
pub fn mk_sp(lo: BytePos, hi: BytePos) -> (span: Span)
    ensures
        span == between(lo, hi),
{
    if lo <= hi {
        Span { lo, hi }
    } else {
        Span { lo: hi, hi: lo }
    }
}

} // verus!
