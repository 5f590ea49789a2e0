//! Byte ranges in the source text.

use vstd::prelude::*;

verus! {

/// A half-open range of byte offsets into the source text.
#[derive(Clone, Copy, Debug, PartialEq, Eq, Structural, Hash)]
pub struct Span {
    pub start: u32,
    pub end: u32,
}

impl Span {
    /// The span between two offsets, given in either order.
    pub open spec fn between(a: u32, b: u32) -> Span {
        if a <= b {
            Span { start: a, end: b }
        } else {
            Span { start: b, end: a }
        }
    }

    /// The span between two offsets; they are reordered where `b < a`.
    pub fn new(a: u32, b: u32) -> (s: Span)
        ensures
            s == Span::between(a, b),
    {
        ordered_span(a, b)
    }

    /// The empty span at one offset.
    pub fn at(offset: u32) -> (s: Span)
        ensures
            s == (Span { start: offset, end: offset }),
    {
        Span { start: offset, end: offset }
    }
}

/// Calls `codespan::Span::new` on the two offsets as `ByteIndex` values and
/// reads the result's ends back. Trusted: `Span::new` keeps the arguments
/// where `start <= end` and swaps them otherwise, so the result always has
/// `start <= end`.
#[verifier::external_body]
fn ordered_span(a: u32, b: u32) -> (s: Span)
    ensures
        s == Span::between(a, b),
{
    let span = codespan::ByteSpan::new(codespan::ByteIndex(a), codespan::ByteIndex(b));
    Span { start: span.start().0, end: span.end().0 }
}

} // verus!
