use vstd::prelude::*;

verus! {

/// A source excerpt together with its byte offsets in the original input.
/// A span is attached to every syntax-tree node and to every runtime value
/// so that failures can be reported against the source text; it is never
/// changed after it has been created.
#[derive(Debug)]
pub struct Span {
    pub input: String,
    pub start: usize,
    pub end: usize,
}

impl Span {
    pub fn new(input: String, start: usize, end: usize) -> (r: Span)
        ensures
            r.input == input,
            r.start == start,
            r.end == end,
    {
        Span { input, start, end }
    }
}

impl Clone for Span {
    fn clone(&self) -> (r: Self)
        ensures
            r == *self,
    {
        Span { input: self.input.clone(), start: self.start, end: self.end }
    }
}

/// A node of the syntax tree (or a runtime value) tagged with the span of
/// source text it came from. The span serves error reporting only: what a
/// node means is decided by the payload alone, and all structural
/// comparisons in this crate ignore the span.
#[derive(Debug)]
pub struct AstPair<A>(pub Span, pub A);

impl<A> AstPair<A> {
    pub fn from_span(span: &Span, value: A) -> (r: AstPair<A>)
        ensures
            r.0 == *span,
            r.1 == value,
    {
        AstPair(span.clone(), value)
    }

    /// The span of this node.
    pub fn span(&self) -> (r: &Span)
        ensures
            r == &self.0,
    {
        &self.0
    }

    /// The payload of this node.
    pub fn value(&self) -> (r: &A)
        ensures
            r == &self.1,
    {
        &self.1
    }
}

} // verus!
