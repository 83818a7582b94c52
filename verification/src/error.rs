use vstd::prelude::*;
use crate::span::Span;

verus! {

/// The category of a failure. Every error the crate produces falls under
/// exactly one of these kinds, so contracts can say precisely which inputs
/// produce which failure.
#[derive(Clone, Copy, PartialEq, Eq, Structural, Debug)]
pub enum ErrorKind {
    /// The tree builder received a parse-tree shape it does not recognise;
    /// unreachable for a conforming grammar.
    GrammarShapeMismatch,
    /// Two operators that may not be chained met at equal precedence.
    OperatorChainingError,
    /// An explicit cast between unsupported types.
    TypeCastError,
    /// Incompatible operand types for an arithmetic operator.
    ArithmeticTypeError,
    /// More than one spread marker inside one pattern list.
    PatternSpreadAmbiguity,
    /// A spread identifier outside of a list pattern.
    PatternSpreadMisuse,
    /// A fixed-length pattern met a list of a different length.
    PatternLengthMismatch,
    /// A list pattern met a value that is not a list.
    PatternTypeMismatch,
    /// An identifier that no scope on the stack defines.
    UnknownIdentifier,
    /// A match expression whose clauses all failed to match.
    MatchExhausted,
    /// The call-site span of the running function could not be resolved.
    ArityOrCalleeResolutionError,
    /// The evaluation budget of the context ran out.
    RecursionLimit,
}

/// A failure: a kind, a human-readable message and the span of the source
/// text it concerns. Presentation (line/column rendering) is left to the
/// embedder; the crate only guarantees kind, message and span.
#[derive(Debug)]
pub struct Error {
    pub kind: ErrorKind,
    pub message: String,
    pub span: Span,
}

impl Error {
    pub fn new(kind: ErrorKind, message: String, span: Span) -> (r: Error)
        ensures
            r.kind == kind,
            r.message == message,
            r.span == span,
    {
        Error { kind, message, span }
    }
}

impl Clone for Error {
    fn clone(&self) -> (r: Self)
        ensures
            r == *self,
    {
        Error { kind: self.kind, message: self.message.clone(), span: self.span.clone() }
    }
}

/// An error attributed to the given span.
pub fn custom_error(kind: ErrorKind, span: &Span, message: String) -> (r: Error)
    ensures
        r.kind == kind,
        r.message == message,
        r.span == *span,
{
    Error { kind, message, span: span.clone() }
}

} // verus!
