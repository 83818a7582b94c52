use vstd::prelude::*;
use crate::span::Span;

verus! {

/// The category of one node of the raw parse tree that the grammar hands
/// over. The builder consumes nodes of these categories; the grammar
/// itself (tokenising source text into this tree) is outside the crate.
#[derive(Clone, Copy, PartialEq, Eq, Structural, Debug)]
pub enum Rule {
    Program,
    Block,
    Statement,
    ReturnStatement,
    Assignment,
    Expression,
    PredicateExpression,
    UnaryExpression,
    MatchExpression,
    MatchClause,
    BinaryOperator,
    UnaryOperator,
    Integer,
    Float,
    Boolean,
    StringLiteral,
    Identifier,
    FunctionCall,
    FunctionInit,
    ListInit,
    StructDefine,
    EnumDefine,
    ArgumentList,
    ParameterList,
    Assignee,
    PatternItem,
    PatternList,
    DestructureItem,
    DestructureList,
    ValueType,
    UnitType,
    IntegerType,
    FloatType,
    CharType,
    BooleanType,
    FunctionType,
    AnyType,
    TypeType,
    HoleOp,
    SpreadOp,
}

/// One node of the raw parse tree: its rule category, the span of source
/// text it covers (whose excerpt is the matched text), and its child
/// nodes in source order.
#[derive(Debug)]
pub struct ParseNode {
    pub rule: Rule,
    pub span: Span,
    pub children: Vec<ParseNode>,
}

impl ParseNode {
    pub fn new(rule: Rule, span: Span, children: Vec<ParseNode>) -> (r: ParseNode)
        ensures
            r.rule == rule,
            r.span == span,
            r.children == children,
    {
        ParseNode { rule, span, children }
    }

    /// A leaf node: a rule over a stretch of source text, with no
    /// children.
    pub fn leaf(rule: Rule, span: Span) -> (r: ParseNode)
        ensures
            r.rule == rule,
            r.span == span,
            r.children@.len() == 0,
    {
        ParseNode { rule, span, children: Vec::new() }
    }

    /// The matched source text of this node.
    pub fn text(&self) -> (r: &str)
        ensures
            r@ == self.span.input@,
    {
        self.span.input.as_str()
    }
}

} // verus!
