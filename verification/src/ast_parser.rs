use vstd::prelude::*;
use vstd::string::StringExecFns;
use crate::ast::{
    Assignee, BinaryOperator, Block, DestructureItem, Expression, FunctionCall, FunctionInit,
    Identifier, MatchClause, Operand, PatternItem, Statement, UnaryOperator, ValueType,
};
use crate::error::{custom_error, Error, ErrorKind};
use crate::expression::{
    build_binary_expression, chain_msg, spec_build, spec_build_shape, spec_token_shapes,
    BuildFailure, BuilderToken,
};
use crate::floats::{float_of_str_bits, FloatBits};
use crate::parse_tree::{ParseNode, Rule};
use crate::span::AstPair;
use crate::text::{int_of_str, parse_int_str, unquote_str, unquoted_of};

verus! {

/// The binary operator a stretch of source text spells.
pub open spec fn spec_binary_op_of(s: Seq<char>) -> Option<BinaryOperator> {
    if s == "+"@ {
        Some(BinaryOperator::Add)
    } else if s == "-"@ {
        Some(BinaryOperator::Subtract)
    } else if s == "*"@ {
        Some(BinaryOperator::Multiply)
    } else if s == "/"@ {
        Some(BinaryOperator::Divide)
    } else if s == "^"@ {
        Some(BinaryOperator::Exponent)
    } else if s == "%"@ {
        Some(BinaryOperator::Remainder)
    } else if s == "."@ {
        Some(BinaryOperator::Accessor)
    } else if s == "=="@ {
        Some(BinaryOperator::Equals)
    } else if s == "!="@ {
        Some(BinaryOperator::NotEquals)
    } else if s == ">"@ {
        Some(BinaryOperator::Greater)
    } else if s == ">="@ {
        Some(BinaryOperator::GreaterOrEquals)
    } else if s == "<"@ {
        Some(BinaryOperator::Less)
    } else if s == "<="@ {
        Some(BinaryOperator::LessOrEquals)
    } else if s == "&&"@ {
        Some(BinaryOperator::And)
    } else if s == "||"@ {
        Some(BinaryOperator::Or)
    } else {
        None
    }
}

/// The unary operator a stretch of source text spells.
pub open spec fn spec_unary_op_of(s: Seq<char>) -> Option<UnaryOperator> {
    if s == "+"@ {
        Some(UnaryOperator::Plus)
    } else if s == "-"@ {
        Some(UnaryOperator::Minus)
    } else if s == "!"@ {
        Some(UnaryOperator::Not)
    } else if s == ".."@ {
        Some(UnaryOperator::Spread)
    } else {
        None
    }
}

/// The type tag a parse-tree rule denotes.
pub open spec fn spec_value_type_of(r: Rule) -> Option<ValueType> {
    match r {
        Rule::UnitType => Some(ValueType::Unit),
        Rule::IntegerType => Some(ValueType::Integer),
        Rule::FloatType => Some(ValueType::Float),
        Rule::CharType => Some(ValueType::Char),
        Rule::BooleanType => Some(ValueType::Boolean),
        Rule::FunctionType => Some(ValueType::Function),
        Rule::AnyType => Some(ValueType::Any),
        Rule::TypeType => Some(ValueType::Type),
        _ => None,
    }
}

/// Reads the binary operator a stretch of source text spells.
fn binary_op_of(s: &str) -> (r: Option<BinaryOperator>)
    ensures
        r == spec_binary_op_of(s@),
{
    let t = String::from_str(s);
    if t == String::from_str("+") {
        Some(BinaryOperator::Add)
    } else if t == String::from_str("-") {
        Some(BinaryOperator::Subtract)
    } else if t == String::from_str("*") {
        Some(BinaryOperator::Multiply)
    } else if t == String::from_str("/") {
        Some(BinaryOperator::Divide)
    } else if t == String::from_str("^") {
        Some(BinaryOperator::Exponent)
    } else if t == String::from_str("%") {
        Some(BinaryOperator::Remainder)
    } else if t == String::from_str(".") {
        Some(BinaryOperator::Accessor)
    } else if t == String::from_str("==") {
        Some(BinaryOperator::Equals)
    } else if t == String::from_str("!=") {
        Some(BinaryOperator::NotEquals)
    } else if t == String::from_str(">") {
        Some(BinaryOperator::Greater)
    } else if t == String::from_str(">=") {
        Some(BinaryOperator::GreaterOrEquals)
    } else if t == String::from_str("<") {
        Some(BinaryOperator::Less)
    } else if t == String::from_str("<=") {
        Some(BinaryOperator::LessOrEquals)
    } else if t == String::from_str("&&") {
        Some(BinaryOperator::And)
    } else if t == String::from_str("||") {
        Some(BinaryOperator::Or)
    } else {
        None
    }
}

/// Reads the unary operator a stretch of source text spells.
fn unary_op_of(s: &str) -> (r: Option<UnaryOperator>)
    ensures
        r == spec_unary_op_of(s@),
{
    let t = String::from_str(s);
    if t == String::from_str("+") {
        Some(UnaryOperator::Plus)
    } else if t == String::from_str("-") {
        Some(UnaryOperator::Minus)
    } else if t == String::from_str("!") {
        Some(UnaryOperator::Not)
    } else if t == String::from_str("..") {
        Some(UnaryOperator::Spread)
    } else {
        None
    }
}

/// How a walk over the parse tree fails: a shape the builder does not
/// recognise, or two non-associative operators chained at equal
/// precedence (which also fixes the failure message).
pub enum ParseFailure {
    Shape,
    Chained(BinaryOperator, BinaryOperator),
}

/// Whether a whole source file parses, and with which failure.
pub open spec fn spec_check_file(node: ParseNode) -> Result<(), ParseFailure>
    decreases node, 6int,
{
    if node.rule == Rule::Program {
        if node.children@.len() >= 1 {
            spec_check_block(node.children@[0])
        } else {
            Err(ParseFailure::Shape)
        }
    } else {
        Err(ParseFailure::Shape)
    }
}

/// Whether a block node (or a bare expression node) parses.
pub open spec fn spec_check_block(node: ParseNode) -> Result<(), ParseFailure>
    decreases node, 5int,
{
    if node.rule == Rule::Block {
        spec_check_statements(node.children@)
    } else if node.rule == Rule::Expression {
        spec_check_expression(node)
    } else {
        Err(ParseFailure::Shape)
    }
}

/// Whether every node of a run parses as a statement.
pub open spec fn spec_check_statements(s: Seq<ParseNode>) -> Result<(), ParseFailure>
    decreases s, 0int,
{
    if s.len() == 0 {
        Ok(())
    } else {
        match spec_check_statement(s[0]) {
            Err(f) => Err(f),
            Ok(_) => spec_check_statements(s.drop_first()),
        }
    }
}

/// Whether a statement node parses.
pub open spec fn spec_check_statement(node: ParseNode) -> Result<(), ParseFailure>
    decreases node, 5int,
{
    if node.rule == Rule::ReturnStatement {
        if node.children@.len() == 0 {
            Ok(())
        } else {
            spec_check_expression(node.children@[0])
        }
    } else if node.rule == Rule::Assignment {
        if node.children@.len() < 2 {
            Err(ParseFailure::Shape)
        } else {
            match spec_check_assignee(node.children@[0]) {
                Err(f) => Err(f),
                Ok(_) => spec_check_expression(node.children@[1]),
            }
        }
    } else if node.rule == Rule::Expression {
        spec_check_expression(node)
    } else {
        Err(ParseFailure::Shape)
    }
}

/// Whether an expression node parses.
pub open spec fn spec_check_expression(node: ParseNode) -> Result<(), ParseFailure>
    decreases node, 4int,
{
    if node.rule == Rule::Expression || node.rule == Rule::PredicateExpression {
        if node.children@.len() == 1 {
            spec_check_expression(node.children@[0])
        } else {
            spec_check_complex(node)
        }
    } else if node.rule == Rule::UnaryExpression {
        if node.children@.len() < 2 {
            Err(ParseFailure::Shape)
        } else if !(node.children@[0].rule == Rule::UnaryOperator && spec_unary_op_of(
            node.children@[0].span.input@,
        ) is Some) {
            Err(ParseFailure::Shape)
        } else {
            spec_check_expression(node.children@[1])
        }
    } else if node.rule == Rule::MatchExpression {
        if node.children@.len() < 1 {
            Err(ParseFailure::Shape)
        } else {
            match spec_check_expression(node.children@[0]) {
                Err(f) => Err(f),
                Ok(_) => spec_check_clauses(node.children@.skip(1)),
            }
        }
    } else {
        spec_check_operand(node)
    }
}

/// Whether every node of a run parses as a match clause.
pub open spec fn spec_check_clauses(s: Seq<ParseNode>) -> Result<(), ParseFailure>
    decreases s, 0int,
{
    if s.len() == 0 {
        Ok(())
    } else {
        match spec_check_clause(s[0]) {
            Err(f) => Err(f),
            Ok(_) => spec_check_clauses(s.drop_first()),
        }
    }
}

/// Whether a match-clause node parses.
pub open spec fn spec_check_clause(node: ParseNode) -> Result<(), ParseFailure>
    decreases node, 4int,
{
    if node.rule != Rule::MatchClause {
        Err(ParseFailure::Shape)
    } else if node.children@.len() < 2 {
        Err(ParseFailure::Shape)
    } else {
        match spec_check_pattern(node.children@[0]) {
            Err(f) => Err(f),
            Ok(_) => spec_check_block(node.children@[1]),
        }
    }
}

/// Whether the children of a complex expression node read as a run of
/// operands and operators.
pub open spec fn spec_check_tokens(s: Seq<ParseNode>) -> Result<(), ParseFailure>
    decreases s, 0int,
{
    if s.len() == 0 {
        Ok(())
    } else if s[0].rule == Rule::BinaryOperator {
        if spec_binary_op_of(s[0].span.input@) is Some {
            spec_check_tokens(s.drop_first())
        } else {
            Err(ParseFailure::Shape)
        }
    } else {
        match spec_check_expression(s[0]) {
            Err(f) => Err(f),
            Ok(_) => spec_check_tokens(s.drop_first()),
        }
    }
}

/// The shape of the token run the children of a complex expression node
/// denote: the operator of each operator node, a marker for the rest.
pub open spec fn spec_node_shapes(s: Seq<ParseNode>) -> Seq<Option<BinaryOperator>> {
    Seq::new(
        s.len(),
        |i: int|
            if s[i].rule == Rule::BinaryOperator {
                spec_binary_op_of(s[i].span.input@)
            } else {
                None
            },
    )
}

/// Whether a run of operands and operators parses and builds: its tokens
/// must each parse, and the build over their shape must go through.
pub open spec fn spec_check_complex(node: ParseNode) -> Result<(), ParseFailure>
    decreases node, 3int,
{
    match spec_check_tokens(node.children@) {
        Err(f) => Err(f),
        Ok(_) => match spec_build_shape(spec_node_shapes(node.children@)) {
            Ok(_) => Ok(()),
            Err(BuildFailure::Chained(a, b)) => Err(ParseFailure::Chained(a, b)),
            Err(BuildFailure::Malformed) => Err(ParseFailure::Shape),
        },
    }
}

/// Whether a node reads as a function call: an identifier child and an
/// argument list whose expressions all parse.
pub open spec fn spec_check_call_node(node: ParseNode) -> Result<(), ParseFailure>
    decreases node, 2int,
{
    if node.children@.len() < 2 {
        Err(ParseFailure::Shape)
    } else if node.children@[0].rule != Rule::Identifier {
        Err(ParseFailure::Shape)
    } else {
        spec_check_arg_list(node.children@[1])
    }
}

/// Whether a node reads as a list literal: every child an expression
/// that parses.
pub open spec fn spec_check_list_node(node: ParseNode) -> Result<(), ParseFailure>
    decreases node, 2int,
{
    spec_check_expressions(node.children@)
}

/// Whether a node reads as a function literal: a parameter list of
/// assignment targets and a body block.
pub open spec fn spec_check_init_node(node: ParseNode) -> Result<(), ParseFailure>
    decreases node, 2int,
{
    if node.children@.len() < 2 {
        Err(ParseFailure::Shape)
    } else if node.children@[0].rule != Rule::ParameterList {
        Err(ParseFailure::Shape)
    } else {
        match spec_check_assignees(node.children@[0].children@) {
            Err(f) => Err(f),
            Ok(_) => spec_check_block(node.children@[1]),
        }
    }
}

/// Whether an operand node parses.
pub open spec fn spec_check_operand(node: ParseNode) -> Result<(), ParseFailure>
    decreases node, 3int,
{
    match node.rule {
        Rule::Integer => if int_of_str(node.span.input@) is Some {
            Ok(())
        } else {
            Err(ParseFailure::Shape)
        },
        Rule::Float => if float_of_str_bits(node.span.input@) is Some {
            Ok(())
        } else {
            Err(ParseFailure::Shape)
        },
        Rule::StringLiteral => if unquoted_of(node.span.input@) is Some {
            Ok(())
        } else {
            Err(ParseFailure::Shape)
        },
        Rule::Boolean => if node.span.input@ == "True"@ || node.span.input@ == "False"@ {
            Ok(())
        } else {
            Err(ParseFailure::Shape)
        },
        Rule::HoleOp => Ok(()),
        Rule::Identifier => Ok(()),
        Rule::ValueType => if node.children@.len() > 0 && spec_value_type_of(
            node.children@[0].rule,
        ) is Some {
            Ok(())
        } else {
            Err(ParseFailure::Shape)
        },
        Rule::FunctionCall => spec_check_call_node(node),
        Rule::FunctionInit => spec_check_init_node(node),
        Rule::ListInit => spec_check_list_node(node),
        Rule::StructDefine => spec_check_identifiers(node.children@),
        Rule::EnumDefine => spec_check_identifiers(node.children@),
        _ => Err(ParseFailure::Shape),
    }
}

/// Whether an argument-list node parses.
pub open spec fn spec_check_arg_list(node: ParseNode) -> Result<(), ParseFailure>
    decreases node, 2int,
{
    if node.rule == Rule::ArgumentList || node.rule == Rule::ParameterList {
        spec_check_expressions(node.children@)
    } else {
        Err(ParseFailure::Shape)
    }
}

/// Whether every node of a run parses as an expression.
pub open spec fn spec_check_expressions(s: Seq<ParseNode>) -> Result<(), ParseFailure>
    decreases s, 0int,
{
    if s.len() == 0 {
        Ok(())
    } else {
        match spec_check_expression(s[0]) {
            Err(f) => Err(f),
            Ok(_) => spec_check_expressions(s.drop_first()),
        }
    }
}

/// Whether every node of a run is an identifier node.
pub open spec fn spec_check_identifiers(s: Seq<ParseNode>) -> Result<(), ParseFailure> {
    if forall|i: int| 0 <= i < s.len() ==> (#[trigger] s[i]).rule == Rule::Identifier {
        Ok(())
    } else {
        Err(ParseFailure::Shape)
    }
}

/// Whether every node of a run parses as an assignment target.
pub open spec fn spec_check_assignees(s: Seq<ParseNode>) -> Result<(), ParseFailure>
    decreases s, 0int,
{
    if s.len() == 0 {
        Ok(())
    } else {
        match spec_check_assignee(s[0]) {
            Err(f) => Err(f),
            Ok(_) => spec_check_assignees(s.drop_first()),
        }
    }
}

/// Whether an assignee node parses.
pub open spec fn spec_check_assignee(node: ParseNode) -> Result<(), ParseFailure>
    decreases node, 2int,
{
    if node.rule != Rule::Assignee || node.children@.len() == 0 {
        Err(ParseFailure::Shape)
    } else {
        let ch = node.children@[0];
        if ch.rule == Rule::Identifier {
            Ok(())
        } else if ch.rule == Rule::HoleOp {
            Ok(())
        } else if ch.rule == Rule::DestructureList {
            spec_check_destructures(ch.children@)
        } else {
            Err(ParseFailure::Shape)
        }
    }
}

/// Whether every node of a run parses as a destructuring element.
pub open spec fn spec_check_destructures(s: Seq<ParseNode>) -> Result<(), ParseFailure>
    decreases s, 0int,
{
    if s.len() == 0 {
        Ok(())
    } else {
        match spec_check_destructure(s[0]) {
            Err(f) => Err(f),
            Ok(_) => spec_check_destructures(s.drop_first()),
        }
    }
}

/// Whether a destructuring-element node parses.
pub open spec fn spec_check_destructure(node: ParseNode) -> Result<(), ParseFailure>
    decreases node, 2int,
{
    if node.rule != Rule::DestructureItem || node.children@.len() == 0 {
        Err(ParseFailure::Shape)
    } else {
        let first = node.children@[0];
        if first.rule == Rule::HoleOp {
            Ok(())
        } else if first.rule == Rule::SpreadOp {
            if node.children@.len() >= 2 && node.children@[1].rule == Rule::Identifier {
                Ok(())
            } else {
                Err(ParseFailure::Shape)
            }
        } else if first.rule == Rule::Identifier {
            Ok(())
        } else if first.rule == Rule::DestructureList {
            spec_check_destructures(first.children@)
        } else {
            Err(ParseFailure::Shape)
        }
    }
}

/// Whether every node of a run parses as a pattern.
pub open spec fn spec_check_patterns(s: Seq<ParseNode>) -> Result<(), ParseFailure>
    decreases s, 0int,
{
    if s.len() == 0 {
        Ok(())
    } else {
        match spec_check_pattern(s[0]) {
            Err(f) => Err(f),
            Ok(_) => spec_check_patterns(s.drop_first()),
        }
    }
}

/// Whether a pattern node parses.
pub open spec fn spec_check_pattern(node: ParseNode) -> Result<(), ParseFailure>
    decreases node, 3int,
{
    if node.rule != Rule::PatternItem || node.children@.len() == 0 {
        Err(ParseFailure::Shape)
    } else {
        let first = node.children@[0];
        if first.rule == Rule::HoleOp {
            Ok(())
        } else if first.rule == Rule::Integer {
            if int_of_str(first.span.input@) is Some {
                Ok(())
            } else {
                Err(ParseFailure::Shape)
            }
        } else if first.rule == Rule::Float {
            if float_of_str_bits(first.span.input@) is Some {
                Ok(())
            } else {
                Err(ParseFailure::Shape)
            }
        } else if first.rule == Rule::Boolean {
            if first.span.input@ == "True"@ || first.span.input@ == "False"@ {
                Ok(())
            } else {
                Err(ParseFailure::Shape)
            }
        } else if first.rule == Rule::StringLiteral {
            if unquoted_of(first.span.input@) is Some {
                Ok(())
            } else {
                Err(ParseFailure::Shape)
            }
        } else if first.rule == Rule::SpreadOp {
            if node.children@.len() >= 2 && node.children@[1].rule == Rule::Identifier {
                Ok(())
            } else {
                Err(ParseFailure::Shape)
            }
        } else if first.rule == Rule::Identifier {
            Ok(())
        } else if first.rule == Rule::PatternList {
            spec_check_patterns(first.children@)
        } else {
            Err(ParseFailure::Shape)
        }
    }
}

/// The built block is the one the block (or bare expression) node
/// denotes: the spans and the statement payloads are all fixed by the
/// node.
pub open spec fn parses_to_block(node: ParseNode, b: AstPair<Block>) -> bool
    decreases node, 5int,
{
    if node.rule == Rule::Block {
        &&& b.0 == node.span
        &&& b.1.statements@.len() == node.children@.len()
        &&& forall|i: int|
            0 <= i < node.children@.len() ==> parses_to_statement(
                #[trigger] node.children@[i],
                b.1.statements@[i],
            )
    } else if node.rule == Rule::Expression {
        &&& b.0 == node.span
        &&& b.1.statements@.len() == 1
        &&& match b.1.statements@[0].1 {
            Statement::Expression(e) => b.1.statements@[0].0 == e.0 && parses_to_expression(
                node,
                e,
            ),
            _ => false,
        }
    } else {
        false
    }
}

/// The built statement is the one the statement node denotes.
pub open spec fn parses_to_statement(node: ParseNode, st: AstPair<Statement>) -> bool
    decreases node, 5int,
{
    if node.rule == Rule::ReturnStatement {
        &&& st.0 == node.span
        &&& if node.children@.len() == 0 {
            match st.1 {
                Statement::Return(o) => o is None,
                _ => false,
            }
        } else {
            match st.1 {
                Statement::Return(o) => o is Some && parses_to_expression(
                    node.children@[0],
                    o.unwrap(),
                ),
                _ => false,
            }
        }
    } else if node.rule == Rule::Assignment {
        &&& st.0 == node.span
        &&& node.children@.len() >= 2
        &&& match st.1 {
            Statement::Assignment { assignee, expression } => parses_to_assignee(
                node.children@[0],
                assignee,
            ) && parses_to_expression(node.children@[1], expression),
            _ => false,
        }
    } else if node.rule == Rule::Expression {
        &&& st.0 == node.span
        &&& match st.1 {
            Statement::Expression(e) => parses_to_expression(node, e),
            _ => false,
        }
    } else {
        false
    }
}

/// The built expression is the one the expression node denotes.
pub open spec fn parses_to_expression(node: ParseNode, e: AstPair<Expression>) -> bool
    decreases node, 4int,
{
    if node.rule == Rule::Expression || node.rule == Rule::PredicateExpression {
        if node.children@.len() == 1 {
            parses_to_expression(node.children@[0], e)
        } else {
            parses_to_complex(node, e)
        }
    } else if node.rule == Rule::UnaryExpression {
        &&& e.0 == node.span
        &&& node.children@.len() >= 2
        &&& node.children@[0].rule == Rule::UnaryOperator
        &&& match e.1 {
            Expression::Unary { operator, operand } => {
                &&& (*operator).0 == node.children@[0].span
                &&& Some((*operator).1) == spec_unary_op_of(node.children@[0].span.input@)
                &&& parses_to_expression(node.children@[1], *operand)
            },
            _ => false,
        }
    } else if node.rule == Rule::MatchExpression {
        &&& e.0 == node.span
        &&& node.children@.len() >= 1
        &&& match e.1 {
            Expression::MatchExpression { condition, match_clauses } => {
                &&& parses_to_expression(node.children@[0], *condition)
                &&& match_clauses@.len() == node.children@.len() - 1
                &&& forall|i: int|
                    0 <= i < match_clauses@.len() ==> parses_to_clause(
                        #[trigger] node.children@[i + 1],
                        match_clauses@[i],
                    )
            },
            _ => false,
        }
    } else {
        &&& e.0 == node.span
        &&& match e.1 {
            Expression::Operand(op) => parses_to_operand(node, *op),
            _ => false,
        }
    }
}

/// One builder token is the one a child of a complex expression node
/// denotes: the operator it spells for an operator node, the parsed
/// operand expression otherwise.
pub open spec fn token_parses_to(node: ParseNode, tok: BuilderToken) -> bool
    decreases node, 5int,
{
    match tok {
        BuilderToken::Operator(o) => {
            &&& node.rule == Rule::BinaryOperator
            &&& o.0 == node.span
            &&& Some(o.1) == spec_binary_op_of(node.span.input@)
        },
        BuilderToken::Operand(ex) => {
            &&& node.rule != Rule::BinaryOperator
            &&& parses_to_expression(node, ex)
        },
    }
}

/// The built expression is what the precedence builder makes of the token
/// run the node's children denote.
pub open spec fn parses_to_complex(node: ParseNode, e: AstPair<Expression>) -> bool
    decreases node, 3int,
{
    exists|tokens: Seq<BuilderToken>|
        {
            &&& tokens.len() == node.children@.len()
            &&& forall|i: int|
                0 <= i < tokens.len() ==> token_parses_to(node.children@[i], #[trigger] tokens[i])
            &&& #[trigger] spec_build(tokens) == Ok::<AstPair<Expression>, BuildFailure>(e)
        }
}

/// The built match clause is the one the clause node denotes.
pub open spec fn parses_to_clause(node: ParseNode, c: AstPair<MatchClause>) -> bool
    decreases node, 4int,
{
    &&& node.rule == Rule::MatchClause
    &&& node.children@.len() >= 2
    &&& c.0 == node.span
    &&& parses_to_pattern(node.children@[0], c.1.pattern)
    &&& parses_to_block(node.children@[1], c.1.block)
}

/// The built operand is the function call the node's children denote.
pub open spec fn call_node_parses_to(node: ParseNode, op: AstPair<Operand>) -> bool
    decreases node, 2int,
{
    &&& op.0 == node.span
    &&& match op.1 {
        Operand::FunctionCall(fc) => {
            &&& node.children@.len() >= 2
            &&& node.children@[0].rule == Rule::Identifier
            &&& fc.identifier.0 == node.children@[0].span
            &&& fc.identifier.1.0@ == node.children@[0].span.input@
            &&& fc.arguments@.len() == node.children@[1].children@.len()
            &&& forall|i: int|
                0 <= i < fc.arguments@.len() ==> parses_to_expression(
                    #[trigger] node.children@[1].children@[i],
                    fc.arguments@[i],
                )
        },
        _ => false,
    }
}

/// The built operand is the function literal the node's children denote.
pub open spec fn init_node_parses_to(node: ParseNode, op: AstPair<Operand>) -> bool
    decreases node, 2int,
{
    &&& op.0 == node.span
    &&& match op.1 {
        Operand::FunctionInit(f) => {
            &&& node.children@.len() >= 2
            &&& node.children@[0].rule == Rule::ParameterList
            &&& f.parameters@.len() == node.children@[0].children@.len()
            &&& forall|i: int|
                0 <= i < f.parameters@.len() ==> parses_to_assignee(
                    #[trigger] node.children@[0].children@[i],
                    f.parameters@[i],
                )
            &&& parses_to_block(node.children@[1], f.block)
        },
        _ => false,
    }
}

/// The built operand is the list literal the node's children denote.
pub open spec fn list_node_parses_to(node: ParseNode, op: AstPair<Operand>) -> bool
    decreases node, 2int,
{
    &&& op.0 == node.span
    &&& match op.1 {
        Operand::ListInit { items } => {
            &&& items@.len() == node.children@.len()
            &&& forall|i: int|
                0 <= i < items@.len() ==> parses_to_expression(
                    #[trigger] node.children@[i],
                    items@[i],
                )
        },
        _ => false,
    }
}

/// The built operand is the one the operand node denotes.
pub open spec fn parses_to_operand(node: ParseNode, op: AstPair<Operand>) -> bool
    decreases node, 3int,
{
    &&& op.0 == node.span
    &&& match node.rule {
        Rule::Integer => match op.1 {
            Operand::Integer(n) => int_of_str(node.span.input@) == Some(n),
            _ => false,
        },
        Rule::Float => match op.1 {
            Operand::Float(fb) => float_of_str_bits(node.span.input@) == Some(fb.bits),
            _ => false,
        },
        Rule::StringLiteral => match op.1 {
            Operand::String(st) => unquoted_of(node.span.input@) == Some(st@),
            _ => false,
        },
        Rule::Boolean => match op.1 {
            Operand::Boolean(b) => (b && node.span.input@ == "True"@) || (!b && node.span.input@
                == "False"@),
            _ => false,
        },
        Rule::HoleOp => op.1 is Hole,
        Rule::Identifier => match op.1 {
            Operand::Identifier(id) => id.0 == node.span && id.1.0@ == node.span.input@,
            _ => false,
        },
        Rule::ValueType => match op.1 {
            Operand::ValueType(vt) => node.children@.len() > 0 && spec_value_type_of(
                node.children@[0].rule,
            ) == Some(vt),
            _ => false,
        },
        Rule::FunctionCall => call_node_parses_to(node, op),
        Rule::FunctionInit => init_node_parses_to(node, op),
        Rule::ListInit => list_node_parses_to(node, op),
        Rule::StructDefine => match op.1 {
            Operand::StructDefinition { fields } => idents_parse_to(node.children@, fields@),
            _ => false,
        },
        Rule::EnumDefine => match op.1 {
            Operand::EnumDefinition { values } => idents_parse_to(node.children@, values@),
            _ => false,
        },
        _ => false,
    }
}

/// The built identifiers are the ones the identifier nodes denote.
pub open spec fn idents_parse_to(s: Seq<ParseNode>, ids: Seq<AstPair<Identifier>>) -> bool {
    &&& ids.len() == s.len()
    &&& forall|i: int|
        0 <= i < s.len() ==> (#[trigger] s[i]).rule == Rule::Identifier && ids[i].0 == s[i].span
            && ids[i].1.0@ == s[i].span.input@
}

/// The built assignment target is the one the assignee node denotes.
pub open spec fn parses_to_assignee(node: ParseNode, a: AstPair<Assignee>) -> bool
    decreases node, 2int,
{
    &&& node.rule == Rule::Assignee
    &&& node.children@.len() > 0
    &&& a.0 == node.span
    &&& {
        let ch = node.children@[0];
        if ch.rule == Rule::Identifier {
            match a.1 {
                Assignee::Identifier(id) => id.0 == ch.span && id.1.0@ == ch.span.input@,
                _ => false,
            }
        } else if ch.rule == Rule::HoleOp {
            a.1 is Hole
        } else if ch.rule == Rule::DestructureList {
            match a.1 {
                Assignee::DestructureList(items) => {
                    &&& items@.len() == ch.children@.len()
                    &&& forall|i: int|
                        0 <= i < items@.len() ==> parses_to_destructure(
                            #[trigger] ch.children@[i],
                            items@[i],
                        )
                },
                _ => false,
            }
        } else {
            false
        }
    }
}

/// The built destructuring element is the one the node denotes.
pub open spec fn parses_to_destructure(node: ParseNode, d: AstPair<DestructureItem>) -> bool
    decreases node, 2int,
{
    &&& node.rule == Rule::DestructureItem
    &&& node.children@.len() > 0
    &&& d.0 == node.span
    &&& {
        let first = node.children@[0];
        if first.rule == Rule::HoleOp {
            d.1 is Hole
        } else if first.rule == Rule::SpreadOp {
            &&& node.children@.len() >= 2
            &&& node.children@[1].rule == Rule::Identifier
            &&& match d.1 {
                DestructureItem::Identifier { identifier, spread } => spread && identifier.0
                    == node.children@[1].span && identifier.1.0@
                    == node.children@[1].span.input@,
                _ => false,
            }
        } else if first.rule == Rule::Identifier {
            match d.1 {
                DestructureItem::Identifier { identifier, spread } => !spread && identifier.0
                    == first.span && identifier.1.0@ == first.span.input@,
                _ => false,
            }
        } else if first.rule == Rule::DestructureList {
            match d.1 {
                DestructureItem::List(items) => {
                    &&& items@.len() == first.children@.len()
                    &&& forall|i: int|
                        0 <= i < items@.len() ==> parses_to_destructure(
                            #[trigger] first.children@[i],
                            items@[i],
                        )
                },
                _ => false,
            }
        } else {
            false
        }
    }
}

/// The built pattern is the one the pattern node denotes.
pub open spec fn parses_to_pattern(node: ParseNode, p: AstPair<PatternItem>) -> bool
    decreases node, 3int,
{
    &&& node.rule == Rule::PatternItem
    &&& node.children@.len() > 0
    &&& p.0 == node.span
    &&& {
        let first = node.children@[0];
        if first.rule == Rule::HoleOp {
            p.1 is Hole
        } else if first.rule == Rule::Integer {
            match p.1 {
                PatternItem::Integer(n) => int_of_str(first.span.input@) == Some(n),
                _ => false,
            }
        } else if first.rule == Rule::Float {
            match p.1 {
                PatternItem::Float(fb) => float_of_str_bits(first.span.input@) == Some(fb.bits),
                _ => false,
            }
        } else if first.rule == Rule::Boolean {
            match p.1 {
                PatternItem::Boolean(b) => (b && first.span.input@ == "True"@) || (!b
                    && first.span.input@ == "False"@),
                _ => false,
            }
        } else if first.rule == Rule::StringLiteral {
            match p.1 {
                PatternItem::String(st) => unquoted_of(first.span.input@) == Some(st@),
                _ => false,
            }
        } else if first.rule == Rule::SpreadOp {
            &&& node.children@.len() >= 2
            &&& node.children@[1].rule == Rule::Identifier
            &&& match p.1 {
                PatternItem::Identifier { identifier, spread } => spread && identifier.0
                    == node.children@[1].span && identifier.1.0@
                    == node.children@[1].span.input@,
                _ => false,
            }
        } else if first.rule == Rule::Identifier {
            match p.1 {
                PatternItem::Identifier { identifier, spread } => !spread && identifier.0
                    == first.span && identifier.1.0@ == first.span.input@,
                _ => false,
            }
        } else if first.rule == Rule::PatternList {
            match p.1 {
                PatternItem::PatternList(items) => {
                    &&& items@.len() == first.children@.len()
                    &&& forall|i: int|
                        0 <= i < items@.len() ==> parses_to_pattern(
                            #[trigger] first.children@[i],
                            items@[i],
                        )
                },
                _ => false,
            }
        } else {
            false
        }
    }
}

/// Builds the syntax tree of a whole source file from its parse tree: a
/// program node holding one block.
pub fn parse_file(node: &ParseNode) -> (r: Result<AstPair<Block>, Error>)
    ensures
        match spec_check_file(*node) {
            Ok(u) => r is Ok && node.children@.len() >= 1 && parses_to_block(node.children@[0], r.unwrap()),
            Err(pf) => r is Err && (match pf {
                ParseFailure::Shape => r.unwrap_err().kind == ErrorKind::GrammarShapeMismatch,
                ParseFailure::Chained(a, b) => r.unwrap_err().kind
                    == ErrorKind::OperatorChainingError && r.unwrap_err().message@ == chain_msg(
                    a,
                    b,
                ),
            }),
        },
    decreases *node,
{
    if node.rule == Rule::Program {
        if node.children.len() >= 1 {
            parse_block(&node.children[0])
        } else {
            Err(
                custom_error(
                    ErrorKind::GrammarShapeMismatch,
                    &node.span,
                    String::from_str("expected a block under the program"),
                ),
            )
        }
    } else {
        Err(
            custom_error(
                ErrorKind::GrammarShapeMismatch,
                &node.span,
                String::from_str("expected program"),
            ),
        )
    }
}

/// Builds a block from a block node, or from a bare expression node: a
/// source file holding one expression is sugar for a single-statement
/// block.
#[verifier::loop_isolation(false)]
pub fn parse_block(node: &ParseNode) -> (r: Result<AstPair<Block>, Error>)
    ensures
        match spec_check_block(*node) {
            Ok(u) => r is Ok && parses_to_block(*node, r.unwrap()),
            Err(pf) => r is Err && (match pf {
                ParseFailure::Shape => r.unwrap_err().kind == ErrorKind::GrammarShapeMismatch,
                ParseFailure::Chained(a, b) => r.unwrap_err().kind
                    == ErrorKind::OperatorChainingError && r.unwrap_err().message@ == chain_msg(
                    a,
                    b,
                ),
            }),
        },
    decreases *node, 5int,
{
    if node.rule == Rule::Block {
        let n: usize = node.children.len();
        let mut statements: Vec<AstPair<Statement>> = Vec::new();
        let mut i: usize = 0;
        proof {
            assert(node.children@.skip(0) =~= node.children@);
        }
        while i < n
            invariant
                i <= n,
                statements@.len() == i,
                forall|j: int|
                    0 <= j < i ==> parses_to_statement(
                        #[trigger] node.children@[j],
                        statements@[j],
                    ),
                spec_check_statements(node.children@) == spec_check_statements(
                    node.children@.skip(i as int),
                ),
            decreases n - i,
        {
            proof {
                assert(node.children@.skip(i as int)[0] == node.children@[i as int]);
                assert(node.children@.skip(i as int).drop_first() =~= node.children@.skip(i + 1));
            }
            match parse_statement(&node.children[i]) {
                Ok(st) => {
                    statements.push(st);
                },
                Err(e) => {
                    return Err(e);
                },
            }
            i = i + 1;
        }
        proof {
            assert(node.children@.skip(n as int) =~= Seq::<ParseNode>::empty());
        }
        Ok(AstPair::from_span(&node.span, Block { statements }))
    } else if node.rule == Rule::Expression {
        match parse_expression(node) {
            Ok(expression) => {
                let sp = expression.0.clone();
                let mut statements: Vec<AstPair<Statement>> = Vec::new();
                statements.push(AstPair::from_span(&sp, Statement::Expression(expression)));
                Ok(AstPair::from_span(&node.span, Block { statements }))
            },
            Err(e) => Err(e),
        }
    } else {
        Err(
            custom_error(
                ErrorKind::GrammarShapeMismatch,
                &node.span,
                String::from_str("expected a block or an expression"),
            ),
        )
    }
}

/// Builds one statement: a return, an assignment, or a bare expression.
pub fn parse_statement(node: &ParseNode) -> (r: Result<AstPair<Statement>, Error>)
    ensures
        match spec_check_statement(*node) {
            Ok(u) => r is Ok && parses_to_statement(*node, r.unwrap()),
            Err(pf) => r is Err && (match pf {
                ParseFailure::Shape => r.unwrap_err().kind == ErrorKind::GrammarShapeMismatch,
                ParseFailure::Chained(a, b) => r.unwrap_err().kind
                    == ErrorKind::OperatorChainingError && r.unwrap_err().message@ == chain_msg(
                    a,
                    b,
                ),
            }),
        },
    decreases *node, 5int,
{
    if node.rule == Rule::ReturnStatement {
        if node.children.len() == 0 {
            Ok(AstPair::from_span(&node.span, Statement::Return(None)))
        } else {
            match parse_expression(&node.children[0]) {
                Ok(e) => Ok(AstPair::from_span(&node.span, Statement::Return(Some(e)))),
                Err(e) => Err(e),
            }
        }
    } else if node.rule == Rule::Assignment {
        if node.children.len() < 2 {
            return Err(
                custom_error(
                    ErrorKind::GrammarShapeMismatch,
                    &node.span,
                    String::from_str("expected an assignee and an expression"),
                ),
            );
        }
        let assignee = match parse_assignee(&node.children[0]) {
            Ok(a) => a,
            Err(e) => {
                return Err(e);
            },
        };
        let expression = match parse_expression(&node.children[1]) {
            Ok(e) => e,
            Err(e) => {
                return Err(e);
            },
        };
        Ok(AstPair::from_span(&node.span, Statement::Assignment { assignee, expression }))
    } else if node.rule == Rule::Expression {
        match parse_expression(node) {
            Ok(e) => Ok(AstPair::from_span(&node.span, Statement::Expression(e))),
            Err(e) => Err(e),
        }
    } else {
        Err(
            custom_error(
                ErrorKind::GrammarShapeMismatch,
                &node.span,
                String::from_str("expected statement"),
            ),
        )
    }
}

/// Builds one expression. An expression node with a single child is that
/// child; one with several children is a run of operands and binary
/// operators that the precedence builder assembles; a unary-expression
/// node applies its operator to its operand; a match-expression node
/// pairs a condition with its clauses. Anything else is read as an
/// operand.
#[verifier::loop_isolation(false)]
pub fn parse_expression(node: &ParseNode) -> (r: Result<AstPair<Expression>, Error>)
    ensures
        match spec_check_expression(*node) {
            Ok(u) => r is Ok && parses_to_expression(*node, r.unwrap()),
            Err(pf) => r is Err && (match pf {
                ParseFailure::Shape => r.unwrap_err().kind == ErrorKind::GrammarShapeMismatch,
                ParseFailure::Chained(a, b) => r.unwrap_err().kind
                    == ErrorKind::OperatorChainingError && r.unwrap_err().message@ == chain_msg(
                    a,
                    b,
                ),
            }),
        },
    decreases *node, 4int,
{
    if node.rule == Rule::Expression || node.rule == Rule::PredicateExpression {
        if node.children.len() == 1 {
            parse_expression(&node.children[0])
        } else {
            parse_complex_expression(node)
        }
    } else if node.rule == Rule::UnaryExpression {
        if node.children.len() < 2 {
            return Err(
                custom_error(
                    ErrorKind::GrammarShapeMismatch,
                    &node.span,
                    String::from_str("expected an operator and an operand"),
                ),
            );
        }
        let operator = match parse_unary_operator(&node.children[0]) {
            Ok(o) => o,
            Err(e) => {
                return Err(e);
            },
        };
        let operand = match parse_expression(&node.children[1]) {
            Ok(o) => o,
            Err(e) => {
                return Err(e);
            },
        };
        Ok(
            AstPair::from_span(
                &node.span,
                Expression::Unary { operator: Box::new(operator), operand: Box::new(operand) },
            ),
        )
    } else if node.rule == Rule::MatchExpression {
        if node.children.len() < 1 {
            return Err(
                custom_error(
                    ErrorKind::GrammarShapeMismatch,
                    &node.span,
                    String::from_str("expected a match condition"),
                ),
            );
        }
        let condition = match parse_expression(&node.children[0]) {
            Ok(c) => c,
            Err(e) => {
                return Err(e);
            },
        };
        let n: usize = node.children.len();
        let mut match_clauses: Vec<AstPair<MatchClause>> = Vec::new();
        let mut i: usize = 1;
        while i < n
            invariant
                1 <= i <= n,
                match_clauses@.len() == i - 1,
                forall|j: int|
                    0 <= j < i - 1 ==> parses_to_clause(
                        #[trigger] node.children@[j + 1],
                        match_clauses@[j],
                    ),
                spec_check_clauses(node.children@.skip(1)) == spec_check_clauses(
                    node.children@.skip(i as int),
                ),
            decreases n - i,
        {
            proof {
                assert(node.children@.skip(i as int)[0] == node.children@[i as int]);
                assert(node.children@.skip(i as int).drop_first() =~= node.children@.skip(i + 1));
            }
            match parse_match_clause(&node.children[i]) {
                Ok(c) => {
                    match_clauses.push(c);
                },
                Err(e) => {
                    return Err(e);
                },
            }
            i = i + 1;
        }
        proof {
            assert(node.children@.skip(n as int) =~= Seq::<ParseNode>::empty());
        }
        Ok(
            AstPair::from_span(
                &node.span,
                Expression::MatchExpression { condition: Box::new(condition), match_clauses },
            ),
        )
    } else {
        match parse_operand(node) {
            Ok(op) => Ok(AstPair::from_span(&node.span, Expression::Operand(Box::new(op)))),
            Err(e) => Err(e),
        }
    }
}

/// Assembles the flat run of operands and binary operators under an
/// expression node into a single tree, honouring precedence and
/// associativity; chaining two non-associative operators of equal
/// precedence is rejected with an error naming both.
#[verifier::loop_isolation(false)]
pub fn parse_complex_expression(node: &ParseNode) -> (r: Result<AstPair<Expression>, Error>)
    ensures
        match spec_check_complex(*node) {
            Ok(u) => r is Ok && parses_to_complex(*node, r.unwrap()),
            Err(pf) => r is Err && (match pf {
                ParseFailure::Shape => r.unwrap_err().kind == ErrorKind::GrammarShapeMismatch,
                ParseFailure::Chained(a, b) => r.unwrap_err().kind
                    == ErrorKind::OperatorChainingError && r.unwrap_err().message@ == chain_msg(
                    a,
                    b,
                ),
            }),
        },
    decreases *node, 3int,
{
    let n: usize = node.children.len();
    let mut tokens: Vec<BuilderToken> = Vec::new();
    let mut i: usize = 0;
    proof {
        assert(node.children@.skip(0) =~= node.children@);
    }
    while i < n
        invariant
            i <= n,
            tokens@.len() == i,
            forall|j: int|
                0 <= j < i ==> token_parses_to(node.children@[j], #[trigger] tokens@[j]),
            spec_check_tokens(node.children@) == spec_check_tokens(
                node.children@.skip(i as int),
            ),
        decreases n - i,
    {
        proof {
            assert(node.children@.skip(i as int)[0] == node.children@[i as int]);
            assert(node.children@.skip(i as int).drop_first() =~= node.children@.skip(i + 1));
        }
        let c = &node.children[i];
        if c.rule == Rule::BinaryOperator {
            match parse_operator(c) {
                Ok(o) => {
                    tokens.push(BuilderToken::Operator(o));
                },
                Err(e) => {
                    return Err(e);
                },
            }
        } else {
            match parse_expression(c) {
                Ok(o) => {
                    tokens.push(BuilderToken::Operand(o));
                },
                Err(e) => {
                    return Err(e);
                },
            }
        }
        i = i + 1;
    }
    proof {
        assert(node.children@.skip(n as int) =~= Seq::<ParseNode>::empty());
        assert(spec_check_tokens(node.children@) == Ok::<(), ParseFailure>(()));
        assert(spec_token_shapes(tokens@) =~= spec_node_shapes(node.children@)) by {
            assert forall|j: int| 0 <= j < tokens@.len() implies spec_token_shapes(tokens@)[j]
                == spec_node_shapes(node.children@)[j] by {
                assert(token_parses_to(node.children@[j], tokens@[j]));
            }
        }
        crate::expression::lemma_build_shape(tokens@);
    }
    let ghost gt = tokens@;
    let out = build_binary_expression(tokens, &node.span);
    proof {
        match out {
            Ok(ref e) => {
                assert(spec_build(gt) == Ok::<AstPair<Expression>, BuildFailure>(*e));
                assert(parses_to_complex(*node, *e));
            },
            Err(_) => {},
        }
    }
    out
}

/// Reads a binary-operator node; the operator is spelled by the node's
/// matched text.
pub fn parse_operator(node: &ParseNode) -> (r: Result<AstPair<BinaryOperator>, Error>)
    ensures
        match spec_binary_op_of(node.span.input@) {
            Some(op) => node.rule == Rule::BinaryOperator ==> r is Ok && r.unwrap().0 == node.span
                && r.unwrap().1 == op,
            None => r is Err && r.unwrap_err().kind == ErrorKind::GrammarShapeMismatch,
        },
        node.rule != Rule::BinaryOperator ==> r is Err && r.unwrap_err().kind
            == ErrorKind::GrammarShapeMismatch,
{
    if node.rule != Rule::BinaryOperator {
        return Err(
            custom_error(
                ErrorKind::GrammarShapeMismatch,
                &node.span,
                String::from_str("expected a binary operator"),
            ),
        );
    }
    match binary_op_of(node.text()) {
        Some(op) => Ok(AstPair::from_span(&node.span, op)),
        None => Err(
            custom_error(
                ErrorKind::GrammarShapeMismatch,
                &node.span,
                String::from_str("unknown binary operator"),
            ),
        ),
    }
}

/// Reads a unary-operator node; the operator is spelled by the node's
/// matched text.
pub fn parse_unary_operator(node: &ParseNode) -> (r: Result<AstPair<UnaryOperator>, Error>)
    ensures
        match spec_unary_op_of(node.span.input@) {
            Some(op) => node.rule == Rule::UnaryOperator ==> r is Ok && r.unwrap().0 == node.span
                && r.unwrap().1 == op,
            None => r is Err && r.unwrap_err().kind == ErrorKind::GrammarShapeMismatch,
        },
        node.rule != Rule::UnaryOperator ==> r is Err && r.unwrap_err().kind
            == ErrorKind::GrammarShapeMismatch,
{
    if node.rule != Rule::UnaryOperator {
        return Err(
            custom_error(
                ErrorKind::GrammarShapeMismatch,
                &node.span,
                String::from_str("expected a unary operator"),
            ),
        );
    }
    match unary_op_of(node.text()) {
        Some(op) => Ok(AstPair::from_span(&node.span, op)),
        None => Err(
            custom_error(
                ErrorKind::GrammarShapeMismatch,
                &node.span,
                String::from_str("unknown unary operator"),
            ),
        ),
    }
}

/// Builds one operand from the node kind the grammar assigned to it.
pub fn parse_operand(node: &ParseNode) -> (r: Result<AstPair<Operand>, Error>)
    ensures
        match spec_check_operand(*node) {
            Ok(u) => r is Ok && parses_to_operand(*node, r.unwrap()),
            Err(pf) => r is Err && (match pf {
                ParseFailure::Shape => r.unwrap_err().kind == ErrorKind::GrammarShapeMismatch,
                ParseFailure::Chained(a, b) => r.unwrap_err().kind
                    == ErrorKind::OperatorChainingError && r.unwrap_err().message@ == chain_msg(
                    a,
                    b,
                ),
            }),
        },
    decreases *node, 3int,
{
    match node.rule {
        Rule::Integer => parse_integer(node),
        Rule::Float => parse_float(node),
        Rule::StringLiteral => parse_string(node),
        Rule::Boolean => parse_boolean(node),
        Rule::HoleOp => Ok(AstPair::from_span(&node.span, Operand::Hole)),
        Rule::FunctionCall => parse_function_call(node),
        Rule::FunctionInit => parse_function_init(node),
        Rule::ListInit => parse_list_init(node),
        Rule::StructDefine => parse_struct_define(node),
        Rule::EnumDefine => parse_enum_define(node),
        Rule::ValueType => parse_value_type(node),
        Rule::Identifier => {
            match parse_identifier(node) {
                Ok(id) => {
                    let sp = id.0.clone();
                    Ok(AstPair::from_span(&sp, Operand::Identifier(id)))
                },
                Err(e) => Err(e),
            }
        },
        _ => Err(
            custom_error(
                ErrorKind::GrammarShapeMismatch,
                &node.span,
                String::from_str("expected operand"),
            ),
        ),
    }
}

/// Reads an integer literal from the node's matched text.
pub fn parse_integer(node: &ParseNode) -> (r: Result<AstPair<Operand>, Error>)
    ensures
        match int_of_str(node.span.input@) {
            Some(num) => {
                &&& r is Ok
                &&& r.unwrap().0 == node.span
                &&& r.unwrap().1 == Operand::Integer(num)
            },
            None => r is Err && r.unwrap_err().kind == ErrorKind::GrammarShapeMismatch,
        },
{
    match parse_int_str(node.text()) {
        Some(num) => Ok(AstPair::from_span(&node.span, Operand::Integer(num))),
        None => Err(
            custom_error(
                ErrorKind::GrammarShapeMismatch,
                &node.span,
                String::from_str("unable to parse integer"),
            ),
        ),
    }
}

/// Reads a float literal from the node's matched text.
pub fn parse_float(node: &ParseNode) -> (r: Result<AstPair<Operand>, Error>)
    ensures
        match float_of_str_bits(node.span.input@) {
            Some(bits) => {
                &&& r is Ok
                &&& r.unwrap().0 == node.span
                &&& r.unwrap().1 == Operand::Float(FloatBits { bits })
            },
            None => r is Err && r.unwrap_err().kind == ErrorKind::GrammarShapeMismatch,
        },
{
    match crate::floats::apf_of_str(node.text()) {
        Some(bits) => Ok(AstPair::from_span(&node.span, Operand::Float(FloatBits::new(bits)))),
        None => Err(
            custom_error(
                ErrorKind::GrammarShapeMismatch,
                &node.span,
                String::from_str("unable to parse float"),
            ),
        ),
    }
}

/// Reads a string literal from the node's matched text: the text between
/// the quotes, with its escape sequences decoded.
pub fn parse_string(node: &ParseNode) -> (r: Result<AstPair<Operand>, Error>)
    ensures
        match unquoted_of(node.span.input@) {
            Some(txt) => {
                &&& r is Ok
                &&& r.unwrap().0 == node.span
                &&& match r.unwrap().1 {
                    Operand::String(st) => st@ == txt,
                    _ => false,
                }
            },
            None => r is Err && r.unwrap_err().kind == ErrorKind::GrammarShapeMismatch,
        },
{
    match unquote_str(node.text()) {
        Some(st) => Ok(AstPair::from_span(&node.span, Operand::String(st))),
        None => Err(
            custom_error(
                ErrorKind::GrammarShapeMismatch,
                &node.span,
                String::from_str("unable to parse string"),
            ),
        ),
    }
}

/// Reads a boolean literal: exactly `True` or `False`.
pub fn parse_boolean(node: &ParseNode) -> (r: Result<AstPair<Operand>, Error>)
    ensures
        node.span.input@ == "True"@ ==> r is Ok && r.unwrap().0 == node.span && (match r.unwrap().1 {
            Operand::Boolean(b) => b == true,
            _ => false,
        }),
        node.span.input@ == "False"@ ==> r is Ok && r.unwrap().0 == node.span && (match r.unwrap().1 {
            Operand::Boolean(b) => b == false,
            _ => false,
        }),
        !(node.span.input@ == "True"@ || node.span.input@ == "False"@) ==> r is Err
            && r.unwrap_err().kind == ErrorKind::GrammarShapeMismatch,
{
    proof {
        reveal_strlit("True");
        reveal_strlit("False");
        assert("True"@.len() == 4);
        assert("False"@.len() == 5);
        assert("True"@ != "False"@);
    }
    let t = String::from_str(node.text());
    proof {
        assert(t@ == node.span.input@);
    }
    if t == String::from_str("True") {
        Ok(AstPair::from_span(&node.span, Operand::Boolean(true)))
    } else if t == String::from_str("False") {
        Ok(AstPair::from_span(&node.span, Operand::Boolean(false)))
    } else {
        Err(
            custom_error(
                ErrorKind::GrammarShapeMismatch,
                &node.span,
                String::from_str("unable to parse boolean"),
            ),
        )
    }
}

/// Reads a type literal from the sub-rule of a value-type node.
pub fn parse_value_type(node: &ParseNode) -> (r: Result<AstPair<Operand>, Error>)
    ensures
        r is Ok ==> r.unwrap().0 == node.span,
        node.children@.len() > 0 && spec_value_type_of(node.children@[0].rule) is Some ==> r is Ok
            && r.unwrap().1 == Operand::ValueType(
            spec_value_type_of(node.children@[0].rule).unwrap(),
        ),
        !(node.children@.len() > 0 && spec_value_type_of(node.children@[0].rule) is Some) ==> r
            is Err && r.unwrap_err().kind == ErrorKind::GrammarShapeMismatch,
{
    if node.children.len() == 0 {
        return Err(
            custom_error(
                ErrorKind::GrammarShapeMismatch,
                &node.span,
                String::from_str("expected a type"),
            ),
        );
    }
    let vt = match node.children[0].rule {
        Rule::UnitType => ValueType::Unit,
        Rule::IntegerType => ValueType::Integer,
        Rule::FloatType => ValueType::Float,
        Rule::CharType => ValueType::Char,
        Rule::BooleanType => ValueType::Boolean,
        Rule::FunctionType => ValueType::Function,
        Rule::AnyType => ValueType::Any,
        Rule::TypeType => ValueType::Type,
        _ => {
            return Err(
                custom_error(
                    ErrorKind::GrammarShapeMismatch,
                    &node.span,
                    String::from_str("expected a type"),
                ),
            );
        },
    };
    Ok(AstPair::from_span(&node.span, Operand::ValueType(vt)))
}

/// Reads an identifier node: its matched text names the identifier.
fn parse_identifier(node: &ParseNode) -> (r: Result<AstPair<Identifier>, Error>)
    ensures
        node.rule == Rule::Identifier ==> r is Ok && r.unwrap().0 == node.span
            && r.unwrap().1.0@ == node.span.input@,
        node.rule != Rule::Identifier ==> r is Err && r.unwrap_err().kind
            == ErrorKind::GrammarShapeMismatch,
{
    if node.rule == Rule::Identifier {
        Ok(AstPair::from_span(&node.span, Identifier::new(String::from_str(node.text()))))
    } else {
        Err(
            custom_error(
                ErrorKind::GrammarShapeMismatch,
                &node.span,
                String::from_str("expected identifier"),
            ),
        )
    }
}

/// Builds a function call: an identifier and its argument list.
pub fn parse_function_call(node: &ParseNode) -> (r: Result<AstPair<Operand>, Error>)
    ensures
        match spec_check_call_node(*node) {
            Ok(u) => r is Ok && call_node_parses_to(*node, r.unwrap()),
            Err(pf) => r is Err && (match pf {
                ParseFailure::Shape => r.unwrap_err().kind == ErrorKind::GrammarShapeMismatch,
                ParseFailure::Chained(a, b) => r.unwrap_err().kind
                    == ErrorKind::OperatorChainingError && r.unwrap_err().message@ == chain_msg(
                    a,
                    b,
                ),
            }),
        },
    decreases *node, 2int,
{
    if node.children.len() < 2 {
        return Err(
            custom_error(
                ErrorKind::GrammarShapeMismatch,
                &node.span,
                String::from_str("expected an identifier and an argument list"),
            ),
        );
    }
    let identifier = match parse_identifier(&node.children[0]) {
        Ok(i) => i,
        Err(e) => {
            return Err(e);
        },
    };
    let arguments = match parse_parameter_list(&node.children[1]) {
        Ok(a) => a,
        Err(e) => {
            return Err(e);
        },
    };
    Ok(
        AstPair::from_span(
            &node.span,
            Operand::FunctionCall(FunctionCall { identifier, arguments }),
        ),
    )
}

/// Builds a function literal: its parameter targets and its body block.
#[verifier::loop_isolation(false)]
pub fn parse_function_init(node: &ParseNode) -> (r: Result<AstPair<Operand>, Error>)
    ensures
        match spec_check_init_node(*node) {
            Ok(u) => r is Ok && init_node_parses_to(*node, r.unwrap()),
            Err(pf) => r is Err && (match pf {
                ParseFailure::Shape => r.unwrap_err().kind == ErrorKind::GrammarShapeMismatch,
                ParseFailure::Chained(a, b) => r.unwrap_err().kind
                    == ErrorKind::OperatorChainingError && r.unwrap_err().message@ == chain_msg(
                    a,
                    b,
                ),
            }),
        },
    decreases *node, 2int,
{
    if node.children.len() < 2 {
        return Err(
            custom_error(
                ErrorKind::GrammarShapeMismatch,
                &node.span,
                String::from_str("expected a parameter list and a block"),
            ),
        );
    }
    let plist = &node.children[0];
    if plist.rule != Rule::ParameterList {
        return Err(
            custom_error(
                ErrorKind::GrammarShapeMismatch,
                &node.span,
                String::from_str("expected a parameter list"),
            ),
        );
    }
    let pn: usize = plist.children.len();
    let mut parameters: Vec<AstPair<Assignee>> = Vec::new();
    let mut i: usize = 0;
    proof {
        assert(plist.children@.skip(0) =~= plist.children@);
    }
    while i < pn
        invariant
            i <= pn,
            parameters@.len() == i,
            forall|j: int|
                0 <= j < i ==> parses_to_assignee(
                    #[trigger] plist.children@[j],
                    parameters@[j],
                ),
            spec_check_assignees(plist.children@) == spec_check_assignees(
                plist.children@.skip(i as int),
            ),
        decreases pn - i,
    {
        proof {
            assert(plist.children@.skip(i as int)[0] == plist.children@[i as int]);
            assert(plist.children@.skip(i as int).drop_first() =~= plist.children@.skip(i + 1));
        }
        match parse_assignee(&plist.children[i]) {
            Ok(a) => {
                parameters.push(a);
            },
            Err(e) => {
                return Err(e);
            },
        }
        i = i + 1;
    }
    proof {
        assert(plist.children@.skip(pn as int) =~= Seq::<ParseNode>::empty());
    }
    let block = match parse_block(&node.children[1]) {
        Ok(b) => b,
        Err(e) => {
            return Err(e);
        },
    };
    Ok(
        AstPair::from_span(
            &node.span,
            Operand::FunctionInit(FunctionInit { parameters, block }),
        ),
    )
}

/// Builds a list literal from its item expressions.
#[verifier::loop_isolation(false)]
pub fn parse_list_init(node: &ParseNode) -> (r: Result<AstPair<Operand>, Error>)
    ensures
        match spec_check_list_node(*node) {
            Ok(u) => r is Ok && list_node_parses_to(*node, r.unwrap()),
            Err(pf) => r is Err && (match pf {
                ParseFailure::Shape => r.unwrap_err().kind == ErrorKind::GrammarShapeMismatch,
                ParseFailure::Chained(a, b) => r.unwrap_err().kind
                    == ErrorKind::OperatorChainingError && r.unwrap_err().message@ == chain_msg(
                    a,
                    b,
                ),
            }),
        },
    decreases *node, 1int,
{
    let n: usize = node.children.len();
    let mut items: Vec<AstPair<Expression>> = Vec::new();
    let mut i: usize = 0;
    proof {
        assert(node.children@.skip(0) =~= node.children@);
    }
    while i < n
        invariant
            i <= n,
            items@.len() == i,
            forall|j: int|
                0 <= j < i ==> parses_to_expression(#[trigger] node.children@[j], items@[j]),
            spec_check_expressions(node.children@) == spec_check_expressions(
                node.children@.skip(i as int),
            ),
        decreases n - i,
    {
        proof {
            assert(node.children@.skip(i as int)[0] == node.children@[i as int]);
            assert(node.children@.skip(i as int).drop_first() =~= node.children@.skip(i + 1));
        }
        match parse_expression(&node.children[i]) {
            Ok(e) => {
                items.push(e);
            },
            Err(e) => {
                return Err(e);
            },
        }
        i = i + 1;
    }
    proof {
        assert(node.children@.skip(n as int) =~= Seq::<ParseNode>::empty());
    }
    Ok(AstPair::from_span(&node.span, Operand::ListInit { items }))
}

/// Builds a struct definition from its field identifiers.
#[verifier::loop_isolation(false)]
pub fn parse_struct_define(node: &ParseNode) -> (r: Result<AstPair<Operand>, Error>)
    ensures
        match spec_check_identifiers(node.children@) {
            Ok(u) => r is Ok && r.unwrap().0 == node.span && (match r.unwrap().1 {
            Operand::StructDefinition { fields } => idents_parse_to(node.children@, fields@),
            _ => false,
        }),
            Err(pf) => r is Err && (match pf {
                ParseFailure::Shape => r.unwrap_err().kind == ErrorKind::GrammarShapeMismatch,
                ParseFailure::Chained(a, b) => r.unwrap_err().kind
                    == ErrorKind::OperatorChainingError && r.unwrap_err().message@ == chain_msg(
                    a,
                    b,
                ),
            }),
        },
    decreases *node, 1int,
{
    match parse_identifiers(node) {
        Ok(fields) => Ok(AstPair::from_span(&node.span, Operand::StructDefinition { fields })),
        Err(e) => Err(e),
    }
}

/// Builds an enum definition from its value identifiers.
#[verifier::loop_isolation(false)]
pub fn parse_enum_define(node: &ParseNode) -> (r: Result<AstPair<Operand>, Error>)
    ensures
        match spec_check_identifiers(node.children@) {
            Ok(u) => r is Ok && r.unwrap().0 == node.span && (match r.unwrap().1 {
            Operand::EnumDefinition { values } => idents_parse_to(node.children@, values@),
            _ => false,
        }),
            Err(pf) => r is Err && (match pf {
                ParseFailure::Shape => r.unwrap_err().kind == ErrorKind::GrammarShapeMismatch,
                ParseFailure::Chained(a, b) => r.unwrap_err().kind
                    == ErrorKind::OperatorChainingError && r.unwrap_err().message@ == chain_msg(
                    a,
                    b,
                ),
            }),
        },
    decreases *node, 1int,
{
    match parse_identifiers(node) {
        Ok(values) => Ok(AstPair::from_span(&node.span, Operand::EnumDefinition { values })),
        Err(e) => Err(e),
    }
}

/// Reads every child of a node as an identifier.
#[verifier::loop_isolation(false)]
fn parse_identifiers(node: &ParseNode) -> (r: Result<Vec<AstPair<Identifier>>, Error>)
    ensures
        match spec_check_identifiers(node.children@) {
            Ok(u) => r is Ok && idents_parse_to(node.children@, r.unwrap()@),
            Err(pf) => r is Err && (match pf {
                ParseFailure::Shape => r.unwrap_err().kind == ErrorKind::GrammarShapeMismatch,
                ParseFailure::Chained(a, b) => r.unwrap_err().kind
                    == ErrorKind::OperatorChainingError && r.unwrap_err().message@ == chain_msg(
                    a,
                    b,
                ),
            }),
        },
    decreases *node, 0int,
{
    let n: usize = node.children.len();
    let mut out: Vec<AstPair<Identifier>> = Vec::new();
    let mut i: usize = 0;
    while i < n
        invariant
            i <= n,
            out@.len() == i,
            forall|j: int|
                0 <= j < i ==> (#[trigger] node.children@[j]).rule == Rule::Identifier
                    && out@[j].0 == node.children@[j].span && out@[j].1.0@
                    == node.children@[j].span.input@,
        decreases n - i,
    {
        match parse_identifier(&node.children[i]) {
            Ok(id) => {
                out.push(id);
            },
            Err(e) => {
                return Err(e);
            },
        }
        i = i + 1;
    }
    Ok(out)
}

/// Reads the expressions of an argument list.
#[verifier::loop_isolation(false)]
pub fn parse_parameter_list(node: &ParseNode) -> (r: Result<Vec<AstPair<Expression>>, Error>)
    ensures
        match spec_check_arg_list(*node) {
            Ok(u) => r is Ok && r.unwrap()@.len() == node.children@.len() && (forall|i: int|
            0 <= i < node.children@.len() ==> parses_to_expression(
                #[trigger] node.children@[i],
                r.unwrap()@[i],
            )),
            Err(pf) => r is Err && (match pf {
                ParseFailure::Shape => r.unwrap_err().kind == ErrorKind::GrammarShapeMismatch,
                ParseFailure::Chained(a, b) => r.unwrap_err().kind
                    == ErrorKind::OperatorChainingError && r.unwrap_err().message@ == chain_msg(
                    a,
                    b,
                ),
            }),
        },
    decreases *node, 1int,
{
    if !(node.rule == Rule::ArgumentList || node.rule == Rule::ParameterList) {
        return Err(
            custom_error(
                ErrorKind::GrammarShapeMismatch,
                &node.span,
                String::from_str("expected an argument list"),
            ),
        );
    }
    let n: usize = node.children.len();
    let mut out: Vec<AstPair<Expression>> = Vec::new();
    let mut i: usize = 0;
    proof {
        assert(node.children@.skip(0) =~= node.children@);
    }
    while i < n
        invariant
            i <= n,
            out@.len() == i,
            forall|j: int|
                0 <= j < i ==> parses_to_expression(#[trigger] node.children@[j], out@[j]),
            spec_check_expressions(node.children@) == spec_check_expressions(
                node.children@.skip(i as int),
            ),
        decreases n - i,
    {
        proof {
            assert(node.children@.skip(i as int)[0] == node.children@[i as int]);
            assert(node.children@.skip(i as int).drop_first() =~= node.children@.skip(i + 1));
        }
        match parse_expression(&node.children[i]) {
            Ok(e) => {
                out.push(e);
            },
            Err(e) => {
                return Err(e);
            },
        }
        i = i + 1;
    }
    proof {
        assert(node.children@.skip(n as int) =~= Seq::<ParseNode>::empty());
    }
    Ok(out)
}

/// Builds an assignment target: an identifier, a hole, or a
/// destructuring list.
fn parse_assignee(node: &ParseNode) -> (r: Result<AstPair<Assignee>, Error>)
    ensures
        match spec_check_assignee(*node) {
            Ok(u) => r is Ok && parses_to_assignee(*node, r.unwrap()),
            Err(pf) => r is Err && (match pf {
                ParseFailure::Shape => r.unwrap_err().kind == ErrorKind::GrammarShapeMismatch,
                ParseFailure::Chained(a, b) => r.unwrap_err().kind
                    == ErrorKind::OperatorChainingError && r.unwrap_err().message@ == chain_msg(
                    a,
                    b,
                ),
            }),
        },
    decreases *node, 2int,
{
    if node.rule != Rule::Assignee {
        return Err(
            custom_error(
                ErrorKind::GrammarShapeMismatch,
                &node.span,
                String::from_str("expected assignee"),
            ),
        );
    }
    if node.children.len() == 0 {
        return Err(
            custom_error(
                ErrorKind::GrammarShapeMismatch,
                &node.span,
                String::from_str("expected the target of the assignment"),
            ),
        );
    }
    let ch = &node.children[0];
    if ch.rule == Rule::Identifier {
        match parse_identifier(ch) {
            Ok(id) => Ok(AstPair::from_span(&node.span, Assignee::Identifier(id))),
            Err(e) => Err(e),
        }
    } else if ch.rule == Rule::HoleOp {
        Ok(AstPair::from_span(&node.span, Assignee::Hole))
    } else if ch.rule == Rule::DestructureList {
        match parse_destructure_items(ch) {
            Ok(items) => Ok(AstPair::from_span(&node.span, Assignee::DestructureList(items))),
            Err(e) => Err(e),
        }
    } else {
        Err(
            custom_error(
                ErrorKind::GrammarShapeMismatch,
                &node.span,
                String::from_str("expected the target of the assignment"),
            ),
        )
    }
}

/// Reads the elements of a destructuring list.
#[verifier::loop_isolation(false)]
fn parse_destructure_items(node: &ParseNode) -> (r: Result<Vec<AstPair<DestructureItem>>, Error>)
    ensures
        match spec_check_destructures(node.children@) {
            Ok(u) => r is Ok && r.unwrap()@.len() == node.children@.len() && (forall|i: int|
            0 <= i < node.children@.len() ==> parses_to_destructure(
                #[trigger] node.children@[i],
                r.unwrap()@[i],
            )),
            Err(pf) => r is Err && (match pf {
                ParseFailure::Shape => r.unwrap_err().kind == ErrorKind::GrammarShapeMismatch,
                ParseFailure::Chained(a, b) => r.unwrap_err().kind
                    == ErrorKind::OperatorChainingError && r.unwrap_err().message@ == chain_msg(
                    a,
                    b,
                ),
            }),
        },
    decreases *node, 1int,
{
    let n: usize = node.children.len();
    let mut out: Vec<AstPair<DestructureItem>> = Vec::new();
    let mut i: usize = 0;
    proof {
        assert(node.children@.skip(0) =~= node.children@);
    }
    while i < n
        invariant
            i <= n,
            out@.len() == i,
            forall|j: int|
                0 <= j < i ==> parses_to_destructure(#[trigger] node.children@[j], out@[j]),
            spec_check_destructures(node.children@) == spec_check_destructures(
                node.children@.skip(i as int),
            ),
        decreases n - i,
    {
        proof {
            assert(node.children@.skip(i as int)[0] == node.children@[i as int]);
            assert(node.children@.skip(i as int).drop_first() =~= node.children@.skip(i + 1));
        }
        match parse_destructure_item(&node.children[i]) {
            Ok(d) => {
                out.push(d);
            },
            Err(e) => {
                return Err(e);
            },
        }
        i = i + 1;
    }
    proof {
        assert(node.children@.skip(n as int) =~= Seq::<ParseNode>::empty());
    }
    Ok(out)
}

/// Builds one destructuring element: a hole, an identifier (optionally a
/// spread binding), or a nested destructuring list.
fn parse_destructure_item(node: &ParseNode) -> (r: Result<AstPair<DestructureItem>, Error>)
    ensures
        match spec_check_destructure(*node) {
            Ok(u) => r is Ok && parses_to_destructure(*node, r.unwrap()),
            Err(pf) => r is Err && (match pf {
                ParseFailure::Shape => r.unwrap_err().kind == ErrorKind::GrammarShapeMismatch,
                ParseFailure::Chained(a, b) => r.unwrap_err().kind
                    == ErrorKind::OperatorChainingError && r.unwrap_err().message@ == chain_msg(
                    a,
                    b,
                ),
            }),
        },
    decreases *node, 2int,
{
    if node.rule != Rule::DestructureItem {
        return Err(
            custom_error(
                ErrorKind::GrammarShapeMismatch,
                &node.span,
                String::from_str("expected a destructuring element"),
            ),
        );
    }
    if node.children.len() == 0 {
        return Err(
            custom_error(
                ErrorKind::GrammarShapeMismatch,
                &node.span,
                String::from_str("expected the contents of the destructuring element"),
            ),
        );
    }
    let first = &node.children[0];
    if first.rule == Rule::HoleOp {
        Ok(AstPair::from_span(&node.span, DestructureItem::Hole))
    } else if first.rule == Rule::SpreadOp {
        if node.children.len() < 2 {
            return Err(
                custom_error(
                    ErrorKind::GrammarShapeMismatch,
                    &node.span,
                    String::from_str("expected an identifier after the spread marker"),
                ),
            );
        }
        match parse_identifier(&node.children[1]) {
            Ok(identifier) => Ok(
                AstPair::from_span(
                    &node.span,
                    DestructureItem::Identifier { identifier, spread: true },
                ),
            ),
            Err(e) => Err(e),
        }
    } else if first.rule == Rule::Identifier {
        match parse_identifier(first) {
            Ok(identifier) => Ok(
                AstPair::from_span(
                    &node.span,
                    DestructureItem::Identifier { identifier, spread: false },
                ),
            ),
            Err(e) => Err(e),
        }
    } else if first.rule == Rule::DestructureList {
        match parse_destructure_items(first) {
            Ok(items) => Ok(AstPair::from_span(&node.span, DestructureItem::List(items))),
            Err(e) => Err(e),
        }
    } else {
        Err(
            custom_error(
                ErrorKind::GrammarShapeMismatch,
                &node.span,
                String::from_str("expected the contents of the destructuring element"),
            ),
        )
    }
}

/// Builds one `match` pattern: a hole, a literal, an identifier
/// (optionally a spread binding), or a nested pattern list.
fn parse_pattern_item(node: &ParseNode) -> (r: Result<AstPair<PatternItem>, Error>)
    ensures
        match spec_check_pattern(*node) {
            Ok(u) => r is Ok && parses_to_pattern(*node, r.unwrap()),
            Err(pf) => r is Err && (match pf {
                ParseFailure::Shape => r.unwrap_err().kind == ErrorKind::GrammarShapeMismatch,
                ParseFailure::Chained(a, b) => r.unwrap_err().kind
                    == ErrorKind::OperatorChainingError && r.unwrap_err().message@ == chain_msg(
                    a,
                    b,
                ),
            }),
        },
    decreases *node, 3int,
{
    if node.rule != Rule::PatternItem {
        return Err(
            custom_error(
                ErrorKind::GrammarShapeMismatch,
                &node.span,
                String::from_str("expected a pattern"),
            ),
        );
    }
    if node.children.len() == 0 {
        return Err(
            custom_error(
                ErrorKind::GrammarShapeMismatch,
                &node.span,
                String::from_str("expected the contents of the pattern"),
            ),
        );
    }
    let first = &node.children[0];
    if first.rule == Rule::HoleOp {
        Ok(AstPair::from_span(&node.span, PatternItem::Hole))
    } else if first.rule == Rule::Integer {
        match parse_integer(first) {
            Ok(op) => match op.1 {
                Operand::Integer(num) => Ok(
                    AstPair::from_span(&node.span, PatternItem::Integer(num)),
                ),
                _ => Err(
                    custom_error(
                        ErrorKind::GrammarShapeMismatch,
                        &node.span,
                        String::from_str("expected an integer literal"),
                    ),
                ),
            },
            Err(e) => Err(e),
        }
    } else if first.rule == Rule::Float {
        match parse_float(first) {
            Ok(op) => match op.1 {
                Operand::Float(bits) => Ok(
                    AstPair::from_span(&node.span, PatternItem::Float(bits)),
                ),
                _ => Err(
                    custom_error(
                        ErrorKind::GrammarShapeMismatch,
                        &node.span,
                        String::from_str("expected a float literal"),
                    ),
                ),
            },
            Err(e) => Err(e),
        }
    } else if first.rule == Rule::Boolean {
        match parse_boolean(first) {
            Ok(op) => match op.1 {
                Operand::Boolean(b) => Ok(
                    AstPair::from_span(&node.span, PatternItem::Boolean(b)),
                ),
                _ => Err(
                    custom_error(
                        ErrorKind::GrammarShapeMismatch,
                        &node.span,
                        String::from_str("expected a boolean literal"),
                    ),
                ),
            },
            Err(e) => Err(e),
        }
    } else if first.rule == Rule::StringLiteral {
        match parse_string(first) {
            Ok(op) => match op.1 {
                Operand::String(st) => Ok(
                    AstPair::from_span(&node.span, PatternItem::String(st)),
                ),
                _ => Err(
                    custom_error(
                        ErrorKind::GrammarShapeMismatch,
                        &node.span,
                        String::from_str("expected a string literal"),
                    ),
                ),
            },
            Err(e) => Err(e),
        }
    } else if first.rule == Rule::SpreadOp {
        if node.children.len() < 2 {
            return Err(
                custom_error(
                    ErrorKind::GrammarShapeMismatch,
                    &node.span,
                    String::from_str("expected an identifier after the spread marker"),
                ),
            );
        }
        match parse_identifier(&node.children[1]) {
            Ok(identifier) => Ok(
                AstPair::from_span(
                    &node.span,
                    PatternItem::Identifier { identifier, spread: true },
                ),
            ),
            Err(e) => Err(e),
        }
    } else if first.rule == Rule::Identifier {
        match parse_identifier(first) {
            Ok(identifier) => Ok(
                AstPair::from_span(
                    &node.span,
                    PatternItem::Identifier { identifier, spread: false },
                ),
            ),
            Err(e) => Err(e),
        }
    } else if first.rule == Rule::PatternList {
        match parse_pattern_items(first) {
            Ok(items) => Ok(AstPair::from_span(&node.span, PatternItem::PatternList(items))),
            Err(e) => Err(e),
        }
    } else {
        Err(
            custom_error(
                ErrorKind::GrammarShapeMismatch,
                &node.span,
                String::from_str("expected the contents of the pattern"),
            ),
        )
    }
}

/// Reads the elements of a pattern list.
#[verifier::loop_isolation(false)]
fn parse_pattern_items(node: &ParseNode) -> (r: Result<Vec<AstPair<PatternItem>>, Error>)
    ensures
        match spec_check_patterns(node.children@) {
            Ok(u) => r is Ok && r.unwrap()@.len() == node.children@.len() && (forall|i: int|
            0 <= i < node.children@.len() ==> parses_to_pattern(
                #[trigger] node.children@[i],
                r.unwrap()@[i],
            )),
            Err(pf) => r is Err && (match pf {
                ParseFailure::Shape => r.unwrap_err().kind == ErrorKind::GrammarShapeMismatch,
                ParseFailure::Chained(a, b) => r.unwrap_err().kind
                    == ErrorKind::OperatorChainingError && r.unwrap_err().message@ == chain_msg(
                    a,
                    b,
                ),
            }),
        },
    decreases *node, 2int,
{
    let n: usize = node.children.len();
    let mut out: Vec<AstPair<PatternItem>> = Vec::new();
    let mut i: usize = 0;
    proof {
        assert(node.children@.skip(0) =~= node.children@);
    }
    while i < n
        invariant
            i <= n,
            out@.len() == i,
            forall|j: int|
                0 <= j < i ==> parses_to_pattern(#[trigger] node.children@[j], out@[j]),
            spec_check_patterns(node.children@) == spec_check_patterns(
                node.children@.skip(i as int),
            ),
        decreases n - i,
    {
        proof {
            assert(node.children@.skip(i as int)[0] == node.children@[i as int]);
            assert(node.children@.skip(i as int).drop_first() =~= node.children@.skip(i + 1));
        }
        match parse_pattern_item(&node.children[i]) {
            Ok(p) => {
                out.push(p);
            },
            Err(e) => {
                return Err(e);
            },
        }
        i = i + 1;
    }
    proof {
        assert(node.children@.skip(n as int) =~= Seq::<ParseNode>::empty());
    }
    Ok(out)
}

/// Builds one `match` clause: a pattern and the block to run when it
/// matches.
fn parse_match_clause(node: &ParseNode) -> (r: Result<AstPair<MatchClause>, Error>)
    ensures
        match spec_check_clause(*node) {
            Ok(u) => r is Ok && parses_to_clause(*node, r.unwrap()),
            Err(pf) => r is Err && (match pf {
                ParseFailure::Shape => r.unwrap_err().kind == ErrorKind::GrammarShapeMismatch,
                ParseFailure::Chained(a, b) => r.unwrap_err().kind
                    == ErrorKind::OperatorChainingError && r.unwrap_err().message@ == chain_msg(
                    a,
                    b,
                ),
            }),
        },
    decreases *node, 4int,
{
    if node.rule != Rule::MatchClause {
        return Err(
            custom_error(
                ErrorKind::GrammarShapeMismatch,
                &node.span,
                String::from_str("expected a match clause"),
            ),
        );
    }
    if node.children.len() < 2 {
        return Err(
            custom_error(
                ErrorKind::GrammarShapeMismatch,
                &node.span,
                String::from_str("expected a pattern and a block"),
            ),
        );
    }
    let pattern = match parse_pattern_item(&node.children[0]) {
        Ok(p) => p,
        Err(e) => {
            return Err(e);
        },
    };
    let block = match parse_block(&node.children[1]) {
        Ok(b) => b,
        Err(e) => {
            return Err(e);
        },
    };
    Ok(AstPair::from_span(&node.span, MatchClause { pattern, block }))
}

} // verus!
