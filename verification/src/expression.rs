use vstd::prelude::*;
use vstd::string::StringExecFns;
use crate::span::{AstPair, Span};
use crate::ast::{BinaryOperator, Expression, UnaryOperator};
use crate::error::{custom_error, Error, ErrorKind};

verus! {

/// How an operator groups with neighbours of equal precedence: to the
/// left, to the right, or not at all (chaining two such operators at equal
/// precedence is an error).
#[derive(Clone, Copy, PartialEq, Eq, Structural, Debug)]
pub enum Associativity {
    Left,
    Right,
    NonAssociative,
}

pub open spec fn spec_precedence(op: BinaryOperator) -> int {
    match op {
        BinaryOperator::Or => 1,
        BinaryOperator::And => 2,
        BinaryOperator::Equals => 3,
        BinaryOperator::NotEquals => 3,
        BinaryOperator::Greater => 3,
        BinaryOperator::GreaterOrEquals => 3,
        BinaryOperator::Less => 3,
        BinaryOperator::LessOrEquals => 3,
        BinaryOperator::Add => 4,
        BinaryOperator::Subtract => 4,
        BinaryOperator::Multiply => 5,
        BinaryOperator::Divide => 5,
        BinaryOperator::Remainder => 5,
        BinaryOperator::Exponent => 6,
        BinaryOperator::Accessor => 7,
    }
}

pub open spec fn spec_associativity(op: BinaryOperator) -> Associativity {
    match op {
        BinaryOperator::Or => Associativity::Right,
        BinaryOperator::And => Associativity::Right,
        BinaryOperator::Equals => Associativity::NonAssociative,
        BinaryOperator::NotEquals => Associativity::NonAssociative,
        BinaryOperator::Greater => Associativity::NonAssociative,
        BinaryOperator::GreaterOrEquals => Associativity::NonAssociative,
        BinaryOperator::Less => Associativity::NonAssociative,
        BinaryOperator::LessOrEquals => Associativity::NonAssociative,
        BinaryOperator::Add => Associativity::Left,
        BinaryOperator::Subtract => Associativity::Left,
        BinaryOperator::Multiply => Associativity::Left,
        BinaryOperator::Divide => Associativity::Left,
        BinaryOperator::Remainder => Associativity::Left,
        BinaryOperator::Exponent => Associativity::Right,
        BinaryOperator::Accessor => Associativity::Left,
    }
}

pub open spec fn spec_symbol(op: BinaryOperator) -> Seq<char> {
    match op {
        BinaryOperator::Add => "+"@,
        BinaryOperator::Subtract => "-"@,
        BinaryOperator::Multiply => "*"@,
        BinaryOperator::Divide => "/"@,
        BinaryOperator::Exponent => "^"@,
        BinaryOperator::Remainder => "%"@,
        BinaryOperator::Accessor => "."@,
        BinaryOperator::Equals => "=="@,
        BinaryOperator::NotEquals => "!="@,
        BinaryOperator::Greater => ">"@,
        BinaryOperator::GreaterOrEquals => ">="@,
        BinaryOperator::Less => "<"@,
        BinaryOperator::LessOrEquals => "<="@,
        BinaryOperator::And => "&&"@,
        BinaryOperator::Or => "||"@,
    }
}

pub open spec fn spec_unary_symbol(op: UnaryOperator) -> Seq<char> {
    match op {
        UnaryOperator::Plus => "+"@,
        UnaryOperator::Minus => "-"@,
        UnaryOperator::Not => "!"@,
        UnaryOperator::Spread => ".."@,
    }
}

impl BinaryOperator {
    /// The binding strength of this operator; a larger number binds
    /// tighter.
    pub fn precedence(&self) -> (r: u32)
        ensures
            r as int == spec_precedence(*self),
    {
        match self {
            BinaryOperator::Or => 1,
            BinaryOperator::And => 2,
            BinaryOperator::Equals => 3,
            BinaryOperator::NotEquals => 3,
            BinaryOperator::Greater => 3,
            BinaryOperator::GreaterOrEquals => 3,
            BinaryOperator::Less => 3,
            BinaryOperator::LessOrEquals => 3,
            BinaryOperator::Add => 4,
            BinaryOperator::Subtract => 4,
            BinaryOperator::Multiply => 5,
            BinaryOperator::Divide => 5,
            BinaryOperator::Remainder => 5,
            BinaryOperator::Exponent => 6,
            BinaryOperator::Accessor => 7,
        }
    }

    /// How this operator groups with neighbours of equal precedence.
    pub fn associativity(&self) -> (r: Associativity)
        ensures
            r == spec_associativity(*self),
    {
        match self {
            BinaryOperator::Or => Associativity::Right,
            BinaryOperator::And => Associativity::Right,
            BinaryOperator::Equals => Associativity::NonAssociative,
            BinaryOperator::NotEquals => Associativity::NonAssociative,
            BinaryOperator::Greater => Associativity::NonAssociative,
            BinaryOperator::GreaterOrEquals => Associativity::NonAssociative,
            BinaryOperator::Less => Associativity::NonAssociative,
            BinaryOperator::LessOrEquals => Associativity::NonAssociative,
            BinaryOperator::Add => Associativity::Left,
            BinaryOperator::Subtract => Associativity::Left,
            BinaryOperator::Multiply => Associativity::Left,
            BinaryOperator::Divide => Associativity::Left,
            BinaryOperator::Remainder => Associativity::Left,
            BinaryOperator::Exponent => Associativity::Right,
            BinaryOperator::Accessor => Associativity::Left,
        }
    }

    /// The source-text spelling of this operator.
    pub fn symbol(&self) -> (r: String)
        ensures
            r@ == spec_symbol(*self),
    {
        match self {
            BinaryOperator::Add => String::from_str("+"),
            BinaryOperator::Subtract => String::from_str("-"),
            BinaryOperator::Multiply => String::from_str("*"),
            BinaryOperator::Divide => String::from_str("/"),
            BinaryOperator::Exponent => String::from_str("^"),
            BinaryOperator::Remainder => String::from_str("%"),
            BinaryOperator::Accessor => String::from_str("."),
            BinaryOperator::Equals => String::from_str("=="),
            BinaryOperator::NotEquals => String::from_str("!="),
            BinaryOperator::Greater => String::from_str(">"),
            BinaryOperator::GreaterOrEquals => String::from_str(">="),
            BinaryOperator::Less => String::from_str("<"),
            BinaryOperator::LessOrEquals => String::from_str("<="),
            BinaryOperator::And => String::from_str("&&"),
            BinaryOperator::Or => String::from_str("||"),
        }
    }
}

impl UnaryOperator {
    /// The source-text spelling of this operator.
    pub fn symbol(&self) -> (r: String)
        ensures
            r@ == spec_unary_symbol(*self),
    {
        match self {
            UnaryOperator::Plus => String::from_str("+"),
            UnaryOperator::Minus => String::from_str("-"),
            UnaryOperator::Not => String::from_str("!"),
            UnaryOperator::Spread => String::from_str(".."),
        }
    }
}

/// One element of the flat run the grammar produces for a complex
/// expression: an already-parsed operand or a binary operator.
pub enum BuilderToken {
    Operand(AstPair<Expression>),
    Operator(AstPair<BinaryOperator>),
}

/// Why the expression builder gave up: two non-associative operators of
/// equal precedence were chained, or the token run was not an alternating
/// operand/operator sequence.
pub enum BuildFailure {
    Chained(BinaryOperator, BinaryOperator),
    Malformed,
}

/// The binary node built when an operator combines the two operands on top
/// of the operand stack; it carries the operator's span.
pub open spec fn spec_combine(
    op: AstPair<BinaryOperator>,
    l: AstPair<Expression>,
    r: AstPair<Expression>,
) -> AstPair<Expression> {
    AstPair(
        op.0,
        Expression::Binary {
            left_operand: Box::new(l),
            operator: Box::new(op),
            right_operand: Box::new(r),
        },
    )
}

/// Pushing one operator onto the operator stack: operators on top of the
/// stack that bind at least as tightly (for a non-right-associative
/// newcomer, equally tightly counts) are reduced first; meeting another
/// non-associative operator at equal precedence fails.
pub open spec fn spec_push_operator(
    o1: AstPair<BinaryOperator>,
    ops: Seq<AstPair<BinaryOperator>>,
    vals: Seq<AstPair<Expression>>,
) -> Result<(Seq<AstPair<BinaryOperator>>, Seq<AstPair<Expression>>), BuildFailure>
    decreases ops.len(),
{
    if ops.len() == 0 {
        Ok((ops.push(o1), vals))
    } else {
        let o2 = ops.last();
        if spec_precedence(o1.1) == spec_precedence(o2.1)
            && spec_associativity(o1.1) is NonAssociative
            && spec_associativity(o2.1) is NonAssociative {
            Err(BuildFailure::Chained(o1.1, o2.1))
        } else if (!(spec_associativity(o1.1) is Right) && spec_precedence(o1.1)
            == spec_precedence(o2.1)) || spec_precedence(o1.1) < spec_precedence(o2.1) {
            if vals.len() < 2 {
                Err(BuildFailure::Malformed)
            } else {
                spec_push_operator(
                    o1,
                    ops.drop_last(),
                    vals.drop_last().drop_last().push(
                        spec_combine(o2, vals[vals.len() - 2], vals.last()),
                    ),
                )
            }
        } else {
            Ok((ops.push(o1), vals))
        }
    }
}

/// Consuming the token run left to right: operands go onto the operand
/// stack, operators through `spec_push_operator`.
pub open spec fn spec_process(
    tokens: Seq<BuilderToken>,
    ops: Seq<AstPair<BinaryOperator>>,
    vals: Seq<AstPair<Expression>>,
) -> Result<(Seq<AstPair<BinaryOperator>>, Seq<AstPair<Expression>>), BuildFailure>
    decreases tokens.len(),
{
    if tokens.len() == 0 {
        Ok((ops, vals))
    } else {
        match tokens[0] {
            BuilderToken::Operand(e) => spec_process(tokens.skip(1), ops, vals.push(e)),
            BuilderToken::Operator(o1) => match spec_push_operator(o1, ops, vals) {
                Ok((ops2, vals2)) => spec_process(tokens.skip(1), ops2, vals2),
                Err(e) => Err(e),
            },
        }
    }
}

/// Draining what remains on the two stacks after the run is consumed; the
/// single operand left at the end is the built expression.
pub open spec fn spec_drain(
    ops: Seq<AstPair<BinaryOperator>>,
    vals: Seq<AstPair<Expression>>,
) -> Result<AstPair<Expression>, BuildFailure>
    decreases ops.len(),
{
    if ops.len() == 0 {
        if vals.len() == 1 {
            Ok(vals[0])
        } else {
            Err(BuildFailure::Malformed)
        }
    } else {
        if vals.len() < 2 {
            Err(BuildFailure::Malformed)
        } else {
            spec_drain(
                ops.drop_last(),
                vals.drop_last().drop_last().push(
                    spec_combine(ops.last(), vals[vals.len() - 2], vals.last()),
                ),
            )
        }
    }
}

/// The expression tree that the given operand/operator run denotes under
/// the precedence and associativity table, or the failure that rejects it.
pub open spec fn spec_build(tokens: Seq<BuilderToken>) -> Result<
    AstPair<Expression>,
    BuildFailure,
> {
    match spec_process(tokens, Seq::empty(), Seq::empty()) {
        Ok((ops, vals)) => spec_drain(ops, vals),
        Err(e) => Err(e),
    }
}

/// The shape of a token run: each element is the operator it holds, or
/// nothing for an operand. Whether the build succeeds, and with which
/// failure, depends on this shape alone, never on the operands.
pub open spec fn spec_token_shapes(tokens: Seq<BuilderToken>) -> Seq<Option<BinaryOperator>> {
    Seq::new(
        tokens.len(),
        |i: int|
            match tokens[i] {
                BuilderToken::Operator(o) => Some(o.1),
                BuilderToken::Operand(_) => None,
            },
    )
}

/// The operators of an operator stack, without their spans.
pub open spec fn spec_op_syms(ops: Seq<AstPair<BinaryOperator>>) -> Seq<BinaryOperator> {
    Seq::new(ops.len(), |i: int| ops[i].1)
}

/// `spec_push_operator`, over the shape alone: the operator stack and the
/// number of operands on the operand stack.
pub open spec fn spec_push_operator_shape(
    o1: BinaryOperator,
    ops: Seq<BinaryOperator>,
    nvals: int,
) -> Result<(Seq<BinaryOperator>, int), BuildFailure>
    decreases ops.len(),
{
    if ops.len() == 0 {
        Ok((ops.push(o1), nvals))
    } else {
        let o2 = ops.last();
        if spec_precedence(o1) == spec_precedence(o2) && spec_associativity(o1) is NonAssociative
            && spec_associativity(o2) is NonAssociative {
            Err(BuildFailure::Chained(o1, o2))
        } else if (!(spec_associativity(o1) is Right) && spec_precedence(o1) == spec_precedence(
            o2,
        )) || spec_precedence(o1) < spec_precedence(o2) {
            if nvals < 2 {
                Err(BuildFailure::Malformed)
            } else {
                spec_push_operator_shape(o1, ops.drop_last(), nvals - 1)
            }
        } else {
            Ok((ops.push(o1), nvals))
        }
    }
}

/// `spec_process`, over the shape alone.
pub open spec fn spec_process_shape(
    shape: Seq<Option<BinaryOperator>>,
    ops: Seq<BinaryOperator>,
    nvals: int,
) -> Result<(Seq<BinaryOperator>, int), BuildFailure>
    decreases shape.len(),
{
    if shape.len() == 0 {
        Ok((ops, nvals))
    } else {
        match shape[0] {
            None => spec_process_shape(shape.skip(1), ops, nvals + 1),
            Some(o1) => match spec_push_operator_shape(o1, ops, nvals) {
                Ok((ops2, nvals2)) => spec_process_shape(shape.skip(1), ops2, nvals2),
                Err(e) => Err(e),
            },
        }
    }
}

/// `spec_drain`, over the shape alone.
pub open spec fn spec_drain_shape(ops: Seq<BinaryOperator>, nvals: int) -> Result<
    (),
    BuildFailure,
>
    decreases ops.len(),
{
    if ops.len() == 0 {
        if nvals == 1 {
            Ok(())
        } else {
            Err(BuildFailure::Malformed)
        }
    } else {
        if nvals < 2 {
            Err(BuildFailure::Malformed)
        } else {
            spec_drain_shape(ops.drop_last(), nvals - 1)
        }
    }
}

/// Whether a token run builds, and with which failure when it does not,
/// decided by its shape alone.
pub open spec fn spec_build_shape(shape: Seq<Option<BinaryOperator>>) -> Result<
    (),
    BuildFailure,
> {
    match spec_process_shape(shape, Seq::empty(), 0) {
        Ok((ops, nvals)) => spec_drain_shape(ops, nvals),
        Err(e) => Err(e),
    }
}

/// Pushing an operator succeeds or fails exactly as its shape does.
pub proof fn lemma_push_operator_shape(
    o1: AstPair<BinaryOperator>,
    ops: Seq<AstPair<BinaryOperator>>,
    vals: Seq<AstPair<Expression>>,
)
    ensures
        match spec_push_operator(o1, ops, vals) {
            Ok((ops2, vals2)) => spec_push_operator_shape(o1.1, spec_op_syms(ops), vals.len() as int)
                == Ok::<(Seq<BinaryOperator>, int), BuildFailure>(
                (spec_op_syms(ops2), vals2.len() as int),
            ),
            Err(f) => spec_push_operator_shape(o1.1, spec_op_syms(ops), vals.len() as int) == Err::<
                (Seq<BinaryOperator>, int),
                BuildFailure,
            >(f),
        },
    decreases ops.len(),
{
    if ops.len() == 0 {
        assert(spec_op_syms(ops.push(o1)) =~= spec_op_syms(ops).push(o1.1));
    } else {
        let o2 = ops.last();
        assert(spec_op_syms(ops).last() == o2.1);
        if spec_precedence(o1.1) == spec_precedence(o2.1) && spec_associativity(o1.1)
            is NonAssociative && spec_associativity(o2.1) is NonAssociative {
        } else if (!(spec_associativity(o1.1) is Right) && spec_precedence(o1.1)
            == spec_precedence(o2.1)) || spec_precedence(o1.1) < spec_precedence(o2.1) {
            if vals.len() >= 2 {
                let vals2 = vals.drop_last().drop_last().push(
                    spec_combine(o2, vals[vals.len() - 2], vals.last()),
                );
                assert(vals2.len() == vals.len() - 1);
                assert(spec_op_syms(ops.drop_last()) =~= spec_op_syms(ops).drop_last());
                lemma_push_operator_shape(o1, ops.drop_last(), vals2);
            }
        } else {
            assert(spec_op_syms(ops.push(o1)) =~= spec_op_syms(ops).push(o1.1));
        }
    }
}

/// Processing a token run succeeds or fails exactly as its shape does.
pub proof fn lemma_process_shape(
    tokens: Seq<BuilderToken>,
    ops: Seq<AstPair<BinaryOperator>>,
    vals: Seq<AstPair<Expression>>,
)
    ensures
        match spec_process(tokens, ops, vals) {
            Ok((ops2, vals2)) => spec_process_shape(
                spec_token_shapes(tokens),
                spec_op_syms(ops),
                vals.len() as int,
            ) == Ok::<(Seq<BinaryOperator>, int), BuildFailure>(
                (spec_op_syms(ops2), vals2.len() as int),
            ),
            Err(f) => spec_process_shape(
                spec_token_shapes(tokens),
                spec_op_syms(ops),
                vals.len() as int,
            ) == Err::<(Seq<BinaryOperator>, int), BuildFailure>(f),
        },
    decreases tokens.len(),
{
    if tokens.len() > 0 {
        assert(spec_token_shapes(tokens).skip(1) =~= spec_token_shapes(tokens.skip(1)));
        match tokens[0] {
            BuilderToken::Operand(e) => {
                assert(vals.push(e).len() == vals.len() + 1);
                lemma_process_shape(tokens.skip(1), ops, vals.push(e));
            },
            BuilderToken::Operator(o1) => {
                lemma_push_operator_shape(o1, ops, vals);
                match spec_push_operator(o1, ops, vals) {
                    Ok((ops2, vals2)) => {
                        lemma_process_shape(tokens.skip(1), ops2, vals2);
                    },
                    Err(_) => {},
                }
            },
        }
    } else {
        assert(spec_token_shapes(tokens).len() == 0);
    }
}

/// Draining the stacks succeeds or fails exactly as their shape does.
pub proof fn lemma_drain_shape(ops: Seq<AstPair<BinaryOperator>>, vals: Seq<AstPair<Expression>>)
    ensures
        match spec_drain(ops, vals) {
            Ok(_) => spec_drain_shape(spec_op_syms(ops), vals.len() as int) == Ok::<
                (),
                BuildFailure,
            >(()),
            Err(f) => spec_drain_shape(spec_op_syms(ops), vals.len() as int) == Err::<
                (),
                BuildFailure,
            >(f),
        },
    decreases ops.len(),
{
    if ops.len() > 0 && vals.len() >= 2 {
        let vals2 = vals.drop_last().drop_last().push(
            spec_combine(ops.last(), vals[vals.len() - 2], vals.last()),
        );
        assert(vals2.len() == vals.len() - 1);
        assert(spec_op_syms(ops.drop_last()) =~= spec_op_syms(ops).drop_last());
        lemma_drain_shape(ops.drop_last(), vals2);
    }
}

/// A token run builds exactly when its shape does, with the same failure
/// otherwise.
pub proof fn lemma_build_shape(tokens: Seq<BuilderToken>)
    ensures
        match spec_build(tokens) {
            Ok(_) => spec_build_shape(spec_token_shapes(tokens)) == Ok::<(), BuildFailure>(()),
            Err(f) => spec_build_shape(spec_token_shapes(tokens)) == Err::<(), BuildFailure>(f),
        },
{
    assert(spec_op_syms(Seq::<AstPair<BinaryOperator>>::empty())
        =~= Seq::<BinaryOperator>::empty());
    lemma_process_shape(tokens, Seq::empty(), Seq::empty());
    match spec_process(tokens, Seq::empty(), Seq::empty()) {
        Ok((ops, vals)) => {
            lemma_drain_shape(ops, vals);
        },
        Err(_) => {},
    }
}

/// The message of the error that rejects chaining `first` with `second`.
pub open spec fn chain_msg(first: BinaryOperator, second: BinaryOperator) -> Seq<char> {
    "Operators "@ + spec_symbol(first) + " and "@ + spec_symbol(second) + " cannot be chained"@
}

/// Builds the chaining error message for the two operators.
fn chain_error_message(first: &BinaryOperator, second: &BinaryOperator) -> (r: String)
    ensures
        r@ == chain_msg(*first, *second),
{
    let mut m = String::from_str("Operators ");
    let s1 = first.symbol();
    m.append(s1.as_str());
    m.append(" and ");
    let s2 = second.symbol();
    m.append(s2.as_str());
    m.append(" cannot be chained");
    proof {
        assert(m@ =~= chain_msg(*first, *second));
    }
    m
}

/// Assembles a single expression tree from the flat run of operands and
/// binary operators that the grammar hands over for one complex
/// expression, honouring operator precedence and associativity. Chaining
/// two non-associative operators of equal precedence is rejected with an
/// error naming both; a run that does not alternate operands and
/// operators is a grammar-shape error.
#[verifier::loop_isolation(false)]
pub fn build_binary_expression(tokens: Vec<BuilderToken>, span: &Span) -> (r: Result<
    AstPair<Expression>,
    Error,
>)
    ensures
        match spec_build(tokens@) {
            Ok(e) => r is Ok && r.unwrap() == e,
            Err(BuildFailure::Chained(a, b)) => {
                &&& r is Err
                &&& r.unwrap_err().kind == ErrorKind::OperatorChainingError
                &&& r.unwrap_err().message@ == chain_msg(a, b)
                &&& r.unwrap_err().span == *span
            },
            Err(BuildFailure::Malformed) => {
                &&& r is Err
                &&& r.unwrap_err().kind == ErrorKind::GrammarShapeMismatch
            },
        },
{
    let ghost full = tokens@;
    let mut tokens = tokens;
    let mut ops: Vec<AstPair<BinaryOperator>> = Vec::new();
    let mut vals: Vec<AstPair<Expression>> = Vec::new();
    proof {
        assert(ops@ =~= Seq::<AstPair<BinaryOperator>>::empty());
        assert(vals@ =~= Seq::<AstPair<Expression>>::empty());
    }
    while tokens.len() > 0
        invariant
            spec_process(full, Seq::empty(), Seq::empty()) == spec_process(
                tokens@,
                ops@,
                vals@,
            ),
        decreases tokens@.len(),
    {
        let ghost pre_tokens = tokens@;
        let ghost pre_ops = ops@;
        let ghost pre_vals = vals@;
        let tok = tokens.remove(0);
        proof {
            assert(tokens@ =~= pre_tokens.skip(1));
        }
        match tok {
            BuilderToken::Operand(e) => {
                vals.push(e);
            },
            BuilderToken::Operator(o1) => {
                let ghost st = spec_push_operator(o1, pre_ops, pre_vals);
                loop
                    invariant
                        spec_push_operator(o1, ops@, vals@) == st,
                    decreases ops@.len(),
                {
                    if ops.len() == 0 {
                        break;
                    }
                    let o1_prec = o1.1.precedence();
                    let o1_assoc = o1.1.associativity();
                    let top: usize = ops.len() - 1;
                    let o2_prec = ops[top].1.precedence();
                    let o2_assoc = ops[top].1.associativity();
                    if o1_prec == o2_prec && o1_assoc == Associativity::NonAssociative
                        && o2_assoc == Associativity::NonAssociative {
                        let msg = chain_error_message(&o1.1, &ops[top].1);
                        return Err(custom_error(ErrorKind::OperatorChainingError, span, msg));
                    }
                    if (o1_assoc != Associativity::Right && o1_prec == o2_prec) || o1_prec
                        < o2_prec {
                        let ghost in_ops = ops@;
                        let ghost in_vals = vals@;
                        let o2 = match ops.pop() {
                            Some(o) => o,
                            None => {
                                proof {
                                    assert(false);
                                }
                                return Err(
                                    custom_error(
                                        ErrorKind::GrammarShapeMismatch,
                                        span,
                                        String::from_str("operator stack underflow"),
                                    ),
                                );
                            },
                        };
                        if vals.len() < 2 {
                            return Err(
                                custom_error(
                                    ErrorKind::GrammarShapeMismatch,
                                    span,
                                    String::from_str("malformed expression"),
                                ),
                            );
                        }
                        let r_op = match vals.pop() {
                            Some(v) => v,
                            None => {
                                proof {
                                    assert(false);
                                }
                                return Err(
                                    custom_error(
                                        ErrorKind::GrammarShapeMismatch,
                                        span,
                                        String::from_str("operand stack underflow"),
                                    ),
                                );
                            },
                        };
                        let l_op = match vals.pop() {
                            Some(v) => v,
                            None => {
                                proof {
                                    assert(false);
                                }
                                return Err(
                                    custom_error(
                                        ErrorKind::GrammarShapeMismatch,
                                        span,
                                        String::from_str("operand stack underflow"),
                                    ),
                                );
                            },
                        };
                        let sp = o2.0.clone();
                        vals.push(
                            AstPair(
                                sp,
                                Expression::Binary {
                                    left_operand: Box::new(l_op),
                                    operator: Box::new(o2),
                                    right_operand: Box::new(r_op),
                                },
                            ),
                        );
                        proof {
                            assert(ops@ =~= in_ops.drop_last());
                            assert(vals@ =~= in_vals.drop_last().drop_last().push(
                                spec_combine(
                                    in_ops.last(),
                                    in_vals[in_vals.len() - 2],
                                    in_vals.last(),
                                ),
                            ));
                        }
                    } else {
                        break;
                    }
                }
                ops.push(o1);
            },
        }
    }
    let ghost st = spec_drain(ops@, vals@);
    proof {
        assert(spec_process(full, Seq::empty(), Seq::empty()) == Ok::<_, BuildFailure>(
            (ops@, vals@),
        ));
    }
    while ops.len() > 0
        invariant
            spec_drain(ops@, vals@) == st,
        decreases ops@.len(),
    {
        let ghost in_ops = ops@;
        let ghost in_vals = vals@;
        if vals.len() < 2 {
            return Err(
                custom_error(
                    ErrorKind::GrammarShapeMismatch,
                    span,
                    String::from_str("malformed expression"),
                ),
            );
        }
        let o2 = match ops.pop() {
            Some(o) => o,
            None => {
                proof {
                    assert(false);
                }
                return Err(
                    custom_error(
                        ErrorKind::GrammarShapeMismatch,
                        span,
                        String::from_str("operator stack underflow"),
                    ),
                );
            },
        };
        let r_op = match vals.pop() {
            Some(v) => v,
            None => {
                proof {
                    assert(false);
                }
                return Err(
                    custom_error(
                        ErrorKind::GrammarShapeMismatch,
                        span,
                        String::from_str("operand stack underflow"),
                    ),
                );
            },
        };
        let l_op = match vals.pop() {
            Some(v) => v,
            None => {
                proof {
                    assert(false);
                }
                return Err(
                    custom_error(
                        ErrorKind::GrammarShapeMismatch,
                        span,
                        String::from_str("operand stack underflow"),
                    ),
                );
            },
        };
        let sp = o2.0.clone();
        vals.push(
            AstPair(
                sp,
                Expression::Binary {
                    left_operand: Box::new(l_op),
                    operator: Box::new(o2),
                    right_operand: Box::new(r_op),
                },
            ),
        );
        proof {
            assert(ops@ =~= in_ops.drop_last());
            assert(vals@ =~= in_vals.drop_last().drop_last().push(
                spec_combine(in_ops.last(), in_vals[in_vals.len() - 2], in_vals.last()),
            ));
        }
    }
    if vals.len() == 1 {
        match vals.pop() {
            Some(v) => Ok(v),
            None => {
                proof {
                    assert(false);
                }
                Err(
                    custom_error(
                        ErrorKind::GrammarShapeMismatch,
                        span,
                        String::from_str("operand stack underflow"),
                    ),
                )
            },
        }
    } else {
        Err(
            custom_error(
                ErrorKind::GrammarShapeMismatch,
                span,
                String::from_str("malformed expression"),
            ),
        )
    }
}


/// For a run `a o1 b o2 c` where both operators are left-associative and
/// of equal precedence, the builder yields the left-deep tree
/// `(a o1 b) o2 c`.
pub proof fn lemma_left_associative_chain(
    a: AstPair<Expression>,
    b: AstPair<Expression>,
    c: AstPair<Expression>,
    o1: AstPair<BinaryOperator>,
    o2: AstPair<BinaryOperator>,
)
    requires
        spec_precedence(o1.1) == spec_precedence(o2.1),
        spec_associativity(o1.1) is Left,
        spec_associativity(o2.1) is Left,
    ensures
        spec_build(
            seq![
                BuilderToken::Operand(a),
                BuilderToken::Operator(o1),
                BuilderToken::Operand(b),
                BuilderToken::Operator(o2),
                BuilderToken::Operand(c),
            ],
        ) == Ok::<AstPair<Expression>, BuildFailure>(
            spec_combine(o2, spec_combine(o1, a, b), c),
        ),
{
    reveal_with_fuel(spec_process, 7);
    reveal_with_fuel(spec_push_operator, 4);
    reveal_with_fuel(spec_drain, 4);
    let t = seq![
        BuilderToken::Operand(a),
        BuilderToken::Operator(o1),
        BuilderToken::Operand(b),
        BuilderToken::Operator(o2),
        BuilderToken::Operand(c),
    ];
    let e_ops = Seq::<AstPair<BinaryOperator>>::empty();
    let e_vals = Seq::<AstPair<Expression>>::empty();
    let t1 = t.skip(1);
    let t2 = t.skip(2);
    let t3 = t.skip(3);
    let t4 = t.skip(4);
    let t5 = t.skip(5);
    assert(t1 =~= seq![
        BuilderToken::Operator(o1),
        BuilderToken::Operand(b),
        BuilderToken::Operator(o2),
        BuilderToken::Operand(c),
    ]);
    assert(t1.skip(1) =~= t2);
    assert(t2.skip(1) =~= t3);
    assert(t3.skip(1) =~= t4);
    assert(t4.skip(1) =~= t5);
    assert(t5.len() == 0);
    let va = e_vals.push(a);
    assert(spec_process(t, e_ops, e_vals) == spec_process(t1, e_ops, va));
    let ops1 = e_ops.push(o1);
    assert(spec_push_operator(o1, e_ops, va) == Ok::<_, BuildFailure>((ops1, va)));
    assert(spec_process(t1, e_ops, va) == spec_process(t2, ops1, va));
    let vab = va.push(b);
    assert(spec_process(t2, ops1, va) == spec_process(t3, ops1, vab));
    let ab = spec_combine(o1, a, b);
    assert(vab[vab.len() - 2] == a && vab.last() == b);
    assert(ops1.drop_last() =~= e_ops);
    assert(vab.drop_last().drop_last().push(ab) =~= e_vals.push(ab));
    let ops2 = e_ops.push(o2);
    assert(spec_push_operator(o2, ops1, vab) == spec_push_operator(o2, e_ops, e_vals.push(ab)));
    assert(spec_push_operator(o2, e_ops, e_vals.push(ab)) == Ok::<_, BuildFailure>(
        (ops2, e_vals.push(ab)),
    ));
    assert(spec_process(t3, ops1, vab) == spec_process(t4, ops2, e_vals.push(ab)));
    let vabc = e_vals.push(ab).push(c);
    assert(spec_process(t4, ops2, e_vals.push(ab)) == spec_process(t5, ops2, vabc));
    assert(spec_process(t5, ops2, vabc) == Ok::<_, BuildFailure>((ops2, vabc)));
    let fin = spec_combine(o2, ab, c);
    assert(vabc[vabc.len() - 2] == ab && vabc.last() == c);
    assert(ops2.drop_last() =~= e_ops);
    assert(vabc.drop_last().drop_last().push(fin) =~= e_vals.push(fin));
    assert(spec_drain(ops2, vabc) == spec_drain(e_ops, e_vals.push(fin)));
    assert(spec_drain(e_ops, e_vals.push(fin)) == Ok::<AstPair<Expression>, BuildFailure>(fin));
}

/// For a run `a o1 b o2 c` where the second operator is right-associative
/// at equal precedence (as when one right-associative operator is
/// chained), the builder yields the right-deep tree `a o1 (b o2 c)`.
pub proof fn lemma_right_associative_chain(
    a: AstPair<Expression>,
    b: AstPair<Expression>,
    c: AstPair<Expression>,
    o1: AstPair<BinaryOperator>,
    o2: AstPair<BinaryOperator>,
)
    requires
        spec_precedence(o1.1) == spec_precedence(o2.1),
        spec_associativity(o2.1) is Right,
    ensures
        spec_build(
            seq![
                BuilderToken::Operand(a),
                BuilderToken::Operator(o1),
                BuilderToken::Operand(b),
                BuilderToken::Operator(o2),
                BuilderToken::Operand(c),
            ],
        ) == Ok::<AstPair<Expression>, BuildFailure>(
            spec_combine(o1, a, spec_combine(o2, b, c)),
        ),
{
    reveal_with_fuel(spec_process, 7);
    reveal_with_fuel(spec_push_operator, 4);
    reveal_with_fuel(spec_drain, 4);
    let t = seq![
        BuilderToken::Operand(a),
        BuilderToken::Operator(o1),
        BuilderToken::Operand(b),
        BuilderToken::Operator(o2),
        BuilderToken::Operand(c),
    ];
    let e_ops = Seq::<AstPair<BinaryOperator>>::empty();
    let e_vals = Seq::<AstPair<Expression>>::empty();
    let t1 = t.skip(1);
    let t2 = t.skip(2);
    let t3 = t.skip(3);
    let t4 = t.skip(4);
    let t5 = t.skip(5);
    assert(t1 =~= seq![
        BuilderToken::Operator(o1),
        BuilderToken::Operand(b),
        BuilderToken::Operator(o2),
        BuilderToken::Operand(c),
    ]);
    assert(t1.skip(1) =~= t2);
    assert(t2.skip(1) =~= t3);
    assert(t3.skip(1) =~= t4);
    assert(t4.skip(1) =~= t5);
    assert(t5.len() == 0);
    let va = e_vals.push(a);
    assert(spec_process(t, e_ops, e_vals) == spec_process(t1, e_ops, va));
    let ops1 = e_ops.push(o1);
    assert(spec_push_operator(o1, e_ops, va) == Ok::<_, BuildFailure>((ops1, va)));
    assert(spec_process(t1, e_ops, va) == spec_process(t2, ops1, va));
    let vab = va.push(b);
    assert(spec_process(t2, ops1, va) == spec_process(t3, ops1, vab));
    assert(ops1.last() == o1);
    let ops12 = ops1.push(o2);
    assert(spec_push_operator(o2, ops1, vab) == Ok::<_, BuildFailure>((ops12, vab)));
    assert(spec_process(t3, ops1, vab) == spec_process(t4, ops12, vab));
    let vabc = vab.push(c);
    assert(spec_process(t4, ops12, vab) == spec_process(t5, ops12, vabc));
    assert(spec_process(t5, ops12, vabc) == Ok::<_, BuildFailure>((ops12, vabc)));
    let bc = spec_combine(o2, b, c);
    assert(vabc[vabc.len() - 2] == b && vabc.last() == c);
    assert(ops12.drop_last() =~= ops1);
    assert(vabc.drop_last().drop_last().push(bc) =~= va.push(bc));
    assert(spec_drain(ops12, vabc) == spec_drain(ops1, va.push(bc)));
    let fin = spec_combine(o1, a, bc);
    let vbc = va.push(bc);
    assert(vbc[vbc.len() - 2] == a && vbc.last() == bc);
    assert(ops1.drop_last() =~= e_ops);
    assert(vbc.drop_last().drop_last().push(fin) =~= e_vals.push(fin));
    assert(spec_drain(ops1, vbc) == spec_drain(e_ops, e_vals.push(fin)));
    assert(spec_drain(e_ops, e_vals.push(fin)) == Ok::<AstPair<Expression>, BuildFailure>(fin));
}

/// Chaining two non-associative operators of equal precedence (such as
/// two comparison operators) is rejected, and the failure names the later
/// operator first and the earlier one second.
pub proof fn lemma_non_associative_chain_rejected(
    a: AstPair<Expression>,
    b: AstPair<Expression>,
    c: AstPair<Expression>,
    o1: AstPair<BinaryOperator>,
    o2: AstPair<BinaryOperator>,
)
    requires
        spec_precedence(o1.1) == spec_precedence(o2.1),
        spec_associativity(o1.1) is NonAssociative,
        spec_associativity(o2.1) is NonAssociative,
    ensures
        spec_build(
            seq![
                BuilderToken::Operand(a),
                BuilderToken::Operator(o1),
                BuilderToken::Operand(b),
                BuilderToken::Operator(o2),
                BuilderToken::Operand(c),
            ],
        ) == Err::<AstPair<Expression>, BuildFailure>(BuildFailure::Chained(o2.1, o1.1)),
{
    reveal_with_fuel(spec_process, 7);
    reveal_with_fuel(spec_push_operator, 4);
    let t = seq![
        BuilderToken::Operand(a),
        BuilderToken::Operator(o1),
        BuilderToken::Operand(b),
        BuilderToken::Operator(o2),
        BuilderToken::Operand(c),
    ];
    let e_ops = Seq::<AstPair<BinaryOperator>>::empty();
    let e_vals = Seq::<AstPair<Expression>>::empty();
    let t1 = t.skip(1);
    let t2 = t.skip(2);
    let t3 = t.skip(3);
    assert(t1 =~= seq![
        BuilderToken::Operator(o1),
        BuilderToken::Operand(b),
        BuilderToken::Operator(o2),
        BuilderToken::Operand(c),
    ]);
    assert(t1.skip(1) =~= t2);
    assert(t2.skip(1) =~= t3);
    let va = e_vals.push(a);
    assert(spec_process(t, e_ops, e_vals) == spec_process(t1, e_ops, va));
    let ops1 = e_ops.push(o1);
    assert(spec_push_operator(o1, e_ops, va) == Ok::<_, BuildFailure>((ops1, va)));
    assert(spec_process(t1, e_ops, va) == spec_process(t2, ops1, va));
    let vab = va.push(b);
    assert(spec_process(t2, ops1, va) == spec_process(t3, ops1, vab));
    assert(ops1.last() == o1);
    assert(spec_push_operator(o2, ops1, vab) == Err::<
        (Seq<AstPair<BinaryOperator>>, Seq<AstPair<Expression>>),
        BuildFailure,
    >(BuildFailure::Chained(o2.1, o1.1)));
}

} // verus!
