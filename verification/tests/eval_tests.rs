use nois::ast::{Assignee, BinaryOperator, Block, Expression, FunctionCall, FunctionInit, Identifier, MatchClause, Operand, PatternItem, Statement, UnaryOperator};
use nois::context::Context;
use nois::error::ErrorKind;
use nois::evaluate::{call_named, eval_block, eval_expression};
use nois::span::{AstPair, Span};
use nois::stdlib::lib::stdlib;
use nois::value::Value;

fn sp() -> Span {
    Span::new(String::new(), 0, 0)
}

fn ctx_with_stdlib() -> Context {
    let mut ctx = Context::new(100_000);
    for package in stdlib() {
        for (name, definition) in package.definitions {
            ctx.define(name, definition);
        }
    }
    ctx
}

fn operand(o: Operand) -> AstPair<Expression> {
    AstPair(sp(), Expression::Operand(Box::new(AstPair(sp(), o))))
}

fn binary(l: AstPair<Expression>, op: BinaryOperator, r: AstPair<Expression>) -> AstPair<Expression> {
    AstPair(
        sp(),
        Expression::Binary {
            left_operand: Box::new(l),
            operator: Box::new(AstPair(sp(), op)),
            right_operand: Box::new(r),
        },
    )
}

fn ints(ns: &[i128]) -> Value {
    Value::list(ns.iter().map(|n| Value::I(*n)).collect())
}

#[test]
fn addition_dispatches_through_the_stdlib() {
    let mut ctx = ctx_with_stdlib();
    let e = binary(operand(Operand::Integer(2)), BinaryOperator::Add, operand(Operand::Integer(3)));
    let out = eval_expression(&e, &mut ctx).unwrap();
    assert!(out.1.strict_eq(&Value::I(5)));
}

#[test]
fn equality_dispatches_through_the_stdlib() {
    let mut ctx = ctx_with_stdlib();
    let e = binary(
        operand(Operand::Integer(2)),
        BinaryOperator::Equals,
        operand(Operand::Integer(2)),
    );
    let out = eval_expression(&e, &mut ctx).unwrap();
    assert!(out.1.strict_eq(&Value::B(true)));
}

#[test]
fn unknown_operator_is_an_unknown_identifier() {
    let mut ctx = ctx_with_stdlib();
    let e = binary(
        operand(Operand::Integer(2)),
        BinaryOperator::Multiply,
        operand(Operand::Integer(3)),
    );
    let err = eval_expression(&e, &mut ctx).unwrap_err();
    assert_eq!(err.kind, ErrorKind::UnknownIdentifier);
}

#[test]
fn range_builds_a_list() {
    let mut ctx = ctx_with_stdlib();
    let args = vec![AstPair(sp(), Value::I(3))];
    let out = call_named(&Identifier::new("range".to_string()), args, &sp(), None, &mut ctx)
        .unwrap();
    assert!(out.1.strict_eq(&ints(&[0, 1, 2])));
    let args2 = vec![AstPair(sp(), Value::I(2)), AstPair(sp(), Value::I(5))];
    let out2 = call_named(&Identifier::new("range".to_string()), args2, &sp(), None, &mut ctx)
        .unwrap();
    assert!(out2.1.strict_eq(&ints(&[2, 3, 4])));
}

#[test]
fn spread_marks_and_list_literal_flattens() {
    let mut ctx = ctx_with_stdlib();
    // [1, ..[2, 3], 4] evaluates to [1, 2, 3, 4]
    let spread = AstPair(
        sp(),
        Expression::Unary {
            operator: Box::new(AstPair(sp(), UnaryOperator::Spread)),
            operand: Box::new(operand(Operand::ListInit {
                items: vec![operand(Operand::Integer(2)), operand(Operand::Integer(3))],
            })),
        },
    );
    let e = operand(Operand::ListInit {
        items: vec![operand(Operand::Integer(1)), spread, operand(Operand::Integer(4))],
    });
    let out = eval_expression(&e, &mut ctx).unwrap();
    assert!(out.1.strict_eq(&ints(&[1, 2, 3, 4])));
}

#[test]
fn match_expression_takes_the_first_matching_clause() {
    let mut ctx = ctx_with_stdlib();
    let clause = |pattern: PatternItem, result: i128| {
        AstPair(
            sp(),
            MatchClause {
                pattern: AstPair(sp(), pattern),
                block: AstPair(
                    sp(),
                    Block {
                        statements: vec![AstPair(
                            sp(),
                            Statement::Expression(operand(Operand::Integer(result))),
                        )],
                    },
                ),
            },
        )
    };
    let e = AstPair(
        sp(),
        Expression::MatchExpression {
            condition: Box::new(operand(Operand::Integer(2))),
            match_clauses: vec![
                clause(PatternItem::Integer(1), 10),
                clause(PatternItem::Integer(2), 20),
                clause(PatternItem::Hole, 30),
            ],
        },
    );
    let out = eval_expression(&e, &mut ctx).unwrap();
    assert!(out.1.strict_eq(&Value::I(20)));
}

#[test]
fn match_without_a_matching_clause_is_exhausted() {
    let mut ctx = ctx_with_stdlib();
    let e = AstPair(
        sp(),
        Expression::MatchExpression {
            condition: Box::new(operand(Operand::Integer(2))),
            match_clauses: vec![AstPair(
                sp(),
                MatchClause {
                    pattern: AstPair(sp(), PatternItem::Integer(9)),
                    block: AstPair(
                        sp(),
                        Block {
                            statements: vec![AstPair(
                                sp(),
                                Statement::Expression(operand(Operand::Integer(1))),
                            )],
                        },
                    ),
                },
            )],
        },
    );
    let err = eval_expression(&e, &mut ctx).unwrap_err();
    assert_eq!(err.kind, ErrorKind::MatchExhausted);
}

#[test]
fn unknown_identifier_reports_its_name() {
    let mut ctx = ctx_with_stdlib();
    let e = operand(Operand::Identifier(AstPair(sp(), Identifier::new("nope".to_string()))));
    let err = eval_expression(&e, &mut ctx).unwrap_err();
    assert_eq!(err.kind, ErrorKind::UnknownIdentifier);
    assert_eq!(err.message, "unknown identifier: nope");
}

#[test]
fn map_applies_a_function_to_each_element() {
    let mut ctx = ctx_with_stdlib();
    // map([1, 2, 3], fn(x) { x + x })
    let body = binary(
        operand(Operand::Identifier(AstPair(sp(), Identifier::new("x".to_string())))),
        BinaryOperator::Add,
        operand(Operand::Identifier(AstPair(sp(), Identifier::new("x".to_string())))),
    );
    let f = FunctionInit {
        parameters: vec![AstPair(
            sp(),
            Assignee::Identifier(AstPair(sp(), Identifier::new("x".to_string()))),
        )],
        block: AstPair(
            sp(),
            Block { statements: vec![AstPair(sp(), Statement::Expression(body))] },
        ),
    };
    let call = operand(Operand::FunctionCall(FunctionCall {
        identifier: AstPair(sp(), Identifier::new("map".to_string())),
        arguments: vec![
            operand(Operand::ListInit {
                items: vec![
                    operand(Operand::Integer(1)),
                    operand(Operand::Integer(2)),
                    operand(Operand::Integer(3)),
                ],
            }),
            operand(Operand::FunctionInit(f)),
        ],
    }));
    let out = eval_expression(&call, &mut ctx).unwrap();
    assert!(out.1.strict_eq(&ints(&[2, 4, 6])));
}

#[test]
fn evaluation_budget_runs_out_gracefully() {
    let mut ctx = Context::new(2);
    let e = binary(operand(Operand::Integer(2)), BinaryOperator::Add, operand(Operand::Integer(3)));
    let err = eval_expression(&e, &mut ctx).unwrap_err();
    assert_eq!(err.kind, ErrorKind::RecursionLimit);
}

#[test]
fn method_call_prepends_the_receiver() {
    let mut ctx = ctx_with_stdlib();
    // [1, 2].map(fn(x) { x + x }) is not registered as a method here, but
    // range(3).equals-style dispatch goes through the accessor: 5 . ==(5)
    let call = AstPair(
        sp(),
        Expression::Binary {
            left_operand: Box::new(operand(Operand::Integer(5))),
            operator: Box::new(AstPair(sp(), BinaryOperator::Accessor)),
            right_operand: Box::new(operand(Operand::FunctionCall(FunctionCall {
                identifier: AstPair(sp(), Identifier::new("==".to_string())),
                arguments: vec![operand(Operand::Integer(5))],
            }))),
        },
    );
    let out = eval_expression(&call, &mut ctx).unwrap();
    assert!(out.1.strict_eq(&Value::B(true)));
}

#[test]
fn calling_a_plain_value_fails_to_resolve_a_callee() {
    let mut ctx = ctx_with_stdlib();
    ctx.define(
        Identifier::new("three".to_string()),
        nois::context::Definition::Value(AstPair(sp(), Value::I(3))),
    );
    let err = call_named(&Identifier::new("three".to_string()), vec![], &sp(), None, &mut ctx)
        .unwrap_err();
    assert_eq!(err.kind, ErrorKind::ArityOrCalleeResolutionError);
}

#[test]
fn late_bindings_are_evaluated_on_lookup() {
    let mut ctx = ctx_with_stdlib();
    let stored = binary(
        operand(Operand::Integer(1)),
        BinaryOperator::Add,
        operand(Operand::Integer(2)),
    );
    ctx.define(
        Identifier::new("x".to_string()),
        nois::context::Definition::User(
            AstPair(sp(), Identifier::new("x".to_string())),
            stored,
        ),
    );
    let e = operand(Operand::Identifier(AstPair(sp(), Identifier::new("x".to_string()))));
    let out = eval_expression(&e, &mut ctx).unwrap();
    assert!(out.1.strict_eq(&Value::I(3)));
    // The lookup re-evaluates each time.
    let again = eval_expression(&e, &mut ctx).unwrap();
    assert!(again.1.strict_eq(&Value::I(3)));
}

#[test]
fn destructuring_assignment_installs_bindings_in_the_block() {
    let mut ctx = ctx_with_stdlib();
    // [a, b] = [1, 2]; a + b
    let assignee = AstPair(
        sp(),
        nois::ast::Assignee::DestructureList(vec![
            AstPair(
                sp(),
                nois::ast::DestructureItem::Identifier {
                    identifier: AstPair(sp(), Identifier::new("a".to_string())),
                    spread: false,
                },
            ),
            AstPair(
                sp(),
                nois::ast::DestructureItem::Identifier {
                    identifier: AstPair(sp(), Identifier::new("b".to_string())),
                    spread: false,
                },
            ),
        ]),
    );
    let assignment = AstPair(
        sp(),
        Statement::Assignment {
            assignee,
            expression: operand(Operand::ListInit {
                items: vec![operand(Operand::Integer(1)), operand(Operand::Integer(2))],
            }),
        },
    );
    let sum = AstPair(
        sp(),
        Statement::Expression(binary(
            operand(Operand::Identifier(AstPair(sp(), Identifier::new("a".to_string())))),
            BinaryOperator::Add,
            operand(Operand::Identifier(AstPair(sp(), Identifier::new("b".to_string())))),
        )),
    );
    let block = AstPair(sp(), Block { statements: vec![assignment, sum] });
    let out = eval_block(&block, &mut ctx).unwrap();
    assert!(out.1.strict_eq(&Value::I(3)));
}
