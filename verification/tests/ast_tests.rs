use nois::ast::{Assignee, BinaryOperator, Block, DestructureItem, Expression, Operand, PatternItem, Statement, UnaryOperator};
use nois::ast_parser::{parse_file, parse_statement};
use nois::parse_tree::{ParseNode, Rule};
use nois::span::{AstPair, Span};

fn sp(text: &str) -> Span {
    Span::new(text.to_string(), 0, text.len())
}

fn node(rule: Rule, text: &str, children: Vec<ParseNode>) -> ParseNode {
    ParseNode::new(rule, sp(text), children)
}

fn leaf(rule: Rule, text: &str) -> ParseNode {
    ParseNode::leaf(rule, sp(text))
}

fn program(children: Vec<ParseNode>) -> ParseNode {
    node(Rule::Program, "", vec![node(Rule::Block, "", children)])
}

fn expr_stmt(children: Vec<ParseNode>) -> ParseNode {
    node(Rule::Expression, "", children)
}

fn ident(name: &str) -> ParseNode {
    leaf(Rule::Identifier, name)
}

fn bin_op(symbol: &str) -> ParseNode {
    leaf(Rule::BinaryOperator, symbol)
}

fn call(name: &str, args: Vec<ParseNode>) -> ParseNode {
    node(Rule::FunctionCall, name, vec![ident(name), node(Rule::ArgumentList, "", args)])
}

fn stmt_operand(stmt: &AstPair<Statement>) -> &Operand {
    match &stmt.1 {
        Statement::Expression(e) => match &e.1 {
            Expression::Operand(o) => &o.1,
            other => panic!("expected an operand, found {:?}", other),
        },
        other => panic!("expected an expression statement, found {:?}", other),
    }
}

fn expr_of(stmt: &AstPair<Statement>) -> &Expression {
    match &stmt.1 {
        Statement::Expression(e) => &e.1,
        other => panic!("expected an expression statement, found {:?}", other),
    }
}

fn ident_name(e: &Expression) -> &str {
    match e {
        Expression::Operand(o) => match &o.1 {
            Operand::Identifier(i) => i.1.0.as_str(),
            other => panic!("expected an identifier, found {:?}", other),
        },
        other => panic!("expected an operand, found {:?}", other),
    }
}

fn binary_parts(e: &Expression) -> (&Expression, BinaryOperator, &Expression) {
    match e {
        Expression::Binary { left_operand, operator, right_operand } => {
            (&left_operand.1, operator.1, &right_operand.1)
        }
        other => panic!("expected a binary expression, found {:?}", other),
    }
}

#[test]
fn build_ast_empty_block() {
    let file = program(vec![]);
    let block = parse_file(&file).unwrap().1;
    assert!(block.statements.is_empty());
}

#[test]
fn build_ast_number() {
    let file = program(vec![
        expr_stmt(vec![leaf(Rule::Integer, "1")]),
        expr_stmt(vec![leaf(Rule::Float, "12.5")]),
        expr_stmt(vec![leaf(Rule::Float, "1e21")]),
    ]);
    let block = parse_file(&file).unwrap().1;
    assert_eq!(block.statements.len(), 3);
    match stmt_operand(&block.statements[0]) {
        Operand::Integer(n) => assert_eq!(*n, 1),
        other => panic!("expected an integer, found {:?}", other),
    }
    match stmt_operand(&block.statements[1]) {
        Operand::Float(fb) => assert_eq!(fb.bits, (12.5f64).to_bits()),
        other => panic!("expected a float, found {:?}", other),
    }
    match stmt_operand(&block.statements[2]) {
        Operand::Float(fb) => assert_eq!(fb.bits, (1e21f64).to_bits()),
        other => panic!("expected a float, found {:?}", other),
    }
}

#[test]
fn build_ast_string() {
    let sources = vec![
        "\"\"",
        "''",
        "\"a\"",
        "\"a\\nb\"",
        "'a'",
        "'a\\\\\\n\\r\\tb'",
        "'a\\u1234bc'",
        "'hey 😎'",
    ];
    let expected = vec![
        "",
        "",
        "a",
        "a\nb",
        "a",
        "a\\\n\r\tb",
        "a\u{1234}bc",
        "hey 😎",
    ];
    let file = program(
        sources
            .iter()
            .map(|s| expr_stmt(vec![leaf(Rule::StringLiteral, s)]))
            .collect(),
    );
    let block = parse_file(&file).unwrap().1;
    assert_eq!(block.statements.len(), 8);
    for (i, want) in expected.iter().enumerate() {
        match stmt_operand(&block.statements[i]) {
            Operand::String(s) => assert_eq!(s, want),
            other => panic!("expected a string, found {:?}", other),
        }
    }
}

#[test]
fn build_ast_list_init() {
    let lists = vec![
        vec![],
        vec![],
        vec![],
        vec![expr_stmt(vec![leaf(Rule::Integer, "1")])],
        vec![
            expr_stmt(vec![leaf(Rule::Integer, "1")]),
            expr_stmt(vec![leaf(Rule::Integer, "2")]),
            expr_stmt(vec![leaf(Rule::Integer, "3")]),
        ],
        vec![
            expr_stmt(vec![leaf(Rule::Integer, "1")]),
            expr_stmt(vec![leaf(Rule::Integer, "2")]),
            expr_stmt(vec![leaf(Rule::StringLiteral, "'abc'")]),
        ],
        vec![
            expr_stmt(vec![leaf(Rule::Integer, "1")]),
            expr_stmt(vec![leaf(Rule::Integer, "2")]),
            expr_stmt(vec![leaf(Rule::StringLiteral, "'abc'")]),
        ],
        vec![
            expr_stmt(vec![leaf(Rule::Integer, "1")]),
            expr_stmt(vec![leaf(Rule::Integer, "2")]),
            expr_stmt(vec![leaf(Rule::StringLiteral, "'abc'")]),
        ],
    ];
    let file = program(
        lists
            .into_iter()
            .map(|items| expr_stmt(vec![node(Rule::ListInit, "", items)]))
            .collect(),
    );
    let block = parse_file(&file).unwrap().1;
    assert_eq!(block.statements.len(), 8);
    let lens = vec![0usize, 0, 0, 1, 3, 3, 3, 3];
    for (i, want) in lens.iter().enumerate() {
        match stmt_operand(&block.statements[i]) {
            Operand::ListInit { items } => assert_eq!(items.len(), *want),
            other => panic!("expected a list literal, found {:?}", other),
        }
    }
    match stmt_operand(&block.statements[7]) {
        Operand::ListInit { items } => {
            match &items[0].1 {
                Expression::Operand(o) => assert!(matches!(o.1, Operand::Integer(1))),
                other => panic!("unexpected item {:?}", other),
            }
            match &items[1].1 {
                Expression::Operand(o) => assert!(matches!(o.1, Operand::Integer(2))),
                other => panic!("unexpected item {:?}", other),
            }
            match &items[2].1 {
                Expression::Operand(o) => match &o.1 {
                    Operand::String(s) => assert_eq!(s, "abc"),
                    other => panic!("unexpected item {:?}", other),
                },
                other => panic!("unexpected item {:?}", other),
            }
        }
        other => panic!("expected a list literal, found {:?}", other),
    }
}

#[test]
fn build_ast_struct_init() {
    let mk = || {
        expr_stmt(vec![node(
            Rule::StructDefine,
            "",
            vec![ident("a"), ident("b"), ident("c")],
        )])
    };
    let file = program(vec![mk(), mk()]);
    let block = parse_file(&file).unwrap().1;
    assert_eq!(block.statements.len(), 2);
    for stmt in &block.statements {
        match stmt_operand(stmt) {
            Operand::StructDefinition { fields } => assert_eq!(fields.len(), 3),
            other => panic!("expected a struct definition, found {:?}", other),
        }
    }
}

#[test]
fn build_ast_enum_init() {
    let mk = || {
        expr_stmt(vec![node(
            Rule::EnumDefine,
            "",
            vec![ident("A"), ident("B"), ident("C")],
        )])
    };
    let file = program(vec![mk(), mk()]);
    let block = parse_file(&file).unwrap().1;
    assert_eq!(block.statements.len(), 2);
    for stmt in &block.statements {
        match stmt_operand(stmt) {
            Operand::EnumDefinition { values } => assert_eq!(values.len(), 3),
            other => panic!("expected an enum definition, found {:?}", other),
        }
    }
}

#[test]
fn build_ast_complex_expression_basic() {
    let file = program(vec![expr_stmt(vec![
        ident("a"),
        bin_op("+"),
        ident("b"),
        bin_op("*"),
        ident("c"),
    ])]);
    let block = parse_file(&file).unwrap();
    let e = expr_of(&block.1.statements[0]);
    let (l, op, r) = binary_parts(e);
    assert_eq!(op, BinaryOperator::Add);
    assert_eq!(ident_name(l), "a");
    let (rl, rop, rr) = binary_parts(r);
    assert_eq!(rop, BinaryOperator::Multiply);
    assert_eq!(ident_name(rl), "b");
    assert_eq!(ident_name(rr), "c");
}

#[test]
fn build_ast_complex_expression_left_associative() {
    let file = program(vec![expr_stmt(vec![
        ident("a"),
        bin_op("+"),
        ident("b"),
        bin_op("-"),
        ident("c"),
    ])]);
    let block = parse_file(&file).unwrap();
    let e = expr_of(&block.1.statements[0]);
    let (l, op, r) = binary_parts(e);
    assert_eq!(op, BinaryOperator::Subtract);
    assert_eq!(ident_name(r), "c");
    let (ll, lop, lr) = binary_parts(l);
    assert_eq!(lop, BinaryOperator::Add);
    assert_eq!(ident_name(ll), "a");
    assert_eq!(ident_name(lr), "b");
}

#[test]
fn build_ast_complex_expression_right_associative() {
    let file = program(vec![expr_stmt(vec![
        ident("a"),
        bin_op("&&"),
        ident("b"),
        bin_op("&&"),
        ident("c"),
    ])]);
    let block = parse_file(&file).unwrap();
    let e = expr_of(&block.1.statements[0]);
    let (l, op, r) = binary_parts(e);
    assert_eq!(op, BinaryOperator::And);
    assert_eq!(ident_name(l), "a");
    let (rl, rop, rr) = binary_parts(r);
    assert_eq!(rop, BinaryOperator::And);
    assert_eq!(ident_name(rl), "b");
    assert_eq!(ident_name(rr), "c");
}

#[test]
fn build_ast_complex_expression_long() {
    // (a + b) * "abc".len() ^ 12 ^ 3 - foo(c)
    let paren = expr_stmt(vec![ident("a"), bin_op("+"), ident("b")]);
    let file = program(vec![expr_stmt(vec![
        paren,
        bin_op("*"),
        leaf(Rule::StringLiteral, "\"abc\""),
        bin_op("."),
        call("len", vec![]),
        bin_op("^"),
        leaf(Rule::Integer, "12"),
        bin_op("^"),
        leaf(Rule::Integer, "3"),
        bin_op("-"),
        call("foo", vec![expr_stmt(vec![ident("c")])]),
    ])]);
    let block = parse_file(&file).unwrap();
    let e = expr_of(&block.1.statements[0]);
    // Root is the subtraction.
    let (l, op, r) = binary_parts(e);
    assert_eq!(op, BinaryOperator::Subtract);
    match r {
        Expression::Operand(o) => match &o.1 {
            Operand::FunctionCall(fc) => {
                assert_eq!(fc.identifier.1.0, "foo");
                assert_eq!(fc.arguments.len(), 1);
            }
            other => panic!("expected a call, found {:?}", other),
        },
        other => panic!("expected an operand, found {:?}", other),
    }
    // Left of the subtraction: (a + b) * (("abc" . len()) ^ (12 ^ 3))
    let (ml, mop, mr) = binary_parts(l);
    assert_eq!(mop, BinaryOperator::Multiply);
    let (al, aop, ar) = binary_parts(ml);
    assert_eq!(aop, BinaryOperator::Add);
    assert_eq!(ident_name(al), "a");
    assert_eq!(ident_name(ar), "b");
    let (el, eop, er) = binary_parts(mr);
    assert_eq!(eop, BinaryOperator::Exponent);
    let (sl, sop, sr) = binary_parts(el);
    assert_eq!(sop, BinaryOperator::Accessor);
    match sl {
        Expression::Operand(o) => match &o.1 {
            Operand::String(s) => assert_eq!(s, "abc"),
            other => panic!("expected a string, found {:?}", other),
        },
        other => panic!("expected an operand, found {:?}", other),
    }
    match sr {
        Expression::Operand(o) => match &o.1 {
            Operand::FunctionCall(fc) => assert_eq!(fc.identifier.1.0, "len"),
            other => panic!("expected a call, found {:?}", other),
        },
        other => panic!("expected an operand, found {:?}", other),
    }
    let (xl, xop, xr) = binary_parts(er);
    assert_eq!(xop, BinaryOperator::Exponent);
    match xl {
        Expression::Operand(o) => assert!(matches!(o.1, Operand::Integer(12))),
        other => panic!("expected an operand, found {:?}", other),
    }
    match xr {
        Expression::Operand(o) => assert!(matches!(o.1, Operand::Integer(3))),
        other => panic!("expected an operand, found {:?}", other),
    }
}

#[test]
fn build_ast_complex_expression_chain_methods() {
    let file = program(vec![expr_stmt(vec![
        ident("a"),
        bin_op("."),
        call("foo", vec![]),
        bin_op("."),
        call("bar", vec![expr_stmt(vec![ident("b")])]),
    ])]);
    let block = parse_file(&file).unwrap();
    let e = expr_of(&block.1.statements[0]);
    let (l, op, r) = binary_parts(e);
    assert_eq!(op, BinaryOperator::Accessor);
    match r {
        Expression::Operand(o) => match &o.1 {
            Operand::FunctionCall(fc) => {
                assert_eq!(fc.identifier.1.0, "bar");
                assert_eq!(fc.arguments.len(), 1);
            }
            other => panic!("expected a call, found {:?}", other),
        },
        other => panic!("expected an operand, found {:?}", other),
    }
    let (ll, lop, lr) = binary_parts(l);
    assert_eq!(lop, BinaryOperator::Accessor);
    assert_eq!(ident_name(ll), "a");
    match lr {
        Expression::Operand(o) => match &o.1 {
            Operand::FunctionCall(fc) => {
                assert_eq!(fc.identifier.1.0, "foo");
                assert_eq!(fc.arguments.len(), 0);
            }
            other => panic!("expected a call, found {:?}", other),
        },
        other => panic!("expected an operand, found {:?}", other),
    }
}

#[test]
fn build_ast_complex_expression_non_associative_fail() {
    let file = program(vec![expr_stmt(vec![
        ident("a"),
        bin_op("=="),
        ident("b"),
        bin_op("<="),
        ident("c"),
    ])]);
    let err = parse_file(&file).unwrap_err();
    assert_eq!(err.message, "Operators <= and == cannot be chained");
}

#[test]
fn build_ast_unary_expression() {
    // -2
    let neg_two = node(
        Rule::UnaryExpression,
        "-2",
        vec![leaf(Rule::UnaryOperator, "-"), expr_stmt(vec![leaf(Rule::Integer, "2")])],
    );
    // (+a + -b)
    let plus_a = node(
        Rule::UnaryExpression,
        "+a",
        vec![leaf(Rule::UnaryOperator, "+"), expr_stmt(vec![ident("a")])],
    );
    let minus_b = node(
        Rule::UnaryExpression,
        "-b",
        vec![leaf(Rule::UnaryOperator, "-"), expr_stmt(vec![ident("b")])],
    );
    let sum = expr_stmt(vec![plus_a, bin_op("+"), minus_b]);
    let file = program(vec![expr_stmt(vec![neg_two]), sum]);
    let block = parse_file(&file).unwrap();
    match expr_of(&block.1.statements[0]) {
        Expression::Unary { operator, operand } => {
            assert_eq!(operator.1, UnaryOperator::Minus);
            match &operand.1 {
                Expression::Operand(o) => assert!(matches!(o.1, Operand::Integer(2))),
                other => panic!("expected an operand, found {:?}", other),
            }
        }
        other => panic!("expected a unary expression, found {:?}", other),
    }
    let (l, op, r) = binary_parts(expr_of(&block.1.statements[1]));
    assert_eq!(op, BinaryOperator::Add);
    match l {
        Expression::Unary { operator, .. } => assert_eq!(operator.1, UnaryOperator::Plus),
        other => panic!("expected a unary expression, found {:?}", other),
    }
    match r {
        Expression::Unary { operator, .. } => assert_eq!(operator.1, UnaryOperator::Minus),
        other => panic!("expected a unary expression, found {:?}", other),
    }
}

fn clause(pattern: ParseNode, body: Vec<ParseNode>) -> ParseNode {
    node(Rule::MatchClause, "", vec![pattern, node(Rule::Block, "", body)])
}

fn pattern_of(item: ParseNode) -> ParseNode {
    node(Rule::PatternItem, "", vec![item])
}

#[test]
fn build_ast_match_expression_basic() {
    let m = node(
        Rule::MatchExpression,
        "",
        vec![
            expr_stmt(vec![ident("a")]),
            clause(pattern_of(leaf(Rule::Integer, "1")), vec![expr_stmt(vec![ident("x")])]),
            clause(pattern_of(leaf(Rule::HoleOp, "_")), vec![expr_stmt(vec![call("panic", vec![])])]),
        ],
    );
    let file = program(vec![expr_stmt(vec![m])]);
    let block = parse_file(&file).unwrap();
    match expr_of(&block.1.statements[0]) {
        Expression::MatchExpression { condition, match_clauses } => {
            assert_eq!(ident_name(&condition.1), "a");
            assert_eq!(match_clauses.len(), 2);
            assert!(matches!(match_clauses[0].1.pattern.1, PatternItem::Integer(1)));
            assert!(matches!(match_clauses[1].1.pattern.1, PatternItem::Hole));
        }
        other => panic!("expected a match expression, found {:?}", other),
    }
}

#[test]
fn build_ast_match_expression_list() {
    let empty_list = pattern_of(node(Rule::PatternList, "", vec![]));
    let single = pattern_of(node(
        Rule::PatternList,
        "",
        vec![pattern_of(ident("a"))],
    ));
    let spreaded = pattern_of(node(
        Rule::PatternList,
        "",
        vec![
            pattern_of(ident("a")),
            pattern_of(leaf(Rule::HoleOp, "_")),
            node(Rule::PatternItem, "", vec![leaf(Rule::SpreadOp, ".."), ident("t")]),
        ],
    ));
    let m = node(
        Rule::MatchExpression,
        "",
        vec![
            expr_stmt(vec![ident("a")]),
            clause(empty_list, vec![expr_stmt(vec![ident("x")])]),
            clause(single, vec![expr_stmt(vec![ident("x")])]),
            clause(spreaded, vec![expr_stmt(vec![ident("x")])]),
            clause(pattern_of(leaf(Rule::HoleOp, "_")), vec![expr_stmt(vec![call("panic", vec![])])]),
        ],
    );
    let file = program(vec![expr_stmt(vec![m])]);
    let block = parse_file(&file).unwrap();
    match expr_of(&block.1.statements[0]) {
        Expression::MatchExpression { match_clauses, .. } => {
            assert_eq!(match_clauses.len(), 4);
            match &match_clauses[0].1.pattern.1 {
                PatternItem::PatternList(items) => assert_eq!(items.len(), 0),
                other => panic!("expected a pattern list, found {:?}", other),
            }
            match &match_clauses[1].1.pattern.1 {
                PatternItem::PatternList(items) => {
                    assert_eq!(items.len(), 1);
                    match &items[0].1 {
                        PatternItem::Identifier { identifier, spread } => {
                            assert_eq!(identifier.1.0, "a");
                            assert!(!*spread);
                        }
                        other => panic!("expected an identifier pattern, found {:?}", other),
                    }
                }
                other => panic!("expected a pattern list, found {:?}", other),
            }
            match &match_clauses[2].1.pattern.1 {
                PatternItem::PatternList(items) => {
                    assert_eq!(items.len(), 3);
                    assert!(matches!(items[1].1, PatternItem::Hole));
                    match &items[2].1 {
                        PatternItem::Identifier { identifier, spread } => {
                            assert_eq!(identifier.1.0, "t");
                            assert!(*spread);
                        }
                        other => panic!("expected a spread pattern, found {:?}", other),
                    }
                }
                other => panic!("expected a pattern list, found {:?}", other),
            }
            assert!(matches!(match_clauses[3].1.pattern.1, PatternItem::Hole));
        }
        other => panic!("expected a match expression, found {:?}", other),
    }
}

fn assignment(assignee_child: ParseNode) -> ParseNode {
    node(
        Rule::Assignment,
        "",
        vec![
            node(Rule::Assignee, "", vec![assignee_child]),
            expr_stmt(vec![node(Rule::ListInit, "", vec![])]),
        ],
    )
}

fn ditem(child: ParseNode) -> ParseNode {
    node(Rule::DestructureItem, "", vec![child])
}

fn dspread(name: &str) -> ParseNode {
    node(Rule::DestructureItem, "", vec![leaf(Rule::SpreadOp, ".."), ident(name)])
}

#[test]
fn build_ast_assignee() {
    let file = program(vec![
        assignment(ident("a")),
        assignment(node(Rule::DestructureList, "", vec![])),
        assignment(node(Rule::DestructureList, "", vec![ditem(ident("a"))])),
        assignment(node(Rule::DestructureList, "", vec![dspread("as")])),
        assignment(node(
            Rule::DestructureList,
            "",
            vec![ditem(ident("a")), ditem(ident("b"))],
        )),
        assignment(node(
            Rule::DestructureList,
            "",
            vec![ditem(ident("a")), ditem(ident("b")), dspread("cs")],
        )),
        assignment(leaf(Rule::HoleOp, "_")),
    ]);
    let block = parse_file(&file).unwrap();
    let assignees: Vec<&Assignee> = block
        .1
        .statements
        .iter()
        .map(|s| match &s.1 {
            Statement::Assignment { assignee, .. } => &assignee.1,
            other => panic!("expected an assignment, found {:?}", other),
        })
        .collect();
    match assignees[0] {
        Assignee::Identifier(i) => assert_eq!(i.1.0, "a"),
        other => panic!("expected an identifier target, found {:?}", other),
    }
    match assignees[1] {
        Assignee::DestructureList(items) => assert_eq!(items.len(), 0),
        other => panic!("expected a destructuring target, found {:?}", other),
    }
    match assignees[2] {
        Assignee::DestructureList(items) => {
            assert_eq!(items.len(), 1);
            match &items[0].1 {
                DestructureItem::Identifier { identifier, spread } => {
                    assert_eq!(identifier.1.0, "a");
                    assert!(!*spread);
                }
                other => panic!("expected an identifier element, found {:?}", other),
            }
        }
        other => panic!("expected a destructuring target, found {:?}", other),
    }
    match assignees[3] {
        Assignee::DestructureList(items) => {
            assert_eq!(items.len(), 1);
            match &items[0].1 {
                DestructureItem::Identifier { identifier, spread } => {
                    assert_eq!(identifier.1.0, "as");
                    assert!(*spread);
                }
                other => panic!("expected a spread element, found {:?}", other),
            }
        }
        other => panic!("expected a destructuring target, found {:?}", other),
    }
    match assignees[4] {
        Assignee::DestructureList(items) => assert_eq!(items.len(), 2),
        other => panic!("expected a destructuring target, found {:?}", other),
    }
    match assignees[5] {
        Assignee::DestructureList(items) => {
            assert_eq!(items.len(), 3);
            match &items[2].1 {
                DestructureItem::Identifier { identifier, spread } => {
                    assert_eq!(identifier.1.0, "cs");
                    assert!(*spread);
                }
                other => panic!("expected a spread element, found {:?}", other),
            }
        }
        other => panic!("expected a destructuring target, found {:?}", other),
    }
    match assignees[6] {
        Assignee::Hole => {}
        other => panic!("expected a hole target, found {:?}", other),
    }
    // A destructuring assignment parsed through `parse_statement` directly.
    let single = assignment(node(Rule::DestructureList, "", vec![ditem(ident("a"))]));
    assert!(parse_statement(&single).is_ok());
}

#[test]
fn chained_comparison_reports_the_chaining_kind() {
    let file = program(vec![expr_stmt(vec![
        ident("a"),
        bin_op("<"),
        ident("b"),
        bin_op(">"),
        ident("c"),
    ])]);
    let err = parse_file(&file).unwrap_err();
    assert_eq!(err.kind, nois::error::ErrorKind::OperatorChainingError);
    assert_eq!(err.message, "Operators > and < cannot be chained");
}

#[test]
fn an_unexpected_rule_is_a_grammar_shape_error() {
    let err = parse_file(&leaf(Rule::Integer, "1")).unwrap_err();
    assert_eq!(err.kind, nois::error::ErrorKind::GrammarShapeMismatch);
}

#[test]
fn build_ast_boolean_and_type_literals() {
    let file = program(vec![
        expr_stmt(vec![leaf(Rule::Boolean, "True")]),
        expr_stmt(vec![leaf(Rule::Boolean, "False")]),
        expr_stmt(vec![node(Rule::ValueType, "I", vec![leaf(Rule::IntegerType, "I")])]),
    ]);
    let block = parse_file(&file).unwrap().1;
    assert!(matches!(stmt_operand(&block.statements[0]), Operand::Boolean(true)));
    assert!(matches!(stmt_operand(&block.statements[1]), Operand::Boolean(false)));
    assert!(matches!(
        stmt_operand(&block.statements[2]),
        Operand::ValueType(nois::ast::ValueType::Integer)
    ));
}

#[test]
fn build_ast_function_init() {
    let f = node(
        Rule::FunctionInit,
        "",
        vec![
            node(
                Rule::ParameterList,
                "",
                vec![node(Rule::Assignee, "", vec![ident("x")])],
            ),
            node(Rule::Block, "", vec![expr_stmt(vec![ident("x")])]),
        ],
    );
    let file = program(vec![expr_stmt(vec![f])]);
    let block = parse_file(&file).unwrap().1;
    match stmt_operand(&block.statements[0]) {
        Operand::FunctionInit(f) => {
            assert_eq!(f.parameters.len(), 1);
            assert_eq!(f.block.1.statements.len(), 1);
        }
        other => panic!("expected a function literal, found {:?}", other),
    }
}
