use nois::ast::{Assignee, DestructureItem, Identifier, PatternItem};
use nois::context::Definition;
use nois::error::ErrorKind;
use nois::ast::{Block, MatchClause, Statement};
use nois::matcher::{assign_expression_definitions, assign_value_definitions, match_pattern_item, match_predicate};
use nois::span::{AstPair, Span};
use nois::value::{string_value, Value};

fn sp() -> Span {
    Span::new(String::new(), 0, 0)
}

fn pat(p: PatternItem) -> AstPair<PatternItem> {
    AstPair(sp(), p)
}

fn id(name: &str) -> Identifier {
    Identifier::new(name.to_string())
}

fn ident_pat(name: &str, spread: bool) -> AstPair<PatternItem> {
    pat(PatternItem::Identifier { identifier: AstPair(sp(), id(name)), spread })
}

fn ints(ns: &[i128]) -> Value {
    Value::list(ns.iter().map(|n| Value::I(*n)).collect())
}

fn binding_value(d: &Definition) -> &Value {
    match d {
        Definition::Value(v) => &v.1,
        other => panic!("expected an evaluated binding, found {:?}", other),
    }
}

#[test]
fn hole_matches_anything_without_bindings() {
    let out = match_pattern_item(&sp(), &Value::I(7), &pat(PatternItem::Hole)).unwrap();
    assert_eq!(out.unwrap().len(), 0);
}

#[test]
fn literal_patterns_compare_structurally() {
    let hit = match_pattern_item(&sp(), &Value::I(4), &pat(PatternItem::Integer(4))).unwrap();
    assert!(hit.is_some());
    let miss = match_pattern_item(&sp(), &Value::I(5), &pat(PatternItem::Integer(4))).unwrap();
    assert!(miss.is_none());
    let s = match_pattern_item(
        &sp(),
        &string_value("ab"),
        &pat(PatternItem::String("ab".to_string())),
    )
    .unwrap();
    assert!(s.is_some());
}

#[test]
fn identifier_pattern_binds_the_value() {
    let out = match_pattern_item(&sp(), &Value::I(9), &ident_pat("a", false))
        .unwrap()
        .unwrap();
    assert_eq!(out.len(), 1);
    assert_eq!(out[0].0 .0, "a");
    assert!(binding_value(&out[0].1).strict_eq(&Value::I(9)));
}

#[test]
fn spread_outside_a_list_is_misuse() {
    let err = match_pattern_item(&sp(), &Value::I(9), &ident_pat("a", true)).unwrap_err();
    assert_eq!(err.kind, ErrorKind::PatternSpreadMisuse);
}

#[test]
fn spread_binds_the_middle_slice() {
    // [a, _, ..t] against [0, 1, 2, 3, 4]
    let pattern = pat(PatternItem::PatternList(vec![
        ident_pat("a", false),
        pat(PatternItem::Hole),
        ident_pat("t", true),
    ]));
    let out = match_pattern_item(&sp(), &ints(&[0, 1, 2, 3, 4]), &pattern)
        .unwrap()
        .unwrap();
    assert_eq!(out.len(), 2);
    assert_eq!(out[0].0 .0, "a");
    assert!(binding_value(&out[0].1).strict_eq(&Value::I(0)));
    assert_eq!(out[1].0 .0, "t");
    assert!(binding_value(&out[1].1).strict_eq(&ints(&[2, 3, 4])));
}

#[test]
fn empty_pattern_matches_only_the_empty_list() {
    let empty = pat(PatternItem::PatternList(vec![]));
    let hit = match_pattern_item(&sp(), &ints(&[]), &empty).unwrap();
    assert_eq!(hit.unwrap().len(), 0);
    let err = match_pattern_item(&sp(), &ints(&[1]), &empty).unwrap_err();
    assert_eq!(err.kind, ErrorKind::PatternLengthMismatch);
}

#[test]
fn fixed_length_mismatch_is_an_error_not_a_partial_bind() {
    let pattern = pat(PatternItem::PatternList(vec![
        ident_pat("a", false),
        ident_pat("b", false),
    ]));
    let err = match_pattern_item(&sp(), &ints(&[1, 2, 3]), &pattern).unwrap_err();
    assert_eq!(err.kind, ErrorKind::PatternLengthMismatch);
}

#[test]
fn two_spreads_are_ambiguous() {
    let pattern = pat(PatternItem::PatternList(vec![
        ident_pat("a", true),
        ident_pat("b", true),
    ]));
    let err = match_pattern_item(&sp(), &ints(&[1, 2]), &pattern).unwrap_err();
    assert_eq!(err.kind, ErrorKind::PatternSpreadAmbiguity);
}

#[test]
fn list_pattern_needs_a_list_value() {
    let pattern = pat(PatternItem::PatternList(vec![ident_pat("a", false)]));
    let err = match_pattern_item(&sp(), &Value::I(3), &pattern).unwrap_err();
    assert_eq!(err.kind, ErrorKind::PatternTypeMismatch);
}

#[test]
fn positional_miss_is_no_match_not_an_error() {
    let pattern = pat(PatternItem::PatternList(vec![
        pat(PatternItem::Integer(9)),
        ident_pat("b", false),
    ]));
    let out = match_pattern_item(&sp(), &ints(&[1, 2]), &pattern).unwrap();
    assert!(out.is_none());
}

#[test]
fn spread_needs_enough_values() {
    let pattern = pat(PatternItem::PatternList(vec![
        ident_pat("a", false),
        ident_pat("b", false),
        ident_pat("t", true),
    ]));
    let ok = match_pattern_item(&sp(), &ints(&[1, 2]), &pattern).unwrap().unwrap();
    assert_eq!(ok.len(), 3);
    assert!(binding_value(&ok[2].1).strict_eq(&ints(&[])));
    let err = match_pattern_item(&sp(), &ints(&[1]), &pattern).unwrap_err();
    assert_eq!(err.kind, ErrorKind::PatternLengthMismatch);
}

fn dident(name: &str, spread: bool) -> AstPair<DestructureItem> {
    AstPair(sp(), DestructureItem::Identifier { identifier: AstPair(sp(), id(name)), spread })
}

#[test]
fn destructuring_assignment_binds_by_position_and_spread() {
    let assignee = AstPair(
        sp(),
        Assignee::DestructureList(vec![
            dident("a", false),
            AstPair(sp(), DestructureItem::Hole),
            dident("t", true),
        ]),
    );
    let out = assign_value_definitions(&assignee, AstPair(sp(), ints(&[0, 1, 2, 3, 4]))).unwrap();
    assert_eq!(out.len(), 2);
    assert_eq!(out[0].0 .0, "a");
    assert!(binding_value(&out[0].1).strict_eq(&Value::I(0)));
    assert_eq!(out[1].0 .0, "t");
    assert!(binding_value(&out[1].1).strict_eq(&ints(&[2, 3, 4])));
}

#[test]
fn destructuring_length_mismatch_is_an_error() {
    let assignee = AstPair(
        sp(),
        Assignee::DestructureList(vec![dident("a", false), dident("b", false)]),
    );
    let err = assign_value_definitions(&assignee, AstPair(sp(), ints(&[1]))).unwrap_err();
    assert_eq!(err.kind, ErrorKind::PatternLengthMismatch);
}

#[test]
fn assignment_to_identifier_is_a_late_binding() {
    let assignee = AstPair(sp(), Assignee::Identifier(AstPair(sp(), id("x"))));
    let expr = AstPair(
        sp(),
        nois::ast::Expression::Operand(Box::new(AstPair(sp(), nois::ast::Operand::Integer(3)))),
    );
    let out = assign_expression_definitions(assignee, expr).unwrap();
    assert_eq!(out.len(), 1);
    assert_eq!(out[0].0 .0, "x");
    assert!(matches!(out[0].1, Definition::User(_, _)));
}

#[test]
fn assignment_to_hole_binds_nothing() {
    let assignee = AstPair(sp(), Assignee::Hole);
    let expr = AstPair(
        sp(),
        nois::ast::Expression::Operand(Box::new(AstPair(sp(), nois::ast::Operand::Integer(3)))),
    );
    let out = assign_expression_definitions(assignee, expr).unwrap();
    assert_eq!(out.len(), 0);
}

#[test]
fn match_predicate_tries_the_clause_pattern() {
    let clause = AstPair(
        sp(),
        MatchClause {
            pattern: pat(PatternItem::Integer(3)),
            block: AstPair(sp(), Block { statements: Vec::<AstPair<Statement>>::new() }),
        },
    );
    let hit = match_predicate(&AstPair(sp(), Value::I(3)), &clause).unwrap();
    assert!(hit.is_some());
    let miss = match_predicate(&AstPair(sp(), Value::I(4)), &clause).unwrap();
    assert!(miss.is_none());
}

#[test]
fn nested_destructuring_binds_inner_elements() {
    let assignee = AstPair(
        sp(),
        Assignee::DestructureList(vec![
            AstPair(
                sp(),
                DestructureItem::List(vec![dident("a", false)]),
            ),
            dident("b", false),
        ]),
    );
    let value = Value::list(vec![ints(&[1]), Value::I(2)]);
    let out = assign_value_definitions(&assignee, AstPair(sp(), value)).unwrap();
    assert_eq!(out.len(), 2);
    assert_eq!(out[0].0 .0, "a");
    assert!(binding_value(&out[0].1).strict_eq(&Value::I(1)));
    assert_eq!(out[1].0 .0, "b");
    assert!(binding_value(&out[1].1).strict_eq(&Value::I(2)));
}

#[test]
fn float_literal_patterns_match_by_value() {
    let bits = nois::floats::FloatBits::new((2.5f64).to_bits());
    let hit = match_pattern_item(&sp(), &Value::F(bits), &pat(PatternItem::Float(bits))).unwrap();
    assert!(hit.is_some());
    let other = nois::floats::FloatBits::new((2.0f64).to_bits());
    let miss = match_pattern_item(&sp(), &Value::F(other), &pat(PatternItem::Float(bits))).unwrap();
    assert!(miss.is_none());
}
