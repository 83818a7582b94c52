use nois::ast::ValueType;
use nois::floats::FloatBits;
use nois::value::{string_value, Value};

fn f(x: f64) -> Value {
    Value::F(FloatBits::new(x.to_bits()))
}

fn list(items: Vec<Value>) -> Value {
    Value::list(items)
}

#[test]
fn cast_int_to_float() {
    let out = Value::I(5).to(&Value::Type(ValueType::Float)).unwrap();
    assert!(out.strict_eq(&f(5.0)));
}

#[test]
fn cast_float_to_int_truncates() {
    let out = f(5.7).to(&Value::Type(ValueType::Integer)).unwrap();
    assert!(out.strict_eq(&Value::I(5)));
    let neg = f(-5.7).to(&Value::Type(ValueType::Integer)).unwrap();
    assert!(neg.strict_eq(&Value::I(-5)));
}

#[test]
fn cast_boolean_to_int_unsupported() {
    assert!(Value::B(true).to(&Value::Type(ValueType::Integer)).is_none());
    assert!(Value::B(false).to(&Value::Type(ValueType::Integer)).is_none());
}

#[test]
fn cast_identity_returns_value() {
    let out = Value::I(3).to(&Value::Type(ValueType::Integer)).unwrap();
    assert!(out.strict_eq(&Value::I(3)));
}

#[test]
fn cast_int_to_string_and_back() {
    let target = list(vec![Value::Type(ValueType::Char)]);
    let out = Value::I(-42).to(&target).unwrap();
    assert!(out.strict_eq(&string_value("-42")));
    let back = out.to(&Value::Type(ValueType::Integer)).unwrap();
    assert!(back.strict_eq(&Value::I(-42)));
}

#[test]
fn cast_string_to_boolean() {
    assert!(string_value("True")
        .to(&Value::Type(ValueType::Boolean))
        .unwrap()
        .strict_eq(&Value::B(true)));
    assert!(string_value("False")
        .to(&Value::Type(ValueType::Boolean))
        .unwrap()
        .strict_eq(&Value::B(false)));
    assert!(string_value("yes").to(&Value::Type(ValueType::Boolean)).is_none());
}

#[test]
fn cast_string_to_char_and_code_points() {
    assert!(string_value("x")
        .to(&Value::Type(ValueType::Char))
        .unwrap()
        .strict_eq(&Value::C('x')));
    assert!(string_value("xy").to(&Value::Type(ValueType::Char)).is_none());
    let c = Value::I(65).to(&Value::Type(ValueType::Char)).unwrap();
    assert!(c.strict_eq(&Value::C('A')));
    assert!(Value::I(0xD800).to(&Value::Type(ValueType::Char)).is_none());
    let i = Value::C('A').to(&Value::Type(ValueType::Integer)).unwrap();
    assert!(i.strict_eq(&Value::I(65)));
}

#[test]
fn type_of_empty_list_is_any() {
    let t = list(vec![]).value_type();
    assert!(t.strict_eq(&list(vec![Value::Type(ValueType::Any)])));
}

#[test]
fn type_of_homogeneous_list_collapses() {
    let t = list(vec![Value::I(1), Value::I(2), Value::I(3)]).value_type();
    assert!(t.strict_eq(&list(vec![Value::Type(ValueType::Integer)])));
}

#[test]
fn type_of_mixed_list_is_positional() {
    let t = list(vec![Value::I(1), string_value("ab")]).value_type();
    let want = list(vec![
        Value::Type(ValueType::Integer),
        list(vec![Value::Type(ValueType::Char)]),
    ]);
    assert!(t.strict_eq(&want));
}

#[test]
fn any_type_tag_is_wildcard_both_ways() {
    let any = Value::Type(ValueType::Any);
    let int = Value::Type(ValueType::Integer);
    assert!(any.equals(&int));
    assert!(int.equals(&any));
    let l = list(vec![Value::I(1)]);
    assert!(any.equals(&l));
    assert!(l.equals(&any));
    assert!(!Value::Type(ValueType::Integer).equals(&Value::Type(ValueType::Float)));
}

#[test]
fn float_equality_handles_nan_and_zero_signs() {
    assert!(f(f64::NAN).equals(&f(f64::NAN)));
    assert!(!f(0.0).equals(&f(-0.0)));
    assert!(f(1.5).equals(&f(1.5)));
}

#[test]
fn add_numbers_and_promote() {
    assert!(Value::I(2).add(&Value::I(3)).unwrap().strict_eq(&Value::I(5)));
    assert!(f(1.5).add(&f(2.25)).unwrap().strict_eq(&f(3.75)));
    assert!(Value::I(1).add(&f(2.5)).unwrap().strict_eq(&f(3.5)));
    assert!(f(2.5).add(&Value::I(1)).unwrap().strict_eq(&f(3.5)));
}

#[test]
fn add_concatenates_lists() {
    let a = list(vec![Value::I(1), Value::I(2)]);
    let b = list(vec![Value::I(3)]);
    let out = a.add(&b).unwrap();
    assert!(out.strict_eq(&list(vec![Value::I(1), Value::I(2), Value::I(3)])));
}

fn spread(items: Vec<Value>) -> Value {
    Value::List { items, spread: true }
}

#[test]
fn add_spread_list_and_scalar() {
    let a = spread(vec![Value::I(1), Value::I(2)]);
    let appended = a.add(&Value::I(3)).unwrap();
    assert!(appended.strict_eq(&list(vec![Value::I(1), Value::I(2), Value::I(3)])));
    let prepended = Value::I(0).add(&a).unwrap();
    assert!(prepended.strict_eq(&list(vec![Value::I(0), Value::I(1), Value::I(2)])));
}

#[test]
fn add_plain_list_and_scalar_is_incompatible() {
    let a = list(vec![Value::I(1), Value::I(2)]);
    let err = a.add(&Value::I(3)).unwrap_err();
    assert_eq!(err, "incompatible operands: [Integer] + Integer");
}

#[test]
fn add_two_spread_lists_is_incompatible() {
    let a = spread(vec![Value::I(1)]);
    let b = spread(vec![Value::I(2)]);
    assert!(a.add(&b).is_err());
}

#[test]
fn add_lists_with_differing_spread_flags_absorbs_the_plain_one() {
    let s = spread(vec![Value::I(1), Value::I(2)]);
    let p = list(vec![Value::I(3)]);
    let appended = s.add(&p).unwrap();
    assert!(appended.strict_eq(&list(vec![
        Value::I(1),
        Value::I(2),
        list(vec![Value::I(3)]),
    ])));
    let prepended = p.add(&s).unwrap();
    assert!(prepended.strict_eq(&list(vec![
        list(vec![Value::I(3)]),
        Value::I(1),
        Value::I(2),
    ])));
}

#[test]
fn add_incompatible_names_both_types() {
    let err = Value::B(true).add(&Value::Unit).unwrap_err();
    assert_eq!(err, "incompatible operands: Boolean + Unit");
}

#[test]
fn add_overflow_is_an_error() {
    let err = Value::I(i128::MAX).add(&Value::I(1)).unwrap_err();
    assert_eq!(err, "integer overflow");
}

#[test]
fn sub_uses_swapped_fallback_for_mixed_operands() {
    assert!(Value::I(7).sub(&Value::I(2)).unwrap().strict_eq(&Value::I(5)));
    // A float on the left falls back to the swapped attempt: 2 - 5.0.
    let out = f(5.0).sub(&Value::I(2)).unwrap();
    assert!(out.strict_eq(&f(-3.0)));
}

#[test]
fn rem_by_zero_is_an_error() {
    let err = Value::I(7).rem(&Value::I(0)).unwrap_err();
    assert_eq!(err, "division by zero");
    assert!(Value::I(7).rem(&Value::I(4)).unwrap().strict_eq(&Value::I(3)));
    assert!(Value::I(-7).rem(&Value::I(4)).unwrap().strict_eq(&Value::I(-3)));
}

#[test]
fn display_forms() {
    assert_eq!(Value::Unit.to_display_string(), "()");
    assert_eq!(Value::I(-12).to_display_string(), "-12");
    assert_eq!(Value::B(true).to_display_string(), "True");
    assert_eq!(Value::C('x').to_display_string(), "x");
    assert_eq!(string_value("abc").to_display_string(), "abc");
    assert_eq!(list(vec![]).to_display_string(), "[]");
    assert_eq!(
        list(vec![Value::I(1), Value::I(2)]).to_display_string(),
        "[1, 2]"
    );
    assert_eq!(Value::Type(ValueType::Integer).to_display_string(), "Integer");
}

#[test]
fn string_round_trip_through_chars() {
    let v = string_value("hey 😎");
    match &v {
        Value::List { items, spread } => {
            assert!(!*spread);
            assert_eq!(items.len(), 5);
            assert!(items[4].strict_eq(&Value::C('😎')));
        }
        other => panic!("expected a list, found {:?}", other),
    }
}

#[test]
fn rem_on_floats_uses_the_float_remainder() {
    let out = f(7.5).rem(&f(2.0)).unwrap();
    assert!(out.strict_eq(&f(1.5)));
}

#[test]
fn float_display_round_trips_through_a_cast() {
    let target = list(vec![Value::Type(ValueType::Char)]);
    let shown = f(2.5).to(&target).unwrap();
    let back = shown.to(&Value::Type(ValueType::Float)).unwrap();
    assert!(back.strict_eq(&f(2.5)));
}

#[test]
fn spread_lists_display_bracketed_with_the_marker() {
    let v = Value::List { items: vec![Value::C('a'), Value::C('b')], spread: true };
    assert_eq!(v.to_display_string(), "..[a, b]");
}
