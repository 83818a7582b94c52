use vstd::prelude::*;
use crate::ast::{BinaryOperator, Identifier};
use crate::context::{Context, Definition, SysFn};
use crate::error::{Error, ErrorKind};
use crate::span::AstPair;
use crate::stdlib::lib::{arg_error, from_callee, LibFunction, Package};
use crate::value::{spec_arith, spec_add_once, spec_sub_once, spec_rem_once, sv_eq, val_eq, ArithOutcome, SpecValue, Value};
use vstd::string::StringExecFns;

verus! {

/// The package registering the binary operators that are implemented as
/// callable built-ins.
pub fn package() -> (r: Package)
    ensures
        r.definitions@.len() == 4,
        r.definitions@[0].0.0@ == crate::expression::spec_symbol(BinaryOperator::Add),
        r.definitions@[1].0.0@ == crate::expression::spec_symbol(BinaryOperator::Subtract),
        r.definitions@[2].0.0@ == crate::expression::spec_symbol(BinaryOperator::Remainder),
        r.definitions@[3].0.0@ == crate::expression::spec_symbol(BinaryOperator::Equals),
        (match r.definitions@[0].1 {
            Definition::System(f) => f == SysFn::Add,
            _ => false,
        }),
        (match r.definitions@[1].1 {
            Definition::System(f) => f == SysFn::Subtract,
            _ => false,
        }),
        (match r.definitions@[2].1 {
            Definition::System(f) => f == SysFn::Remainder,
            _ => false,
        }),
        (match r.definitions@[3].1 {
            Definition::System(f) => f == SysFn::Equals,
            _ => false,
        }),
{
    let mut definitions: Vec<(Identifier, Definition)> = Vec::new();
    definitions.push(
        (Identifier::new(BinaryOperator::Add.symbol()), Definition::System(SysFn::Add)),
    );
    definitions.push(
        (Identifier::new(BinaryOperator::Subtract.symbol()), Definition::System(SysFn::Subtract)),
    );
    definitions.push(
        (
            Identifier::new(BinaryOperator::Remainder.symbol()),
            Definition::System(SysFn::Remainder),
        ),
    );
    definitions.push(
        (Identifier::new(BinaryOperator::Equals.symbol()), Definition::System(SysFn::Equals)),
    );
    Package { name: String::from_str("binary_operator"), definitions }
}

/// The `+` built-in: value addition with the commutative fallback.
pub(crate) fn add_call(args: &Vec<AstPair<Value>>, ctx: &mut Context) -> (r: Result<Value, Error>)
    requires
        old(ctx).scope_stack@.len() >= 1,
    ensures
        *final(ctx) == *old(ctx),
        args@.len() >= 2 ==> match spec_arith(
            spec_add_once(args@[0].1@, args@[1].1@),
            spec_add_once(args@[1].1@, args@[0].1@),
        ) {
            ArithOutcome::Value(v) => r is Ok && sv_eq(r.unwrap()@, v),
            _ => r is Err && r.unwrap_err().kind == ErrorKind::ArithmeticTypeError,
        },
        args@.len() < 2 ==> r is Err && r.unwrap_err().kind == ErrorKind::ArithmeticTypeError,
{
    if args.len() < 2 {
        return Err(arg_error("two operands", args, ctx));
    }
    match args[0].1.add(&args[1].1) {
        Ok(v) => Ok(v),
        Err(m) => Err(from_callee(ctx, ErrorKind::ArithmeticTypeError, m)),
    }
}

/// The `-` built-in: value subtraction with the swapped fallback.
pub(crate) fn subtract_call(args: &Vec<AstPair<Value>>, ctx: &mut Context) -> (r: Result<
    Value,
    Error,
>)
    requires
        old(ctx).scope_stack@.len() >= 1,
    ensures
        *final(ctx) == *old(ctx),
        args@.len() >= 2 ==> match spec_arith(
            spec_sub_once(args@[0].1@, args@[1].1@),
            spec_sub_once(args@[1].1@, args@[0].1@),
        ) {
            ArithOutcome::Value(v) => r is Ok && sv_eq(r.unwrap()@, v),
            _ => r is Err && r.unwrap_err().kind == ErrorKind::ArithmeticTypeError,
        },
        args@.len() < 2 ==> r is Err && r.unwrap_err().kind == ErrorKind::ArithmeticTypeError,
{
    if args.len() < 2 {
        return Err(arg_error("two operands", args, ctx));
    }
    match args[0].1.sub(&args[1].1) {
        Ok(v) => Ok(v),
        Err(m) => Err(from_callee(ctx, ErrorKind::ArithmeticTypeError, m)),
    }
}

/// The `%` built-in: value remainder with the swapped fallback.
pub(crate) fn remainder_call(args: &Vec<AstPair<Value>>, ctx: &mut Context) -> (r: Result<
    Value,
    Error,
>)
    requires
        old(ctx).scope_stack@.len() >= 1,
    ensures
        *final(ctx) == *old(ctx),
        args@.len() >= 2 ==> match spec_arith(
            spec_rem_once(args@[0].1@, args@[1].1@),
            spec_rem_once(args@[1].1@, args@[0].1@),
        ) {
            ArithOutcome::Value(v) => r is Ok && sv_eq(r.unwrap()@, v),
            _ => r is Err && r.unwrap_err().kind == ErrorKind::ArithmeticTypeError,
        },
        args@.len() < 2 ==> r is Err && r.unwrap_err().kind == ErrorKind::ArithmeticTypeError,
{
    if args.len() < 2 {
        return Err(arg_error("two operands", args, ctx));
    }
    match args[0].1.rem(&args[1].1) {
        Ok(v) => Ok(v),
        Err(m) => Err(from_callee(ctx, ErrorKind::ArithmeticTypeError, m)),
    }
}

/// The `==` built-in: the language's structural equality with the `Any`
/// wildcard and NaN equal to NaN.
pub(crate) fn equals_call(args: &Vec<AstPair<Value>>, ctx: &mut Context) -> (r: Result<
    Value,
    Error,
>)
    requires
        old(ctx).scope_stack@.len() >= 1,
    ensures
        *final(ctx) == *old(ctx),
        args@.len() >= 2 ==> r is Ok && r.unwrap()@ == SpecValue::B(
            val_eq(args@[0].1@, args@[1].1@),
        ),
        args@.len() < 2 ==> r is Err && r.unwrap_err().kind == ErrorKind::ArithmeticTypeError,
{
    if args.len() < 2 {
        return Err(arg_error("two operands", args, ctx));
    }
    Ok(Value::B(args[0].1.equals(&args[1].1)))
}

pub struct Add;

impl LibFunction for Add {
    fn name() -> (r: String) {
        BinaryOperator::Add.symbol()
    }

    fn call(args: &Vec<AstPair<Value>>, ctx: &mut Context) -> (r: Result<Value, Error>) {
        add_call(args, ctx)
    }
}

pub struct Subtract;

impl LibFunction for Subtract {
    fn name() -> (r: String) {
        BinaryOperator::Subtract.symbol()
    }

    fn call(args: &Vec<AstPair<Value>>, ctx: &mut Context) -> (r: Result<Value, Error>) {
        subtract_call(args, ctx)
    }
}

pub struct Remainder;

impl LibFunction for Remainder {
    fn name() -> (r: String) {
        BinaryOperator::Remainder.symbol()
    }

    fn call(args: &Vec<AstPair<Value>>, ctx: &mut Context) -> (r: Result<Value, Error>) {
        remainder_call(args, ctx)
    }
}

pub struct Equals;

impl LibFunction for Equals {
    fn name() -> (r: String) {
        BinaryOperator::Equals.symbol()
    }

    fn call(args: &Vec<AstPair<Value>>, ctx: &mut Context) -> (r: Result<Value, Error>) {
        equals_call(args, ctx)
    }
}

} // verus!
