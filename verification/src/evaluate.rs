use vstd::prelude::*;
use crate::ast::{Block, Expression, FunctionCall, FunctionInit, Identifier, Operand, Statement};
use crate::context::{spec_lookup, Context, Definition, Scope, SysFn};
use crate::error::{custom_error, Error, ErrorKind};
use crate::matcher::{
    assign_value_definitions, bindings_match, match_predicate, spec_assign_value,
};
use crate::ast::{expr_eq, id_eq, Assignee};
use crate::span::{AstPair, Span};
use crate::value::{
    spec_add_once, spec_arith, spec_rem_once, spec_string_value, spec_sub_once, string_value,
    sv_eq, val_eq, ArithOutcome, SpecValue, Value,
};
use crate::ast::fn_init_eq;
use crate::stdlib::list::spec_range;
use crate::stdlib::binary_operator;
use crate::stdlib::list;
use crate::stdlib::unary_operator;

verus! {

/// The error that reports an exhausted evaluation budget.
fn out_of_fuel(span: &Span) -> (r: Error)
    ensures
        r.kind == ErrorKind::RecursionLimit,
{
    custom_error(
        ErrorKind::RecursionLimit,
        span,
        String::from_str("the evaluation budget is exhausted"),
    )
}

/// Evaluates one assignment statement and installs its bindings in the
/// scope on top of the stack. An identifier target takes the unevaluated
/// expression as a late binding (re-evaluated on each lookup); a hole
/// binds nothing; a destructuring target evaluates the expression once
/// and takes the resulting value apart.
#[verifier::loop_isolation(false)]
fn eval_assignment(
    assignee: &AstPair<Assignee>,
    expression: &AstPair<Expression>,
    ctx: &mut Context,
) -> (r: Result<(), Error>)
    requires
        old(ctx).scope_stack@.len() >= 1,
    ensures
        final(ctx).scope_stack@.len() == old(ctx).scope_stack@.len(),
        final(ctx).fuel <= old(ctx).fuel,
        r is Ok ==> match assignee.1 {
            Assignee::Hole => final(ctx).scope_stack@.last().definitions@ == old(
                ctx,
            ).scope_stack@.last().definitions@,
            Assignee::Identifier(id) => {
                let defs0 = old(ctx).scope_stack@.last().definitions@;
                let defs1 = final(ctx).scope_stack@.last().definitions@;
                &&& defs1.len() == defs0.len() + 1
                &&& defs1.take(defs0.len() as int) == defs0
                &&& id_eq(defs1.last().0, id.1)
                &&& match defs1.last().1 {
                    Definition::User(di, de) => id_eq(di.1, id.1) && expr_eq(
                        de.1,
                        expression.1,
                    ),
                    _ => false,
                }
            },
            Assignee::DestructureList(_) => exists|v: SpecValue, mid: Seq<(Identifier, Definition)>|
                #![trigger spec_assign_value(v, assignee.1), final(ctx).scope_stack@.last().definitions@.take(mid.len() as int)]
                {
                    &&& spec_assign_value(v, assignee.1) is Ok
                    &&& final(ctx).scope_stack@.last().definitions@.len() == mid.len()
                        + spec_assign_value(v, assignee.1).unwrap().len()
                    &&& final(ctx).scope_stack@.last().definitions@.take(mid.len() as int) == mid
                    &&& bindings_match(
                        final(ctx).scope_stack@.last().definitions@.skip(mid.len() as int),
                        spec_assign_value(v, assignee.1).unwrap(),
                    )
                },
        },
    decreases old(ctx).fuel,
{
    if ctx.fuel == 0 {
        return Err(out_of_fuel(&assignee.0));
    }
    ctx.fuel = ctx.fuel - 1;
    match &assignee.1 {
        Assignee::Hole => {
            return Ok(());
        },
        Assignee::Identifier(i) => {
            let name = i.1.clone();
            let def = Definition::User(
                AstPair(i.0.clone(), i.1.clone()),
                AstPair(expression.0.clone(), expression.1.dup()),
            );
            ctx.define(name, def);
            return Ok(());
        },
        Assignee::DestructureList(_) => {},
    }
    let v = match eval_expression(expression, ctx) {
        Ok(v) => v,
        Err(e) => {
            return Err(e);
        },
    };
    let defs = match assign_value_definitions(assignee, v) {
        Ok(d) => d,
        Err(e) => {
            return Err(e);
        },
    };
    let ghost gdefs = defs@;
    let ghost mid = ctx.scope_stack@.last().definitions@;
    let ghost entry_len = ctx.scope_stack@.len();
    let ghost fuel0 = ctx.fuel;
    let dn: usize = defs.len();
    let mut defs = defs;
    let mut k: usize = 0;
    proof {
        assert(mid + gdefs.take(0) =~= mid);
        assert(gdefs.skip(0) =~= gdefs);
    }
    while defs.len() > 0
        invariant
            ctx.scope_stack@.len() == entry_len,
            ctx.fuel == fuel0,
            gdefs.len() == dn,
            k + defs@.len() == gdefs.len(),
            defs@ =~= gdefs.skip(k as int),
            ctx.scope_stack@.last().definitions@ =~= mid + gdefs.take(k as int),
        decreases defs@.len(),
    {
        proof {
            assert(gdefs.skip(k as int)[0] == gdefs[k as int]);
        }
        let (name, d) = defs.remove(0);
        ctx.define(name, d);
        proof {
            assert(defs@ =~= gdefs.skip(k + 1));
            assert(gdefs.take(k + 1) =~= gdefs.take(k as int).push(gdefs[k as int]));
            assert(ctx.scope_stack@.last().definitions@ =~= mid + gdefs.take(k + 1));
        }
        k = k + 1;
    }
    proof {
        assert(gdefs.take(gdefs.len() as int) =~= gdefs);
        assert(ctx.scope_stack@.last().definitions@ =~= mid + gdefs);
        assert(ctx.scope_stack@.last().definitions@.take(mid.len() as int) =~= mid);
        assert(ctx.scope_stack@.last().definitions@.skip(mid.len() as int) =~= gdefs);
    }
    Ok(())
}

/// Evaluates a block: its statements in order. A return statement ends
/// the block early with its value; otherwise the block's value is the
/// value of its last statement, or unit for an empty block.
#[verifier::loop_isolation(false)]
pub fn eval_block(block: &AstPair<Block>, ctx: &mut Context) -> (r: Result<AstPair<Value>, Error>)
    requires
        old(ctx).scope_stack@.len() >= 1,
    ensures
        final(ctx).scope_stack@.len() == old(ctx).scope_stack@.len(),
        final(ctx).fuel <= old(ctx).fuel,
        old(ctx).fuel == 0 ==> r is Err && r.unwrap_err().kind == ErrorKind::RecursionLimit,
        old(ctx).fuel >= 1 && block.1.statements@.len() == 0 ==> r is Ok && r.unwrap().1@
            == SpecValue::Unit,
    decreases old(ctx).fuel,
{
    if ctx.fuel == 0 {
        return Err(out_of_fuel(&block.0));
    }
    ctx.fuel = ctx.fuel - 1;
    let ghost entry_len = ctx.scope_stack@.len();
    let ghost fuel0 = ctx.fuel;
    let n: usize = block.1.statements.len();
    let mut last: AstPair<Value> = AstPair(block.0.clone(), Value::Unit);
    let mut i: usize = 0;
    while i < n
        invariant
            i <= n,
            ctx.scope_stack@.len() == entry_len,
            ctx.fuel <= fuel0,
            n == 0 ==> last.1@ == SpecValue::Unit,
        decreases n - i,
    {
        let st = &block.1.statements[i];
        match &st.1 {
            Statement::Return(opt) => {
                match opt {
                    Some(e) => {
                        return eval_expression(e, ctx);
                    },
                    None => {
                        return Ok(AstPair(st.0.clone(), Value::Unit));
                    },
                }
            },
            Statement::Assignment { assignee, expression } => {
                match eval_assignment(assignee, expression, ctx) {
                    Ok(_) => {},
                    Err(e) => {
                        return Err(e);
                    },
                }
                last = AstPair(st.0.clone(), Value::Unit);
            },
            Statement::Expression(e) => {
                match eval_expression(e, ctx) {
                    Ok(v) => {
                        last = v;
                    },
                    Err(e) => {
                        return Err(e);
                    },
                }
            },
        }
        i = i + 1;
    }
    Ok(last)
}

/// Evaluates one expression against the context.
pub fn eval_expression(e: &AstPair<Expression>, ctx: &mut Context) -> (r: Result<
    AstPair<Value>,
    Error,
>)
    requires
        old(ctx).scope_stack@.len() >= 1,
    ensures
        final(ctx).scope_stack@.len() == old(ctx).scope_stack@.len(),
        final(ctx).fuel <= old(ctx).fuel,
        old(ctx).fuel == 0 ==> r is Err && r.unwrap_err().kind == ErrorKind::RecursionLimit,
        match e.1 {
            Expression::Operand(o) => match (*o).1 {
                Operand::Integer(i) => old(ctx).fuel >= 2 ==> r is Ok && r.unwrap().1@
                    == SpecValue::I(i),
                Operand::Float(b) => old(ctx).fuel >= 2 ==> r is Ok && r.unwrap().1@
                    == SpecValue::F(b),
                Operand::Boolean(b) => old(ctx).fuel >= 2 ==> r is Ok && r.unwrap().1@
                    == SpecValue::B(b),
                Operand::String(st) => old(ctx).fuel >= 2 ==> r is Ok && r.unwrap().1@
                    == spec_string_value(st@),
                Operand::ValueType(t) => old(ctx).fuel >= 2 ==> r is Ok && r.unwrap().1@
                    == SpecValue::Type(t),
                Operand::Hole => r is Err,
                _ => true,
            },
            Expression::Binary { operator, right_operand, .. } => ((*operator).1
                is Accessor && !(match (*right_operand).1 {
                Expression::Operand(op) => (*op).1 is FunctionCall,
                _ => false,
            })) ==> r is Err,
            _ => true,
        },
    decreases old(ctx).fuel,
{
    if ctx.fuel == 0 {
        return Err(out_of_fuel(&e.0));
    }
    ctx.fuel = ctx.fuel - 1;
    match &e.1 {
        Expression::Operand(o) => eval_operand(o, ctx),
        Expression::Unary { operator, operand } => {
            let v = match eval_expression(operand, ctx) {
                Ok(v) => v,
                Err(err) => {
                    return Err(err);
                },
            };
            let sym = operator.1.symbol();
            let name = Identifier::new(sym);
            let mut args: Vec<AstPair<Value>> = Vec::new();
            args.push(v);
            call_named(&name, args, &e.0, None, ctx)
        },
        Expression::Binary { left_operand, operator, right_operand } => {
            let left = match eval_expression(left_operand, ctx) {
                Ok(v) => v,
                Err(err) => {
                    return Err(err);
                },
            };
            match operator.1 {
                crate::ast::BinaryOperator::Accessor => {
                    match &right_operand.1 {
                        Expression::Operand(op) => match &op.1 {
                            Operand::FunctionCall(fc) => {
                                let receiver_span = left_operand.0.clone();
                                eval_function_call(
                                    fc,
                                    &e.0,
                                    Some((receiver_span, left)),
                                    ctx,
                                )
                            },
                            _ => Err(
                                custom_error(
                                    ErrorKind::GrammarShapeMismatch,
                                    &e.0,
                                    String::from_str("expected a call after the accessor"),
                                ),
                            ),
                        },
                        _ => Err(
                            custom_error(
                                ErrorKind::GrammarShapeMismatch,
                                &e.0,
                                String::from_str("expected a call after the accessor"),
                            ),
                        ),
                    }
                },
                _ => {
                    let right = match eval_expression(right_operand, ctx) {
                        Ok(v) => v,
                        Err(err) => {
                            return Err(err);
                        },
                    };
                    let sym = operator.1.symbol();
                    let name = Identifier::new(sym);
                    let mut args: Vec<AstPair<Value>> = Vec::new();
                    args.push(left);
                    args.push(right);
                    call_named(&name, args, &e.0, None, ctx)
                },
            }
        },
        Expression::MatchExpression { .. } => {
            match crate::matcher::match_expression(e, ctx) {
                Ok(Some((clause, defs))) => {
                    let mut scope = Scope::new(String::from_str("match"));
                    scope.definitions = defs;
                    scope.callee = Some(e.0.clone());
                    ctx.scope_stack.push(scope);
                    let out = eval_block(&clause.1.block, ctx);
                    let popped = ctx.scope_stack.pop();
                    proof {
                        assert(popped is Some);
                    }
                    out
                },
                Ok(None) => Err(
                    custom_error(
                        ErrorKind::MatchExhausted,
                        &e.0,
                        String::from_str("no matching clause"),
                    ),
                ),
                Err(err) => Err(err),
            }
        },
    }
}

/// Evaluates one operand.
#[verifier::loop_isolation(false)]
pub fn eval_operand(o: &AstPair<Operand>, ctx: &mut Context) -> (r: Result<AstPair<Value>, Error>)
    requires
        old(ctx).scope_stack@.len() >= 1,
    ensures
        final(ctx).scope_stack@.len() == old(ctx).scope_stack@.len(),
        final(ctx).fuel <= old(ctx).fuel,
        old(ctx).fuel == 0 ==> r is Err && r.unwrap_err().kind == ErrorKind::RecursionLimit,
        match o.1 {
            Operand::Integer(i) => old(ctx).fuel >= 1 ==> r is Ok && r.unwrap().1@
                == SpecValue::I(i) && r.unwrap().0 == o.0,
            Operand::Float(b) => old(ctx).fuel >= 1 ==> r is Ok && r.unwrap().1@ == SpecValue::F(
                b,
            ) && r.unwrap().0 == o.0,
            Operand::Boolean(b) => old(ctx).fuel >= 1 ==> r is Ok && r.unwrap().1@
                == SpecValue::B(b) && r.unwrap().0 == o.0,
            Operand::String(st) => old(ctx).fuel >= 1 ==> r is Ok && r.unwrap().1@
                == spec_string_value(st@) && r.unwrap().0 == o.0,
            Operand::ValueType(t) => old(ctx).fuel >= 1 ==> r is Ok && r.unwrap().1@
                == SpecValue::Type(t) && r.unwrap().0 == o.0,
            Operand::FunctionInit(f) => old(ctx).fuel >= 1 ==> r is Ok && (match r.unwrap().1@ {
                SpecValue::Fn(g) => fn_init_eq(g, f),
                _ => false,
            }),
            Operand::ListInit { .. } => r is Ok ==> (match r.unwrap().1@ {
                SpecValue::List { spread, .. } => !spread,
                _ => false,
            }),
            Operand::Hole => r is Err && (old(ctx).fuel >= 1 ==> r.unwrap_err().kind
                == ErrorKind::GrammarShapeMismatch),
            Operand::StructDefinition { .. } => r is Err,
            Operand::EnumDefinition { .. } => r is Err,
            _ => true,
        },
    decreases old(ctx).fuel,
{
    if ctx.fuel == 0 {
        return Err(out_of_fuel(&o.0));
    }
    ctx.fuel = ctx.fuel - 1;
    match &o.1 {
        Operand::Hole => Err(
            custom_error(
                ErrorKind::GrammarShapeMismatch,
                &o.0,
                String::from_str("a hole cannot be evaluated"),
            ),
        ),
        Operand::Integer(i) => Ok(AstPair(o.0.clone(), Value::I(*i))),
        Operand::Float(b) => Ok(AstPair(o.0.clone(), Value::F(*b))),
        Operand::Boolean(b) => Ok(AstPair(o.0.clone(), Value::B(*b))),
        Operand::String(s) => {
            let v = string_value(s.as_str());
            Ok(AstPair(o.0.clone(), v))
        },
        Operand::ValueType(t) => Ok(AstPair(o.0.clone(), Value::Type(*t))),
        Operand::Identifier(id) => eval_identifier(id, ctx),
        Operand::FunctionInit(f) => Ok(AstPair(o.0.clone(), Value::Fn(f.dup()))),
        Operand::FunctionCall(fc) => eval_function_call(fc, &o.0, None, ctx),
        Operand::ListInit { items } => {
            let n: usize = items.len();
            let mut out: Vec<Value> = Vec::new();
            let ghost entry_len = ctx.scope_stack@.len();
            let ghost fuel0 = ctx.fuel;
            let mut i: usize = 0;
            while i < n
                invariant
                    i <= n,
                    ctx.scope_stack@.len() == entry_len,
                    ctx.fuel <= fuel0,
                decreases n - i,
            {
                let v = match eval_expression(&items[i], ctx) {
                    Ok(v) => v,
                    Err(e) => {
                        return Err(e);
                    },
                };
                match v.1 {
                    Value::List { items: elems, spread: true } => {
                        let mut elems = elems;
                        out.append(&mut elems);
                    },
                    other => {
                        out.push(other);
                    },
                }
                i = i + 1;
            }
            Ok(AstPair(o.0.clone(), Value::List { items: out, spread: false }))
        },
        Operand::StructDefinition { .. } => Err(
            custom_error(
                ErrorKind::GrammarShapeMismatch,
                &o.0,
                String::from_str("struct definitions are not evaluated"),
            ),
        ),
        Operand::EnumDefinition { .. } => Err(
            custom_error(
                ErrorKind::GrammarShapeMismatch,
                &o.0,
                String::from_str("enum definitions are not evaluated"),
            ),
        ),
    }
}

/// Resolves an identifier and produces its value: an evaluated binding is
/// handed back as it is; a late binding re-evaluates its stored
/// expression in the scope that defines it; a built-in is invoked with
/// the arguments of the running call.
pub fn eval_identifier(id: &AstPair<Identifier>, ctx: &mut Context) -> (r: Result<
    AstPair<Value>,
    Error,
>)
    requires
        old(ctx).scope_stack@.len() >= 1,
    ensures
        final(ctx).scope_stack@.len() == old(ctx).scope_stack@.len(),
        final(ctx).fuel <= old(ctx).fuel,
        old(ctx).fuel == 0 ==> r is Err && r.unwrap_err().kind == ErrorKind::RecursionLimit,
        old(ctx).fuel >= 1 ==> match spec_lookup(old(ctx).scope_stack@, id.1.0@) {
            None => r is Err && r.unwrap_err().kind == ErrorKind::UnknownIdentifier,
            Some((idx, d)) => match d {
                Definition::Value(v) => r is Ok && sv_eq(r.unwrap().1@, v.1@),
                _ => true,
            },
        },
    decreases old(ctx).fuel,
{
    if ctx.fuel == 0 {
        return Err(out_of_fuel(&id.0));
    }
    ctx.fuel = ctx.fuel - 1;
    let looked = ctx.lookup(&id.1);
    match looked {
        None => {
            let mut m = String::from_str("unknown identifier: ");
            m.append(id.1.0.as_str());
            Err(custom_error(ErrorKind::UnknownIdentifier, &id.0, m))
        },
        Some((scope_index, def)) => match def {
            Definition::Value(v) => Ok(v),
            Definition::System(f) => {
                let top: usize = ctx.scope_stack.len() - 1;
                let args = dup_args(&ctx.scope_stack[top].params);
                call_sys_function(f, args, &id.0, ctx)
            },
            Definition::User(_, expr) => {
                let stack_len: usize = ctx.scope_stack.len();
                if scope_index >= stack_len {
                    return Err(
                        custom_error(
                            ErrorKind::UnknownIdentifier,
                            &id.0,
                            String::from_str("the defining scope is gone"),
                        ),
                    );
                }
                let keep: usize = scope_index + 1;
                let mut saved: Vec<Scope> = Vec::new();
                let ghost entry_len = ctx.scope_stack@.len();
                while ctx.scope_stack.len() > keep
                    invariant
                        keep >= 1,
                        keep <= ctx.scope_stack@.len() || saved@.len() > 0,
                        ctx.scope_stack@.len() + saved@.len() == entry_len,
                        ctx.scope_stack@.len() >= keep,
                        ctx.fuel == old(ctx).fuel - 1,
                    decreases ctx.scope_stack@.len(),
                {
                    match ctx.scope_stack.pop() {
                        Some(s) => {
                            saved.push(s);
                        },
                        None => {
                            proof {
                                assert(false);
                            }
                        },
                    }
                }
                let out = eval_expression(&expr, ctx);
                let ghost after_len = ctx.scope_stack@.len();
                let mut saved = saved;
                while saved.len() > 0
                    invariant
                        ctx.scope_stack@.len() + saved@.len() == after_len + old(
                            ctx,
                        ).scope_stack@.len() - keep,
                        ctx.fuel <= old(ctx).fuel,
                    decreases saved@.len(),
                {
                    match saved.pop() {
                        Some(s) => {
                            ctx.scope_stack.push(s);
                        },
                        None => {
                            proof {
                                assert(false);
                            }
                        },
                    }
                }
                out
            },
        },
    }
}

/// Copies a run of evaluated arguments.
#[verifier::loop_isolation(false)]
fn dup_args(args: &Vec<AstPair<Value>>) -> (r: Vec<AstPair<Value>>)
    ensures
        r@.len() == args@.len(),
{
    let n: usize = args.len();
    let mut out: Vec<AstPair<Value>> = Vec::new();
    let mut i: usize = 0;
    while i < n
        invariant
            i <= n,
            out@.len() == i,
        decreases n - i,
    {
        let a = &args[i];
        out.push(AstPair(a.0.clone(), a.1.dup()));
        i = i + 1;
    }
    out
}

/// Evaluates a function call: the arguments are evaluated eagerly in the
/// caller's scope (a spread list among them is flattened into the
/// argument run), the callee is resolved by its identifier, and the call
/// is dispatched.
#[verifier::loop_isolation(false)]
pub fn eval_function_call(
    fc: &FunctionCall,
    call_span: &Span,
    method_callee: Option<(Span, AstPair<Value>)>,
    ctx: &mut Context,
) -> (r: Result<AstPair<Value>, Error>)
    requires
        old(ctx).scope_stack@.len() >= 1,
    ensures
        final(ctx).scope_stack@.len() == old(ctx).scope_stack@.len(),
        final(ctx).fuel <= old(ctx).fuel,
    decreases old(ctx).fuel,
{
    if ctx.fuel == 0 {
        return Err(out_of_fuel(call_span));
    }
    ctx.fuel = ctx.fuel - 1;
    let ghost entry_len = ctx.scope_stack@.len();
    let ghost fuel0 = ctx.fuel;
    let mut args: Vec<AstPair<Value>> = Vec::new();
    match &method_callee {
        Some((_, receiver)) => {
            args.push(AstPair(receiver.0.clone(), receiver.1.dup()));
        },
        None => {},
    }
    let n: usize = fc.arguments.len();
    let mut i: usize = 0;
    while i < n
        invariant
            i <= n,
            ctx.scope_stack@.len() == entry_len,
            ctx.fuel <= fuel0,
        decreases n - i,
    {
        let v = match eval_expression(&fc.arguments[i], ctx) {
            Ok(v) => v,
            Err(e) => {
                return Err(e);
            },
        };
        match v.1 {
            Value::List { items: elems, spread: true } => {
                let sp = v.0;
                let en: usize = elems.len();
                let mut j: usize = 0;
                while j < en
                    invariant
                        j <= en,
                        en == elems@.len(),
                    decreases en - j,
                {
                    args.push(AstPair(sp.clone(), elems[j].dup()));
                    j = j + 1;
                }
            },
            other => {
                args.push(AstPair(v.0, other));
            },
        }
        i = i + 1;
    }
    call_named(&fc.identifier.1, args, call_span, method_callee, ctx)
}

/// Resolves a callable name and invokes it with the given evaluated
/// arguments.
pub fn call_named(
    name: &Identifier,
    args: Vec<AstPair<Value>>,
    call_span: &Span,
    method_callee: Option<(Span, AstPair<Value>)>,
    ctx: &mut Context,
) -> (r: Result<AstPair<Value>, Error>)
    requires
        old(ctx).scope_stack@.len() >= 1,
    ensures
        final(ctx).scope_stack@.len() == old(ctx).scope_stack@.len(),
        final(ctx).fuel <= old(ctx).fuel,
        old(ctx).fuel == 0 ==> r is Err && r.unwrap_err().kind == ErrorKind::RecursionLimit,
        old(ctx).fuel >= 1 ==> match spec_lookup(old(ctx).scope_stack@, name.0@) {
            None => r is Err && r.unwrap_err().kind == ErrorKind::UnknownIdentifier,
            Some((idx, d)) => match d {
                Definition::System(f) => f == SysFn::Equals && args@.len() >= 2 && old(ctx).fuel
                    >= 2 ==> r is Ok && r.unwrap().1@ == SpecValue::B(
                    val_eq(args@[0].1@, args@[1].1@),
                ),
                _ => true,
            },
        },
    decreases old(ctx).fuel,
{
    if ctx.fuel == 0 {
        return Err(out_of_fuel(call_span));
    }
    ctx.fuel = ctx.fuel - 1;
    let looked = ctx.lookup(name);
    match looked {
        None => {
            let mut m = String::from_str("unknown identifier: ");
            m.append(name.0.as_str());
            Err(custom_error(ErrorKind::UnknownIdentifier, call_span, m))
        },
        Some((scope_index, def)) => match def {
            Definition::System(f) => {
                let mut scope = Scope::new(name.0.clone());
                scope.callee = Some(call_span.clone());
                scope.params = dup_args(&args);
                match &method_callee {
                    Some((sp, _)) => {
                        scope.method_callee = Some((sp.clone(), AstPair(sp.clone(), Value::Unit)));
                    },
                    None => {},
                }
                ctx.scope_stack.push(scope);
                let out = call_sys_function(f, args, call_span, ctx);
                let popped = ctx.scope_stack.pop();
                proof {
                    assert(popped is Some);
                }
                out
            },
            Definition::Value(v) => match v.1 {
                Value::Fn(f) => call_fn_value(&f, name, args, call_span, method_callee, ctx),
                _ => Err(
                    custom_error(
                        ErrorKind::ArityOrCalleeResolutionError,
                        call_span,
                        String::from_str("the binding is not callable"),
                    ),
                ),
            },
            Definition::User(_, expr) => {
                let v = match eval_expression(&expr, ctx) {
                    Ok(v) => v,
                    Err(e) => {
                        return Err(e);
                    },
                };
                match v.1 {
                    Value::Fn(f) => call_fn_value(&f, name, args, call_span, method_callee, ctx),
                    _ => Err(
                        custom_error(
                            ErrorKind::ArityOrCalleeResolutionError,
                            call_span,
                            String::from_str("the binding is not callable"),
                        ),
                    ),
                }
            },
        },
    }
}

/// Invokes a function value: a scope is pushed with each argument bound
/// to the corresponding parameter target, the body block is evaluated,
/// and the scope is popped again whatever the outcome.
#[verifier::loop_isolation(false)]
pub fn call_fn_value(
    f: &FunctionInit,
    name: &Identifier,
    args: Vec<AstPair<Value>>,
    call_span: &Span,
    method_callee: Option<(Span, AstPair<Value>)>,
    ctx: &mut Context,
) -> (r: Result<AstPair<Value>, Error>)
    requires
        old(ctx).scope_stack@.len() >= 1,
    ensures
        final(ctx).scope_stack@.len() == old(ctx).scope_stack@.len(),
        final(ctx).fuel <= old(ctx).fuel,
    decreases old(ctx).fuel,
{
    if ctx.fuel == 0 {
        return Err(out_of_fuel(call_span));
    }
    ctx.fuel = ctx.fuel - 1;
    let mut scope = Scope::new(name.0.clone());
    scope.callee = Some(call_span.clone());
    scope.method_callee = method_callee;
    let pn: usize = f.parameters.len();
    let an: usize = args.len();
    let mut i: usize = 0;
    while i < pn
        invariant
            i <= pn,
            pn == f.parameters@.len(),
            an == args@.len(),
        decreases pn - i,
    {
        if i < an {
            let v = AstPair(args[i].0.clone(), args[i].1.dup());
            match assign_value_definitions(&f.parameters[i], v) {
                Ok(mut defs) => {
                    scope.definitions.append(&mut defs);
                },
                Err(e) => {
                    return Err(e);
                },
            }
        }
        i = i + 1;
    }
    scope.params = args;
    ctx.scope_stack.push(scope);
    let out = eval_block(&f.block, ctx);
    let popped = ctx.scope_stack.pop();
    proof {
        assert(popped is Some);
    }
    out
}

/// Dispatches a standard-library built-in by its tag.
pub fn call_sys_function(
    f: SysFn,
    args: Vec<AstPair<Value>>,
    call_span: &Span,
    ctx: &mut Context,
) -> (r: Result<AstPair<Value>, Error>)
    requires
        old(ctx).scope_stack@.len() >= 1,
    ensures
        final(ctx).scope_stack@.len() == old(ctx).scope_stack@.len(),
        final(ctx).fuel <= old(ctx).fuel,
        old(ctx).fuel == 0 ==> r is Err && r.unwrap_err().kind == ErrorKind::RecursionLimit,
        r is Ok ==> r.unwrap().0 == *call_span,
        old(ctx).fuel >= 1 && f == SysFn::Equals ==> (args@.len() >= 2 ==> r is Ok
            && r.unwrap().1@ == SpecValue::B(val_eq(args@[0].1@, args@[1].1@)) && r.unwrap().0
            == *call_span) && (args@.len() < 2 ==> r is Err && r.unwrap_err().kind
            == ErrorKind::ArithmeticTypeError),
        old(ctx).fuel >= 1 && f == SysFn::Add && args@.len() >= 2 ==> match spec_arith(
            spec_add_once(args@[0].1@, args@[1].1@),
            spec_add_once(args@[1].1@, args@[0].1@),
        ) {
            ArithOutcome::Value(v) => r is Ok && sv_eq(r.unwrap().1@, v),
            _ => r is Err && r.unwrap_err().kind == ErrorKind::ArithmeticTypeError,
        },
        old(ctx).fuel >= 1 && f == SysFn::Subtract && args@.len() >= 2 ==> match spec_arith(
            spec_sub_once(args@[0].1@, args@[1].1@),
            spec_sub_once(args@[1].1@, args@[0].1@),
        ) {
            ArithOutcome::Value(v) => r is Ok && sv_eq(r.unwrap().1@, v),
            _ => r is Err && r.unwrap_err().kind == ErrorKind::ArithmeticTypeError,
        },
        old(ctx).fuel >= 1 && f == SysFn::Remainder && args@.len() >= 2 ==> match spec_arith(
            spec_rem_once(args@[0].1@, args@[1].1@),
            spec_rem_once(args@[1].1@, args@[0].1@),
        ) {
            ArithOutcome::Value(v) => r is Ok && sv_eq(r.unwrap().1@, v),
            _ => r is Err && r.unwrap_err().kind == ErrorKind::ArithmeticTypeError,
        },
        old(ctx).fuel >= 1 && f == SysFn::Range && args@.len() == 1 ==> match args@[0].1@ {
            SpecValue::I(e) => r is Ok && r.unwrap().1@ == (SpecValue::List {
                items: spec_range(0, e),
                spread: false,
            }),
            _ => r is Err && r.unwrap_err().kind == ErrorKind::ArithmeticTypeError,
        },
        old(ctx).fuel >= 1 && f == SysFn::Range && args@.len() == 2 ==> match (
            args@[0].1@,
            args@[1].1@,
        ) {
            (SpecValue::I(lo), SpecValue::I(hi)) => r is Ok && r.unwrap().1@ == (SpecValue::List {
                items: spec_range(lo, hi),
                spread: false,
            }),
            _ => r is Err && r.unwrap_err().kind == ErrorKind::ArithmeticTypeError,
        },
        old(ctx).fuel >= 1 && f == SysFn::Spread && args@.len() >= 1 ==> match args@[0].1@ {
            SpecValue::List { items, spread } => if spread {
                r is Err
            } else {
                r is Ok && sv_eq(r.unwrap().1@, SpecValue::List { items, spread: true })
            },
            _ => r is Err,
        },
        old(ctx).fuel >= 1 && f == SysFn::MapList && args@.len() >= 2 ==> match (
            args@[0].1@,
            args@[1].1@,
        ) {
            (SpecValue::List { items, .. }, SpecValue::Fn(_)) => r is Ok ==> (
            match r.unwrap().1@ {
                SpecValue::List { items: mapped, spread } => mapped.len() == items.len()
                    && !spread,
                _ => false,
            }),
            _ => r is Err && r.unwrap_err().kind == ErrorKind::ArithmeticTypeError,
        },
    decreases old(ctx).fuel,
{
    if ctx.fuel == 0 {
        return Err(out_of_fuel(call_span));
    }
    ctx.fuel = ctx.fuel - 1;
    let out = match f {
        SysFn::Add => binary_operator::add_call(&args, ctx),
        SysFn::Subtract => binary_operator::subtract_call(&args, ctx),
        SysFn::Remainder => binary_operator::remainder_call(&args, ctx),
        SysFn::Equals => binary_operator::equals_call(&args, ctx),
        SysFn::Range => list::range_call(&args, ctx),
        SysFn::MapList => list::map_call(&args, ctx),
        SysFn::Spread => unary_operator::spread_call(&args, ctx),
    };
    match out {
        Ok(v) => Ok(AstPair(call_span.clone(), v)),
        Err(e) => Err(e),
    }
}

} // verus!
