use vstd::prelude::*;
use vstd::string::StringExecFns;
use crate::ast::Identifier;
use crate::context::{Context, Definition, SysFn};
use crate::error::{Error, ErrorKind};
use crate::evaluate::call_fn_value;
use crate::span::AstPair;
use crate::stdlib::lib::{arg_error, LibFunction, Package};
use crate::value::{lemma_views_of, views_of, SpecValue, Value};

verus! {

/// The package registering the list helpers.
pub fn package() -> (r: Package)
    ensures
        r.definitions@.len() == 2,
        r.definitions@[0].0.0@ == "range"@,
        r.definitions@[1].0.0@ == "map"@,
        (match r.definitions@[0].1 {
            Definition::System(f) => f == SysFn::Range,
            _ => false,
        }),
        (match r.definitions@[1].1 {
            Definition::System(f) => f == SysFn::MapList,
            _ => false,
        }),
{
    let mut definitions: Vec<(Identifier, Definition)> = Vec::new();
    definitions.push(
        (Identifier::new(String::from_str("range")), Definition::System(SysFn::Range)),
    );
    definitions.push(
        (Identifier::new(String::from_str("map")), Definition::System(SysFn::MapList)),
    );
    Package { name: String::from_str("list"), definitions }
}

/// The run of the integers of a half-open range, as values.
pub open spec fn spec_range(from: i128, to: i128) -> Seq<SpecValue> {
    Seq::new(
        if to > from {
            (to - from) as nat
        } else {
            0nat
        },
        |k: int| SpecValue::I((from + k) as i128),
    )
}

/// The integer value holding the given integer.
fn int_value(i: i128) -> (r: Value)
    ensures
        r@ == SpecValue::I(i),
{
    Value::I(i)
}

/// Builds the list of the integers of a half-open range.
#[verifier::loop_isolation(false)]
fn range_values(from: i128, to: i128) -> (r: Value)
    ensures
        r@ == (SpecValue::List { items: spec_range(from, to), spread: false }),
{
    let mut out: Vec<Value> = Vec::new();
    let mut cur: i128 = from;
    if from < to {
        while cur < to
            invariant
                from <= cur <= to,
                out@.len() == cur - from,
                forall|j: int| 0 <= j < out@.len() ==> (#[trigger] out@[j])@ == SpecValue::I(
                    (from + j) as i128,
                ),
            decreases to - cur,
        {
            let v = int_value(cur);
            out.push(v);
            cur = cur + 1;
        }
    }
    proof {
        lemma_views_of(out@);
        assert(views_of(out@) =~= spec_range(from, to));
    }
    Value::List { items: out, spread: false }
}

/// The `range` built-in: `range(e)` lists the integers from zero up to
/// `e` exclusive, and `range(s, e)` those from `s` up to `e` exclusive.
pub(crate) fn range_call(args: &Vec<AstPair<Value>>, ctx: &mut Context) -> (r: Result<
    Value,
    Error,
>)
    requires
        old(ctx).scope_stack@.len() >= 1,
    ensures
        *final(ctx) == *old(ctx),
        args@.len() == 1 ==> match args@[0].1@ {
            SpecValue::I(e) => r is Ok && r.unwrap()@ == (SpecValue::List {
                items: spec_range(0, e),
                spread: false,
            }),
            _ => r is Err && r.unwrap_err().kind == ErrorKind::ArithmeticTypeError,
        },
        args@.len() == 2 ==> match (args@[0].1@, args@[1].1@) {
            (SpecValue::I(s), SpecValue::I(e)) => r is Ok && r.unwrap()@ == (SpecValue::List {
                items: spec_range(s, e),
                spread: false,
            }),
            _ => r is Err && r.unwrap_err().kind == ErrorKind::ArithmeticTypeError,
        },
        !(args@.len() == 1 || args@.len() == 2) ==> r is Err && r.unwrap_err().kind
            == ErrorKind::ArithmeticTypeError,
{
    if args.len() == 1 {
        match &args[0].1 {
            Value::I(e) => Ok(range_values(0, *e)),
            _ => Err(arg_error("(I) or (I, I)", args, ctx)),
        }
    } else if args.len() == 2 {
        match (&args[0].1, &args[1].1) {
            (Value::I(s), Value::I(e)) => Ok(range_values(*s, *e)),
            _ => Err(arg_error("(I) or (I, I)", args, ctx)),
        }
    } else {
        Err(arg_error("(I) or (I, I)", args, ctx))
    }
}

/// The `map` built-in: applies a function value to each element of a
/// list, in order, and collects the results into a new list.
#[verifier::loop_isolation(false)]
pub(crate) fn map_call(args: &Vec<AstPair<Value>>, ctx: &mut Context) -> (r: Result<Value, Error>)
    requires
        old(ctx).scope_stack@.len() >= 1,
    ensures
        final(ctx).scope_stack@.len() == old(ctx).scope_stack@.len(),
        final(ctx).fuel <= old(ctx).fuel,
        args@.len() < 2 ==> r is Err && r.unwrap_err().kind == ErrorKind::ArithmeticTypeError,
        args@.len() >= 2 ==> match (args@[0].1@, args@[1].1@) {
            (SpecValue::List { items, .. }, SpecValue::Fn(_)) => r is Ok ==> match r.unwrap()@ {
                SpecValue::List { items: mapped, spread } => mapped.len() == items.len()
                    && !spread,
                _ => false,
            },
            _ => r is Err && r.unwrap_err().kind == ErrorKind::ArithmeticTypeError,
        },
    decreases old(ctx).fuel,
{
    if args.len() < 2 {
        return Err(arg_error("(List, Fn)", args, ctx));
    }
    let ok_shape = match (&args[0].1, &args[1].1) {
        (Value::List { .. }, Value::Fn(_)) => true,
        _ => false,
    };
    if !ok_shape {
        return Err(arg_error("(List, Fn)", args, ctx));
    }
    if ctx.fuel == 0 {
        return Err(
            crate::stdlib::lib::from_callee(
                ctx,
                ErrorKind::RecursionLimit,
                String::from_str("the evaluation budget is exhausted"),
            ),
        );
    }
    ctx.fuel = ctx.fuel - 1;
    let ghost entry_len = ctx.scope_stack@.len();
    let ghost fuel0 = ctx.fuel;
    let name = Identifier::new(MapList::name());
    let mut out: Vec<Value> = Vec::new();
    match &args[0].1 {
        Value::List { items, .. } => {
            match &args[1].1 {
                Value::Fn(f) => {
                    let n: usize = items.len();
                    let mut i: usize = 0;
                    proof {
                        lemma_views_of(items@);
                    }
                    while i < n
                        invariant
                            i <= n,
                            n == items@.len(),
                            out@.len() == i,
                            ctx.scope_stack@.len() == entry_len,
                            ctx.fuel <= fuel0,
                        decreases n - i,
                    {
                        let mut one: Vec<AstPair<Value>> = Vec::new();
                        one.push(AstPair(args[0].0.clone(), items[i].dup()));
                        match call_fn_value(f, &name, one, &args[1].0, None, ctx) {
                            Ok(v) => {
                                out.push(v.1);
                            },
                            Err(e) => {
                                return Err(e);
                            },
                        }
                        i = i + 1;
                    }
                    proof {
                        lemma_views_of(out@);
                        lemma_views_of(items@);
                    }
                    Ok(Value::List { items: out, spread: false })
                },
                _ => Err(arg_error("(List, Fn)", args, ctx)),
            }
        },
        _ => Err(arg_error("(List, Fn)", args, ctx)),
    }
}

pub struct Range;

impl LibFunction for Range {
    fn name() -> (r: String) {
        String::from_str("range")
    }

    fn call(args: &Vec<AstPair<Value>>, ctx: &mut Context) -> (r: Result<Value, Error>) {
        range_call(args, ctx)
    }
}

pub struct MapList;

impl LibFunction for MapList {
    fn name() -> (r: String) {
        String::from_str("map")
    }

    fn call(args: &Vec<AstPair<Value>>, ctx: &mut Context) -> (r: Result<Value, Error>) {
        map_call(args, ctx)
    }
}

} // verus!
