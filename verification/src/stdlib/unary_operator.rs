use vstd::prelude::*;
use vstd::string::StringExecFns;
use crate::ast::{Identifier, UnaryOperator};
use crate::context::{Context, Definition, SysFn};
use crate::error::{Error, ErrorKind};
use crate::span::AstPair;
use crate::stdlib::lib::{arg_error, from_callee, LibFunction, Package};
use crate::value::{lemma_views_of, sv_eq, views_of, SpecValue, Value};

verus! {

/// The package registering the unary operators that are implemented as
/// callable built-ins.
pub fn package() -> (r: Package)
    ensures
        r.definitions@.len() == 1,
        r.definitions@[0].0.0@ == crate::expression::spec_unary_symbol(UnaryOperator::Spread),
        (match r.definitions@[0].1 {
            Definition::System(f) => f == SysFn::Spread,
            _ => false,
        }),
{
    let mut definitions: Vec<(Identifier, Definition)> = Vec::new();
    definitions.push(
        (Identifier::new(UnaryOperator::Spread.symbol()), Definition::System(SysFn::Spread)),
    );
    Package { name: String::from_str("unary_operator"), definitions }
}

/// The `..` built-in: marks a plain list as spread, to be flattened into
/// its surrounding context; a list that is already spread, or a value
/// that is not a list, is rejected.
pub(crate) fn spread_call(args: &Vec<AstPair<Value>>, ctx: &mut Context) -> (r: Result<
    Value,
    Error,
>)
    requires
        old(ctx).scope_stack@.len() >= 1,
    ensures
        *final(ctx) == *old(ctx),
        args@.len() >= 1 ==> match args@[0].1@ {
            SpecValue::List { items, spread } => if spread {
                r is Err && r.unwrap_err().kind == ErrorKind::ArithmeticTypeError
            } else {
                r is Ok && sv_eq(r.unwrap()@, SpecValue::List { items, spread: true })
            },
            _ => r is Err && r.unwrap_err().kind == ErrorKind::ArithmeticTypeError,
        },
        args@.len() < 1 ==> r is Err && r.unwrap_err().kind == ErrorKind::ArithmeticTypeError,
{
    if args.len() < 1 {
        return Err(arg_error("(List)", args, ctx));
    }
    match &args[0].1 {
        Value::List { items, spread } => {
            if *spread {
                Err(
                    from_callee(
                        ctx,
                        ErrorKind::ArithmeticTypeError,
                        String::from_str("the List is already spread"),
                    ),
                )
            } else {
                let ghost src = items@;
                let mut out: Vec<Value> = Vec::new();
                let n: usize = items.len();
                let mut i: usize = 0;
                while i < n
                    invariant
                        i <= n,
                        n == src.len(),
                        src == items@,
                        out@.len() == i,
                        forall|j: int|
                            0 <= j < i ==> sv_eq(
                                #[trigger] views_of(out@)[j],
                                views_of(src)[j],
                            ),
                    decreases n - i,
                {
                    let ghost pre = out@;
                    let d = items[i].dup();
                    let ghost dv = d@;
                    out.push(d);
                    proof {
                        lemma_views_of(pre);
                        lemma_views_of(out@);
                        lemma_views_of(src);
                        assert forall|j: int| 0 <= j < i + 1 implies sv_eq(
                            #[trigger] views_of(out@)[j],
                            views_of(src)[j],
                        ) by {
                            assert(views_of(out@)[j] == out@[j]@);
                            if j < i {
                                assert(out@[j] == pre[j]);
                                assert(views_of(pre)[j] == pre[j]@);
                            } else {
                                assert(out@[j]@ == dv);
                                assert(views_of(src)[j] == src[j]@);
                            }
                        }
                    }
                    i = i + 1;
                }
                proof {
                    lemma_views_of(out@);
                    lemma_views_of(src);
                }
                Ok(Value::List { items: out, spread: true })
            }
        },
        _ => Err(
            from_callee(
                ctx,
                ErrorKind::ArithmeticTypeError,
                String::from_str("the spread marker applies to a List only"),
            ),
        ),
    }
}

pub struct Spread;

impl LibFunction for Spread {
    fn name() -> (r: String) {
        UnaryOperator::Spread.symbol()
    }

    fn call(args: &Vec<AstPair<Value>>, ctx: &mut Context) -> (r: Result<Value, Error>) {
        spread_call(args, ctx)
    }
}

} // verus!
