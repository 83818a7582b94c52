use vstd::prelude::*;
use vstd::string::StringExecFns;
use crate::context::{Context, Definition};
use crate::ast::Identifier;
use crate::error::{Error, ErrorKind};
use crate::span::{AstPair, Span};
use crate::value::Value;

verus! {

/// A registration unit of the standard library: a package name and the
/// bindings it contributes to the root scope.
pub struct Package {
    pub name: String,
    pub definitions: Vec<(Identifier, Definition)>,
}

/// The calling contract of a standard-library built-in: a callable name
/// and a call that receives its arguments already evaluated. Argument
/// evaluation, the diagnostic scope push and call-site span resolution
/// are the evaluator's responsibility, not the built-in's.
pub trait LibFunction {
    fn name() -> (r: String);

    fn call(args: &Vec<AstPair<Value>>, ctx: &mut Context) -> (r: Result<Value, Error>)
        requires
            old(ctx).scope_stack@.len() >= 1,
        ensures
            final(ctx).scope_stack@.len() == old(ctx).scope_stack@.len(),
            final(ctx).fuel <= old(ctx).fuel,
    ;
}

/// The packages of the standard library that this crate ships: the
/// binary operators, the unary operators and the list helpers. Further
/// built-ins would extend the closed `SysFn` set inside the crate; an
/// embedder adds behaviour through evaluated or late bindings instead.
pub fn stdlib() -> (r: Vec<Package>)
    ensures
        r@.len() == 3,
{
    let mut out: Vec<Package> = Vec::new();
    out.push(crate::stdlib::binary_operator::package());
    out.push(crate::stdlib::unary_operator::package());
    out.push(crate::stdlib::list::package());
    out
}

/// The span of the call site of the running built-in: the method receiver
/// span when the call was a method call, else the callee span of the
/// scope on top of the stack.
pub fn callee_span(ctx: &Context) -> (r: Span) {
    if ctx.scope_stack.len() == 0 {
        return Span::new(String::new(), 0, 0);
    }
    let top: usize = ctx.scope_stack.len() - 1;
    let scope = &ctx.scope_stack[top];
    match &scope.method_callee {
        Some((sp, _)) => sp.clone(),
        None => match &scope.callee {
            Some(sp) => sp.clone(),
            None => Span::new(String::new(), 0, 0),
        },
    }
}

/// An error of the running built-in, attributed to its call site.
pub fn from_callee(ctx: &Context, kind: ErrorKind, message: String) -> (r: Error)
    ensures
        r.kind == kind,
        r.message == message,
{
    let span = callee_span(ctx);
    Error::new(kind, message, span)
}

/// The error that rejects a built-in's arguments, naming the expected
/// shape and the types that were found.
pub fn arg_error(expected_type: &str, args: &Vec<AstPair<Value>>, ctx: &Context) -> (r: Error)
    ensures
        r.kind == ErrorKind::ArithmeticTypeError,
{
    let mut m = String::from_str("expected ");
    m.append(expected_type);
    m.append(", found (");
    let n: usize = args.len();
    let mut i: usize = 0;
    while i < n
        invariant
            i <= n,
            n == args@.len(),
        decreases n - i,
    {
        if i > 0 {
            m.append(", ");
        }
        let t = args[i].1.value_type().to_display_string();
        m.append(t.as_str());
        i = i + 1;
    }
    m.append(")");
    let span = callee_span(ctx);
    Error::new(ErrorKind::ArithmeticTypeError, m, span)
}

} // verus!
