use vstd::prelude::*;
use crate::ast::{expr_eq, id_eq, Expression, Identifier};
use crate::span::{AstPair, Span};
use crate::value::{sv_eq, SpecValue, Value};

verus! {

/// The built-in functions of the standard library that the evaluator can
/// dispatch to. This is a closed set: the verifier cannot dispatch
/// through function pointers or trait objects, so a native built-in an
/// embedder writes cannot be registered from outside the crate. An
/// embedder extends the language instead by registering `Value` or `User`
/// bindings (function values included), which are callable like any other
/// binding.
#[derive(Clone, Copy, PartialEq, Eq, Structural, Debug)]
pub enum SysFn {
    Add,
    Subtract,
    Remainder,
    Equals,
    Range,
    MapList,
    Spread,
}

/// A binding stored in a scope: an unevaluated expression that is
/// re-evaluated on every lookup (late binding), an already-evaluated
/// value, or a built-in of the standard library. A `System` binding
/// carries a tag of the closed built-in set rather than a native function
/// pointer, which the verifier cannot call.
#[derive(Debug)]
pub enum Definition {
    User(AstPair<Identifier>, AstPair<Expression>),
    Value(AstPair<Value>),
    System(SysFn),
}

/// Definitions agree: the same kind with the same contents, apart from
/// source spans.
pub open spec fn def_eq(a: Definition, b: Definition) -> bool {
    match (a, b) {
        (Definition::User(ai, ae), Definition::User(bi, be)) => id_eq(ai.1, bi.1) && expr_eq(
            ae.1,
            be.1,
        ),
        (Definition::Value(av), Definition::Value(bv)) => sv_eq(av.1@, bv.1@),
        (Definition::System(af), Definition::System(bf)) => af == bf,
        _ => false,
    }
}

/// The value a definition holds, for definitions known to be values.
pub open spec fn def_value(d: Definition) -> SpecValue {
    match d {
        Definition::Value(v) => v.1@,
        _ => SpecValue::Unit,
    }
}

impl Definition {
    /// A copy of this definition; the same binding.
    pub fn dup(&self) -> (r: Definition)
        ensures
            def_eq(r, *self),
    {
        match self {
            Definition::User(i, e) => Definition::User(
                AstPair(i.0.clone(), i.1.clone()),
                AstPair(e.0.clone(), e.1.dup()),
            ),
            Definition::Value(v) => Definition::Value(AstPair(v.0.clone(), v.1.dup())),
            Definition::System(f) => Definition::System(*f),
        }
    }
}

/// One frame of the evaluator's name-resolution stack: a name for
/// diagnostics, the bindings made in the frame, the span of the call site
/// that opened it, the evaluated arguments of the call, and, for a method
/// call, the span and receiver of the expression left of the accessor.
pub struct Scope {
    pub name: String,
    pub definitions: Vec<(Identifier, Definition)>,
    pub callee: Option<Span>,
    pub params: Vec<AstPair<Value>>,
    pub method_callee: Option<(Span, AstPair<Value>)>,
}

impl Scope {
    /// A bare scope with the given diagnostic name and nothing bound.
    pub fn new(name: String) -> (r: Scope)
        ensures
            r.name == name,
            r.definitions@.len() == 0,
            r.callee is None,
            r.params@.len() == 0,
            r.method_callee is None,
    {
        Scope {
            name,
            definitions: Vec::new(),
            callee: None,
            params: Vec::new(),
            method_callee: None,
        }
    }
}

/// The binding an identifier resolves to among the bindings of one scope:
/// the latest entry with that name, since a later binding of the same
/// name shadows an earlier one.
pub open spec fn spec_find_def(
    defs: Seq<(Identifier, Definition)>,
    name: Seq<char>,
) -> Option<Definition>
    decreases defs,
{
    if defs.len() == 0 {
        None
    } else if defs.last().0.0@ == name {
        Some(defs.last().1)
    } else {
        spec_find_def(defs.drop_last(), name)
    }
}

/// The binding an identifier resolves to on a scope stack, and the index
/// of the scope that defines it: scopes are searched from the top of the
/// stack outward, and the first scope that binds the name wins.
pub open spec fn spec_lookup(scopes: Seq<Scope>, name: Seq<char>) -> Option<(int, Definition)>
    decreases scopes,
{
    if scopes.len() == 0 {
        None
    } else {
        match spec_find_def(scopes.last().definitions@, name) {
            Some(d) => Some((scopes.len() - 1, d)),
            None => spec_lookup(scopes.drop_last(), name),
        }
    }
}

/// The whole interpreter state: the scope stack, which is the sole source
/// of identifier resolution, and the budget of evaluation steps left.
/// Running out of budget is reported as an error rather than exhausting
/// the host stack.
pub struct Context {
    pub scope_stack: Vec<Scope>,
    pub fuel: u64,
}

impl Context {
    /// A fresh context with one root scope and the given evaluation
    /// budget.
    pub fn new(fuel: u64) -> (r: Context)
        ensures
            r.scope_stack@.len() == 1,
            r.scope_stack@[0].definitions@.len() == 0,
            r.fuel == fuel,
    {
        let root = Scope::new(String::from_str("root"));
        let mut stack: Vec<Scope> = Vec::new();
        stack.push(root);
        Context { scope_stack: stack, fuel }
    }

    /// Adds a binding to the scope on top of the stack.
    pub fn define(&mut self, name: Identifier, definition: Definition)
        requires
            old(self).scope_stack@.len() > 0,
        ensures
            final(self).scope_stack@.len() == old(self).scope_stack@.len(),
            final(self).fuel == old(self).fuel,
            final(self).scope_stack@.last().definitions@ == old(
                self,
            ).scope_stack@.last().definitions@.push((name, definition)),
            forall|i: int|
                0 <= i < old(self).scope_stack@.len() - 1 ==> final(self).scope_stack@[i] == old(
                    self,
                ).scope_stack@[i],
    {
        let mut top_scope = match self.scope_stack.pop() {
            Some(s) => s,
            None => {
                proof {
                    assert(false);
                }
                Scope::new(String::new())
            },
        };
        top_scope.definitions.push((name, definition));
        self.scope_stack.push(top_scope);
        proof {
            assert(self.scope_stack@ =~= old(self).scope_stack@.drop_last().push(
                self.scope_stack@.last(),
            ));
            assert(forall|i: int|
                0 <= i < old(self).scope_stack@.len() - 1 ==> self.scope_stack@[i] == old(
                    self,
                ).scope_stack@[i]);
        }
    }

    /// Resolves an identifier: the binding of the topmost scope that
    /// defines it, together with the index of that scope, as a copy.
    #[verifier::loop_isolation(false)]
    pub fn lookup(&self, name: &Identifier) -> (r: Option<(usize, Definition)>)
        ensures
            match spec_lookup(self.scope_stack@, name.0@) {
                Some((i, d)) => {
                    &&& r is Some
                    &&& r.unwrap().0 == i
                    &&& def_eq(r.unwrap().1, d)
                },
                None => r is None,
            },
    {
        let mut s: usize = self.scope_stack.len();
        proof {
            assert(self.scope_stack@.take(s as int) =~= self.scope_stack@);
        }
        while s > 0
            invariant
                s <= self.scope_stack@.len(),
                spec_lookup(self.scope_stack@, name.0@) == spec_lookup(
                    self.scope_stack@.take(s as int),
                    name.0@,
                ),
            decreases s,
        {
            s = s - 1;
            let defs = &self.scope_stack[s].definitions;
            let mut d: usize = defs.len();
            proof {
                assert(defs@.take(d as int) =~= defs@);
            }
            while d > 0
                invariant
                    d <= defs@.len(),
                    spec_find_def(defs@, name.0@) == spec_find_def(
                        defs@.take(d as int),
                        name.0@,
                    ),
                decreases d,
            {
                d = d - 1;
                if defs[d].0.name_eq(name) {
                    proof {
                        assert(defs@.take(d + 1).last() == defs@[d as int]);
                        assert(spec_find_def(defs@.take(d + 1), name.0@) == Some(
                            defs@[d as int].1,
                        ));
                    }
                    return Some((s, defs[d].1.dup()));
                }
                proof {
                    assert(defs@.take(d + 1).last() == defs@[d as int]);
                    assert(defs@.take(d + 1).drop_last() =~= defs@.take(d as int));
                }
            }
            proof {
                assert(defs@.take(0) =~= Seq::<(Identifier, Definition)>::empty());
                assert(spec_find_def(defs@, name.0@) is None);
                assert(self.scope_stack@.take(s + 1).last() == self.scope_stack@[s as int]);
                assert(self.scope_stack@.take(s + 1).drop_last() =~= self.scope_stack@.take(
                    s as int,
                ));
            }
        }
        proof {
            assert(self.scope_stack@.take(0) =~= Seq::<Scope>::empty());
        }
        None
    }
}

} // verus!
