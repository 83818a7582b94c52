use vstd::prelude::*;
use crate::ast::{fn_init_eq, lemma_ast_eq_reflexive_fn_init, FunctionInit, ValueType};
use crate::floats::{apf_add, apf_of_int, apf_of_str, apf_rem, apf_str, apf_sub, apf_to_int, float_add_bits, float_rem_bits, float_sub_bits, float_of_int_bits, float_of_str_bits, float_str_bits, float_to_int_bits, spec_is_nan_bits, FloatBits};
use crate::text::{char_of, char_of_u32, chars_of_str, collect_string, int_of_str, int_str, parse_int_str, spec_int_str};
use vstd::string::StringExecFns;

verus! {

/// A runtime value of the language: a dynamic tagged union. A string is a
/// list whose items are all characters. The `spread` flag on a list is a
/// transient marker meaning "flatten into the surrounding context" when
/// the list is combined with `+` or passed as an argument; it is not a
/// lasting property of the list.
#[derive(Debug)]
pub enum Value {
    Unit,
    I(i128),
    F(FloatBits),
    C(char),
    B(bool),
    List { items: Vec<Value>, spread: bool },
    Fn(FunctionInit),
    Type(ValueType),
}

/// The mathematical model of a runtime value: the same shape with the
/// list items as a sequence.
#[verifier::ext_equal]
pub enum SpecValue {
    Unit,
    I(i128),
    F(FloatBits),
    C(char),
    B(bool),
    List { items: Seq<SpecValue>, spread: bool },
    Fn(FunctionInit),
    Type(ValueType),
}

/// The models of a run of values, one by one.
pub open spec fn views_of(s: Seq<Value>) -> Seq<SpecValue>
    decreases s,
{
    if s.len() == 0 {
        Seq::empty()
    } else {
        seq![s[0]@] + views_of(s.drop_first())
    }
}

impl View for Value {
    type V = SpecValue;

    open spec fn view(&self) -> SpecValue
        decreases self,
    {
        match self {
            Value::Unit => SpecValue::Unit,
            Value::I(i) => SpecValue::I(*i),
            Value::F(b) => SpecValue::F(*b),
            Value::C(c) => SpecValue::C(*c),
            Value::B(b) => SpecValue::B(*b),
            Value::List { items, spread } => SpecValue::List {
                items: views_of(items@),
                spread: *spread,
            },
            Value::Fn(f) => SpecValue::Fn(*f),
            Value::Type(t) => SpecValue::Type(*t),
        }
    }
}

pub broadcast proof fn lemma_views_of(s: Seq<Value>)
    ensures
        (#[trigger] views_of(s)).len() == s.len(),
        forall|i: int| 0 <= i < s.len() ==> views_of(s)[i] == s[i]@,
    decreases s,
{
    if s.len() > 0 {
        let rest = s.drop_first();
        lemma_views_of(rest);
        assert(views_of(s) == seq![s[0]@] + views_of(rest));
        assert(views_of(s).len() == 1 + views_of(rest).len());
        assert forall|i: int| 0 <= i < s.len() implies views_of(s)[i] == s[i]@ by {
            if i == 0 {
                assert(views_of(s)[0] == s[0]@);
            } else {
                assert(views_of(s)[i] == views_of(rest)[i - 1]);
                assert(rest[i - 1] == s[i]);
            }
        }
    }
}

/// Structural agreement of two values, apart from the source spans inside
/// function values: the same variant with the same contents. This is the
/// equality that copying preserves; it has no wildcard behaviour.
pub open spec fn sv_eq(a: SpecValue, b: SpecValue) -> bool
    decreases a,
{
    match (a, b) {
        (SpecValue::Unit, SpecValue::Unit) => true,
        (SpecValue::I(x), SpecValue::I(y)) => x == y,
        (SpecValue::F(x), SpecValue::F(y)) => x == y,
        (SpecValue::C(x), SpecValue::C(y)) => x == y,
        (SpecValue::B(x), SpecValue::B(y)) => x == y,
        (
            SpecValue::List { items: xi, spread: xs },
            SpecValue::List { items: yi, spread: ys },
        ) => {
            &&& xs == ys
            &&& xi.len() == yi.len()
            &&& forall|i: int| 0 <= i < xi.len() ==> sv_eq(#[trigger] xi[i], yi[i])
        },
        (SpecValue::Fn(f), SpecValue::Fn(g)) => fn_init_eq(f, g),
        (SpecValue::Type(x), SpecValue::Type(y)) => x == y,
        _ => false,
    }
}

/// The equality the language exposes to programs. It is structural, with
/// two special cases: the `Any` type tag is a wildcard against any type
/// tag or list value, in both directions, and two NaN floats are equal.
pub open spec fn val_eq(a: SpecValue, b: SpecValue) -> bool
    decreases a,
{
    match (a, b) {
        (SpecValue::Type(ValueType::Any), SpecValue::Type(_)) => true,
        (SpecValue::Type(ValueType::Any), SpecValue::List { .. }) => true,
        (SpecValue::Type(_), SpecValue::Type(ValueType::Any)) => true,
        (SpecValue::List { .. }, SpecValue::Type(ValueType::Any)) => true,
        (SpecValue::Type(x), SpecValue::Type(y)) => x == y,
        (
            SpecValue::List { items: xi, spread: xs },
            SpecValue::List { items: yi, spread: ys },
        ) => {
            &&& xs == ys
            &&& xi.len() == yi.len()
            &&& forall|i: int| 0 <= i < xi.len() ==> val_eq(#[trigger] xi[i], yi[i])
        },
        (SpecValue::Fn(f), SpecValue::Fn(g)) => fn_init_eq(f, g),
        (SpecValue::Unit, SpecValue::Unit) => true,
        (SpecValue::I(x), SpecValue::I(y)) => x == y,
        (SpecValue::F(x), SpecValue::F(y)) => x == y || (spec_is_nan_bits(x.bits)
            && spec_is_nan_bits(y.bits)),
        (SpecValue::C(x), SpecValue::C(y)) => x == y,
        (SpecValue::B(x), SpecValue::B(y)) => x == y,
        _ => false,
    }
}


impl Value {
    /// Decides the structural (copy-preserving) equality `sv_eq`.
    #[verifier::loop_isolation(false)]
    pub fn strict_eq(&self, other: &Value) -> (r: bool)
        ensures
            r == sv_eq(self@, other@),
        decreases *self,
    {
        match (self, other) {
            (Value::Unit, Value::Unit) => true,
            (Value::I(x), Value::I(y)) => *x == *y,
            (Value::F(x), Value::F(y)) => *x == *y,
            (Value::C(x), Value::C(y)) => *x == *y,
            (Value::B(x), Value::B(y)) => *x == *y,
            (
                Value::List { items: xi, spread: xs },
                Value::List { items: yi, spread: ys },
            ) => {
                proof {
                    lemma_views_of(xi@);
                    lemma_views_of(yi@);
                }
                if *xs != *ys || xi.len() != yi.len() {
                    return false;
                }
                let n: usize = xi.len();
                let mut i: usize = 0;
                while i < n
                    invariant
                        i <= n,
                        forall|j: int|
                            0 <= j < i ==> sv_eq(#[trigger] views_of(xi@)[j], views_of(yi@)[j]),
                    decreases n - i,
                {
                    proof {
                        lemma_views_of(xi@);
                        lemma_views_of(yi@);
                        assert(views_of(xi@)[i as int] == xi@[i as int]@);
                        assert(views_of(yi@)[i as int] == yi@[i as int]@);
                    }
                    if !xi[i].strict_eq(&yi[i]) {
                        return false;
                    }
                    i = i + 1;
                }
                proof {
                    lemma_views_of(xi@);
                    lemma_views_of(yi@);
                }
                true
            },
            (Value::Fn(f), Value::Fn(g)) => f.syntax_eq(g),
            (Value::Type(x), Value::Type(y)) => *x == *y,
            _ => false,
        }
    }

    /// Decides the equality the language exposes: structural, with the
    /// `Any` wildcard in both directions and NaN equal to NaN.
    #[verifier::loop_isolation(false)]
    pub fn equals(&self, other: &Value) -> (r: bool)
        ensures
            r == val_eq(self@, other@),
        decreases *self,
    {
        match (self, other) {
            (Value::Type(ValueType::Any), Value::Type(_)) => true,
            (Value::Type(ValueType::Any), Value::List { .. }) => true,
            (Value::Type(_), Value::Type(ValueType::Any)) => true,
            (Value::List { .. }, Value::Type(ValueType::Any)) => true,
            (Value::Type(x), Value::Type(y)) => *x == *y,
            (
                Value::List { items: xi, spread: xs },
                Value::List { items: yi, spread: ys },
            ) => {
                proof {
                    lemma_views_of(xi@);
                    lemma_views_of(yi@);
                }
                if *xs != *ys || xi.len() != yi.len() {
                    return false;
                }
                let n: usize = xi.len();
                let mut i: usize = 0;
                while i < n
                    invariant
                        i <= n,
                        forall|j: int|
                            0 <= j < i ==> val_eq(#[trigger] views_of(xi@)[j], views_of(yi@)[j]),
                    decreases n - i,
                {
                    proof {
                        lemma_views_of(xi@);
                        lemma_views_of(yi@);
                        assert(views_of(xi@)[i as int] == xi@[i as int]@);
                        assert(views_of(yi@)[i as int] == yi@[i as int]@);
                    }
                    if !xi[i].equals(&yi[i]) {
                        return false;
                    }
                    i = i + 1;
                }
                proof {
                    lemma_views_of(xi@);
                    lemma_views_of(yi@);
                }
                true
            },
            (Value::Fn(f), Value::Fn(g)) => f.syntax_eq(g),
            (Value::Unit, Value::Unit) => true,
            (Value::I(x), Value::I(y)) => *x == *y,
            (Value::F(x), Value::F(y)) => x.bits == y.bits || (crate::floats::is_nan_bits(x.bits)
                && crate::floats::is_nan_bits(y.bits)),
            (Value::C(x), Value::C(y)) => *x == *y,
            (Value::B(x), Value::B(y)) => *x == *y,
            _ => false,
        }
    }

    /// A copy of this value; structurally the same value.
    #[verifier::loop_isolation(false)]
    pub fn dup(&self) -> (r: Value)
        ensures
            sv_eq(r@, self@),
        decreases *self,
    {
        match self {
            Value::Unit => Value::Unit,
            Value::I(x) => Value::I(*x),
            Value::F(x) => Value::F(*x),
            Value::C(x) => Value::C(*x),
            Value::B(x) => Value::B(*x),
            Value::List { items, spread } => {
                let n: usize = items.len();
                let mut out: Vec<Value> = Vec::new();
                let mut i: usize = 0;
                while i < n
                    invariant
                        i <= n,
                        out@.len() == i,
                        forall|j: int|
                            0 <= j < i ==> sv_eq(
                                #[trigger] views_of(out@)[j],
                                views_of(items@)[j],
                            ),
                    decreases n - i,
                {
                    let ghost pre = out@;
                    let d = items[i].dup();
                    let ghost dv = d@;
                    out.push(d);
                    proof {
                        lemma_views_of(pre);
                        lemma_views_of(out@);
                        lemma_views_of(items@);
                        assert forall|j: int| 0 <= j < i + 1 implies sv_eq(
                            #[trigger] views_of(out@)[j],
                            views_of(items@)[j],
                        ) by {
                            assert(views_of(items@)[j] == items@[j]@);
                            assert(views_of(out@)[j] == out@[j]@);
                            if j < i {
                                assert(out@[j] == pre[j]);
                                assert(views_of(pre)[j] == pre[j]@);
                            } else {
                                assert(out@[j]@ == dv);
                            }
                        }
                    }
                    i = i + 1;
                }
                proof {
                    lemma_views_of(out@);
                    lemma_views_of(items@);
                }
                Value::List { items: out, spread: *spread }
            },
            Value::Fn(f) => Value::Fn(f.dup()),
            Value::Type(t) => Value::Type(*t),
        }
    }

    /// A plain list holding the given items, with the spread marker off.
    pub fn list(items: Vec<Value>) -> (r: Value)
        ensures
            r@ == (SpecValue::List { items: views_of(items@), spread: false }),
    {
        Value::List { items, spread: false }
    }
}

impl Clone for Value {
    fn clone(&self) -> (r: Self)
        ensures
            sv_eq(r@, self@),
    {
        self.dup()
    }
}

/// The equality the language exposes is symmetric: in particular the
/// `Any` wildcard works the same in both argument orders, although it is
/// implemented by separate arms.
pub proof fn lemma_val_eq_symmetric(a: SpecValue, b: SpecValue)
    ensures
        val_eq(a, b) == val_eq(b, a),
    decreases a,
{
    match (a, b) {
        (
            SpecValue::List { items: xi, spread: xs },
            SpecValue::List { items: yi, spread: ys },
        ) => {
            if xi.len() == yi.len() {
                assert forall|i: int| 0 <= i < xi.len() implies val_eq(#[trigger] xi[i], yi[i])
                    == val_eq(yi[i], xi[i]) by {
                    lemma_val_eq_symmetric(xi[i], yi[i]);
                }
            }
        },
        (SpecValue::Fn(f), SpecValue::Fn(g)) => {
            crate::ast::lemma_ast_eq_symmetric_fn_init(f, g);
        },
        _ => {},
    }
}

/// The `Any` type tag compares equal to exactly the type values and list
/// values, and it does so in both argument orders: the wildcard is
/// symmetric in effect although it is implemented by separate arms.
pub proof fn lemma_any_wildcard_symmetric(v: SpecValue)
    ensures
        val_eq(SpecValue::Type(ValueType::Any), v) == val_eq(v, SpecValue::Type(ValueType::Any)),
        val_eq(SpecValue::Type(ValueType::Any), v) <==> (v is Type || v is List),
{
}


/// The display name of a type tag.
pub open spec fn spec_type_name(t: ValueType) -> Seq<char> {
    match t {
        ValueType::Unit => "Unit"@,
        ValueType::Integer => "Integer"@,
        ValueType::Float => "Float"@,
        ValueType::Char => "Char"@,
        ValueType::Boolean => "Boolean"@,
        ValueType::Function => "Function"@,
        ValueType::Any => "Any"@,
        ValueType::Type => "Type"@,
    }
}

impl ValueType {
    /// The display name of this type tag.
    pub fn name(&self) -> (r: String)
        ensures
            r@ == spec_type_name(*self),
    {
        match self {
            ValueType::Unit => String::from_str("Unit"),
            ValueType::Integer => String::from_str("Integer"),
            ValueType::Float => String::from_str("Float"),
            ValueType::Char => String::from_str("Char"),
            ValueType::Boolean => String::from_str("Boolean"),
            ValueType::Function => String::from_str("Function"),
            ValueType::Any => String::from_str("Any"),
            ValueType::Type => String::from_str("Type"),
        }
    }
}

/// The inferred type of each value of a run, one by one.
pub open spec fn spec_types_of(items: Seq<SpecValue>) -> Seq<SpecValue>
    decreases items,
{
    if items.len() == 0 {
        Seq::empty()
    } else {
        seq![spec_value_type(items[0])] + spec_types_of(items.drop_first())
    }
}

/// All inferred element types agree with the first one.
pub open spec fn spec_homogeneous(ts: Seq<SpecValue>) -> bool {
    forall|i: int| 0 <= i < ts.len() ==> sv_eq(#[trigger] ts[i], ts[0])
}

/// The inferred type of a value. Primitive tags map directly; an empty
/// list is typed `[Any]`, a list whose element types all agree is typed by
/// that single element type, and a mixed list is typed by the run of its
/// element types, positionally.
pub open spec fn spec_value_type(v: SpecValue) -> SpecValue
    decreases v,
{
    match v {
        SpecValue::Unit => SpecValue::Type(ValueType::Unit),
        SpecValue::I(_) => SpecValue::Type(ValueType::Integer),
        SpecValue::F(_) => SpecValue::Type(ValueType::Float),
        SpecValue::C(_) => SpecValue::Type(ValueType::Char),
        SpecValue::B(_) => SpecValue::Type(ValueType::Boolean),
        SpecValue::Fn(_) => SpecValue::Type(ValueType::Function),
        SpecValue::Type(_) => SpecValue::Type(ValueType::Type),
        SpecValue::List { items, .. } => {
            if items.len() == 0 {
                SpecValue::List {
                    items: seq![SpecValue::Type(ValueType::Any)],
                    spread: false,
                }
            } else {
                let ts = spec_types_of(items);
                if spec_homogeneous(ts) {
                    SpecValue::List { items: seq![ts[0]], spread: false }
                } else {
                    SpecValue::List { items: ts, spread: false }
                }
            }
        },
    }
}

pub broadcast proof fn lemma_types_of(s: Seq<SpecValue>)
    ensures
        (#[trigger] spec_types_of(s)).len() == s.len(),
        forall|i: int| 0 <= i < s.len() ==> spec_types_of(s)[i] == spec_value_type(s[i]),
    decreases s,
{
    if s.len() > 0 {
        let rest = s.drop_first();
        lemma_types_of(rest);
        assert(spec_types_of(s) == seq![spec_value_type(s[0])] + spec_types_of(rest));
        assert forall|i: int| 0 <= i < s.len() implies spec_types_of(s)[i] == spec_value_type(
            s[i],
        ) by {
            if i == 0 {
                assert(spec_types_of(s)[0] == spec_value_type(s[0]));
            } else {
                assert(spec_types_of(s)[i] == spec_types_of(rest)[i - 1]);
                assert(rest[i - 1] == s[i]);
            }
        }
    }
}

impl Value {
    /// The inferred type of this value, as a value.
    #[verifier::loop_isolation(false)]
    pub fn value_type(&self) -> (r: Value)
        ensures
            r@ == spec_value_type(self@),
        decreases *self,
    {
        match self {
            Value::Unit => Value::Type(ValueType::Unit),
            Value::I(_) => Value::Type(ValueType::Integer),
            Value::F(_) => Value::Type(ValueType::Float),
            Value::C(_) => Value::Type(ValueType::Char),
            Value::B(_) => Value::Type(ValueType::Boolean),
            Value::Fn(_) => Value::Type(ValueType::Function),
            Value::Type(_) => Value::Type(ValueType::Type),
            Value::List { items, .. } => {
                let ghost sitems = views_of(items@);
                proof {
                    lemma_views_of(items@);
                    lemma_types_of(sitems);
                }
                if items.len() == 0 {
                    let out: Vec<Value> = vec![Value::Type(ValueType::Any)];
                    proof {
                        lemma_views_of(out@);
                        assert(views_of(out@) =~= seq![SpecValue::Type(ValueType::Any)]);
                        assert((Value::List { items: out, spread: false })@ =~= spec_value_type(
                            self@,
                        ));
                    }
                    return Value::List { items: out, spread: false };
                }
                let n: usize = items.len();
                let mut types: Vec<Value> = Vec::new();
                let mut i: usize = 0;
                while i < n
                    invariant
                        i <= n,
                        types@.len() == i,
                        forall|j: int|
                            0 <= j < i ==> (#[trigger] types@[j])@ == spec_types_of(sitems)[j],
                    decreases n - i,
                {
                    let t = items[i].value_type();
                    proof {
                        assert(sitems[i as int] == items@[i as int]@);
                    }
                    types.push(t);
                    i = i + 1;
                }
                let mut homogeneous = true;
                let mut k: usize = 1;
                proof {
                    assert(sv_eq(spec_types_of(sitems)[0], spec_types_of(sitems)[0])) by {
                        lemma_sv_eq_reflexive(spec_types_of(sitems)[0]);
                    }
                }
                while k < n
                    invariant
                        1 <= k <= n,
                        homogeneous == (forall|j: int|
                            0 <= j < k ==> sv_eq(
                                #[trigger] spec_types_of(sitems)[j],
                                spec_types_of(sitems)[0],
                            )),
                    decreases n - k,
                {
                    if !types[k].strict_eq(&types[0]) {
                        homogeneous = false;
                    }
                    k = k + 1;
                }
                if homogeneous {
                    let first = types.remove(0);
                    let out: Vec<Value> = vec![first];
                    proof {
                        lemma_views_of(out@);
                        assert(views_of(out@) =~= seq![spec_types_of(sitems)[0]]);
                        assert((Value::List { items: out, spread: false })@ =~= spec_value_type(
                            self@,
                        ));
                    }
                    Value::List { items: out, spread: false }
                } else {
                    proof {
                        lemma_views_of(types@);
                        assert(views_of(types@) =~= spec_types_of(sitems));
                        assert((Value::List { items: types, spread: false })@ =~= spec_value_type(
                            self@,
                        ));
                    }
                    Value::List { items: types, spread: false }
                }
            },
        }
    }
}

/// Structural equality is reflexive.
pub proof fn lemma_sv_eq_reflexive(v: SpecValue)
    ensures
        sv_eq(v, v),
    decreases v,
{
    match v {
        SpecValue::List { items, .. } => {
            assert forall|i: int| 0 <= i < items.len() implies sv_eq(
                #[trigger] items[i],
                items[i],
            ) by {
                lemma_sv_eq_reflexive(items[i]);
            }
        },
        SpecValue::Fn(f) => {
            lemma_ast_eq_reflexive_fn_init(f);
        },
        _ => {},
    }
}

/// The type inferred for the empty list is `[Any]`.
pub proof fn lemma_empty_list_type(spread: bool)
    ensures
        spec_value_type(SpecValue::List { items: Seq::empty(), spread }) == (SpecValue::List {
            items: seq![SpecValue::Type(ValueType::Any)],
            spread: false,
        }),
{
}

/// A non-empty list whose elements all have the same inferred type is
/// typed by that single element type.
pub proof fn lemma_homogeneous_list_type(items: Seq<SpecValue>, spread: bool)
    requires
        items.len() > 0,
        forall|i: int|
            0 <= i < items.len() ==> sv_eq(
                #[trigger] spec_value_type(items[i]),
                spec_value_type(items[0]),
            ),
    ensures
        spec_value_type(SpecValue::List { items, spread }) == (SpecValue::List {
            items: seq![spec_value_type(items[0])],
            spread: false,
        }),
{
    lemma_types_of(items);
    let ts = spec_types_of(items);
    assert forall|i: int| 0 <= i < ts.len() implies sv_eq(#[trigger] ts[i], ts[0]) by {
        assert(ts[i] == spec_value_type(items[i]));
    }
}

/// A list with two elements of differing inferred types is typed by the
/// run of its element types, positionally.
pub proof fn lemma_heterogeneous_list_type(items: Seq<SpecValue>, spread: bool)
    requires
        items.len() > 0,
        exists|i: int|
            0 <= i < items.len() && !sv_eq(
                #[trigger] spec_value_type(items[i]),
                spec_value_type(items[0]),
            ),
    ensures
        spec_value_type(SpecValue::List { items, spread }) == (SpecValue::List {
            items: spec_types_of(items),
            spread: false,
        }),
{
    lemma_types_of(items);
    let ts = spec_types_of(items);
    let i = choose|i: int|
        0 <= i < items.len() && !sv_eq(
            #[trigger] spec_value_type(items[i]),
            spec_value_type(items[0]),
        );
    assert(!sv_eq(ts[i], ts[0]));
}


/// Every value in the run is a character.
pub open spec fn all_chars(items: Seq<SpecValue>) -> bool {
    forall|i: int| 0 <= i < items.len() ==> (#[trigger] items[i]) is C
}

/// The character a value holds, for values known to be characters.
pub open spec fn c_of(v: SpecValue) -> Seq<char> {
    match v {
        SpecValue::C(c) => seq![c],
        _ => Seq::empty(),
    }
}

/// The characters of a run of character values, in order.
pub open spec fn chars_seq(items: Seq<SpecValue>) -> Seq<char>
    decreases items,
{
    if items.len() == 0 {
        Seq::empty()
    } else {
        c_of(items[0]) + chars_seq(items.drop_first())
    }
}

/// The displays of a run of values, joined with a comma and a space.
pub open spec fn spec_join(items: Seq<SpecValue>) -> Seq<char>
    decreases items,
{
    if items.len() == 0 {
        Seq::empty()
    } else if items.len() == 1 {
        spec_display(items[0])
    } else {
        spec_display(items[0]) + ", "@ + spec_join(items.drop_first())
    }
}

/// The display form of a value. A non-empty list of characters with the
/// spread marker off displays as its characters joined (the string form);
/// any other list displays bracketed, with a leading spread marker when
/// the flag is set.
pub open spec fn spec_display(v: SpecValue) -> Seq<char>
    decreases v,
{
    match v {
        SpecValue::Unit => "()"@,
        SpecValue::I(i) => spec_int_str(i as int),
        SpecValue::F(b) => float_str_bits(b.bits),
        SpecValue::C(c) => seq![c],
        SpecValue::B(b) => if b {
            "True"@
        } else {
            "False"@
        },
        SpecValue::List { items, spread } => {
            if items.len() > 0 && all_chars(items) && !spread {
                chars_seq(items)
            } else {
                (if spread {
                    ".."@
                } else {
                    Seq::<char>::empty()
                }) + "["@ + spec_join(items) + "]"@
            }
        },
        SpecValue::Fn(_) => "<fn>"@,
        SpecValue::Type(t) => spec_type_name(t),
    }
}

pub proof fn lemma_chars_seq_snoc(s: Seq<SpecValue>, x: SpecValue)
    ensures
        chars_seq(s.push(x)) == chars_seq(s) + c_of(x),
    decreases s,
{
    if s.len() == 0 {
        assert(s.push(x)[0] == x);
        assert(s.push(x).drop_first() =~= Seq::<SpecValue>::empty());
        assert(chars_seq(s.push(x)) == c_of(x) + chars_seq(Seq::<SpecValue>::empty()));
        assert(c_of(x) + Seq::<char>::empty() =~= c_of(x));
        assert(chars_seq(s) + c_of(x) =~= c_of(x));
    } else {
        assert(s.push(x).drop_first() =~= s.drop_first().push(x));
        lemma_chars_seq_snoc(s.drop_first(), x);
        assert(chars_seq(s.push(x)) == c_of(s[0]) + (chars_seq(s.drop_first()) + c_of(x)));
        assert(c_of(s[0]) + (chars_seq(s.drop_first()) + c_of(x)) =~= (c_of(s[0]) + chars_seq(
            s.drop_first(),
        )) + c_of(x));
    }
}

pub proof fn lemma_join_snoc(s: Seq<SpecValue>, x: SpecValue)
    ensures
        spec_join(s.push(x)) == if s.len() == 0 {
            spec_display(x)
        } else {
            spec_join(s) + ", "@ + spec_display(x)
        },
    decreases s,
{
    if s.len() == 0 {
        assert(s.push(x)[0] == x);
        assert(spec_join(s.push(x)) == spec_display(x));
    } else if s.len() == 1 {
        assert(s.push(x)[0] == s[0]);
        assert(s.push(x).drop_first() =~= seq![x]);
        assert(spec_join(seq![x]) == spec_display(x));
    } else {
        assert(s.push(x)[0] == s[0]);
        assert(s.push(x).drop_first() =~= s.drop_first().push(x));
        lemma_join_snoc(s.drop_first(), x);
        assert(spec_join(s.push(x)) == spec_display(s[0]) + ", "@ + (spec_join(s.drop_first())
            + ", "@ + spec_display(x)));
        assert(spec_display(s[0]) + ", "@ + (spec_join(s.drop_first()) + ", "@ + spec_display(x))
            =~= (spec_display(s[0]) + ", "@ + spec_join(s.drop_first())) + ", "@ + spec_display(
            x,
        ));
    }
}

impl Value {
    /// The display form of this value, as a fresh string.
    #[verifier::loop_isolation(false)]
    pub fn to_display_string(&self) -> (r: String)
        ensures
            r@ == spec_display(self@),
        decreases *self,
    {
        match self {
            Value::Unit => String::from_str("()"),
            Value::I(i) => int_str(*i),
            Value::F(b) => apf_str(b.bits),
            Value::C(c) => {
                let v: Vec<char> = vec![*c];
                proof {
                    assert(v@ =~= seq![*c]);
                }
                collect_string(&v)
            },
            Value::B(b) => if *b {
                String::from_str("True")
            } else {
                String::from_str("False")
            },
            Value::Type(t) => t.name(),
            Value::Fn(_) => String::from_str("<fn>"),
            Value::List { items, spread } => {
                let ghost sitems = views_of(items@);
                proof {
                    lemma_views_of(items@);
                }
                let n: usize = items.len();
                let mut all_c = n > 0;
                let mut i: usize = 0;
                while i < n
                    invariant
                        i <= n,
                        all_c == (n > 0 && forall|j: int|
                            0 <= j < i ==> (#[trigger] sitems[j]) is C),
                    decreases n - i,
                {
                    proof {
                        assert(sitems[i as int] == items@[i as int]@);
                    }
                    match &items[i] {
                        Value::C(_) => {},
                        _ => {
                            all_c = false;
                        },
                    }
                    i = i + 1;
                }
                if all_c && !*spread {
                    let mut cs: Vec<char> = Vec::new();
                    let mut i: usize = 0;
                    proof {
                        assert(cs@ =~= chars_seq(sitems.take(0)));
                    }
                    while i < n
                        invariant
                            i <= n,
                            cs@ == chars_seq(sitems.take(i as int)),
                        decreases n - i,
                    {
                        let c = match &items[i] {
                            Value::C(c) => *c,
                            _ => ' ',
                        };
                        cs.push(c);
                        proof {
                            assert(sitems.take(i + 1) =~= sitems.take(i as int).push(
                                sitems[i as int],
                            ));
                            lemma_chars_seq_snoc(sitems.take(i as int), sitems[i as int]);
                            assert(c_of(sitems[i as int]) =~= seq![c]);
                            assert(cs@ =~= chars_seq(sitems.take(i + 1)));
                        }
                        i = i + 1;
                    }
                    proof {
                        assert(sitems.take(n as int) =~= sitems);
                    }
                    collect_string(&cs)
                } else {
                    let mut out = if *spread {
                        String::from_str("..")
                    } else {
                        String::new()
                    };
                    out.append("[");
                    let ghost prefix = (if *spread {
                        ".."@
                    } else {
                        Seq::<char>::empty()
                    }) + "["@;
                    proof {
                        assert(out@ =~= prefix);
                        assert(out@ =~= prefix + spec_join(sitems.take(0)));
                    }
                    let mut i: usize = 0;
                    while i < n
                        invariant
                            i <= n,
                            out@ == prefix + spec_join(sitems.take(i as int)),
                        decreases n - i,
                    {
                        if i > 0 {
                            out.append(", ");
                        }
                        let d = items[i].to_display_string();
                        out.append(d.as_str());
                        proof {
                            assert(sitems.take(i + 1) =~= sitems.take(i as int).push(
                                sitems[i as int],
                            ));
                            lemma_join_snoc(sitems.take(i as int), sitems[i as int]);
                            assert(out@ =~= prefix + spec_join(sitems.take(i + 1)));
                        }
                        i = i + 1;
                    }
                    out.append("]");
                    proof {
                        assert(sitems.take(n as int) =~= sitems);
                        assert(out@ =~= spec_display(self@));
                    }
                    out
                }
            },
        }
    }
}


/// The character value holding one character.
pub open spec fn spec_char(c: char) -> SpecValue {
    SpecValue::C(c)
}

/// The values of a run of characters, one character value each.
pub open spec fn spec_chars_values(s: Seq<char>) -> Seq<SpecValue>
    decreases s,
{
    if s.len() == 0 {
        Seq::empty()
    } else {
        seq![spec_char(s[0])] + spec_chars_values(s.drop_first())
    }
}

/// The string representation of a run of characters: a plain list of
/// character values.
pub open spec fn spec_string_value(s: Seq<char>) -> SpecValue {
    SpecValue::List { items: spec_chars_values(s), spread: false }
}

pub broadcast proof fn lemma_chars_values(s: Seq<char>)
    ensures
        (#[trigger] spec_chars_values(s)).len() == s.len(),
        forall|i: int| 0 <= i < s.len() ==> spec_chars_values(s)[i] == spec_char(s[i]),
    decreases s,
{
    if s.len() > 0 {
        let rest = s.drop_first();
        lemma_chars_values(rest);
        assert(spec_chars_values(s) == seq![spec_char(s[0])] + spec_chars_values(rest));
        assert forall|i: int| 0 <= i < s.len() implies spec_chars_values(s)[i] == spec_char(
            s[i],
        ) by {
            if i > 0 {
                assert(spec_chars_values(s)[i] == spec_chars_values(rest)[i - 1]);
                assert(rest[i - 1] == s[i]);
            }
        }
    }
}

/// The character value holding the given character.
pub fn char_value(c: char) -> (r: Value)
    ensures
        r@ == spec_char(c),
{
    Value::C(c)
}

/// The string representation of the given text: a list of its characters.
#[verifier::loop_isolation(false)]
pub fn string_value(s: &str) -> (r: Value)
    ensures
        r@ == spec_string_value(s@),
{
    let cs = chars_of_str(s);
    let n: usize = cs.len();
    let mut out: Vec<Value> = Vec::new();
    let mut i: usize = 0;
    while i < n
        invariant
            i <= n,
            out@.len() == i,
            forall|j: int| 0 <= j < i ==> (#[trigger] out@[j])@ == spec_char(s@[j]),
        decreases n - i,
    {
        let v = char_value(cs[i]);
        out.push(v);
        i = i + 1;
    }
    proof {
        lemma_views_of(out@);
        lemma_chars_values(s@);
        assert(views_of(out@) =~= spec_chars_values(s@));
    }
    Value::List { items: out, spread: false }
}

/// The type "list of characters": what strings infer to.
pub open spec fn spec_char_list_type() -> SpecValue {
    SpecValue::List { items: seq![SpecValue::Type(ValueType::Char)], spread: false }
}

/// The explicit cast table. A value already of the target type is handed
/// back; the display form casts any primitive to a character list; a
/// character list parses to the primitive targets; integers and floats
/// convert numerically (floats truncate toward zero); integers and
/// characters convert through the code point. Everything else is no
/// conversion.
pub open spec fn spec_to(v: SpecValue, t: SpecValue) -> Option<SpecValue> {
    if val_eq(spec_value_type(v), t) {
        Some(v)
    } else {
        match t {
            SpecValue::List { items: ti, spread: tsp } => {
                if ti.len() == 1 && ti[0] == SpecValue::Type(ValueType::Char) && !tsp {
                    match v {
                        SpecValue::I(_) => Some(spec_string_value(spec_display(v))),
                        SpecValue::F(_) => Some(spec_string_value(spec_display(v))),
                        SpecValue::C(_) => Some(spec_string_value(spec_display(v))),
                        SpecValue::B(_) => Some(spec_string_value(spec_display(v))),
                        SpecValue::Unit => Some(spec_string_value(spec_display(v))),
                        _ => None,
                    }
                } else {
                    None
                }
            },
            SpecValue::Type(tt) => {
                if v is List && val_eq(spec_value_type(v), spec_char_list_type()) {
                    let s = spec_display(v);
                    match tt {
                        ValueType::Unit => Some(SpecValue::Unit),
                        ValueType::Integer => match int_of_str(s) {
                            Some(i) => Some(SpecValue::I(i)),
                            None => None,
                        },
                        ValueType::Float => match float_of_str_bits(s) {
                            Some(b) => Some(SpecValue::F(FloatBits { bits: b })),
                            None => None,
                        },
                        ValueType::Char => if s.len() == 1 {
                            Some(SpecValue::C(s[0]))
                        } else {
                            None
                        },
                        ValueType::Boolean => if s == "True"@ {
                            Some(SpecValue::B(true))
                        } else if s == "False"@ {
                            Some(SpecValue::B(false))
                        } else {
                            None
                        },
                        _ => None,
                    }
                } else {
                    match (v, tt) {
                        (SpecValue::I(i), ValueType::Float) => Some(
                            SpecValue::F(FloatBits { bits: float_of_int_bits(i) }),
                        ),
                        (SpecValue::F(b), ValueType::Integer) => match float_to_int_bits(b.bits) {
                            Some(i) => Some(SpecValue::I(i)),
                            None => None,
                        },
                        (SpecValue::I(i), ValueType::Char) => if (0 <= i && i < 0xD800) || (0xE000
                            <= i && i <= 0x10FFFF) {
                            Some(SpecValue::C(char_of(i as u32)))
                        } else {
                            None
                        },
                        (SpecValue::C(c), ValueType::Integer) => Some(
                            SpecValue::I(c as u32 as i128),
                        ),
                        _ => None,
                    }
                }
            },
            _ => None,
        }
    }
}

impl Value {
    /// Casts this value to the given target type, or yields nothing when
    /// the cast table has no entry for the pair.
    pub fn to(&self, vt: &Value) -> (r: Option<Value>)
        ensures
            match spec_to(self@, vt@) {
                Some(sv) => r is Some && sv_eq(r.unwrap()@, sv),
                None => r is None,
            },
    {
        let at = self.value_type();
        if at.equals(vt) {
            proof {
                lemma_sv_eq_reflexive(self@);
            }
            return Some(self.dup());
        }
        match vt {
            Value::List { items: ti, spread: tsp } => {
                proof {
                    lemma_views_of(ti@);
                    if ti@.len() > 0 {
                        assert(views_of(ti@)[0] == ti@[0]@);
                    }
                }
                let char_target = ti.len() == 1 && !*tsp && (match &ti[0] {
                    Value::Type(ValueType::Char) => true,
                    _ => false,
                });
                if char_target {
                    match self {
                        Value::List { .. } => None,
                        Value::Fn(_) => None,
                        Value::Type(_) => None,
                        _ => {
                            let s = self.to_display_string();
                            let out = string_value(s.as_str());
                            proof {
                                lemma_sv_eq_reflexive(out@);
                            }
                            Some(out)
                        },
                    }
                } else {
                    None
                }
            },
            Value::Type(tt) => {
                let cl_items: Vec<Value> = vec![Value::Type(ValueType::Char)];
                proof {
                    lemma_views_of(cl_items@);
                    assert(views_of(cl_items@) =~= seq![SpecValue::Type(ValueType::Char)]);
                }
                let cl = Value::List { items: cl_items, spread: false };
                proof {
                    assert(cl@ =~= spec_char_list_type());
                }
                let is_char_list = (match self {
                    Value::List { .. } => true,
                    _ => false,
                }) && at.equals(&cl);
                if is_char_list {
                    let s = self.to_display_string();
                    match tt {
                        ValueType::Unit => Some(Value::Unit),
                        ValueType::Integer => match parse_int_str(s.as_str()) {
                            Some(i) => Some(Value::I(i)),
                            None => None,
                        },
                        ValueType::Float => match apf_of_str(s.as_str()) {
                            Some(b) => Some(Value::F(FloatBits::new(b))),
                            None => None,
                        },
                        ValueType::Char => {
                            let cs = chars_of_str(s.as_str());
                            if cs.len() == 1 {
                                Some(char_value(cs[0]))
                            } else {
                                None
                            }
                        },
                        ValueType::Boolean => {
                            let t_lit = String::from_str("True");
                            let f_lit = String::from_str("False");
                            if s == t_lit {
                                Some(Value::B(true))
                            } else if s == f_lit {
                                Some(Value::B(false))
                            } else {
                                None
                            }
                        },
                        _ => None,
                    }
                } else {
                    match (self, tt) {
                        (Value::I(i), ValueType::Float) => Some(
                            Value::F(FloatBits::new(apf_of_int(*i))),
                        ),
                        (Value::F(b), ValueType::Integer) => match apf_to_int(b.bits) {
                            Some(i) => Some(Value::I(i)),
                            None => None,
                        },
                        (Value::I(i), ValueType::Char) => {
                            if (0 <= *i && *i < 0xD800) || (0xE000 <= *i && *i <= 0x10FFFF) {
                                match char_of_u32(*i as u32) {
                                    Some(c) => Some(char_value(c)),
                                    None => {
                                        proof {
                                            assert(false);
                                        }
                                        None
                                    },
                                }
                            } else {
                                None
                            }
                        },
                        (Value::C(c), ValueType::Integer) => Some(Value::I(*c as u32 as i128)),
                        _ => None,
                    }
                }
            },
            _ => None,
        }
    }
}

/// Casting an integer to the float type yields the nearest float.
pub proof fn lemma_int_to_float(i: i128)
    ensures
        spec_to(SpecValue::I(i), SpecValue::Type(ValueType::Float)) == Some(
            SpecValue::F(FloatBits { bits: float_of_int_bits(i) }),
        ),
{
}

/// Casting a float to the integer type truncates toward zero; the result
/// is whatever the truncation of the bits yields, or no conversion when
/// the float is a NaN or out of the integer range.
pub proof fn lemma_float_to_int(b: FloatBits)
    ensures
        spec_to(SpecValue::F(b), SpecValue::Type(ValueType::Integer)) == (match float_to_int_bits(
            b.bits,
        ) {
            Some(i) => Some(SpecValue::I(i)),
            None => None,
        }),
{
}

/// Casting a boolean to the integer type is unsupported: it yields no
/// conversion.
pub proof fn lemma_bool_to_integer_unsupported(b: bool)
    ensures
        spec_to(SpecValue::B(b), SpecValue::Type(ValueType::Integer)) is None,
{
}


/// What one one-directional arithmetic attempt yields: a value, a numeric
/// failure with its message, or no rule for the operand pair.
pub enum ArithOutcome {
    Value(SpecValue),
    Numeric(Seq<char>),
    Unsupported,
}

/// The truncated remainder (the sign follows the dividend), as Rust's
/// `%` computes it on machine integers.
pub open spec fn spec_trunc_rem(x: int, d: int) -> int {
    if x == 0 {
        0
    } else if x > 0 && d > 0 {
        x % d
    } else if x < 0 && d < 0 {
        ((x * -1) % (d * -1)) * -1
    } else if x < 0 {
        ((x * -1) % d) * -1
    } else {
        x % (d * -1)
    }
}

/// One attempt at `a + b`. Numbers add (an integer against a float is
/// promoted). Two plain lists concatenate. A spread list absorbs a
/// non-list value, or a plain list, as one element: at the end when the
/// spread list stands on the left, at the front when it stands on the
/// right. Two spread lists, or a plain list against a non-list value,
/// have no rule.
pub open spec fn spec_add_once(a: SpecValue, b: SpecValue) -> ArithOutcome {
    match (a, b) {
        (SpecValue::I(x), SpecValue::I(y)) => if i128::MIN <= x + y <= i128::MAX {
            ArithOutcome::Value(SpecValue::I((x + y) as i128))
        } else {
            ArithOutcome::Numeric("integer overflow"@)
        },
        (SpecValue::F(x), SpecValue::F(y)) => ArithOutcome::Value(
            SpecValue::F(FloatBits { bits: float_add_bits(x.bits, y.bits) }),
        ),
        (SpecValue::I(x), SpecValue::F(y)) => ArithOutcome::Value(
            SpecValue::F(FloatBits { bits: float_add_bits(float_of_int_bits(x), y.bits) }),
        ),
        (
            SpecValue::List { items: l1, spread: s1 },
            SpecValue::List { items: l2, spread: s2 },
        ) => if s1 == s2 {
            if s1 {
                ArithOutcome::Unsupported
            } else {
                ArithOutcome::Value(SpecValue::List { items: l1 + l2, spread: false })
            }
        } else if s1 {
            ArithOutcome::Value(SpecValue::List { items: l1.push(b), spread: false })
        } else {
            ArithOutcome::Value(SpecValue::List { items: seq![a] + l2, spread: false })
        },
        (SpecValue::List { items: l1, spread: s1 }, _) => if s1 {
            ArithOutcome::Value(SpecValue::List { items: l1.push(b), spread: false })
        } else {
            ArithOutcome::Unsupported
        },
        (_, SpecValue::List { items: l2, spread: s2 }) => if s2 {
            ArithOutcome::Value(SpecValue::List { items: seq![a] + l2, spread: false })
        } else {
            ArithOutcome::Unsupported
        },
        _ => ArithOutcome::Unsupported,
    }
}

/// One attempt at `a - b`: numeric operands only.
pub open spec fn spec_sub_once(a: SpecValue, b: SpecValue) -> ArithOutcome {
    match (a, b) {
        (SpecValue::I(x), SpecValue::I(y)) => if i128::MIN <= x - y <= i128::MAX {
            ArithOutcome::Value(SpecValue::I((x - y) as i128))
        } else {
            ArithOutcome::Numeric("integer overflow"@)
        },
        (SpecValue::F(x), SpecValue::F(y)) => ArithOutcome::Value(
            SpecValue::F(FloatBits { bits: float_sub_bits(x.bits, y.bits) }),
        ),
        (SpecValue::I(x), SpecValue::F(y)) => ArithOutcome::Value(
            SpecValue::F(FloatBits { bits: float_sub_bits(float_of_int_bits(x), y.bits) }),
        ),
        _ => ArithOutcome::Unsupported,
    }
}

/// One attempt at `a % b`: numeric operands only; the integer remainder
/// truncates, and taking a remainder by zero is a numeric failure.
pub open spec fn spec_rem_once(a: SpecValue, b: SpecValue) -> ArithOutcome {
    match (a, b) {
        (SpecValue::I(x), SpecValue::I(y)) => if y == 0 {
            ArithOutcome::Numeric("division by zero"@)
        } else if x == i128::MIN && y == -1 {
            ArithOutcome::Numeric("integer overflow"@)
        } else {
            let output = spec_trunc_rem(x as int, y as int);
            if output < i128::MIN || output > i128::MAX {
                ArithOutcome::Numeric("integer overflow"@)
            } else {
                ArithOutcome::Value(SpecValue::I(output as i128))
            }
        },
        (SpecValue::F(x), SpecValue::F(y)) => ArithOutcome::Value(
            SpecValue::F(FloatBits { bits: float_rem_bits(x.bits, y.bits) }),
        ),
        (SpecValue::I(x), SpecValue::F(y)) => ArithOutcome::Value(
            SpecValue::F(FloatBits { bits: float_rem_bits(float_of_int_bits(x), y.bits) }),
        ),
        _ => ArithOutcome::Unsupported,
    }
}

/// The full dispatch of a binary arithmetic operator: the attempt on
/// `(a, b)` and, when no rule fits that pair, the attempt on `(b, a)`.
pub open spec fn spec_arith(once_ab: ArithOutcome, once_ba: ArithOutcome) -> ArithOutcome {
    match once_ab {
        ArithOutcome::Unsupported => once_ba,
        o => o,
    }
}

/// The message of the failure that rejects an operand pair.
pub open spec fn spec_incompat_msg(a: SpecValue, b: SpecValue, op: Seq<char>) -> Seq<char> {
    "incompatible operands: "@ + spec_display(spec_value_type(a)) + " "@ + op + " "@
        + spec_display(spec_value_type(b))
}

/// Builds the incompatible-operands message naming both operand types.
fn incompat_msg(a: &Value, b: &Value, op: &str) -> (r: String)
    ensures
        r@ == spec_incompat_msg(a@, b@, op@),
{
    let mut m = String::from_str("incompatible operands: ");
    let ta = a.value_type().to_display_string();
    m.append(ta.as_str());
    m.append(" ");
    m.append(op);
    m.append(" ");
    let tb = b.value_type().to_display_string();
    m.append(tb.as_str());
    proof {
        assert(m@ =~= spec_incompat_msg(a@, b@, op@));
    }
    m
}

/// Copies of the values of a run.
#[verifier::loop_isolation(false)]
fn dup_values(v: &Vec<Value>) -> (r: Vec<Value>)
    ensures
        r@.len() == v@.len(),
        forall|j: int|
            0 <= j < v@.len() ==> sv_eq(#[trigger] views_of(r@)[j], views_of(v@)[j]),
{
    let n: usize = v.len();
    let mut out: Vec<Value> = Vec::new();
    let mut i: usize = 0;
    while i < n
        invariant
            i <= n,
            out@.len() == i,
            forall|j: int|
                0 <= j < i ==> sv_eq(#[trigger] views_of(out@)[j], views_of(v@)[j]),
        decreases n - i,
    {
        let ghost pre = out@;
        let d = v[i].dup();
        let ghost dv = d@;
        out.push(d);
        proof {
            lemma_views_of(pre);
            lemma_views_of(out@);
            lemma_views_of(v@);
            assert forall|j: int| 0 <= j < i + 1 implies sv_eq(
                #[trigger] views_of(out@)[j],
                views_of(v@)[j],
            ) by {
                assert(views_of(v@)[j] == v@[j]@);
                assert(views_of(out@)[j] == out@[j]@);
                if j < i {
                    assert(out@[j] == pre[j]);
                    assert(views_of(pre)[j] == pre[j]@);
                } else {
                    assert(out@[j]@ == dv);
                }
            }
        }
        i = i + 1;
    }
    proof {
        lemma_views_of(out@);
        lemma_views_of(v@);
    }
    out
}

/// One one-directional attempt of `+` on a pair of values, following the
/// rules of `spec_add_once`. Yields the value, the numeric failure
/// message, or nothing when no rule fits the pair.
#[verifier::loop_isolation(false)]
fn add_once(a: &Value, b: &Value) -> (r: Option<Result<Value, String>>)
    ensures
        match spec_add_once(a@, b@) {
            ArithOutcome::Value(v) => r is Some && r.unwrap() is Ok && sv_eq(
                r.unwrap().unwrap()@,
                v,
            ),
            ArithOutcome::Numeric(m) => r is Some && r.unwrap() is Err && r.unwrap().unwrap_err()@
                == m,
            ArithOutcome::Unsupported => r is None,
        },
{
    match (a, b) {
        (Value::I(x), Value::I(y)) => match x.checked_add(*y) {
            Some(z) => Some(Ok(Value::I(z))),
            None => Some(Err(String::from_str("integer overflow"))),
        },
        (Value::F(x), Value::F(y)) => Some(
            Ok(Value::F(FloatBits::new(apf_add(x.bits, y.bits)))),
        ),
        (Value::I(x), Value::F(y)) => Some(
            Ok(Value::F(FloatBits::new(apf_add(apf_of_int(*x), y.bits)))),
        ),
        (
            Value::List { items: l1, spread: s1 },
            Value::List { items: l2, spread: s2 },
        ) => {
            proof {
                lemma_views_of(l1@);
                lemma_views_of(l2@);
            }
            if *s1 == *s2 && *s1 {
                None
            } else if *s1 == *s2 {
                let mut items = dup_values(l1);
                let mut tail = dup_values(l2);
                let ghost pre = items@;
                let ghost tails = tail@;
                items.append(&mut tail);
                proof {
                    lemma_views_of(items@);
                    lemma_views_of(pre);
                    lemma_views_of(tails);
                    assert forall|j: int| 0 <= j < items@.len() implies sv_eq(
                        #[trigger] views_of(items@)[j],
                        (views_of(l1@) + views_of(l2@))[j],
                    ) by {
                        assert(views_of(items@)[j] == items@[j]@);
                        if j < pre.len() {
                            assert(items@[j] == pre[j]);
                            assert(views_of(pre)[j] == pre[j]@);
                        } else {
                            assert(items@[j] == tails[j - pre.len()]);
                            assert(views_of(tails)[j - pre.len()] == tails[j - pre.len()]@);
                        }
                    }
                }
                Some(Ok(Value::List { items, spread: false }))
            } else if *s1 {
                let mut items = dup_values(l1);
                let ghost pre = items@;
                let d = b.dup();
                let ghost dv = d@;
                items.push(d);
                proof {
                    lemma_views_of(items@);
                    lemma_views_of(pre);
                    assert forall|j: int| 0 <= j < items@.len() implies sv_eq(
                        #[trigger] views_of(items@)[j],
                        views_of(l1@).push(b@)[j],
                    ) by {
                        assert(views_of(items@)[j] == items@[j]@);
                        if j < pre.len() {
                            assert(items@[j] == pre[j]);
                            assert(views_of(pre)[j] == pre[j]@);
                        } else {
                            assert(items@[j]@ == dv);
                        }
                    }
                }
                Some(Ok(Value::List { items, spread: false }))
            } else {
                let d = a.dup();
                let ghost dv = d@;
                let mut items: Vec<Value> = Vec::new();
                items.push(d);
                let ghost pre = items@;
                let mut tail = dup_values(l2);
                let ghost tails = tail@;
                items.append(&mut tail);
                proof {
                    lemma_views_of(items@);
                    lemma_views_of(pre);
                    lemma_views_of(tails);
                    assert(pre[0]@ == dv);
                    assert forall|j: int| 0 <= j < items@.len() implies sv_eq(
                        #[trigger] views_of(items@)[j],
                        (seq![a@] + views_of(l2@))[j],
                    ) by {
                        assert(views_of(items@)[j] == items@[j]@);
                        if j < 1 {
                            assert(items@[0] == pre[0]);
                        } else {
                            assert(items@[j] == tails[j - 1]);
                            assert(views_of(tails)[j - 1] == tails[j - 1]@);
                        }
                    }
                }
                Some(Ok(Value::List { items, spread: false }))
            }
        },
        (Value::List { items: l1, spread: s1 }, _) => {
            proof {
                lemma_views_of(l1@);
            }
            if !*s1 {
                return None;
            }
            let mut items = dup_values(l1);
            let ghost pre = items@;
            let d = b.dup();
            let ghost dv = d@;
            items.push(d);
            proof {
                lemma_views_of(items@);
                lemma_views_of(pre);
                assert forall|j: int| 0 <= j < items@.len() implies sv_eq(
                    #[trigger] views_of(items@)[j],
                    views_of(l1@).push(b@)[j],
                ) by {
                    assert(views_of(items@)[j] == items@[j]@);
                    if j < pre.len() {
                        assert(items@[j] == pre[j]);
                        assert(views_of(pre)[j] == pre[j]@);
                    } else {
                        assert(items@[j]@ == dv);
                    }
                }
            }
            Some(Ok(Value::List { items, spread: false }))
        },
        (_, Value::List { items: l2, spread: s2 }) => {
            proof {
                lemma_views_of(l2@);
            }
            if !*s2 {
                return None;
            }
            let d = a.dup();
            let ghost dv = d@;
            let mut items: Vec<Value> = Vec::new();
            items.push(d);
            let ghost pre = items@;
            let mut tail = dup_values(l2);
            let ghost tails = tail@;
            items.append(&mut tail);
            proof {
                lemma_views_of(items@);
                lemma_views_of(pre);
                lemma_views_of(tails);
                assert(pre[0]@ == dv);
                assert forall|j: int| 0 <= j < items@.len() implies sv_eq(
                    #[trigger] views_of(items@)[j],
                    (seq![a@] + views_of(l2@))[j],
                ) by {
                    assert(views_of(items@)[j] == items@[j]@);
                    if j < 1 {
                        assert(items@[0] == pre[0]);
                    } else {
                        assert(items@[j] == tails[j - 1]);
                        assert(views_of(tails)[j - 1] == tails[j - 1]@);
                    }
                }
            }
            Some(Ok(Value::List { items, spread: false }))
        },
        _ => None,
    }
}

/// One one-directional attempt of `-` on a pair of values.
fn sub_once(a: &Value, b: &Value) -> (r: Option<Result<Value, String>>)
    ensures
        match spec_sub_once(a@, b@) {
            ArithOutcome::Value(v) => r is Some && r.unwrap() is Ok && sv_eq(
                r.unwrap().unwrap()@,
                v,
            ),
            ArithOutcome::Numeric(m) => r is Some && r.unwrap() is Err && r.unwrap().unwrap_err()@
                == m,
            ArithOutcome::Unsupported => r is None,
        },
{
    match (a, b) {
        (Value::I(x), Value::I(y)) => match x.checked_sub(*y) {
            Some(z) => Some(Ok(Value::I(z))),
            None => Some(Err(String::from_str("integer overflow"))),
        },
        (Value::F(x), Value::F(y)) => Some(
            Ok(Value::F(FloatBits::new(apf_sub(x.bits, y.bits)))),
        ),
        (Value::I(x), Value::F(y)) => Some(
            Ok(Value::F(FloatBits::new(apf_sub(apf_of_int(*x), y.bits)))),
        ),
        _ => None,
    }
}

/// One one-directional attempt of `%` on a pair of values.
fn rem_once(a: &Value, b: &Value) -> (r: Option<Result<Value, String>>)
    ensures
        match spec_rem_once(a@, b@) {
            ArithOutcome::Value(v) => r is Some && r.unwrap() is Ok && sv_eq(
                r.unwrap().unwrap()@,
                v,
            ),
            ArithOutcome::Numeric(m) => r is Some && r.unwrap() is Err && r.unwrap().unwrap_err()@
                == m,
            ArithOutcome::Unsupported => r is None,
        },
{
    match (a, b) {
        (Value::I(x), Value::I(y)) => {
            if *y == 0 {
                Some(Err(String::from_str("division by zero")))
            } else {
                match x.checked_rem(*y) {
                    Some(z) => Some(Ok(Value::I(z))),
                    None => Some(Err(String::from_str("integer overflow"))),
                }
            }
        },
        (Value::F(x), Value::F(y)) => Some(
            Ok(Value::F(FloatBits::new(apf_rem(x.bits, y.bits)))),
        ),
        (Value::I(x), Value::F(y)) => Some(
            Ok(Value::F(FloatBits::new(apf_rem(apf_of_int(*x), y.bits)))),
        ),
        _ => None,
    }
}

impl Value {
    /// Adds two values: the attempt on `(self, rhs)` and, when no rule
    /// fits, on `(rhs, self)`. Numbers add, two plain lists concatenate,
    /// and a spread list absorbs the other operand as one element; any
    /// other pair fails with a message naming both operand types.
    pub fn add(&self, rhs: &Value) -> (r: Result<Value, String>)
        ensures
            match spec_arith(spec_add_once(self@, rhs@), spec_add_once(rhs@, self@)) {
                ArithOutcome::Value(v) => r is Ok && sv_eq(r.unwrap()@, v),
                ArithOutcome::Numeric(m) => r is Err && r.unwrap_err()@ == m,
                ArithOutcome::Unsupported => r is Err && r.unwrap_err()@ == spec_incompat_msg(
                    self@,
                    rhs@,
                    "+"@,
                ),
            },
    {
        match add_once(self, rhs) {
            Some(out) => out,
            None => match add_once(rhs, self) {
                Some(out) => out,
                None => Err(incompat_msg(self, rhs, "+")),
            },
        }
    }

    /// Subtracts two values, with the same dispatch as addition: when no
    /// rule fits `(self, rhs)`, the swapped pair is attempted.
    pub fn sub(&self, rhs: &Value) -> (r: Result<Value, String>)
        ensures
            match spec_arith(spec_sub_once(self@, rhs@), spec_sub_once(rhs@, self@)) {
                ArithOutcome::Value(v) => r is Ok && sv_eq(r.unwrap()@, v),
                ArithOutcome::Numeric(m) => r is Err && r.unwrap_err()@ == m,
                ArithOutcome::Unsupported => r is Err && r.unwrap_err()@ == spec_incompat_msg(
                    self@,
                    rhs@,
                    "-"@,
                ),
            },
    {
        match sub_once(self, rhs) {
            Some(out) => out,
            None => match sub_once(rhs, self) {
                Some(out) => out,
                None => Err(incompat_msg(self, rhs, "-")),
            },
        }
    }

    /// Takes the remainder of two values, with the same dispatch as
    /// addition: when no rule fits `(self, rhs)`, the swapped pair is
    /// attempted.
    pub fn rem(&self, rhs: &Value) -> (r: Result<Value, String>)
        ensures
            match spec_arith(spec_rem_once(self@, rhs@), spec_rem_once(rhs@, self@)) {
                ArithOutcome::Value(v) => r is Ok && sv_eq(r.unwrap()@, v),
                ArithOutcome::Numeric(m) => r is Err && r.unwrap_err()@ == m,
                ArithOutcome::Unsupported => r is Err && r.unwrap_err()@ == spec_incompat_msg(
                    self@,
                    rhs@,
                    "%"@,
                ),
            },
    {
        match rem_once(self, rhs) {
            Some(out) => out,
            None => match rem_once(rhs, self) {
                Some(out) => out,
                None => Err(incompat_msg(self, rhs, "%")),
            },
        }
    }
}

} // verus!
