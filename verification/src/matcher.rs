use vstd::prelude::*;
use crate::ast::{expr_eq, id_eq, pattern_item_eq, Assignee, DestructureItem, Expression, Identifier, MatchClause, PatternItem};
use crate::context::{def_value, Definition};
use crate::error::{custom_error, Error, ErrorKind};
use crate::span::{AstPair, Span};
use crate::value::{
    lemma_views_of, spec_string_value, string_value, sv_eq, val_eq, views_of, SpecValue, Value,
};

verus! {

/// Whether a pattern element is a spread binding.
pub open spec fn is_spread_pattern(p: PatternItem) -> bool {
    match p {
        PatternItem::Identifier { spread, .. } => spread,
        _ => false,
    }
}

/// The name a spread pattern element binds.
pub open spec fn spread_pattern_name(p: PatternItem) -> Seq<char> {
    match p {
        PatternItem::Identifier { identifier, .. } => identifier.1.0@,
        _ => Seq::empty(),
    }
}

/// How many elements of a pattern list are spread bindings.
pub open spec fn spec_spread_count(items: Seq<AstPair<PatternItem>>) -> int
    decreases items,
{
    if items.len() == 0 {
        0
    } else {
        (if is_spread_pattern(items[0].1) {
            1int
        } else {
            0int
        }) + spec_spread_count(items.drop_first())
    }
}

/// The position of the first spread binding of a pattern list.
pub open spec fn spec_spread_index(items: Seq<AstPair<PatternItem>>) -> int
    decreases items,
{
    if items.len() == 0 {
        0
    } else if is_spread_pattern(items[0].1) {
        0
    } else {
        1 + spec_spread_index(items.drop_first())
    }
}

pub proof fn lemma_spread_count_snoc(s: Seq<AstPair<PatternItem>>, x: AstPair<PatternItem>)
    ensures
        spec_spread_count(s.push(x)) == spec_spread_count(s) + (if is_spread_pattern(x.1) {
            1int
        } else {
            0int
        }),
    decreases s,
{
    if s.len() == 0 {
        assert(s.push(x)[0] == x);
        assert(s.push(x).drop_first() =~= Seq::<AstPair<PatternItem>>::empty());
        assert(spec_spread_count(s.push(x).drop_first()) == 0);
        assert(spec_spread_count(s) == 0);
    } else {
        assert(s.push(x)[0] == s[0]);
        assert(s.push(x).drop_first() =~= s.drop_first().push(x));
        lemma_spread_count_snoc(s.drop_first(), x);
    }
}

pub proof fn lemma_spread_index_first(s: Seq<AstPair<PatternItem>>, j: int)
    requires
        0 <= j < s.len(),
        is_spread_pattern(s[j].1),
        forall|l: int| 0 <= l < j ==> !is_spread_pattern(#[trigger] s[l].1),
    ensures
        spec_spread_index(s) == j,
    decreases j,
{
    if j > 0 {
        assert(!is_spread_pattern(s[0].1));
        assert(s.drop_first()[j - 1] == s[j]);
        assert forall|l: int| 0 <= l < j - 1 implies !is_spread_pattern(
            #[trigger] s.drop_first()[l].1,
        ) by {
            assert(s.drop_first()[l] == s[l + 1]);
        }
        lemma_spread_index_first(s.drop_first(), j - 1);
    }
}

/// The result of matching one value against one pattern: a failure of the
/// given kind, no match (so the next clause is tried), or a match with
/// the bindings it produces, each a name paired with the value it takes.
pub open spec fn spec_match_pattern(v: SpecValue, p: PatternItem) -> Result<
    Option<Seq<(Seq<char>, SpecValue)>>,
    ErrorKind,
>
    decreases p, 0int, 0int,
{
    match p {
        PatternItem::Hole => Ok(Some(Seq::empty())),
        PatternItem::Integer(i) => if val_eq(v, SpecValue::I(i)) {
            Ok(Some(Seq::empty()))
        } else {
            Ok(None)
        },
        PatternItem::Float(b) => if val_eq(v, SpecValue::F(b)) {
            Ok(Some(Seq::empty()))
        } else {
            Ok(None)
        },
        PatternItem::Boolean(x) => if val_eq(v, SpecValue::B(x)) {
            Ok(Some(Seq::empty()))
        } else {
            Ok(None)
        },
        PatternItem::String(s) => if val_eq(v, spec_string_value(s@)) {
            Ok(Some(Seq::empty()))
        } else {
            Ok(None)
        },
        PatternItem::Identifier { identifier, spread } => if spread {
            Err(ErrorKind::PatternSpreadMisuse)
        } else {
            Ok(Some(seq![(identifier.1.0@, v)]))
        },
        PatternItem::PatternList(items) => match v {
            SpecValue::List { items: vals, .. } => spec_match_list(vals, items@),
            _ => Err(ErrorKind::PatternTypeMismatch),
        },
    }
}

/// Positional matching of `count` values starting at `v_from` against
/// the patterns starting at `p_from`, concatenating the bindings; the
/// first failure or non-match wins.
pub open spec fn spec_match_all(
    vals: Seq<SpecValue>,
    items: Seq<AstPair<PatternItem>>,
    v_from: int,
    p_from: int,
    count: int,
) -> Result<Option<Seq<(Seq<char>, SpecValue)>>, ErrorKind>
    decreases items, 0int, count,
{
    if count <= 0 {
        Ok(Some(Seq::empty()))
    } else if !(0 <= v_from < vals.len() && 0 <= p_from < items.len()) {
        Ok(None)
    } else {
        match spec_match_pattern(vals[v_from], items[p_from].1) {
            Err(k) => Err(k),
            Ok(None) => Ok(None),
            Ok(Some(b0)) => match spec_match_all(vals, items, v_from + 1, p_from + 1, count - 1) {
                Err(k) => Err(k),
                Ok(None) => Ok(None),
                Ok(Some(rest)) => Ok(Some(b0 + rest)),
            },
        }
    }
}

/// Matching a list value against a pattern list. More than one spread
/// binding is ambiguous. With none, the lengths must agree exactly and
/// the elements match positionally. With one, the elements before it take
/// the first values and the elements after it the last values, and the
/// spread name binds the plain list of whatever lies between, so the list
/// must hold at least one value fewer than the pattern has elements.
pub open spec fn spec_match_list(
    vals: Seq<SpecValue>,
    items: Seq<AstPair<PatternItem>>,
) -> Result<Option<Seq<(Seq<char>, SpecValue)>>, ErrorKind>
    decreases items, 1int, 0int,
{
    let k = spec_spread_count(items);
    if k > 1 {
        Err(ErrorKind::PatternSpreadAmbiguity)
    } else if k == 0 {
        if vals.len() != items.len() {
            Err(ErrorKind::PatternLengthMismatch)
        } else {
            spec_match_all(vals, items, 0, 0, items.len() as int)
        }
    } else {
        if vals.len() < items.len() - 1 {
            Err(ErrorKind::PatternLengthMismatch)
        } else {
            let i = spec_spread_index(items);
            let suffix_len = items.len() - 1 - i;
            let mid = SpecValue::List {
                items: vals.subrange(i, vals.len() - suffix_len),
                spread: false,
            };
            let name = spread_pattern_name(items[i].1);
            match spec_match_all(vals, items, 0, 0, i) {
                Err(k) => Err(k),
                Ok(None) => Ok(None),
                Ok(Some(pre)) => match spec_match_all(
                    vals,
                    items,
                    vals.len() - suffix_len,
                    i + 1,
                    suffix_len,
                ) {
                    Err(k) => Err(k),
                    Ok(None) => Ok(None),
                    Ok(Some(suf)) => Ok(Some(pre + seq![(name, mid)] + suf)),
                },
            }
        }
    }
}

/// The bindings a matcher call produced agree with the modelled ones:
/// the same names in the same order, each bound to the same value as an
/// already-evaluated definition.
pub open spec fn bindings_match(
    ds: Seq<(Identifier, Definition)>,
    bs: Seq<(Seq<char>, SpecValue)>,
) -> bool {
    &&& ds.len() == bs.len()
    &&& forall|j: int|
        0 <= j < ds.len() ==> {
            &&& (#[trigger] ds[j]).0.0@ == bs[j].0
            &&& ds[j].1 is Value
            &&& sv_eq(def_value(ds[j].1), bs[j].1)
        }
}


pub proof fn lemma_bindings_concat(
    ds1: Seq<(Identifier, Definition)>,
    bs1: Seq<(Seq<char>, SpecValue)>,
    ds2: Seq<(Identifier, Definition)>,
    bs2: Seq<(Seq<char>, SpecValue)>,
)
    requires
        bindings_match(ds1, bs1),
        bindings_match(ds2, bs2),
    ensures
        bindings_match(ds1 + ds2, bs1 + bs2),
{
    assert forall|j: int| 0 <= j < (ds1 + ds2).len() implies {
        &&& (#[trigger] (ds1 + ds2)[j]).0.0@ == (bs1 + bs2)[j].0
        &&& (ds1 + ds2)[j].1 is Value
        &&& sv_eq(def_value((ds1 + ds2)[j].1), (bs1 + bs2)[j].1)
    } by {
        if j < ds1.len() {
            assert((ds1 + ds2)[j] == ds1[j]);
            assert((bs1 + bs2)[j] == bs1[j]);
        } else {
            assert((ds1 + ds2)[j] == ds2[j - ds1.len()]);
            assert((bs1 + bs2)[j] == bs2[j - ds1.len()]);
        }
    }
}

/// Matches one value against one pattern. A hole matches anything and
/// binds nothing; a literal matches the equal value; a plain identifier
/// matches anything and binds it; a spread identifier outside a list
/// pattern is an error; a list pattern destructures a list value. The
/// bindings carry the given span.
pub fn match_pattern_item(
    span: &Span,
    value: &Value,
    pattern: &AstPair<PatternItem>,
) -> (r: Result<Option<Vec<(Identifier, Definition)>>, Error>)
    ensures
        match spec_match_pattern(value@, pattern.1) {
            Ok(Some(bs)) => r is Ok && r.unwrap() is Some && bindings_match(
                r.unwrap().unwrap()@,
                bs,
            ),
            Ok(None) => r is Ok && r.unwrap() is None,
            Err(k) => r is Err && r.unwrap_err().kind == k && (k
                == ErrorKind::PatternSpreadMisuse ==> r.unwrap_err().message@
                == "unexpected spread"@) && (k == ErrorKind::PatternSpreadAmbiguity
                ==> r.unwrap_err().message@ == "ambiguous spreading logic"@),
        },
    decreases pattern.1, 0int, 0int,
{
    match &pattern.1 {
        PatternItem::Hole => Ok(Some(Vec::new())),
        PatternItem::Integer(i) => {
            let lit = Value::I(*i);
            if value.equals(&lit) {
                Ok(Some(Vec::new()))
            } else {
                Ok(None)
            }
        },
        PatternItem::Float(b) => {
            let lit = Value::F(*b);
            if value.equals(&lit) {
                Ok(Some(Vec::new()))
            } else {
                Ok(None)
            }
        },
        PatternItem::Boolean(x) => {
            let lit = Value::B(*x);
            if value.equals(&lit) {
                Ok(Some(Vec::new()))
            } else {
                Ok(None)
            }
        },
        PatternItem::String(st) => {
            let lit = string_value(st.as_str());
            if value.equals(&lit) {
                Ok(Some(Vec::new()))
            } else {
                Ok(None)
            }
        },
        PatternItem::Identifier { identifier, spread } => {
            if *spread {
                Err(
                    custom_error(
                        ErrorKind::PatternSpreadMisuse,
                        span,
                        String::from_str("unexpected spread"),
                    ),
                )
            } else {
                let d = Definition::Value(AstPair(span.clone(), value.dup()));
                let mut out: Vec<(Identifier, Definition)> = Vec::new();
                out.push((identifier.1.clone(), d));
                Ok(Some(out))
            }
        },
        PatternItem::PatternList(items) => match value {
            Value::List { items: vals, .. } => match_list_items(span, vals, items),
            _ => Err(
                custom_error(
                    ErrorKind::PatternTypeMismatch,
                    span,
                    String::from_str("expected a List value for a list pattern"),
                ),
            ),
        },
    }
}

/// Matches `count` list elements starting at `v_from` against the
/// pattern elements starting at `p_from`, positionally.
fn match_positional(
    span: &Span,
    vals: &Vec<Value>,
    items: &Vec<AstPair<PatternItem>>,
    v_from: usize,
    p_from: usize,
    count: usize,
) -> (r: Result<Option<Vec<(Identifier, Definition)>>, Error>)
    requires
        v_from + count <= vals@.len(),
        p_from + count <= items@.len(),
    ensures
        match spec_match_all(
            views_of(vals@),
            items@,
            v_from as int,
            p_from as int,
            count as int,
        ) {
            Ok(Some(bs)) => r is Ok && r.unwrap() is Some && bindings_match(
                r.unwrap().unwrap()@,
                bs,
            ),
            Ok(None) => r is Ok && r.unwrap() is None,
            Err(k) => r is Err && r.unwrap_err().kind == k && (k
                == ErrorKind::PatternSpreadMisuse ==> r.unwrap_err().message@
                == "unexpected spread"@) && (k == ErrorKind::PatternSpreadAmbiguity
                ==> r.unwrap_err().message@ == "ambiguous spreading logic"@),
        },
    decreases *items, 0int, count,
{
    let vn: usize = vals.len();
    let pn: usize = items.len();
    proof {
        lemma_views_of(vals@);
        assert(vn == vals@.len() && pn == items@.len());
    }
    if count == 0 {
        Ok(Some(Vec::new()))
    } else {
        proof {
            assert(views_of(vals@)[v_from as int] == vals@[v_from as int]@);
        }
        match match_pattern_item(span, &vals[v_from], &items[p_from]) {
            Err(e) => Err(e),
            Ok(None) => Ok(None),
            Ok(Some(mut b0)) => {
                match match_positional(span, vals, items, v_from + 1, p_from + 1, count - 1) {
                    Err(e) => Err(e),
                    Ok(None) => Ok(None),
                    Ok(Some(mut rest)) => {
                        let ghost g0 = b0@;
                        let ghost g1 = rest@;
                        let ghost bs0 = (match spec_match_pattern(
                            vals@[v_from as int]@,
                            items@[p_from as int].1,
                        ) {
                            Ok(b) => b.unwrap(),
                            Err(_) => Seq::empty(),
                        });
                        let ghost bs1 = (match spec_match_all(
                            views_of(vals@),
                            items@,
                            v_from + 1,
                            p_from + 1,
                            count - 1,
                        ) {
                            Ok(b) => b.unwrap(),
                            Err(_) => Seq::empty(),
                        });
                        b0.append(&mut rest);
                        proof {
                            lemma_bindings_concat(g0, bs0, g1, bs1);
                        }
                        Ok(Some(b0))
                    },
                }
            },
        }
    }
}

/// Destructures a list value against the elements of a list pattern,
/// handling the optional spread binding.
#[verifier::loop_isolation(false)]
fn match_list_items(
    span: &Span,
    vals: &Vec<Value>,
    items: &Vec<AstPair<PatternItem>>,
) -> (r: Result<Option<Vec<(Identifier, Definition)>>, Error>)
    ensures
        match spec_match_list(views_of(vals@), items@) {
            Ok(Some(bs)) => r is Ok && r.unwrap() is Some && bindings_match(
                r.unwrap().unwrap()@,
                bs,
            ),
            Ok(None) => r is Ok && r.unwrap() is None,
            Err(k) => r is Err && r.unwrap_err().kind == k && (k
                == ErrorKind::PatternSpreadMisuse ==> r.unwrap_err().message@
                == "unexpected spread"@) && (k == ErrorKind::PatternSpreadAmbiguity
                ==> r.unwrap_err().message@ == "ambiguous spreading logic"@),
        },
    decreases *items, 1int, 0int,
{
    proof {
        lemma_views_of(vals@);
    }
    let n: usize = items.len();
    let mut count: usize = 0;
    let mut idx: usize = 0;
    let mut found = false;
    let mut i: usize = 0;
    proof {
        assert(items@.take(0) =~= Seq::<AstPair<PatternItem>>::empty());
    }
    while i < n
        invariant
            i <= n,
            count <= i,
            count as int == spec_spread_count(items@.take(i as int)),
            found == (count >= 1),
            found ==> idx < i && is_spread_pattern(items@[idx as int].1) && (forall|l: int|
                0 <= l < idx ==> !is_spread_pattern(#[trigger] items@[l].1)),
            !found ==> forall|l: int| 0 <= l < i ==> !is_spread_pattern(#[trigger] items@[l].1),
        decreases n - i,
    {
        let is_sp = match &items[i].1 {
            PatternItem::Identifier { spread, .. } => *spread,
            _ => false,
        };
        proof {
            assert(items@.take(i + 1) =~= items@.take(i as int).push(items@[i as int]));
            lemma_spread_count_snoc(items@.take(i as int), items@[i as int]);
        }
        if is_sp {
            if !found {
                idx = i;
                found = true;
            }
            count = count + 1;
        }
        i = i + 1;
    }
    proof {
        assert(items@.take(n as int) =~= items@);
    }
    if count > 1 {
        return Err(
            custom_error(
                ErrorKind::PatternSpreadAmbiguity,
                span,
                String::from_str("ambiguous spreading logic"),
            ),
        );
    }
    if count == 0 {
        if vals.len() != items.len() {
            return Err(
                custom_error(
                    ErrorKind::PatternLengthMismatch,
                    span,
                    String::from_str("pattern list length mismatch"),
                ),
            );
        }
        return match_positional(span, vals, items, 0, 0, n);
    }
    proof {
        lemma_spread_index_first(items@, idx as int);
    }
    let suffix_len: usize = n - 1 - idx;
    if vals.len() < n - 1 {
        return Err(
            custom_error(
                ErrorKind::PatternLengthMismatch,
                span,
                String::from_str("pattern list length mismatch"),
            ),
        );
    }
    let mid_hi: usize = vals.len() - suffix_len;
    match match_positional(span, vals, items, 0, 0, idx) {
        Err(e) => Err(e),
        Ok(None) => Ok(None),
        Ok(Some(mut pre)) => {
            let ghost gpre = pre@;
            let ghost bspre = (match spec_match_all(views_of(vals@), items@, 0, 0, idx as int) {
                Ok(b) => b.unwrap(),
                Err(_) => Seq::empty(),
            });
            let mut mid_items: Vec<Value> = Vec::new();
            let mut j: usize = idx;
            while j < mid_hi
                invariant
                    idx <= j <= mid_hi,
                    mid_items@.len() == j - idx,
                    forall|l: int|
                        0 <= l < mid_items@.len() ==> sv_eq(
                            #[trigger] views_of(mid_items@)[l],
                            views_of(vals@)[idx + l],
                        ),
                decreases mid_hi - j,
            {
                let ghost prev = mid_items@;
                let d = vals[j].dup();
                let ghost dv = d@;
                mid_items.push(d);
                proof {
                    lemma_views_of(prev);
                    lemma_views_of(mid_items@);
                    assert forall|l: int| 0 <= l < mid_items@.len() implies sv_eq(
                        #[trigger] views_of(mid_items@)[l],
                        views_of(vals@)[idx + l],
                    ) by {
                        assert(views_of(mid_items@)[l] == mid_items@[l]@);
                        if l < prev.len() {
                            assert(mid_items@[l] == prev[l]);
                            assert(views_of(prev)[l] == prev[l]@);
                        } else {
                            assert(mid_items@[l]@ == dv);
                            assert(views_of(vals@)[j as int] == vals@[j as int]@);
                        }
                    }
                }
                j = j + 1;
            }
            let mid_value = Value::List { items: mid_items, spread: false };
            let name_id = match &items[idx].1 {
                PatternItem::Identifier { identifier, .. } => identifier.1.clone(),
                _ => {
                    proof {
                        assert(false);
                    }
                    Identifier::new(String::new())
                },
            };
            let d = Definition::Value(AstPair(span.clone(), mid_value));
            match match_positional(span, vals, items, mid_hi, idx + 1, suffix_len) {
                Err(e) => Err(e),
                Ok(None) => Ok(None),
                Ok(Some(mut suf)) => {
                    let ghost gsuf = suf@;
                    let ghost bssuf = (match spec_match_all(
                        views_of(vals@),
                        items@,
                        mid_hi as int,
                        idx + 1,
                        suffix_len as int,
                    ) {
                        Ok(b) => b.unwrap(),
                        Err(_) => Seq::empty(),
                    });
                    let ghost smid = (SpecValue::List {
                        items: views_of(vals@).subrange(
                            idx as int,
                            views_of(vals@).len() - suffix_len,
                        ),
                        spread: false,
                    });
                    let ghost sname = spread_pattern_name(items@[idx as int].1);
                    proof {
                        lemma_views_of(vals@);
                    }
                    let ghost gd = d;
                    let ghost gmid = (match gd {
                        Definition::Value(v) => (match v.1 {
                            Value::List { items: mi, .. } => mi@,
                            _ => Seq::empty(),
                        }),
                        _ => Seq::empty(),
                    });
                    pre.push((name_id, d));
                    proof {
                        assert(sv_eq(def_value(gd), smid)) by {
                            lemma_views_of(gmid);
                            lemma_views_of(vals@);
                            let xi = views_of(gmid);
                            let yi = views_of(vals@).subrange(
                                idx as int,
                                views_of(vals@).len() - suffix_len,
                            );
                            assert(def_value(gd) == (SpecValue::List {
                                items: xi,
                                spread: false,
                            }));
                            assert(xi.len() == yi.len());
                            assert forall|l: int| 0 <= l < xi.len() implies sv_eq(
                                #[trigger] xi[l],
                                yi[l],
                            ) by {
                                assert(yi[l] == views_of(vals@)[idx + l]);
                            }
                        }
                        lemma_bindings_concat(gpre, bspre, seq![(name_id, gd)], seq![
                            (sname, smid),
                        ]);
                        assert(pre@ =~= gpre + seq![(name_id, gd)]);
                    }
                    pre.append(&mut suf);
                    proof {
                        lemma_bindings_concat(
                            gpre + seq![(name_id, gd)],
                            bspre + seq![(sname, smid)],
                            gsuf,
                            bssuf,
                        );
                    }
                    Ok(Some(pre))
                },
            }
        },
    }
}


/// Tries one match clause: matches the evaluated condition value against
/// the clause's pattern.
pub fn match_predicate(
    value: &AstPair<Value>,
    clause: &AstPair<MatchClause>,
) -> (r: Result<Option<Vec<(Identifier, Definition)>>, Error>)
    ensures
        match spec_match_pattern(value.1@, clause.1.pattern.1) {
            Ok(Some(bs)) => r is Ok && r.unwrap() is Some && bindings_match(
                r.unwrap().unwrap()@,
                bs,
            ),
            Ok(None) => r is Ok && r.unwrap() is None,
            Err(k) => r is Err && r.unwrap_err().kind == k && (k
                == ErrorKind::PatternSpreadMisuse ==> r.unwrap_err().message@
                == "unexpected spread"@) && (k == ErrorKind::PatternSpreadAmbiguity
                ==> r.unwrap_err().message@ == "ambiguous spreading logic"@),
        },
{
    match_pattern_item(&value.0, &value.1, &clause.1.pattern)
}

/// An empty pattern list matches exactly the empty list: a longer list is
/// a length-mismatch failure, never a silent partial bind.
pub proof fn lemma_empty_pattern_list(vals: Seq<SpecValue>, items: Seq<AstPair<PatternItem>>)
    requires
        items.len() == 0,
    ensures
        vals.len() == 0 ==> spec_match_list(vals, items) == Ok::<
            Option<Seq<(Seq<char>, SpecValue)>>,
            ErrorKind,
        >(Some(Seq::empty())),
        vals.len() != 0 ==> spec_match_list(vals, items) == Err::<
            Option<Seq<(Seq<char>, SpecValue)>>,
            ErrorKind,
        >(ErrorKind::PatternLengthMismatch),
{
}

/// A pattern list without a spread binding matches only lists of exactly
/// its own length; any other length is a length-mismatch failure.
pub proof fn lemma_fixed_length_mismatch(vals: Seq<SpecValue>, items: Seq<AstPair<PatternItem>>)
    requires
        spec_spread_count(items) == 0,
        vals.len() != items.len(),
    ensures
        spec_match_list(vals, items) == Err::<
            Option<Seq<(Seq<char>, SpecValue)>>,
            ErrorKind,
        >(ErrorKind::PatternLengthMismatch),
{
}

/// A pattern list with more than one spread binding is rejected as
/// ambiguous, whatever the list value looks like.
pub proof fn lemma_double_spread_rejected(vals: Seq<SpecValue>, items: Seq<AstPair<PatternItem>>)
    requires
        spec_spread_count(items) > 1,
    ensures
        spec_match_list(vals, items) == Err::<
            Option<Seq<(Seq<char>, SpecValue)>>,
            ErrorKind,
        >(ErrorKind::PatternSpreadAmbiguity),
{
}

/// A pattern list with exactly one spread binding takes the values
/// before and after it positionally, and when those all match, the
/// spread name binds exactly the plain list of the values in between.
pub proof fn lemma_spread_binds_middle(vals: Seq<SpecValue>, items: Seq<AstPair<PatternItem>>)
    requires
        spec_spread_count(items) == 1,
        vals.len() >= items.len() - 1,
    ensures
        ({
            let i = spec_spread_index(items);
            let suffix_len = items.len() - 1 - i;
            let mid = SpecValue::List {
                items: vals.subrange(i, vals.len() - suffix_len),
                spread: false,
            };
            match (
                spec_match_all(vals, items, 0, 0, i),
                spec_match_all(vals, items, vals.len() - suffix_len, i + 1, suffix_len),
            ) {
                (Ok(Some(pre)), Ok(Some(suf))) => spec_match_list(vals, items) == Ok::<
                    Option<Seq<(Seq<char>, SpecValue)>>,
                    ErrorKind,
                >(Some(pre + seq![(spread_pattern_name(items[i].1), mid)] + suf)),
                _ => true,
            }
        }),
{
}

/// A spread count is never negative.
pub proof fn lemma_spread_count_nonneg(s: Seq<AstPair<PatternItem>>)
    ensures
        spec_spread_count(s) >= 0,
    decreases s,
{
    if s.len() > 0 {
        lemma_spread_count_nonneg(s.drop_first());
    }
}

/// A pattern list with at least one spread binding has its first spread
/// position inside the list.
pub proof fn lemma_spread_index_in_range(s: Seq<AstPair<PatternItem>>)
    requires
        spec_spread_count(s) >= 1,
    ensures
        0 <= spec_spread_index(s) < s.len(),
        is_spread_pattern(s[spec_spread_index(s)].1),
    decreases s,
{
    if s.len() > 0 && !is_spread_pattern(s[0].1) {
        lemma_spread_index_in_range(s.drop_first());
        assert(s.drop_first()[spec_spread_index(s.drop_first())] == s[spec_spread_index(s)]);
    }
}

/// Patterns that agree apart from spans agree on being a spread binding
/// and on the name it binds.
pub proof fn lemma_spread_shape_congruent(a: PatternItem, b: PatternItem)
    requires
        pattern_item_eq(a, b),
    ensures
        is_spread_pattern(a) == is_spread_pattern(b),
        spread_pattern_name(a) == spread_pattern_name(b),
{
}

/// Pattern lists that agree elementwise apart from spans have the same
/// spread count and the same first spread position.
pub proof fn lemma_spread_count_congruent(
    a: Seq<AstPair<PatternItem>>,
    b: Seq<AstPair<PatternItem>>,
)
    requires
        a.len() == b.len(),
        forall|i: int| 0 <= i < a.len() ==> pattern_item_eq(#[trigger] a[i].1, b[i].1),
    ensures
        spec_spread_count(a) == spec_spread_count(b),
        spec_spread_index(a) == spec_spread_index(b),
    decreases a,
{
    if a.len() > 0 {
        lemma_spread_shape_congruent(a[0].1, b[0].1);
        assert forall|i: int| 0 <= i < a.drop_first().len() implies pattern_item_eq(
            #[trigger] a.drop_first()[i].1,
            b.drop_first()[i].1,
        ) by {
            assert(a.drop_first()[i] == a[i + 1]);
            assert(b.drop_first()[i] == b[i + 1]);
        }
        lemma_spread_count_congruent(a.drop_first(), b.drop_first());
    }
}

/// Matching does not look at spans: two patterns that agree apart from
/// their spans match any value the same way, with the same bindings.
pub proof fn lemma_match_pattern_congruent(v: SpecValue, p1: PatternItem, p2: PatternItem)
    requires
        pattern_item_eq(p1, p2),
    ensures
        spec_match_pattern(v, p1) == spec_match_pattern(v, p2),
    decreases p1, 0int, 0int,
{
    match (p1, p2) {
        (PatternItem::PatternList(x), PatternItem::PatternList(y)) => {
            match v {
                SpecValue::List { items: vals, .. } => {
                    lemma_match_list_congruent(vals, x@, y@);
                },
                _ => {},
            }
        },
        _ => {},
    }
}

/// Positional matching does not look at spans either.
pub proof fn lemma_match_all_congruent(
    vals: Seq<SpecValue>,
    items1: Seq<AstPair<PatternItem>>,
    items2: Seq<AstPair<PatternItem>>,
    v_from: int,
    p_from: int,
    count: int,
)
    requires
        items1.len() == items2.len(),
        forall|i: int| 0 <= i < items1.len() ==> pattern_item_eq(#[trigger] items1[i].1, items2[i].1),
    ensures
        spec_match_all(vals, items1, v_from, p_from, count) == spec_match_all(
            vals,
            items2,
            v_from,
            p_from,
            count,
        ),
    decreases items1, 0int, count,
{
    if count > 0 && 0 <= v_from < vals.len() && 0 <= p_from < items1.len() {
        lemma_match_pattern_congruent(vals[v_from], items1[p_from].1, items2[p_from].1);
        lemma_match_all_congruent(vals, items1, items2, v_from + 1, p_from + 1, count - 1);
    }
}

/// List matching does not look at spans either.
pub proof fn lemma_match_list_congruent(
    vals: Seq<SpecValue>,
    items1: Seq<AstPair<PatternItem>>,
    items2: Seq<AstPair<PatternItem>>,
)
    requires
        items1.len() == items2.len(),
        forall|i: int| 0 <= i < items1.len() ==> pattern_item_eq(#[trigger] items1[i].1, items2[i].1),
    ensures
        spec_match_list(vals, items1) == spec_match_list(vals, items2),
    decreases items1, 1int, 0int,
{
    lemma_spread_count_congruent(items1, items2);
    lemma_spread_count_nonneg(items1);
    let k = spec_spread_count(items1);
    if k == 0 {
        if vals.len() == items1.len() {
            lemma_match_all_congruent(vals, items1, items2, 0, 0, items1.len() as int);
        }
    } else if k == 1 {
        if vals.len() >= items1.len() - 1 {
            let i = spec_spread_index(items1);
            lemma_spread_index_in_range(items1);
            lemma_spread_shape_congruent(items1[i].1, items2[i].1);
            lemma_match_all_congruent(vals, items1, items2, 0, 0, i);
            lemma_match_all_congruent(
                vals,
                items1,
                items2,
                vals.len() - (items1.len() - 1 - i),
                i + 1,
                items1.len() - 1 - i,
            );
        }
    }
}

/// Whether a destructuring element is a spread binding.
pub open spec fn is_spread_destructure(d: DestructureItem) -> bool {
    match d {
        DestructureItem::Identifier { spread, .. } => spread,
        _ => false,
    }
}

/// The name a spread destructuring element binds.
pub open spec fn spread_destructure_name(d: DestructureItem) -> Seq<char> {
    match d {
        DestructureItem::Identifier { identifier, .. } => identifier.1.0@,
        _ => Seq::empty(),
    }
}

/// How many elements of a destructuring list are spread bindings.
pub open spec fn spec_dspread_count(items: Seq<AstPair<DestructureItem>>) -> int
    decreases items,
{
    if items.len() == 0 {
        0
    } else {
        (if is_spread_destructure(items[0].1) {
            1int
        } else {
            0int
        }) + spec_dspread_count(items.drop_first())
    }
}

/// The position of the first spread binding of a destructuring list.
pub open spec fn spec_dspread_index(items: Seq<AstPair<DestructureItem>>) -> int
    decreases items,
{
    if items.len() == 0 {
        0
    } else if is_spread_destructure(items[0].1) {
        0
    } else {
        1 + spec_dspread_index(items.drop_first())
    }
}

pub proof fn lemma_dspread_count_snoc(s: Seq<AstPair<DestructureItem>>, x: AstPair<DestructureItem>)
    ensures
        spec_dspread_count(s.push(x)) == spec_dspread_count(s) + (if is_spread_destructure(x.1) {
            1int
        } else {
            0int
        }),
    decreases s,
{
    if s.len() == 0 {
        assert(s.push(x)[0] == x);
        assert(s.push(x).drop_first() =~= Seq::<AstPair<DestructureItem>>::empty());
        assert(spec_dspread_count(s.push(x).drop_first()) == 0);
        assert(spec_dspread_count(s) == 0);
    } else {
        assert(s.push(x)[0] == s[0]);
        assert(s.push(x).drop_first() =~= s.drop_first().push(x));
        lemma_dspread_count_snoc(s.drop_first(), x);
    }
}

pub proof fn lemma_dspread_index_first(s: Seq<AstPair<DestructureItem>>, j: int)
    requires
        0 <= j < s.len(),
        is_spread_destructure(s[j].1),
        forall|l: int| 0 <= l < j ==> !is_spread_destructure(#[trigger] s[l].1),
    ensures
        spec_dspread_index(s) == j,
    decreases j,
{
    if j > 0 {
        assert(!is_spread_destructure(s[0].1));
        assert(s.drop_first()[j - 1] == s[j]);
        assert forall|l: int| 0 <= l < j - 1 implies !is_spread_destructure(
            #[trigger] s.drop_first()[l].1,
        ) by {
            assert(s.drop_first()[l] == s[l + 1]);
        }
        lemma_dspread_index_first(s.drop_first(), j - 1);
    }
}

/// The result of destructuring one value against one destructuring
/// element. Unlike a match pattern there is nothing that can simply
/// "not match": every failure is a hard error.
pub open spec fn spec_destructure(v: SpecValue, d: DestructureItem) -> Result<
    Seq<(Seq<char>, SpecValue)>,
    ErrorKind,
>
    decreases d, 0int, 0int,
{
    match d {
        DestructureItem::Hole => Ok(Seq::empty()),
        DestructureItem::Identifier { identifier, spread } => if spread {
            Err(ErrorKind::PatternSpreadMisuse)
        } else {
            Ok(seq![(identifier.1.0@, v)])
        },
        DestructureItem::List(items) => match v {
            SpecValue::List { items: vals, .. } => spec_destructure_list(vals, items@),
            _ => Err(ErrorKind::PatternTypeMismatch),
        },
    }
}

/// Positional destructuring of `count` values starting at `v_from`
/// against the elements starting at `p_from`.
pub open spec fn spec_destructure_all(
    vals: Seq<SpecValue>,
    items: Seq<AstPair<DestructureItem>>,
    v_from: int,
    p_from: int,
    count: int,
) -> Result<Seq<(Seq<char>, SpecValue)>, ErrorKind>
    decreases items, 0int, count,
{
    if count <= 0 {
        Ok(Seq::empty())
    } else if !(0 <= v_from < vals.len() && 0 <= p_from < items.len()) {
        Ok(Seq::empty())
    } else {
        match spec_destructure(vals[v_from], items[p_from].1) {
            Err(k) => Err(k),
            Ok(b0) => match spec_destructure_all(vals, items, v_from + 1, p_from + 1, count - 1) {
                Err(k) => Err(k),
                Ok(rest) => Ok(b0 + rest),
            },
        }
    }
}

/// Destructuring a list value against a destructuring list, with the
/// same spread rules as a list pattern.
pub open spec fn spec_destructure_list(
    vals: Seq<SpecValue>,
    items: Seq<AstPair<DestructureItem>>,
) -> Result<Seq<(Seq<char>, SpecValue)>, ErrorKind>
    decreases items, 1int, 0int,
{
    let k = spec_dspread_count(items);
    if k > 1 {
        Err(ErrorKind::PatternSpreadAmbiguity)
    } else if k == 0 {
        if vals.len() != items.len() {
            Err(ErrorKind::PatternLengthMismatch)
        } else {
            spec_destructure_all(vals, items, 0, 0, items.len() as int)
        }
    } else {
        if vals.len() < items.len() - 1 {
            Err(ErrorKind::PatternLengthMismatch)
        } else {
            let i = spec_dspread_index(items);
            let suffix_len = items.len() - 1 - i;
            let mid = SpecValue::List {
                items: vals.subrange(i, vals.len() - suffix_len),
                spread: false,
            };
            let name = spread_destructure_name(items[i].1);
            match spec_destructure_all(vals, items, 0, 0, i) {
                Err(k) => Err(k),
                Ok(pre) => match spec_destructure_all(
                    vals,
                    items,
                    vals.len() - suffix_len,
                    i + 1,
                    suffix_len,
                ) {
                    Err(k) => Err(k),
                    Ok(suf) => Ok(pre + seq![(name, mid)] + suf),
                },
            }
        }
    }
}

/// The result of binding an evaluated value to an assignment target: an
/// identifier binds the whole value, a hole binds nothing, and a
/// destructuring list takes the value apart.
pub open spec fn spec_assign_value(v: SpecValue, a: Assignee) -> Result<
    Seq<(Seq<char>, SpecValue)>,
    ErrorKind,
> {
    match a {
        Assignee::Hole => Ok(Seq::empty()),
        Assignee::Identifier(i) => Ok(seq![(i.1.0@, v)]),
        Assignee::DestructureList(items) => match v {
            SpecValue::List { items: vals, .. } => spec_destructure_list(vals, items@),
            _ => Err(ErrorKind::PatternTypeMismatch),
        },
    }
}

/// Destructures one value against one destructuring element.
fn destructure_item(
    span: &Span,
    value: &Value,
    item: &AstPair<DestructureItem>,
) -> (r: Result<Vec<(Identifier, Definition)>, Error>)
    ensures
        match spec_destructure(value@, item.1) {
            Ok(bs) => r is Ok && bindings_match(r.unwrap()@, bs),
            Err(k) => r is Err && r.unwrap_err().kind == k && (k
                == ErrorKind::PatternSpreadMisuse ==> r.unwrap_err().message@
                == "unexpected spread"@) && (k == ErrorKind::PatternSpreadAmbiguity
                ==> r.unwrap_err().message@ == "ambiguous spreading logic"@),
        },
    decreases item.1, 0int, 0int,
{
    match &item.1 {
        DestructureItem::Hole => Ok(Vec::new()),
        DestructureItem::Identifier { identifier, spread } => {
            if *spread {
                Err(
                    custom_error(
                        ErrorKind::PatternSpreadMisuse,
                        span,
                        String::from_str("unexpected spread"),
                    ),
                )
            } else {
                let d = Definition::Value(AstPair(span.clone(), value.dup()));
                let mut out: Vec<(Identifier, Definition)> = Vec::new();
                out.push((identifier.1.clone(), d));
                Ok(out)
            }
        },
        DestructureItem::List(items) => match value {
            Value::List { items: vals, .. } => destructure_list_items(span, vals, items),
            _ => Err(
                custom_error(
                    ErrorKind::PatternTypeMismatch,
                    span,
                    String::from_str("expected a List value for a list destructuring"),
                ),
            ),
        },
    }
}

/// Destructures `count` list elements starting at `v_from` against the
/// destructuring elements starting at `p_from`, positionally.
fn destructure_positional(
    span: &Span,
    vals: &Vec<Value>,
    items: &Vec<AstPair<DestructureItem>>,
    v_from: usize,
    p_from: usize,
    count: usize,
) -> (r: Result<Vec<(Identifier, Definition)>, Error>)
    requires
        v_from + count <= vals@.len(),
        p_from + count <= items@.len(),
    ensures
        match spec_destructure_all(
            views_of(vals@),
            items@,
            v_from as int,
            p_from as int,
            count as int,
        ) {
            Ok(bs) => r is Ok && bindings_match(r.unwrap()@, bs),
            Err(k) => r is Err && r.unwrap_err().kind == k && (k
                == ErrorKind::PatternSpreadMisuse ==> r.unwrap_err().message@
                == "unexpected spread"@) && (k == ErrorKind::PatternSpreadAmbiguity
                ==> r.unwrap_err().message@ == "ambiguous spreading logic"@),
        },
    decreases *items, 0int, count,
{
    let vn: usize = vals.len();
    let pn: usize = items.len();
    proof {
        lemma_views_of(vals@);
        assert(vn == vals@.len() && pn == items@.len());
    }
    if count == 0 {
        Ok(Vec::new())
    } else {
        proof {
            assert(views_of(vals@)[v_from as int] == vals@[v_from as int]@);
        }
        match destructure_item(span, &vals[v_from], &items[p_from]) {
            Err(e) => Err(e),
            Ok(mut b0) => {
                match destructure_positional(span, vals, items, v_from + 1, p_from + 1, count - 1) {
                    Err(e) => Err(e),
                    Ok(mut rest) => {
                        let ghost g0 = b0@;
                        let ghost g1 = rest@;
                        let ghost bs0 = (match spec_destructure(
                            vals@[v_from as int]@,
                            items@[p_from as int].1,
                        ) {
                            Ok(b) => b,
                            Err(_) => Seq::empty(),
                        });
                        let ghost bs1 = (match spec_destructure_all(
                            views_of(vals@),
                            items@,
                            v_from + 1,
                            p_from + 1,
                            count - 1,
                        ) {
                            Ok(b) => b,
                            Err(_) => Seq::empty(),
                        });
                        b0.append(&mut rest);
                        proof {
                            lemma_bindings_concat(g0, bs0, g1, bs1);
                        }
                        Ok(b0)
                    },
                }
            },
        }
    }
}

/// Destructures a list value against the elements of a destructuring
/// list, handling the optional spread binding.
#[verifier::loop_isolation(false)]
fn destructure_list_items(
    span: &Span,
    vals: &Vec<Value>,
    items: &Vec<AstPair<DestructureItem>>,
) -> (r: Result<Vec<(Identifier, Definition)>, Error>)
    ensures
        match spec_destructure_list(views_of(vals@), items@) {
            Ok(bs) => r is Ok && bindings_match(r.unwrap()@, bs),
            Err(k) => r is Err && r.unwrap_err().kind == k && (k
                == ErrorKind::PatternSpreadMisuse ==> r.unwrap_err().message@
                == "unexpected spread"@) && (k == ErrorKind::PatternSpreadAmbiguity
                ==> r.unwrap_err().message@ == "ambiguous spreading logic"@),
        },
    decreases *items, 1int, 0int,
{
    proof {
        lemma_views_of(vals@);
    }
    let n: usize = items.len();
    let mut count: usize = 0;
    let mut idx: usize = 0;
    let mut found = false;
    let mut i: usize = 0;
    proof {
        assert(items@.take(0) =~= Seq::<AstPair<DestructureItem>>::empty());
    }
    while i < n
        invariant
            i <= n,
            count <= i,
            count as int == spec_dspread_count(items@.take(i as int)),
            found == (count >= 1),
            found ==> idx < i && is_spread_destructure(items@[idx as int].1) && (forall|l: int|
                0 <= l < idx ==> !is_spread_destructure(#[trigger] items@[l].1)),
            !found ==> forall|l: int|
                0 <= l < i ==> !is_spread_destructure(#[trigger] items@[l].1),
        decreases n - i,
    {
        let is_sp = match &items[i].1 {
            DestructureItem::Identifier { spread, .. } => *spread,
            _ => false,
        };
        proof {
            assert(items@.take(i + 1) =~= items@.take(i as int).push(items@[i as int]));
            lemma_dspread_count_snoc(items@.take(i as int), items@[i as int]);
        }
        if is_sp {
            if !found {
                idx = i;
                found = true;
            }
            count = count + 1;
        }
        i = i + 1;
    }
    proof {
        assert(items@.take(n as int) =~= items@);
    }
    if count > 1 {
        return Err(
            custom_error(
                ErrorKind::PatternSpreadAmbiguity,
                span,
                String::from_str("ambiguous spreading logic"),
            ),
        );
    }
    if count == 0 {
        if vals.len() != items.len() {
            return Err(
                custom_error(
                    ErrorKind::PatternLengthMismatch,
                    span,
                    String::from_str("destructuring list length mismatch"),
                ),
            );
        }
        return destructure_positional(span, vals, items, 0, 0, n);
    }
    proof {
        lemma_dspread_index_first(items@, idx as int);
    }
    let suffix_len: usize = n - 1 - idx;
    if vals.len() < n - 1 {
        return Err(
            custom_error(
                ErrorKind::PatternLengthMismatch,
                span,
                String::from_str("destructuring list length mismatch"),
            ),
        );
    }
    let mid_hi: usize = vals.len() - suffix_len;
    match destructure_positional(span, vals, items, 0, 0, idx) {
        Err(e) => Err(e),
        Ok(mut pre) => {
            let ghost gpre = pre@;
            let ghost bspre = (match spec_destructure_all(
                views_of(vals@),
                items@,
                0,
                0,
                idx as int,
            ) {
                Ok(b) => b,
                Err(_) => Seq::empty(),
            });
            let mut mid_items: Vec<Value> = Vec::new();
            let mut j: usize = idx;
            while j < mid_hi
                invariant
                    idx <= j <= mid_hi,
                    mid_items@.len() == j - idx,
                    forall|l: int|
                        0 <= l < mid_items@.len() ==> sv_eq(
                            #[trigger] views_of(mid_items@)[l],
                            views_of(vals@)[idx + l],
                        ),
                decreases mid_hi - j,
            {
                let ghost prev = mid_items@;
                let d = vals[j].dup();
                let ghost dv = d@;
                mid_items.push(d);
                proof {
                    lemma_views_of(prev);
                    lemma_views_of(mid_items@);
                    assert forall|l: int| 0 <= l < mid_items@.len() implies sv_eq(
                        #[trigger] views_of(mid_items@)[l],
                        views_of(vals@)[idx + l],
                    ) by {
                        assert(views_of(mid_items@)[l] == mid_items@[l]@);
                        if l < prev.len() {
                            assert(mid_items@[l] == prev[l]);
                            assert(views_of(prev)[l] == prev[l]@);
                        } else {
                            assert(mid_items@[l]@ == dv);
                            assert(views_of(vals@)[j as int] == vals@[j as int]@);
                        }
                    }
                }
                j = j + 1;
            }
            let mid_value = Value::List { items: mid_items, spread: false };
            let name_id = match &items[idx].1 {
                DestructureItem::Identifier { identifier, .. } => identifier.1.clone(),
                _ => {
                    proof {
                        assert(false);
                    }
                    Identifier::new(String::new())
                },
            };
            let d = Definition::Value(AstPair(span.clone(), mid_value));
            match destructure_positional(span, vals, items, mid_hi, idx + 1, suffix_len) {
                Err(e) => Err(e),
                Ok(mut suf) => {
                    let ghost gsuf = suf@;
                    let ghost bssuf = (match spec_destructure_all(
                        views_of(vals@),
                        items@,
                        mid_hi as int,
                        idx + 1,
                        suffix_len as int,
                    ) {
                        Ok(b) => b,
                        Err(_) => Seq::empty(),
                    });
                    let ghost smid = (SpecValue::List {
                        items: views_of(vals@).subrange(
                            idx as int,
                            views_of(vals@).len() - suffix_len,
                        ),
                        spread: false,
                    });
                    let ghost sname = spread_destructure_name(items@[idx as int].1);
                    let ghost gd = d;
                    let ghost gmid = (match gd {
                        Definition::Value(v) => (match v.1 {
                            Value::List { items: mi, .. } => mi@,
                            _ => Seq::empty(),
                        }),
                        _ => Seq::empty(),
                    });
                    pre.push((name_id, d));
                    proof {
                        assert(sv_eq(def_value(gd), smid)) by {
                            lemma_views_of(gmid);
                            lemma_views_of(vals@);
                            let xi = views_of(gmid);
                            let yi = views_of(vals@).subrange(
                                idx as int,
                                views_of(vals@).len() - suffix_len,
                            );
                            assert(def_value(gd) == (SpecValue::List {
                                items: xi,
                                spread: false,
                            }));
                            assert(xi.len() == yi.len());
                            assert forall|l: int| 0 <= l < xi.len() implies sv_eq(
                                #[trigger] xi[l],
                                yi[l],
                            ) by {
                                assert(yi[l] == views_of(vals@)[idx + l]);
                            }
                        }
                        lemma_bindings_concat(gpre, bspre, seq![(name_id, gd)], seq![
                            (sname, smid),
                        ]);
                        assert(pre@ =~= gpre + seq![(name_id, gd)]);
                    }
                    pre.append(&mut suf);
                    proof {
                        lemma_bindings_concat(
                            gpre + seq![(name_id, gd)],
                            bspre + seq![(sname, smid)],
                            gsuf,
                            bssuf,
                        );
                    }
                    Ok(pre)
                },
            }
        },
    }
}

/// Binds an evaluated value to an assignment target: an identifier takes
/// the whole value, a hole binds nothing, and a destructuring list takes
/// the value apart with the same spread rules as a list pattern.
pub fn assign_value_definitions(
    assignee: &AstPair<Assignee>,
    value: AstPair<Value>,
) -> (r: Result<Vec<(Identifier, Definition)>, Error>)
    ensures
        match spec_assign_value(value.1@, assignee.1) {
            Ok(bs) => r is Ok && bindings_match(r.unwrap()@, bs),
            Err(k) => r is Err && r.unwrap_err().kind == k && (k
                == ErrorKind::PatternSpreadMisuse ==> r.unwrap_err().message@
                == "unexpected spread"@) && (k == ErrorKind::PatternSpreadAmbiguity
                ==> r.unwrap_err().message@ == "ambiguous spreading logic"@),
        },
{
    match &assignee.1 {
        Assignee::Hole => Ok(Vec::new()),
        Assignee::Identifier(i) => {
            proof {
                crate::value::lemma_sv_eq_reflexive(value.1@);
            }
            let mut out: Vec<(Identifier, Definition)> = Vec::new();
            out.push((i.1.clone(), Definition::Value(value)));
            Ok(out)
        },
        Assignee::DestructureList(items) => match &value.1 {
            Value::List { items: vals, .. } => destructure_list_items(&value.0, vals, items),
            _ => Err(
                custom_error(
                    ErrorKind::PatternTypeMismatch,
                    &value.0,
                    String::from_str("expected a List value for a list destructuring"),
                ),
            ),
        },
    }
}

/// Binds an expression to an assignment target without evaluating it: an
/// identifier takes the expression as a late binding that is re-evaluated
/// on each lookup, and a hole binds nothing. A destructuring target needs
/// the evaluated value, so it is rejected here; the evaluator binds it
/// through `assign_value_definitions` instead.
pub fn assign_expression_definitions(
    assignee: AstPair<Assignee>,
    expression: AstPair<Expression>,
) -> (r: Result<Vec<(Identifier, Definition)>, Error>)
    ensures
        match assignee.1 {
            Assignee::Hole => r is Ok && r.unwrap()@.len() == 0,
            Assignee::Identifier(i) => {
                &&& r is Ok
                &&& r.unwrap()@.len() == 1
                &&& id_eq(r.unwrap()@[0].0, i.1)
                &&& match r.unwrap()@[0].1 {
                    Definition::User(di, de) => id_eq(di.1, i.1) && expr_eq(de.1, expression.1),
                    _ => false,
                }
            },
            Assignee::DestructureList(_) => r is Err && r.unwrap_err().kind
                == ErrorKind::GrammarShapeMismatch,
        },
{
    match assignee.1 {
        Assignee::Hole => Ok(Vec::new()),
        Assignee::Identifier(i) => {
            let name = i.1.clone();
            proof {
                crate::ast::lemma_ast_eq_reflexive_expr(expression.1);
            }
            let mut out: Vec<(Identifier, Definition)> = Vec::new();
            out.push((name, Definition::User(i, expression)));
            Ok(out)
        },
        Assignee::DestructureList(_) => Err(
            custom_error(
                ErrorKind::GrammarShapeMismatch,
                &assignee.0,
                String::from_str("destructuring assignment requires an evaluated value"),
            ),
        ),
    }
}


/// What a finished match run reports, relative to the value `v` that the
/// condition evaluated to: either the first clause, in source order,
/// whose pattern matches `v`, together with exactly the bindings that
/// match produces — every earlier clause having yielded no match — or
/// nothing, because every clause's pattern yields no match on `v`.
pub open spec fn matched_outcome(
    v: SpecValue,
    clauses: Seq<AstPair<MatchClause>>,
    out: Option<(AstPair<MatchClause>, Vec<(Identifier, Definition)>)>,
) -> bool {
    match out {
        Some(picked) => exists|i: int|
            {
                &&& 0 <= i < clauses.len()
                &&& crate::ast::clause_eq(picked.0.1, clauses[i].1)
                &&& #[trigger] spec_match_pattern(v, clauses[i].1.pattern.1) is Ok
                &&& spec_match_pattern(v, clauses[i].1.pattern.1).unwrap() is Some
                &&& bindings_match(
                    picked.1@,
                    spec_match_pattern(v, clauses[i].1.pattern.1).unwrap().unwrap(),
                )
                &&& forall|j: int|
                    0 <= j < i ==> spec_match_pattern(v, #[trigger] clauses[j].1.pattern.1)
                        == Ok::<Option<Seq<(Seq<char>, SpecValue)>>, ErrorKind>(None)
            },
        None => forall|j: int|
            0 <= j < clauses.len() ==> spec_match_pattern(v, #[trigger] clauses[j].1.pattern.1)
                == Ok::<Option<Seq<(Seq<char>, SpecValue)>>, ErrorKind>(None),
    }
}

/// What a finished match run over a match expression reports: some value
/// (the condition's) under which `matched_outcome` holds of the clauses
/// and the result.
pub open spec fn match_expr_outcome(
    e: crate::ast::Expression,
    out: Option<(AstPair<crate::ast::MatchClause>, Vec<(Identifier, Definition)>)>,
) -> bool {
    match e {
        crate::ast::Expression::MatchExpression { match_clauses, .. } => exists|v: SpecValue|
            #[trigger] matched_outcome(v, match_clauses@, out),
        _ => false,
    }
}

/// Evaluates the condition of a match expression once, then tries each
/// clause's pattern against the resulting value in source order. The
/// first clause whose pattern matches wins, and is handed back together
/// with the bindings to install before its block runs; when no clause
/// matches the result is empty, and the caller decides what that means.
#[verifier::loop_isolation(false)]
pub fn match_expression(
    expression: &AstPair<crate::ast::Expression>,
    ctx: &mut crate::context::Context,
) -> (r: Result<Option<(AstPair<crate::ast::MatchClause>, Vec<(Identifier, Definition)>)>, Error>)
    requires
        old(ctx).scope_stack@.len() >= 1,
    ensures
        final(ctx).scope_stack@.len() == old(ctx).scope_stack@.len(),
        final(ctx).fuel <= old(ctx).fuel,
        !(expression.1 is MatchExpression) ==> r is Err && r.unwrap_err().kind
            == ErrorKind::GrammarShapeMismatch,
        expression.1 is MatchExpression && old(ctx).fuel == 0 ==> r is Err
            && r.unwrap_err().kind == ErrorKind::RecursionLimit,
        r is Ok ==> match_expr_outcome(expression.1, r.unwrap()),
    decreases old(ctx).fuel,
{
    match &expression.1 {
        crate::ast::Expression::MatchExpression { condition, match_clauses } => {
            if ctx.fuel == 0 {
                return Err(
                    custom_error(
                        ErrorKind::RecursionLimit,
                        &expression.0,
                        String::from_str("the evaluation budget is exhausted"),
                    ),
                );
            }
            ctx.fuel = ctx.fuel - 1;
            let value = match crate::evaluate::eval_expression(condition, ctx) {
                Ok(v) => v,
                Err(e) => {
                    return Err(e);
                },
            };
            let n: usize = match_clauses.len();
            let mut i: usize = 0;
            while i < n
                invariant
                    i <= n,
                    n == match_clauses@.len(),
                    forall|j: int|
                        0 <= j < i ==> spec_match_pattern(
                            value.1@,
                            #[trigger] match_clauses@[j].1.pattern.1,
                        ) == Ok::<Option<Seq<(Seq<char>, SpecValue)>>, ErrorKind>(None),
                decreases n - i,
            {
                let clause = &match_clauses[i];
                match match_predicate(&value, clause) {
                    Ok(Some(defs)) => {
                        let owned = AstPair(clause.0.clone(), clause.1.dup());
                        proof {
                            lemma_match_pattern_congruent(
                                value.1@,
                                owned.1.pattern.1,
                                clause.1.pattern.1,
                            );
                            assert(spec_match_pattern(value.1@, owned.1.pattern.1) is Ok);
                            assert(spec_match_pattern(value.1@, owned.1.pattern.1).unwrap()
                                is Some);
                            assert(bindings_match(
                                defs@,
                                spec_match_pattern(
                                    value.1@,
                                    owned.1.pattern.1,
                                ).unwrap().unwrap(),
                            ));
                            assert(matched_outcome(
                                value.1@,
                                match_clauses@,
                                Some((owned, defs)),
                            ));
                            assert(exists|v: SpecValue|
                                #[trigger] matched_outcome(v, match_clauses@, Some((owned, defs))));
                            assert(match_expr_outcome(expression.1, Some((owned, defs))));
                        }
                        return Ok(Some((owned, defs)));
                    },
                    Ok(None) => {},
                    Err(e) => {
                        return Err(e);
                    },
                }
                i = i + 1;
            }
            proof {
                assert(matched_outcome(
                    value.1@,
                    match_clauses@,
                    None::<(AstPair<crate::ast::MatchClause>, Vec<(Identifier, Definition)>)>,
                ));
                assert(exists|v: SpecValue|
                    #[trigger] matched_outcome(
                        v,
                        match_clauses@,
                        None::<
                            (AstPair<crate::ast::MatchClause>, Vec<(Identifier, Definition)>),
                        >,
                    ));
                assert(match_expr_outcome(
                    expression.1,
                    None::<(AstPair<crate::ast::MatchClause>, Vec<(Identifier, Definition)>)>,
                ));
            }
            Ok(None)
        },
        _ => Err(
            custom_error(
                ErrorKind::GrammarShapeMismatch,
                &expression.0,
                String::from_str("expected a match expression"),
            ),
        ),
    }
}

} // verus!
