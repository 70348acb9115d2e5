//! The condition evaluator: decides whether a condition tree matches the
//! caller's attributes, as `condition_spec` states it.
use vstd::prelude::*;
use crate::attribute::{find_attr, find_value, same_value, text_of, GrowthBookAttribute, GrowthBookAttributeValue};
use crate::condition_spec::{
    aggregate_key, all_hold, any_hold, clause_holds, clauses_all, clauses_any, cond_holds, condition_number, conditions_match,
    eq_op, json_type_of, lookup_key, none_hold, order_op, ordering_holds, regex_op, text_among, type_op, user_number_passes,
    version_op, Ordering, all_op, found_in, exists_op, in_op, ne_op, nin_op, size_int_op,
};
use crate::number::{decimal_cmp, stripped_integer};
use crate::pattern::{has_regex_digit, pattern_compiles, pattern_matches};
use crate::number::{compare_decimal, decimal_wf, read_decimal_text, read_stripped_integer, Decimal, DIGITS_LIMIT};
use crate::pattern::{compile, is_match};
use crate::text::{compare_text, str_eq};
use crate::version::normalize;

verus! {

/// The view of an optional key.
pub open spec fn key_view(k: Option<&str>) -> Option<Seq<char>> {
    match k {
        Some(s) => Some(s@),
        None => None,
    }
}

/// The value behind an optional reference.
pub open spec fn value_of(v: Option<&GrowthBookAttributeValue>) -> Option<GrowthBookAttributeValue> {
    match v {
        Some(x) => Some(*x),
        None => None,
    }
}

fn lookup<'a>(parent: Option<&str>, fa: &GrowthBookAttribute, user: &'a [GrowthBookAttribute]) -> (r: Option<&'a GrowthBookAttributeValue>)
    ensures
        value_of(r) == find_attr(user@, lookup_key(key_view(parent), *fa)),
{
    let r = match parent {
        Some(p) => find_value(user, p),
        None => find_value(user, fa.key.as_str()),
    };
    r
}

fn ordering_holds_exec(op: Ordering, c: i8) -> (r: bool)
    ensures
        r == ordering_holds(op, c as int),
{
    match op {
        Ordering::Gt => c > 0,
        Ordering::Gte => c >= 0,
        Ordering::Lt => c < 0,
        Ordering::Lte => c <= 0,
        Ordering::Eq => c == 0,
        Ordering::Ne => c != 0,
    }
}

fn any_equal(items: &Vec<GrowthBookAttributeValue>, fv: &GrowthBookAttributeValue) -> (r: bool)
    ensures
        r == exists|i: int| 0 <= i < items@.len() && same_value(#[trigger] items@[i], *fv),
{
    let mut i: usize = 0;
    while i < items.len()
        invariant
            i <= items@.len(),
            forall|j: int| 0 <= j < i ==> !same_value(#[trigger] items@[j], *fv),
        decreases items@.len() - i,
    {
        if items[i].equals(fv) {
            assert(same_value(items@[i as int], *fv));
            return true;
        }
        i = i + 1;
    }
    false
}

fn text_among_exec(f: &GrowthBookAttributeValue, uv: &GrowthBookAttributeValue) -> (r: bool)
    ensures
        r == text_among(*f, *uv),
{
    let ft = f.to_text();
    match uv {
        GrowthBookAttributeValue::Array(us) => {
            let mut j: usize = 0;
            while j < us.len()
                invariant
                    ft@ == text_of(*f),
                    *uv == GrowthBookAttributeValue::Array(*us),
                    j <= us@.len(),
                    forall|k: int| 0 <= k < j ==> text_of(*f) != text_of(#[trigger] us@[k]),
                decreases us@.len() - j,
            {
                let ut = us[j].to_text();
                if str_eq(ft.as_str(), ut.as_str()) {
                    assert(ut@ == text_of(us@[j as int]));
                    assert(text_of(*f) == text_of(us@[j as int]));
                    return true;
                }
                j = j + 1;
            }
            false
        },
        GrowthBookAttributeValue::Empty => false,
        x => {
            let xt = x.to_text();
            str_eq(ft.as_str(), xt.as_str())
        },
    }
}

fn condition_number_exec(fv: &GrowthBookAttributeValue) -> (r: Option<Decimal>)
    ensures
        r == condition_number(*fv),
        r matches Some(d) ==> decimal_wf(d),
{
    match fv {
        GrowthBookAttributeValue::Int(i) => Some(Decimal { mant: *i as i128, scale: 0 }),
        GrowthBookAttributeValue::Float(t) => read_decimal_text(t.as_str()),
        GrowthBookAttributeValue::String(s) => read_stripped_integer(s.as_str()),
        _ => None,
    }
}

fn number_passes(op: Ordering, d: Option<Decimal>, f: &Decimal) -> (r: bool)
    requires
        decimal_wf(*f),
        d matches Some(x) ==> decimal_wf(x),
    ensures
        r == (match d {
            Some(x) => ordering_holds(op, decimal_cmp(x, *f)),
            None => false,
        }),
{
    match d {
        Some(x) => ordering_holds_exec(op, compare_decimal(&x, f)),
        None => false,
    }
}

fn user_number_passes_exec(op: Ordering, x: &GrowthBookAttributeValue, f: &Decimal, array_size: bool) -> (r: bool)
    requires
        decimal_wf(*f),
    ensures
        r == user_number_passes(op, *x, *f, array_size),
{
    match x {
        GrowthBookAttributeValue::Int(i) => {
            let d = Decimal { mant: *i as i128, scale: 0 };
            ordering_holds_exec(op, compare_decimal(&d, f))
        },
        GrowthBookAttributeValue::Float(t) => number_passes(op, read_decimal_text(t.as_str()), f),
        GrowthBookAttributeValue::String(s) => number_passes(op, read_stripped_integer(s.as_str()), f),
        GrowthBookAttributeValue::Array(items) => {
            if array_size {
                if items.len() as u64 >= DIGITS_LIMIT {
                    return false;
                }
                let d = Decimal { mant: items.len() as i128, scale: 0 };
                ordering_holds_exec(op, compare_decimal(&d, f))
            } else {
                let mut i: usize = 0;
                while i < items.len()
                    invariant
                        decimal_wf(*f),
                        !array_size,
                        *x == GrowthBookAttributeValue::Array(*items),
                        i <= items@.len(),
                        forall|j: int| 0 <= j < i ==> !(match stripped_integer(text_of(#[trigger] items@[j])) {
                            Some(d) => ordering_holds(op, decimal_cmp(d, *f)),
                            None => false,
                        }),
                    decreases items@.len() - i,
                {
                    if number_passes(op, items[i].as_number(), f) {
                        assert(match stripped_integer(text_of(items@[i as int])) {
                            Some(d) => ordering_holds(op, decimal_cmp(d, *f)),
                            None => false,
                        });
                        return true;
                    }
                    i = i + 1;
                }
                false
            }
        },
        _ => false,
    }
}

fn order_exec(op: Ordering, uv: Option<&GrowthBookAttributeValue>, fv: &GrowthBookAttributeValue, array_size: bool) -> (r: bool)
    ensures
        r == order_op(op, value_of(uv), *fv, array_size),
{
    match uv {
        None => true,
        Some(x) => {
            let ft = fv.to_text();
            if fv.is_number() {
                match condition_number_exec(fv) {
                    Some(f) => user_number_passes_exec(op, x, &f, array_size),
                    None => false,
                }
            } else {
                match x {
                    GrowthBookAttributeValue::Array(items) => {
                        let mut i: usize = 0;
                        while i < items.len()
                            invariant
                                ft@ == text_of(*fv),
                                !has_regex_digit(text_of(*fv)),
                                value_of(uv) == Some(GrowthBookAttributeValue::Array(*items)),
                                i <= items@.len(),
                                forall|j: int| 0 <= j < i ==> !ordering_holds(op, crate::text::lex_cmp(text_of(#[trigger] items@[j]), text_of(*fv))),
                            decreases items@.len() - i,
                        {
                            let it = items[i].to_text();
                            if ordering_holds_exec(op, compare_text(it.as_str(), ft.as_str())) {
                                assert(it@ == text_of(items@[i as int]));
                                assert(ordering_holds(op, crate::text::lex_cmp(text_of(items@[i as int]), text_of(*fv))));
                                return true;
                            }
                            i = i + 1;
                        }
                        false
                    },
                    _ => {
                        let xt = x.to_text();
                        ordering_holds_exec(op, compare_text(xt.as_str(), ft.as_str()))
                    },
                }
            }
        },
    }
}


fn version_exec(op: Ordering, uv: Option<&GrowthBookAttributeValue>, fv: &GrowthBookAttributeValue) -> (r: bool)
    ensures
        r == version_op(op, value_of(uv), *fv),
{
    match uv {
        Some(GrowthBookAttributeValue::String(u)) => {
            let ft = fv.to_text();
            let nu = normalize(u.as_str());
            let nf = normalize(ft.as_str());
            ordering_holds_exec(op, compare_text(nu.as_str(), nf.as_str()))
        },
        _ => true,
    }
}

fn json_type_exec(uv: Option<&GrowthBookAttributeValue>) -> (r: &'static str)
    ensures
        r@ == json_type_of(value_of(uv)),
{
    match uv {
        None => "null",
        Some(GrowthBookAttributeValue::String(_)) => "string",
        Some(GrowthBookAttributeValue::Int(_)) => "number",
        Some(GrowthBookAttributeValue::Float(_)) => "number",
        Some(GrowthBookAttributeValue::Bool(_)) => "boolean",
        Some(GrowthBookAttributeValue::Array(_)) => "array",
        Some(GrowthBookAttributeValue::Object(es)) => if es.len() == 0 { "null" } else { "object" },
        Some(GrowthBookAttributeValue::Empty) => "null",
    }
}

/// All of `cs` hold under `parent`.
fn all_hold_exec(parent: Option<&str>, cs: &Vec<GrowthBookAttribute>, user: &[GrowthBookAttribute], array_size: bool) -> (r: bool)
    ensures
        r == all_hold(key_view(parent), cs@, cs@.len() as int, user@, array_size),
    decreases cs, 0nat,
{
    let mut i: usize = 0;
    while i < cs.len()
        invariant
            i <= cs@.len(),
            all_hold(key_view(parent), cs@, i as int, user@, array_size),
        decreases cs@.len() - i,
    {
        proof { assert(decreases_to!(*cs => cs[i as int])); }
        if !verify(parent, &cs[i], user, array_size) {
            proof { lemma_all_hold_fails(key_view(parent), cs@, i as int, cs@.len() as int, user@, array_size); }
            return false;
        }
        i = i + 1;
    }
    true
}

proof fn lemma_all_hold_fails(parent: Option<Seq<char>>, cs: Seq<GrowthBookAttribute>, i: int, n: int, user: Seq<GrowthBookAttribute>, array_size: bool)
    requires
        0 <= i < n <= cs.len(),
        !cond_holds(parent, cs[i], user, array_size),
    ensures
        !all_hold(parent, cs, n, user, array_size),
    decreases n,
{
    if i < n - 1 {
        lemma_all_hold_fails(parent, cs, i, n - 1, user, array_size);
    }
}

proof fn lemma_any_hold_found(parent: Option<Seq<char>>, cs: Seq<GrowthBookAttribute>, i: int, n: int, user: Seq<GrowthBookAttribute>, array_size: bool)
    requires
        0 <= i < n <= cs.len(),
        cond_holds(parent, cs[i], user, array_size),
    ensures
        any_hold(parent, cs, n, user, array_size),
    decreases n,
{
    if i < n - 1 {
        lemma_any_hold_found(parent, cs, i, n - 1, user, array_size);
    }
}

proof fn lemma_none_hold_fails(parent: Option<Seq<char>>, cs: Seq<GrowthBookAttribute>, i: int, n: int, user: Seq<GrowthBookAttribute>)
    requires
        0 <= i < n <= cs.len(),
        cond_holds(parent, cs[i], user, false),
    ensures
        !none_hold(parent, cs, n, user),
    decreases n,
{
    if i < n - 1 {
        lemma_none_hold_fails(parent, cs, i, n - 1, user);
    }
}

proof fn lemma_clauses_all_fails(items: Seq<GrowthBookAttributeValue>, i: int, n: int, user: Seq<GrowthBookAttribute>, negate: bool)
    requires
        0 <= i < n <= items.len(),
        !((items[i] is Object) && (clause_holds(items[i], user) != negate)),
    ensures
        !clauses_all(items, n, user, negate),
    decreases n,
{
    if i < n - 1 {
        lemma_clauses_all_fails(items, i, n - 1, user, negate);
    }
}

proof fn lemma_clauses_any_found(items: Seq<GrowthBookAttributeValue>, i: int, n: int, user: Seq<GrowthBookAttribute>)
    requires
        0 <= i < n <= items.len(),
        clause_holds(items[i], user),
    ensures
        clauses_any(items, n, user),
    decreases n,
{
    if i < n - 1 {
        lemma_clauses_any_found(items, i, n - 1, user);
    }
}

/// Some of `cs` holds under `parent`.
fn any_hold_exec(parent: Option<&str>, cs: &Vec<GrowthBookAttribute>, user: &[GrowthBookAttribute], array_size: bool) -> (r: bool)
    ensures
        r == any_hold(key_view(parent), cs@, cs@.len() as int, user@, array_size),
    decreases cs, 0nat,
{
    let mut i: usize = 0;
    while i < cs.len()
        invariant
            i <= cs@.len(),
            !any_hold(key_view(parent), cs@, i as int, user@, array_size),
        decreases cs@.len() - i,
    {
        proof { assert(decreases_to!(*cs => cs[i as int])); }
        if verify(parent, &cs[i], user, array_size) {
            proof { lemma_any_hold_found(key_view(parent), cs@, i as int, cs@.len() as int, user@, array_size); }
            return true;
        }
        i = i + 1;
    }
    false
}

/// None of `cs` holds under `parent`.
fn none_hold_exec(parent: Option<&str>, cs: &Vec<GrowthBookAttribute>, user: &[GrowthBookAttribute]) -> (r: bool)
    ensures
        r == none_hold(key_view(parent), cs@, cs@.len() as int, user@),
    decreases cs, 0nat,
{
    let mut i: usize = 0;
    while i < cs.len()
        invariant
            i <= cs@.len(),
            none_hold(key_view(parent), cs@, i as int, user@),
        decreases cs@.len() - i,
    {
        proof { assert(decreases_to!(*cs => cs[i as int])); }
        if verify(parent, &cs[i], user, false) {
            proof { lemma_none_hold_fails(key_view(parent), cs@, i as int, cs@.len() as int, user@); }
            return false;
        }
        i = i + 1;
    }
    true
}

fn clause_holds_exec(item: &GrowthBookAttributeValue, user: &[GrowthBookAttribute]) -> (r: bool)
    ensures
        r == clause_holds(*item, user@),
    decreases item, 1nat,
{
    match item {
        GrowthBookAttributeValue::Object(cs) => {
            proof { assert(decreases_to!(*item => (*item)->Object_0)); }
            all_hold_exec(None, cs, user, false)
        },
        _ => false,
    }
}

/// Every clause is an object that holds (or, with `negate`, fails).
fn clauses_all_exec(items: &Vec<GrowthBookAttributeValue>, user: &[GrowthBookAttribute], negate: bool) -> (r: bool)
    ensures
        r == clauses_all(items@, items@.len() as int, user@, negate),
    decreases items, 2nat,
{
    let mut i: usize = 0;
    while i < items.len()
        invariant
            i <= items@.len(),
            clauses_all(items@, i as int, user@, negate),
        decreases items@.len() - i,
    {
        proof { assert(decreases_to!(*items => items[i as int])); }
        let is_object = match &items[i] {
            GrowthBookAttributeValue::Object(_) => true,
            _ => false,
        };
        if !is_object || clause_holds_exec(&items[i], user) == negate {
            proof { lemma_clauses_all_fails(items@, i as int, items@.len() as int, user@, negate); }
            return false;
        }
        i = i + 1;
    }
    true
}

/// Some clause is an object that holds.
fn clauses_any_exec(items: &Vec<GrowthBookAttributeValue>, user: &[GrowthBookAttribute]) -> (r: bool)
    ensures
        r == clauses_any(items@, items@.len() as int, user@),
    decreases items, 2nat,
{
    let mut i: usize = 0;
    while i < items.len()
        invariant
            i <= items@.len(),
            !clauses_any(items@, i as int, user@),
        decreases items@.len() - i,
    {
        proof { assert(decreases_to!(*items => items[i as int])); }
        if clause_holds_exec(&items[i], user) {
            proof { lemma_clauses_any_found(items@, i as int, items@.len() as int, user@); }
            return true;
        }
        i = i + 1;
    }
    false
}

/// Whether one condition entry holds, as `cond_holds` states.
pub fn verify(parent: Option<&str>, fa: &GrowthBookAttribute, user: &[GrowthBookAttribute], array_size: bool) -> (r: bool)
    ensures
        r == cond_holds(key_view(parent), *fa, user@, array_size),
    decreases fa, 3nat,
{
    let ghost p = key_view(parent);
    let k = fa.key.as_str();
    let uv = lookup(parent, fa, user);
    proof {
        assert(decreases_to!(*fa => fa.value));
    }
    if str_eq(k, "$not") {
        OperatorCondition::not(parent, fa, user)
    } else if str_eq(k, "$ne") {
        OperatorCondition::ne(parent, fa, user)
    } else if str_eq(k, "$and") {
        OperatorCondition::and(parent, fa, user)
    } else if str_eq(k, "$nor") {
        OperatorCondition::nor(parent, fa, user)
    } else if str_eq(k, "$or") {
        OperatorCondition::or(parent, fa, user)
    } else if str_eq(k, "$in") {
        OperatorCondition::is_in(parent, fa, user)
    } else if str_eq(k, "$nin") {
        OperatorCondition::nin(parent, fa, user)
    } else if str_eq(k, "$gt") {
        OrderComparison::gt(parent, fa, user, array_size)
    } else if str_eq(k, "$gte") {
        OrderComparison::gte(parent, fa, user, array_size)
    } else if str_eq(k, "$lt") {
        OrderComparison::lt(parent, fa, user, array_size)
    } else if str_eq(k, "$lte") {
        OrderComparison::lte(parent, fa, user, array_size)
    } else if str_eq(k, "$eq") {
        OperatorCondition::eq(parent, fa, user)
    } else if str_eq(k, "$exists") {
        OperatorCondition::exists_check(parent, fa, user)
    } else if str_eq(k, "$regex") {
        RegexComparison::matches(parent, fa, user)
    } else if str_eq(k, "$type") {
        TypeComparison::matches(parent, fa, user)
    } else if str_eq(k, "$size") {
        SizeComparison::matches(parent, fa, user)
    } else if str_eq(k, "$all") {
        OperatorCondition::all(parent, fa, user)
    } else if str_eq(k, "$vgt") {
        VersionComparison::vgt(parent, fa, user)
    } else if str_eq(k, "$vgte") {
        VersionComparison::vgte(parent, fa, user)
    } else if str_eq(k, "$vlt") {
        VersionComparison::vlt(parent, fa, user)
    } else if str_eq(k, "$vlte") {
        VersionComparison::vlte(parent, fa, user)
    } else if str_eq(k, "$veq") {
        VersionComparison::veq(parent, fa, user)
    } else if str_eq(k, "$vne") {
        VersionComparison::vne(parent, fa, user)
    } else if str_eq(k, "$elemMatch") {
        ElemMatchComparison::matches(parent, fa, user, array_size)
    } else {
        non_operator(parent, fa, user)
    }
}

fn non_operator(parent: Option<&str>, fa: &GrowthBookAttribute, user: &[GrowthBookAttribute]) -> (r: bool)
    requires
        !(fa.key@ == "$not"@ || fa.key@ == "$ne"@ || fa.key@ == "$and"@ || fa.key@ == "$nor"@ || fa.key@ == "$or"@
            || fa.key@ == "$in"@ || fa.key@ == "$nin"@ || fa.key@ == "$gt"@ || fa.key@ == "$gte"@ || fa.key@ == "$lt"@
            || fa.key@ == "$lte"@ || fa.key@ == "$eq"@ || fa.key@ == "$exists"@ || fa.key@ == "$regex"@
            || fa.key@ == "$type"@ || fa.key@ == "$size"@ || fa.key@ == "$all"@ || fa.key@ == "$vgt"@
            || fa.key@ == "$vgte"@ || fa.key@ == "$vlt"@ || fa.key@ == "$vlte"@ || fa.key@ == "$veq"@
            || fa.key@ == "$vne"@ || fa.key@ == "$elemMatch"@),
    ensures
        r == cond_holds(key_view(parent), *fa, user@, false),
    decreases fa, 2nat,
{
    let uv = lookup(parent, fa, user);
    match &fa.value {
        GrowthBookAttributeValue::String(_) => {
            let k = fa.key.as_str();
            if k.unicode_len() > 0 && k.get_char(0) == '$' {
                false
            } else {
                eq_exec(uv, &fa.value)
            }
        },
        GrowthBookAttributeValue::Array(fs) => {
            match uv {
                Some(GrowthBookAttributeValue::Array(us)) => {
                    if fs.len() != us.len() {
                        false
                    } else {
                        let whole = fa.value.equals(uv.unwrap());
                        whole
                    }
                },
                _ => false,
            }
        },
        GrowthBookAttributeValue::Object(cs) => {
            if cs.len() == 0 {
                match uv {
                    None => true,
                    Some(GrowthBookAttributeValue::Empty) => true,
                    Some(_) => false,
                }
            } else {
                let mut agg = String::new();
                match parent {
                    Some(pk) => {
                        agg.append(pk);
                        proof { reveal_strlit("."); }
                        agg.append(".");
                        agg.append(fa.key.as_str());
                    },
                    None => {
                        agg.append(fa.key.as_str());
                    },
                }
                proof {
                    assert(agg@ =~= aggregate_key(key_view(parent), *fa));
                    assert(decreases_to!(*fa => fa.value));
                    assert(decreases_to!(fa.value => *cs));
                }
                all_hold_exec(Some(agg.as_str()), cs, user, false)
            }
        },
        GrowthBookAttributeValue::Empty => {
            match uv {
                None => true,
                Some(x) => match x {
                    GrowthBookAttributeValue::Empty => true,
                    _ => false,
                },
            }
        },
        other => {
            match uv {
                Some(x) => other.equals(x),
                None => false,
            }
        },
    }
}

fn eq_exec(uv: Option<&GrowthBookAttributeValue>, fv: &GrowthBookAttributeValue) -> (r: bool)
    ensures
        r == eq_op(value_of(uv), *fv),
{
    match uv {
        None => false,
        Some(GrowthBookAttributeValue::Array(items)) => any_equal(items, fv),
        Some(GrowthBookAttributeValue::Empty) => false,
        Some(x) => {
            let xt = x.to_text();
            let ft = fv.to_text();
            str_eq(xt.as_str(), ft.as_str())
        },
    }
}

/// Whether every entry of a condition tree holds for the user attributes;
/// the empty tree matches.
pub fn matches(conditions: &Vec<GrowthBookAttribute>, user: &[GrowthBookAttribute]) -> (r: bool)
    ensures
        r == conditions_match(conditions@, user@),
{
    all_hold_exec(None, conditions, user, false)
}

/// Logical and set operators of the condition language.
pub struct OperatorCondition;

impl OperatorCondition {
    /// `$not`: none of the inner conditions holds.
    pub fn not(parent: Option<&str>, fa: &GrowthBookAttribute, user: &[GrowthBookAttribute]) -> (r: bool)
        ensures
            r == (match fa.value {
                GrowthBookAttributeValue::Object(cs) => none_hold(key_view(parent), cs@, cs@.len() as int, user@),
                _ => false,
            }),
        decreases fa, 2nat,
    {
        match &fa.value {
            GrowthBookAttributeValue::Object(cs) => {
                proof {
                    assert(decreases_to!(*fa => fa.value));
                    assert(decreases_to!(fa.value => *cs));
                }
                none_hold_exec(parent, cs, user)
            },
            _ => false,
        }
    }

    /// `$and`: every clause is an object whose entries all hold.
    pub fn and(parent: Option<&str>, fa: &GrowthBookAttribute, user: &[GrowthBookAttribute]) -> (r: bool)
        ensures
            r == (match fa.value {
                GrowthBookAttributeValue::Array(items) => clauses_all(items@, items@.len() as int, user@, false),
                _ => false,
            }),
        decreases fa, 2nat,
    {
        match &fa.value {
            GrowthBookAttributeValue::Array(items) => {
                proof {
                    assert(decreases_to!(*fa => fa.value));
                    assert(decreases_to!(fa.value => *items));
                }
                clauses_all_exec(items, user, false)
            },
            _ => false,
        }
    }

    /// `$nor`: every clause is an object whose entries do not all hold.
    pub fn nor(parent: Option<&str>, fa: &GrowthBookAttribute, user: &[GrowthBookAttribute]) -> (r: bool)
        ensures
            r == (match fa.value {
                GrowthBookAttributeValue::Array(items) => clauses_all(items@, items@.len() as int, user@, true),
                _ => false,
            }),
        decreases fa, 2nat,
    {
        match &fa.value {
            GrowthBookAttributeValue::Array(items) => {
                proof {
                    assert(decreases_to!(*fa => fa.value));
                    assert(decreases_to!(fa.value => *items));
                }
                clauses_all_exec(items, user, true)
            },
            _ => false,
        }
    }

    /// `$or`: no clauses, or some clause whose entries all hold.
    pub fn or(parent: Option<&str>, fa: &GrowthBookAttribute, user: &[GrowthBookAttribute]) -> (r: bool)
        ensures
            r == (match fa.value {
                GrowthBookAttributeValue::Array(items) => items@.len() == 0 || clauses_any(items@, items@.len() as int, user@),
                GrowthBookAttributeValue::Empty => true,
                _ => false,
            }),
        decreases fa, 2nat,
    {
        match &fa.value {
            GrowthBookAttributeValue::Array(items) => {
                proof {
                    assert(decreases_to!(*fa => fa.value));
                    assert(decreases_to!(fa.value => *items));
                }
                items.len() == 0 || clauses_any_exec(items, user)
            },
            GrowthBookAttributeValue::Empty => true,
            _ => false,
        }
    }

    /// `$all`: every condition element is found in the user array.
    pub fn all(parent: Option<&str>, fa: &GrowthBookAttribute, user: &[GrowthBookAttribute]) -> (r: bool)
        ensures
            r == all_op(find_attr(user@, lookup_key(key_view(parent), *fa)), fa.value),
    {
        let uv = lookup(parent, fa, user);
        match (uv, &fa.value) {
            (Some(GrowthBookAttributeValue::Array(us)), GrowthBookAttributeValue::Array(fs)) => all_found(fs, us),
            _ => false,
        }
    }

    /// `$ne`: the negation of `$eq`, as `ne_op` states.
    pub fn ne(parent: Option<&str>, fa: &GrowthBookAttribute, user: &[GrowthBookAttribute]) -> (r: bool)
        ensures
            r == ne_op(find_attr(user@, lookup_key(key_view(parent), *fa)), fa.value),
    {
        let uv = lookup(parent, fa, user);
        !eq_exec(uv, &fa.value)
    }

    /// `$eq`, as `eq_op` states.
    pub fn eq(parent: Option<&str>, fa: &GrowthBookAttribute, user: &[GrowthBookAttribute]) -> (r: bool)
        ensures
            r == eq_op(find_attr(user@, lookup_key(key_view(parent), *fa)), fa.value),
    {
        let uv = lookup(parent, fa, user);
        eq_exec(uv, &fa.value)
    }

    /// `$exists`, as `exists_op` states.
    pub fn exists_check(parent: Option<&str>, fa: &GrowthBookAttribute, user: &[GrowthBookAttribute]) -> (r: bool)
        ensures
            r == exists_op(find_attr(user@, lookup_key(key_view(parent), *fa)), fa.value),
    {
        let uv = lookup(parent, fa, user);
        match &fa.value {
            GrowthBookAttributeValue::Bool(b) => uv.is_some() == *b,
            _ => false,
        }
    }

    /// `$in`, as `in_op` states.
    pub fn is_in(parent: Option<&str>, fa: &GrowthBookAttribute, user: &[GrowthBookAttribute]) -> (r: bool)
        ensures
            r == in_op(find_attr(user@, lookup_key(key_view(parent), *fa)), fa.value),
    {
        let uv = lookup(parent, fa, user);
        match (uv, &fa.value) {
            (Some(x), GrowthBookAttributeValue::Array(fs)) => any_text_among(fs, x),
            _ => false,
        }
    }

    /// `$nin`, as `nin_op` states.
    pub fn nin(parent: Option<&str>, fa: &GrowthBookAttribute, user: &[GrowthBookAttribute]) -> (r: bool)
        ensures
            r == nin_op(find_attr(user@, lookup_key(key_view(parent), *fa)), fa.value),
    {
        let uv = lookup(parent, fa, user);
        match (uv, &fa.value) {
            (Some(x), GrowthBookAttributeValue::Array(fs)) => !any_text_among(fs, x),
            _ => false,
        }
    }
}

fn any_text_among(fs: &Vec<GrowthBookAttributeValue>, x: &GrowthBookAttributeValue) -> (r: bool)
    ensures
        r == exists|i: int| 0 <= i < fs@.len() && text_among(#[trigger] fs@[i], *x),
{
    let mut i: usize = 0;
    while i < fs.len()
        invariant
            i <= fs@.len(),
            forall|j: int| 0 <= j < i ==> !text_among(#[trigger] fs@[j], *x),
        decreases fs@.len() - i,
    {
        if text_among_exec(&fs[i], x) {
            assert(text_among(fs@[i as int], *x));
            return true;
        }
        i = i + 1;
    }
    false
}

fn all_found(fs: &Vec<GrowthBookAttributeValue>, us: &Vec<GrowthBookAttributeValue>) -> (r: bool)
    ensures
        r == forall|i: int| 0 <= i < fs@.len() ==> found_in(#[trigger] fs@[i], us@),
{
    let mut i: usize = 0;
    while i < fs.len()
        invariant
            i <= fs@.len(),
            forall|j: int| 0 <= j < i ==> found_in(#[trigger] fs@[j], us@),
        decreases fs@.len() - i,
    {
        if !any_equal_rev(us, &fs[i]) {
            return false;
        }
        i = i + 1;
    }
    true
}

fn any_equal_rev(us: &Vec<GrowthBookAttributeValue>, f: &GrowthBookAttributeValue) -> (r: bool)
    ensures
        r == found_in(*f, us@),
{
    let mut k: usize = 0;
    while k < us.len()
        invariant
            k <= us@.len(),
            forall|j: int| 0 <= j < k ==> !same_value(*f, #[trigger] us@[j]),
        decreases us@.len() - k,
    {
        if f.equals(&us[k]) {
            assert(same_value(*f, us@[k as int]));
            return true;
        }
        k = k + 1;
    }
    false
}

/// Numeric-or-text ordering operators.
pub struct OrderComparison;

impl OrderComparison {
    pub fn gt(parent: Option<&str>, fa: &GrowthBookAttribute, user: &[GrowthBookAttribute], array_size: bool) -> (r: bool)
        ensures
            r == order_op(Ordering::Gt, find_attr(user@, lookup_key(key_view(parent), *fa)), fa.value, array_size),
    {
        order_exec(Ordering::Gt, lookup(parent, fa, user), &fa.value, array_size)
    }

    pub fn gte(parent: Option<&str>, fa: &GrowthBookAttribute, user: &[GrowthBookAttribute], array_size: bool) -> (r: bool)
        ensures
            r == order_op(Ordering::Gte, find_attr(user@, lookup_key(key_view(parent), *fa)), fa.value, array_size),
    {
        order_exec(Ordering::Gte, lookup(parent, fa, user), &fa.value, array_size)
    }

    pub fn lt(parent: Option<&str>, fa: &GrowthBookAttribute, user: &[GrowthBookAttribute], array_size: bool) -> (r: bool)
        ensures
            r == order_op(Ordering::Lt, find_attr(user@, lookup_key(key_view(parent), *fa)), fa.value, array_size),
    {
        order_exec(Ordering::Lt, lookup(parent, fa, user), &fa.value, array_size)
    }

    pub fn lte(parent: Option<&str>, fa: &GrowthBookAttribute, user: &[GrowthBookAttribute], array_size: bool) -> (r: bool)
        ensures
            r == order_op(Ordering::Lte, find_attr(user@, lookup_key(key_view(parent), *fa)), fa.value, array_size),
    {
        order_exec(Ordering::Lte, lookup(parent, fa, user), &fa.value, array_size)
    }
}

/// Semantic-version operators.
pub struct VersionComparison;

impl VersionComparison {
    pub fn vgt(parent: Option<&str>, fa: &GrowthBookAttribute, user: &[GrowthBookAttribute]) -> (r: bool)
        ensures
            r == version_op(Ordering::Gt, find_attr(user@, lookup_key(key_view(parent), *fa)), fa.value),
    {
        version_exec(Ordering::Gt, lookup(parent, fa, user), &fa.value)
    }

    pub fn vgte(parent: Option<&str>, fa: &GrowthBookAttribute, user: &[GrowthBookAttribute]) -> (r: bool)
        ensures
            r == version_op(Ordering::Gte, find_attr(user@, lookup_key(key_view(parent), *fa)), fa.value),
    {
        version_exec(Ordering::Gte, lookup(parent, fa, user), &fa.value)
    }

    pub fn vlt(parent: Option<&str>, fa: &GrowthBookAttribute, user: &[GrowthBookAttribute]) -> (r: bool)
        ensures
            r == version_op(Ordering::Lt, find_attr(user@, lookup_key(key_view(parent), *fa)), fa.value),
    {
        version_exec(Ordering::Lt, lookup(parent, fa, user), &fa.value)
    }

    pub fn vlte(parent: Option<&str>, fa: &GrowthBookAttribute, user: &[GrowthBookAttribute]) -> (r: bool)
        ensures
            r == version_op(Ordering::Lte, find_attr(user@, lookup_key(key_view(parent), *fa)), fa.value),
    {
        version_exec(Ordering::Lte, lookup(parent, fa, user), &fa.value)
    }

    pub fn veq(parent: Option<&str>, fa: &GrowthBookAttribute, user: &[GrowthBookAttribute]) -> (r: bool)
        ensures
            r == version_op(Ordering::Eq, find_attr(user@, lookup_key(key_view(parent), *fa)), fa.value),
    {
        version_exec(Ordering::Eq, lookup(parent, fa, user), &fa.value)
    }

    pub fn vne(parent: Option<&str>, fa: &GrowthBookAttribute, user: &[GrowthBookAttribute]) -> (r: bool)
        ensures
            r == version_op(Ordering::Ne, find_attr(user@, lookup_key(key_view(parent), *fa)), fa.value),
    {
        version_exec(Ordering::Ne, lookup(parent, fa, user), &fa.value)
    }
}

/// `$regex`.
pub struct RegexComparison;

impl RegexComparison {
    pub fn matches(parent: Option<&str>, fa: &GrowthBookAttribute, user: &[GrowthBookAttribute]) -> (r: bool)
        ensures
            r == regex_op(find_attr(user@, lookup_key(key_view(parent), *fa)), fa.value),
    {
        let uv = lookup(parent, fa, user);
        match &fa.value {
            GrowthBookAttributeValue::String(p) => {
                let compiled = match compile(p.as_str()) {
                    Some(c) => c,
                    None => {
                        return false;
                    },
                };
                match uv {
                    None => false,
                    Some(GrowthBookAttributeValue::Array(items)) => {
                        let mut i: usize = 0;
                        while i < items.len()
                            invariant
                                pattern_compiles(p@),
                                compiled.pattern_of() == p@,
                                fa.value == GrowthBookAttributeValue::String(*p),
                                value_of(uv) == Some(GrowthBookAttributeValue::Array(*items)),
                                value_of(uv) == find_attr(user@, lookup_key(key_view(parent), *fa)),
                                i <= items@.len(),
                                forall|j: int| 0 <= j < i ==> !pattern_matches(p@, text_of(#[trigger] items@[j])),
                            decreases items@.len() - i,
                        {
                            let t = items[i].to_text();
                            if is_match(&compiled, t.as_str()) {
                                assert(t@ == text_of(items@[i as int]));
                                assert(pattern_matches(p@, text_of(items@[i as int])));
                                return true;
                            }
                            i = i + 1;
                        }
                        false
                    },
                    Some(x) => {
                        let t = x.to_text();
                        is_match(&compiled, t.as_str())
                    },
                }
            },
            _ => false,
        }
    }
}

/// `$type`.
pub struct TypeComparison;

impl TypeComparison {
    pub fn matches(parent: Option<&str>, fa: &GrowthBookAttribute, user: &[GrowthBookAttribute]) -> (r: bool)
        ensures
            r == type_op(find_attr(user@, lookup_key(key_view(parent), *fa)), fa.value),
    {
        let uv = lookup(parent, fa, user);
        match &fa.value {
            GrowthBookAttributeValue::String(t) => str_eq(t.as_str(), json_type_exec(uv)),
            _ => false,
        }
    }
}

/// `$size`.
pub struct SizeComparison;

impl SizeComparison {
    pub fn matches(parent: Option<&str>, fa: &GrowthBookAttribute, user: &[GrowthBookAttribute]) -> (r: bool)
        ensures
            r == (match fa.value {
                GrowthBookAttributeValue::Int(n) => size_int_op(find_attr(user@, lookup_key(key_view(parent), *fa)), n),
                GrowthBookAttributeValue::Object(cs) => all_hold(key_view(parent), cs@, cs@.len() as int, user@, true),
                _ => false,
            }),
        decreases fa, 2nat,
    {
        let uv = lookup(parent, fa, user);
        match &fa.value {
            GrowthBookAttributeValue::Int(n) => {
                match uv {
                    Some(GrowthBookAttributeValue::Array(us)) => *n >= 0 && *n as u64 == us.len() as u64,
                    _ => false,
                }
            },
            GrowthBookAttributeValue::Object(cs) => {
                proof {
                    assert(decreases_to!(*fa => fa.value));
                    assert(decreases_to!(fa.value => *cs));
                }
                all_hold_exec(parent, cs, user, true)
            },
            _ => false,
        }
    }
}

/// `$elemMatch`.
pub struct ElemMatchComparison;

impl ElemMatchComparison {
    pub fn matches(parent: Option<&str>, fa: &GrowthBookAttribute, user: &[GrowthBookAttribute], array_size: bool) -> (r: bool)
        ensures
            r == (match fa.value {
                GrowthBookAttributeValue::Object(cs) => any_hold(key_view(parent), cs@, cs@.len() as int, user@, array_size),
                _ => false,
            }),
        decreases fa, 2nat,
    {
        match &fa.value {
            GrowthBookAttributeValue::Object(cs) => {
                proof {
                    assert(decreases_to!(*fa => fa.value));
                    assert(decreases_to!(fa.value => *cs));
                }
                any_hold_exec(parent, cs, user, array_size)
            },
            _ => false,
        }
    }
}

} // verus!
