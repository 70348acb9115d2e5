//! Meaning of the targeting-condition language: when a condition tree
//! matches an attribute tree.
use vstd::prelude::*;
use crate::attribute::{find_attr, same_value, same_values, text_of, GrowthBookAttribute, GrowthBookAttributeValue};
use crate::number::{decimal_cmp, decimal_text, stripped_integer, Decimal, DIGITS_LIMIT};
use crate::pattern::{has_regex_digit, pattern_compiles, pattern_matches};
use crate::text::lex_cmp;
use crate::version::normalize_spec;

verus! {

/// An ordering test between a user value and a condition value.
#[derive(Clone, Copy, Debug, PartialEq, Eq, Structural)]
pub enum Ordering {
    Gt,
    Gte,
    Lt,
    Lte,
    Eq,
    Ne,
}

/// Whether the sign `c` of `user - condition` passes the test.
pub open spec fn ordering_holds(op: Ordering, c: int) -> bool {
    match op {
        Ordering::Gt => c > 0,
        Ordering::Gte => c >= 0,
        Ordering::Lt => c < 0,
        Ordering::Lte => c <= 0,
        Ordering::Eq => c == 0,
        Ordering::Ne => c != 0,
    }
}

/// The key that an operator looks up: the enclosing path when there is one,
/// else the condition's own key.
pub open spec fn lookup_key(parent: Option<Seq<char>>, fa: GrowthBookAttribute) -> Seq<char> {
    match parent {
        Some(p) => p,
        None => fa.key@,
    }
}

/// The path under which the children of an object condition are looked up.
pub open spec fn aggregate_key(parent: Option<Seq<char>>, fa: GrowthBookAttribute) -> Seq<char> {
    match parent {
        Some(p) => p + seq!['.'] + fa.key@,
        None => fa.key@,
    }
}

/// `$eq`: some element of a user array equals the condition value, or a
/// scalar user value has the same text.
pub open spec fn eq_op(uv: Option<GrowthBookAttributeValue>, fv: GrowthBookAttributeValue) -> bool {
    match uv {
        None => false,
        Some(GrowthBookAttributeValue::Array(items)) => exists|i: int| 0 <= i < items@.len() && same_value(#[trigger] items@[i], fv),
        Some(GrowthBookAttributeValue::Empty) => false,
        Some(x) => text_of(x) == text_of(fv),
    }
}

/// `$ne`: the negation of `$eq`'s match rule.
pub open spec fn ne_op(uv: Option<GrowthBookAttributeValue>, fv: GrowthBookAttributeValue) -> bool {
    !eq_op(uv, fv)
}

/// Some element of `us` has the text of `f`.
pub open spec fn text_in(f: GrowthBookAttributeValue, us: Seq<GrowthBookAttributeValue>) -> bool {
    exists|j: int| 0 <= j < us.len() && text_of(f) == text_of(#[trigger] us[j])
}

/// Some element of `items` has a text that `pattern` matches.
pub open spec fn pattern_in(pattern: Seq<char>, items: Seq<GrowthBookAttributeValue>) -> bool {
    exists|i: int| 0 <= i < items.len() && pattern_matches(pattern, text_of(#[trigger] items[i]))
}

/// Some element of `items` passes the text ordering test against `fv`.
pub open spec fn text_order_in(op: Ordering, items: Seq<GrowthBookAttributeValue>, fv: GrowthBookAttributeValue) -> bool {
    exists|i: int| 0 <= i < items.len() && ordering_holds(op, lex_cmp(text_of(#[trigger] items[i]), text_of(fv)))
}

/// The user value, or one of its elements, has the text of `f`.
pub open spec fn text_among(f: GrowthBookAttributeValue, uv: GrowthBookAttributeValue) -> bool {
    match uv {
        GrowthBookAttributeValue::Array(us) => text_in(f, us@),
        GrowthBookAttributeValue::Empty => false,
        x => text_of(f) == text_of(x),
    }
}

/// `$in`: some element of the condition array is found (by text) in the
/// user value.
pub open spec fn in_op(uv: Option<GrowthBookAttributeValue>, fv: GrowthBookAttributeValue) -> bool {
    match (uv, fv) {
        (Some(x), GrowthBookAttributeValue::Array(fs)) => exists|i: int| 0 <= i < fs@.len() && text_among(#[trigger] fs@[i], x),
        _ => false,
    }
}

/// `$nin`: no element of the condition array is found (by text) in the user
/// value; a missing value fails.
pub open spec fn nin_op(uv: Option<GrowthBookAttributeValue>, fv: GrowthBookAttributeValue) -> bool {
    match (uv, fv) {
        (Some(x), GrowthBookAttributeValue::Array(fs)) => forall|i: int| 0 <= i < fs@.len() ==> !text_among(#[trigger] fs@[i], x),
        _ => false,
    }
}

/// `$exists`: with a boolean `b`, whether the lookup succeeding equals `b`;
/// any other condition value fails.
pub open spec fn exists_op(uv: Option<GrowthBookAttributeValue>, fv: GrowthBookAttributeValue) -> bool {
    match fv {
        GrowthBookAttributeValue::Bool(b) => uv.is_some() == b,
        _ => false,
    }
}

/// The JSON type name of a looked-up value.
pub open spec fn json_type_of(uv: Option<GrowthBookAttributeValue>) -> Seq<char> {
    match uv {
        None => "null"@,
        Some(GrowthBookAttributeValue::String(_)) => "string"@,
        Some(GrowthBookAttributeValue::Int(_)) => "number"@,
        Some(GrowthBookAttributeValue::Float(_)) => "number"@,
        Some(GrowthBookAttributeValue::Bool(_)) => "boolean"@,
        Some(GrowthBookAttributeValue::Array(_)) => "array"@,
        Some(GrowthBookAttributeValue::Object(es)) => if es@.len() == 0 { "null"@ } else { "object"@ },
        Some(GrowthBookAttributeValue::Empty) => "null"@,
    }
}

/// `$type`: the condition string names the type of the looked-up value.
pub open spec fn type_op(uv: Option<GrowthBookAttributeValue>, fv: GrowthBookAttributeValue) -> bool {
    match fv {
        GrowthBookAttributeValue::String(t) => t@ == json_type_of(uv),
        _ => false,
    }
}

/// `$size` with an integer: the user array has that many elements.
pub open spec fn size_int_op(uv: Option<GrowthBookAttributeValue>, n: i64) -> bool {
    match uv {
        Some(GrowthBookAttributeValue::Array(us)) => n == us@.len(),
        _ => false,
    }
}

/// Some element of `us` equals `f`.
pub open spec fn found_in(f: GrowthBookAttributeValue, us: Seq<GrowthBookAttributeValue>) -> bool {
    exists|j: int| 0 <= j < us.len() && same_value(f, #[trigger] us[j])
}

/// `$all`: every element of the condition array equals some element of the
/// user array.
pub open spec fn all_op(uv: Option<GrowthBookAttributeValue>, fv: GrowthBookAttributeValue) -> bool {
    match (uv, fv) {
        (Some(GrowthBookAttributeValue::Array(us)), GrowthBookAttributeValue::Array(fs)) =>
            forall|i: int| 0 <= i < fs@.len() ==> found_in(#[trigger] fs@[i], us@),
        _ => false,
    }
}

/// `$regex`: a condition string that compiles matches the text of the user
/// value or of one of its elements; a missing value or a pattern that does
/// not compile fails, and so does a condition that is not a string.
pub open spec fn regex_op(uv: Option<GrowthBookAttributeValue>, fv: GrowthBookAttributeValue) -> bool {
    match fv {
        GrowthBookAttributeValue::String(p) => {
            pattern_compiles(p@) && match uv {
                None => false,
                Some(GrowthBookAttributeValue::Array(items)) => pattern_in(p@, items@),
                Some(x) => pattern_matches(p@, text_of(x)),
            }
        },
        _ => false,
    }
}

/// `$vgt` and kin: a string user value compared with the condition's text,
/// both normalised as versions; anything else passes.
pub open spec fn version_op(op: Ordering, uv: Option<GrowthBookAttributeValue>, fv: GrowthBookAttributeValue) -> bool {
    match uv {
        Some(GrowthBookAttributeValue::String(u)) => ordering_holds(op, lex_cmp(normalize_spec(u@), normalize_spec(text_of(fv)))),
        _ => true,
    }
}

/// The number a condition value stands for in a numeric comparison.
pub open spec fn condition_number(fv: GrowthBookAttributeValue) -> Option<Decimal> {
    match fv {
        GrowthBookAttributeValue::Int(i) => Some(Decimal { mant: i as i128, scale: 0 }),
        GrowthBookAttributeValue::Float(t) => decimal_text(t@),
        GrowthBookAttributeValue::String(s) => stripped_integer(s@),
        _ => None,
    }
}

/// Some number that the user value stands for passes the test against `f`:
/// an integer, a non-integral number, a string read without its dots, the
/// length of an array under `$size`, or else any array element whose text
/// reads as an integer without its dots.
pub open spec fn user_number_passes(op: Ordering, x: GrowthBookAttributeValue, f: Decimal, array_size: bool) -> bool {
    match x {
        GrowthBookAttributeValue::Int(i) => ordering_holds(op, decimal_cmp(Decimal { mant: i as i128, scale: 0 }, f)),
        GrowthBookAttributeValue::Float(t) => match decimal_text(t@) {
            Some(d) => ordering_holds(op, decimal_cmp(d, f)),
            None => false,
        },
        GrowthBookAttributeValue::String(s) => match stripped_integer(s@) {
            Some(d) => ordering_holds(op, decimal_cmp(d, f)),
            None => false,
        },
        GrowthBookAttributeValue::Array(items) => if array_size {
            items@.len() < DIGITS_LIMIT && ordering_holds(op, decimal_cmp(Decimal { mant: items@.len() as i128, scale: 0 }, f))
        } else {
            exists|i: int| 0 <= i < items@.len() && (match stripped_integer(text_of(#[trigger] items@[i])) {
                Some(d) => ordering_holds(op, decimal_cmp(d, f)),
                None => false,
            })
        },
        _ => false,
    }
}

/// `$gt` and kin: numeric when the condition's text holds a digit, else by
/// text; a missing user value passes.
pub open spec fn order_op(op: Ordering, uv: Option<GrowthBookAttributeValue>, fv: GrowthBookAttributeValue, array_size: bool) -> bool {
    match uv {
        None => true,
        Some(x) => if has_regex_digit(text_of(fv)) {
            match condition_number(fv) {
                Some(f) => user_number_passes(op, x, f, array_size),
                None => false,
            }
        } else {
            match x {
                GrowthBookAttributeValue::Array(items) => text_order_in(op, items@, fv),
                _ => ordering_holds(op, lex_cmp(text_of(x), text_of(fv))),
            }
        },
    }
}

/// Whether the condition entry `fa` holds for the user attributes; `parent`
/// is the path of the enclosing object condition, and `array_size` is set
/// under `$size`.
pub open spec fn cond_holds(parent: Option<Seq<char>>, fa: GrowthBookAttribute, user: Seq<GrowthBookAttribute>, array_size: bool) -> bool
    decreases fa,
{
    let uv = find_attr(user, lookup_key(parent, fa));
    let k = fa.key@;
    if k == "$not"@ {
        match fa.value {
            GrowthBookAttributeValue::Object(cs) => none_hold(parent, cs@, cs@.len() as int, user),
            _ => false,
        }
    } else if k == "$ne"@ {
        ne_op(uv, fa.value)
    } else if k == "$and"@ {
        match fa.value {
            GrowthBookAttributeValue::Array(items) => clauses_all(items@, items@.len() as int, user, false),
            _ => false,
        }
    } else if k == "$nor"@ {
        match fa.value {
            GrowthBookAttributeValue::Array(items) => clauses_all(items@, items@.len() as int, user, true),
            _ => false,
        }
    } else if k == "$or"@ {
        match fa.value {
            GrowthBookAttributeValue::Array(items) => items@.len() == 0 || clauses_any(items@, items@.len() as int, user),
            GrowthBookAttributeValue::Empty => true,
            _ => false,
        }
    } else if k == "$in"@ {
        in_op(uv, fa.value)
    } else if k == "$nin"@ {
        nin_op(uv, fa.value)
    } else if k == "$gt"@ {
        order_op(Ordering::Gt, uv, fa.value, array_size)
    } else if k == "$gte"@ {
        order_op(Ordering::Gte, uv, fa.value, array_size)
    } else if k == "$lt"@ {
        order_op(Ordering::Lt, uv, fa.value, array_size)
    } else if k == "$lte"@ {
        order_op(Ordering::Lte, uv, fa.value, array_size)
    } else if k == "$eq"@ {
        eq_op(uv, fa.value)
    } else if k == "$exists"@ {
        exists_op(uv, fa.value)
    } else if k == "$regex"@ {
        regex_op(uv, fa.value)
    } else if k == "$type"@ {
        type_op(uv, fa.value)
    } else if k == "$size"@ {
        match fa.value {
            GrowthBookAttributeValue::Int(n) => size_int_op(uv, n),
            GrowthBookAttributeValue::Object(cs) => all_hold(parent, cs@, cs@.len() as int, user, true),
            _ => false,
        }
    } else if k == "$all"@ {
        all_op(uv, fa.value)
    } else if k == "$vgt"@ {
        version_op(Ordering::Gt, uv, fa.value)
    } else if k == "$vgte"@ {
        version_op(Ordering::Gte, uv, fa.value)
    } else if k == "$vlt"@ {
        version_op(Ordering::Lt, uv, fa.value)
    } else if k == "$vlte"@ {
        version_op(Ordering::Lte, uv, fa.value)
    } else if k == "$veq"@ {
        version_op(Ordering::Eq, uv, fa.value)
    } else if k == "$vne"@ {
        version_op(Ordering::Ne, uv, fa.value)
    } else if k == "$elemMatch"@ {
        match fa.value {
            GrowthBookAttributeValue::Object(cs) => any_hold(parent, cs@, cs@.len() as int, user, array_size),
            _ => false,
        }
    } else {
        match fa.value {
            GrowthBookAttributeValue::String(_) => !(k.len() > 0 && k[0] == '$') && eq_op(uv, fa.value),
            GrowthBookAttributeValue::Array(fs) => match uv {
                Some(GrowthBookAttributeValue::Array(us)) => fs@.len() == us@.len() && same_values(fs@, us@, fs@.len() as int),
                _ => false,
            },
            GrowthBookAttributeValue::Object(cs) => if cs@.len() == 0 {
                match uv {
                    None => true,
                    Some(x) => x is Empty,
                }
            } else {
                all_hold(Some(aggregate_key(parent, fa)), cs@, cs@.len() as int, user, false)
            },
            GrowthBookAttributeValue::Empty => match uv {
                None => true,
                Some(x) => x is Empty,
            },
            other => match uv {
                Some(x) => same_value(other, x),
                None => false,
            },
        }
    }
}

/// All of the first `n` entries hold.
pub open spec fn all_hold(parent: Option<Seq<char>>, cs: Seq<GrowthBookAttribute>, n: int, user: Seq<GrowthBookAttribute>, array_size: bool) -> bool
    decreases cs, n,
{
    if n <= 0 || n > cs.len() { true } else { all_hold(parent, cs, n - 1, user, array_size) && cond_holds(parent, cs[n - 1], user, array_size) }
}

/// Some of the first `n` entries holds.
pub open spec fn any_hold(parent: Option<Seq<char>>, cs: Seq<GrowthBookAttribute>, n: int, user: Seq<GrowthBookAttribute>, array_size: bool) -> bool
    decreases cs, n,
{
    if n <= 0 || n > cs.len() { false } else { any_hold(parent, cs, n - 1, user, array_size) || cond_holds(parent, cs[n - 1], user, array_size) }
}

/// None of the first `n` entries holds.
pub open spec fn none_hold(parent: Option<Seq<char>>, cs: Seq<GrowthBookAttribute>, n: int, user: Seq<GrowthBookAttribute>) -> bool
    decreases cs, n,
{
    if n <= 0 || n > cs.len() { true } else { none_hold(parent, cs, n - 1, user) && !cond_holds(parent, cs[n - 1], user, false) }
}

/// One clause of `$and`/`$or`/`$nor`: an object whose entries all hold at
/// the top level.
pub open spec fn clause_holds(item: GrowthBookAttributeValue, user: Seq<GrowthBookAttribute>) -> bool
    decreases item,
{
    match item {
        GrowthBookAttributeValue::Object(cs) => all_hold(None, cs@, cs@.len() as int, user, false),
        _ => false,
    }
}

/// Every one of the first `n` clauses is an object, and each holds (or,
/// with `negate`, fails).
pub open spec fn clauses_all(items: Seq<GrowthBookAttributeValue>, n: int, user: Seq<GrowthBookAttribute>, negate: bool) -> bool
    decreases items, n,
{
    if n <= 0 || n > items.len() {
        true
    } else {
        clauses_all(items, n - 1, user, negate) && (items[n - 1] is Object) && (clause_holds(items[n - 1], user) != negate)
    }
}

/// Some one of the first `n` clauses is an object that holds.
pub open spec fn clauses_any(items: Seq<GrowthBookAttributeValue>, n: int, user: Seq<GrowthBookAttribute>) -> bool
    decreases items, n,
{
    if n <= 0 || n > items.len() { false } else { clauses_any(items, n - 1, user) || clause_holds(items[n - 1], user) }
}

/// A condition tree matches when every top-level entry holds; the empty
/// tree matches.
pub open spec fn conditions_match(conditions: Seq<GrowthBookAttribute>, user: Seq<GrowthBookAttribute>) -> bool {
    all_hold(None, conditions, conditions.len() as int, user, false)
}

} // verus!
