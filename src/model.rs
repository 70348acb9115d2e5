//! Feature values and evaluation results.
use vstd::prelude::*;
use crate::attribute::{GrowthBookAttribute, GrowthBookAttributeValue};
use crate::range::Range;
use crate::filter::FilterRule;
use crate::dto::{NamespaceRange, VariationMeta};
use crate::error::{GrowthbookError, GrowthbookErrorCode};

verus! {

/// A JSON value as feature definitions carry it. A number that is not an
/// `i64` is held as its decimal text.
#[derive(Debug)]
pub enum JsonValue {
    Null,
    Bool(bool),
    Int(i64),
    Float(String),
    String(String),
    Array(Vec<JsonValue>),
    Object(Vec<JsonMember>),
}

/// One member of a JSON object.
#[derive(Debug)]
pub struct JsonMember {
    pub key: String,
    pub value: JsonValue,
}

/// Structural equality of two JSON values.
pub open spec fn same_json(a: JsonValue, b: JsonValue) -> bool
    decreases a,
{
    match (a, b) {
        (JsonValue::Null, JsonValue::Null) => true,
        (JsonValue::Bool(x), JsonValue::Bool(y)) => x == y,
        (JsonValue::Int(x), JsonValue::Int(y)) => x == y,
        (JsonValue::Float(x), JsonValue::Float(y)) => x@ == y@,
        (JsonValue::String(x), JsonValue::String(y)) => x@ == y@,
        (JsonValue::Array(x), JsonValue::Array(y)) => x@.len() == y@.len() && same_json_items(x@, y@, x@.len() as int),
        (JsonValue::Object(x), JsonValue::Object(y)) => x@.len() == y@.len() && same_json_members(x@, y@, x@.len() as int),
        _ => false,
    }
}

pub open spec fn same_json_items(x: Seq<JsonValue>, y: Seq<JsonValue>, n: int) -> bool
    decreases x, n,
{
    if n <= 0 || n > x.len() || n > y.len() { n <= 0 } else { same_json_items(x, y, n - 1) && same_json(x[n - 1], y[n - 1]) }
}

pub open spec fn same_json_members(x: Seq<JsonMember>, y: Seq<JsonMember>, n: int) -> bool
    decreases x, n,
{
    if n <= 0 || n > x.len() || n > y.len() {
        n <= 0
    } else {
        same_json_members(x, y, n - 1) && x[n - 1].key@ == y[n - 1].key@ && same_json(x[n - 1].value, y[n - 1].value)
    }
}

/// Some character of `t` is a digit other than zero.
pub open spec fn has_nonzero_digit(t: Seq<char>) -> bool {
    exists|i: int| 0 <= i < t.len() && '1' <= #[trigger] t[i] <= '9'
}

/// Truthiness of a feature value: null is off; a number is on when it is
/// not zero; a string, array or object when it is not empty; a boolean is
/// itself.
pub open spec fn truthy(v: JsonValue) -> bool {
    match v {
        JsonValue::Null => false,
        JsonValue::Bool(b) => b,
        JsonValue::Int(i) => i != 0,
        JsonValue::Float(t) => has_nonzero_digit(t@),
        JsonValue::String(s) => s@.len() > 0,
        JsonValue::Array(items) => items@.len() > 0,
        JsonValue::Object(members) => members@.len() > 0,
    }
}

/// How an attribute value corresponds to a JSON value: variant for variant,
/// with `Empty` standing for null and for the empty object.
pub open spec fn attr_json(a: GrowthBookAttributeValue, j: JsonValue) -> bool
    decreases a,
{
    match (a, j) {
        (GrowthBookAttributeValue::Empty, JsonValue::Null) => true,
        (GrowthBookAttributeValue::Empty, JsonValue::Object(ms)) => ms@.len() == 0,
        (GrowthBookAttributeValue::String(x), JsonValue::String(y)) => x@ == y@,
        (GrowthBookAttributeValue::Int(x), JsonValue::Int(y)) => x == y,
        (GrowthBookAttributeValue::Float(x), JsonValue::Float(y)) => x@ == y@,
        (GrowthBookAttributeValue::Bool(x), JsonValue::Bool(y)) => x == y,
        (GrowthBookAttributeValue::Array(xs), JsonValue::Array(ys)) => xs@.len() == ys@.len() && attr_json_items(xs@, ys@, xs@.len() as int),
        (GrowthBookAttributeValue::Object(es), JsonValue::Object(ms)) => es@.len() == ms@.len() && attr_json_members(es@, ms@, es@.len() as int),
        _ => false,
    }
}

/// No object anywhere in `a` is empty: an empty JSON object reads as
/// `Empty`.
pub open spec fn no_empty_object(a: GrowthBookAttributeValue) -> bool
    decreases a,
{
    match a {
        GrowthBookAttributeValue::Array(xs) => no_empty_items(xs@, xs@.len() as int),
        GrowthBookAttributeValue::Object(es) => es@.len() > 0 && no_empty_entries(es@, es@.len() as int),
        _ => true,
    }
}

pub open spec fn no_empty_items(xs: Seq<GrowthBookAttributeValue>, n: int) -> bool
    decreases xs, n,
{
    if n <= 0 || n > xs.len() { true } else { no_empty_items(xs, n - 1) && no_empty_object(xs[n - 1]) }
}

pub open spec fn no_empty_entries(es: Seq<GrowthBookAttribute>, n: int) -> bool
    decreases es, n,
{
    if n <= 0 || n > es.len() { true } else { no_empty_entries(es, n - 1) && no_empty_object(es[n - 1].value) }
}

proof fn lemma_no_empty_items_prefix(a: Seq<GrowthBookAttributeValue>, b: Seq<GrowthBookAttributeValue>, n: int)
    requires
        0 <= n <= a.len(),
        n <= b.len(),
        forall|k: int| 0 <= k < n ==> a[k] == b[k],
        no_empty_items(a, n),
    ensures
        no_empty_items(b, n),
    decreases n,
{
    if n > 0 {
        lemma_no_empty_items_prefix(a, b, n - 1);
    }
}

proof fn lemma_no_empty_entries_prefix(a: Seq<GrowthBookAttribute>, b: Seq<GrowthBookAttribute>, n: int)
    requires
        0 <= n <= a.len(),
        n <= b.len(),
        forall|k: int| 0 <= k < n ==> a[k] == b[k],
        no_empty_entries(a, n),
    ensures
        no_empty_entries(b, n),
    decreases n,
{
    if n > 0 {
        lemma_no_empty_entries_prefix(a, b, n - 1);
    }
}

/// The JSON value of an attribute value: variant for variant, with
/// `Empty` as null.
pub open spec fn json_of(a: GrowthBookAttributeValue, j: JsonValue) -> bool
    decreases a,
{
    match (a, j) {
        (GrowthBookAttributeValue::Empty, JsonValue::Null) => true,
        (GrowthBookAttributeValue::String(x), JsonValue::String(y)) => x@ == y@,
        (GrowthBookAttributeValue::Int(x), JsonValue::Int(y)) => x == y,
        (GrowthBookAttributeValue::Float(x), JsonValue::Float(y)) => x@ == y@,
        (GrowthBookAttributeValue::Bool(x), JsonValue::Bool(y)) => x == y,
        (GrowthBookAttributeValue::Array(xs), JsonValue::Array(ys)) => xs@.len() == ys@.len() && json_of_items(xs@, ys@, xs@.len() as int),
        (GrowthBookAttributeValue::Object(es), JsonValue::Object(ms)) => es@.len() == ms@.len() && json_of_members(es@, ms@, es@.len() as int),
        _ => false,
    }
}

pub open spec fn json_of_items(xs: Seq<GrowthBookAttributeValue>, ys: Seq<JsonValue>, n: int) -> bool
    decreases xs, n,
{
    if n <= 0 || n > xs.len() || n > ys.len() { n <= 0 } else { json_of_items(xs, ys, n - 1) && json_of(xs[n - 1], ys[n - 1]) }
}

pub open spec fn json_of_members(es: Seq<GrowthBookAttribute>, ms: Seq<JsonMember>, n: int) -> bool
    decreases es, n,
{
    if n <= 0 || n > es.len() || n > ms.len() {
        n <= 0
    } else {
        json_of_members(es, ms, n - 1) && es[n - 1].key@ == ms[n - 1].key@ && json_of(es[n - 1].value, ms[n - 1].value)
    }
}

proof fn lemma_json_of_items_prefix(xs: Seq<GrowthBookAttributeValue>, a: Seq<JsonValue>, b: Seq<JsonValue>, n: int)
    requires
        0 <= n <= a.len(),
        n <= b.len(),
        forall|k: int| 0 <= k < n ==> a[k] == b[k],
        json_of_items(xs, a, n),
    ensures
        json_of_items(xs, b, n),
    decreases n,
{
    if n > 0 {
        lemma_json_of_items_prefix(xs, a, b, n - 1);
    }
}

proof fn lemma_json_of_members_prefix(es: Seq<GrowthBookAttribute>, a: Seq<JsonMember>, b: Seq<JsonMember>, n: int)
    requires
        0 <= n <= a.len(),
        n <= b.len(),
        forall|k: int| 0 <= k < n ==> a[k] == b[k],
        json_of_members(es, a, n),
    ensures
        json_of_members(es, b, n),
    decreases n,
{
    if n > 0 {
        lemma_json_of_members_prefix(es, a, b, n - 1);
    }
}

pub open spec fn attr_json_items(xs: Seq<GrowthBookAttributeValue>, ys: Seq<JsonValue>, n: int) -> bool
    decreases xs, n,
{
    if n <= 0 || n > xs.len() || n > ys.len() { n <= 0 } else { attr_json_items(xs, ys, n - 1) && attr_json(xs[n - 1], ys[n - 1]) }
}

pub open spec fn attr_json_members(es: Seq<GrowthBookAttribute>, ms: Seq<JsonMember>, n: int) -> bool
    decreases es, n,
{
    if n <= 0 || n > es.len() || n > ms.len() {
        n <= 0
    } else {
        attr_json_members(es, ms, n - 1) && es[n - 1].key@ == ms[n - 1].key@ && attr_json(es[n - 1].value, ms[n - 1].value)
    }
}

impl JsonValue {
    /// A structurally equal copy.
    pub fn copy(&self) -> (r: JsonValue)
        ensures
            same_json(r, *self),
        decreases self,
    {
        match self {
            JsonValue::Null => JsonValue::Null,
            JsonValue::Bool(b) => JsonValue::Bool(*b),
            JsonValue::Int(i) => JsonValue::Int(*i),
            JsonValue::Float(t) => JsonValue::Float(t.clone()),
            JsonValue::String(s) => JsonValue::String(s.clone()),
            JsonValue::Array(items) => {
                let mut out: Vec<JsonValue> = Vec::new();
                let mut i: usize = 0;
                while i < items.len()
                    invariant
                        *self == JsonValue::Array(*items),
                        i <= items@.len(),
                        out@.len() == i,
                        same_json_items(out@, items@, i as int),
                    decreases items@.len() - i,
                {
                    proof {
                        assert(decreases_to!(*self => (*self)->Array_0));
                        assert(decreases_to!(*items => items[i as int]));
                    }
                    let c = items[i].copy();
                    let ghost prev = out@;
                    out.push(c);
                    proof { lemma_same_json_items_extend(prev, items@, c, i as int); }
                    i = i + 1;
                }
                JsonValue::Array(out)
            },
            JsonValue::Object(members) => {
                let mut out: Vec<JsonMember> = Vec::new();
                let mut i: usize = 0;
                while i < members.len()
                    invariant
                        *self == JsonValue::Object(*members),
                        i <= members@.len(),
                        out@.len() == i,
                        same_json_members(out@, members@, i as int),
                    decreases members@.len() - i,
                {
                    proof {
                        assert(decreases_to!(*self => (*self)->Object_0));
                        assert(decreases_to!(*members => members[i as int]));
                        assert(decreases_to!(members[i as int] => members[i as int].value));
                    }
                    let v = members[i].value.copy();
                    let m = JsonMember { key: members[i].key.clone(), value: v };
                    let ghost prev = out@;
                    out.push(m);
                    proof { lemma_same_json_members_extend(prev, members@, m, i as int); }
                    i = i + 1;
                }
                JsonValue::Object(out)
            },
        }
    }

    /// Truthiness, as `truthy` states.
    pub fn is_truthy(&self) -> (r: bool)
        ensures
            r == truthy(*self),
    {
        match self {
            JsonValue::Null => false,
            JsonValue::Bool(b) => *b,
            JsonValue::Int(i) => *i != 0,
            JsonValue::Float(t) => {
                let s = t.as_str();
                let n = s.unicode_len();
                let mut i: usize = 0;
                while i < n
                    invariant
                        *self == JsonValue::Float(*t),
                        n == t@.len(),
                        s@ == t@,
                        i <= n,
                        forall|j: int| 0 <= j < i ==> !('1' <= #[trigger] t@[j] <= '9'),
                    decreases n - i,
                {
                    let c = s.get_char(i);
                    if '1' <= c && c <= '9' {
                        assert('1' <= t@[i as int] <= '9');
                        return true;
                    }
                    i = i + 1;
                }
                false
            },
            JsonValue::String(s) => s.as_str().unicode_len() > 0,
            JsonValue::Array(items) => items.len() > 0,
            JsonValue::Object(members) => members.len() > 0,
        }
    }
}

proof fn lemma_same_json_items_extend(prev: Seq<JsonValue>, items: Seq<JsonValue>, c: JsonValue, i: int)
    requires
        0 <= i < items.len(),
        prev.len() == i,
        same_json_items(prev, items, i),
        same_json(c, items[i]),
    ensures
        same_json_items(prev.push(c), items, i + 1),
    decreases i,
{
    lemma_same_json_items_prefix(prev, prev.push(c), items, i);
}

proof fn lemma_same_json_items_prefix(a: Seq<JsonValue>, b: Seq<JsonValue>, items: Seq<JsonValue>, n: int)
    requires
        0 <= n <= a.len(),
        n <= b.len(),
        forall|k: int| 0 <= k < n ==> a[k] == b[k],
        same_json_items(a, items, n),
    ensures
        same_json_items(b, items, n),
    decreases n,
{
    if n > 0 {
        lemma_same_json_items_prefix(a, b, items, n - 1);
    }
}

proof fn lemma_same_json_members_extend(prev: Seq<JsonMember>, members: Seq<JsonMember>, m: JsonMember, i: int)
    requires
        0 <= i < members.len(),
        prev.len() == i,
        same_json_members(prev, members, i),
        m.key@ == members[i].key@,
        same_json(m.value, members[i].value),
    ensures
        same_json_members(prev.push(m), members, i + 1),
    decreases i,
{
    lemma_same_json_members_prefix(prev, prev.push(m), members, i);
}

proof fn lemma_same_json_members_prefix(a: Seq<JsonMember>, b: Seq<JsonMember>, members: Seq<JsonMember>, n: int)
    requires
        0 <= n <= a.len(),
        n <= b.len(),
        forall|k: int| 0 <= k < n ==> a[k] == b[k],
        same_json_members(a, members, n),
    ensures
        same_json_members(b, members, n),
    decreases n,
{
    if n > 0 {
        lemma_same_json_members_prefix(a, b, members, n - 1);
    }
}

proof fn lemma_attr_json_items_extend(prev: Seq<GrowthBookAttributeValue>, ys: Seq<JsonValue>, c: GrowthBookAttributeValue, i: int)
    requires
        0 <= i < ys.len(),
        prev.len() == i,
        attr_json_items(prev, ys, i),
        attr_json(c, ys[i]),
    ensures
        attr_json_items(prev.push(c), ys, i + 1),
{
    lemma_attr_json_items_prefix(prev, prev.push(c), ys, i);
}

proof fn lemma_attr_json_items_prefix(a: Seq<GrowthBookAttributeValue>, b: Seq<GrowthBookAttributeValue>, ys: Seq<JsonValue>, n: int)
    requires
        0 <= n <= a.len(),
        n <= b.len(),
        forall|k: int| 0 <= k < n ==> a[k] == b[k],
        attr_json_items(a, ys, n),
    ensures
        attr_json_items(b, ys, n),
    decreases n,
{
    if n > 0 {
        lemma_attr_json_items_prefix(a, b, ys, n - 1);
    }
}

proof fn lemma_attr_json_members_prefix(a: Seq<GrowthBookAttribute>, b: Seq<GrowthBookAttribute>, ms: Seq<JsonMember>, n: int)
    requires
        0 <= n <= a.len(),
        n <= b.len(),
        forall|k: int| 0 <= k < n ==> a[k] == b[k],
        attr_json_members(a, ms, n),
    ensures
        attr_json_members(b, ms, n),
    decreases n,
{
    if n > 0 {
        lemma_attr_json_members_prefix(a, b, ms, n - 1);
    }
}

impl GrowthBookAttributeValue {
    /// The attribute value of a JSON value; null and the empty object become
    /// `Empty`.
    pub fn from_json(j: &JsonValue) -> (r: GrowthBookAttributeValue)
        ensures
            attr_json(r, *j),
            no_empty_object(r),
        decreases j,
    {
        match j {
            JsonValue::Null => GrowthBookAttributeValue::Empty,
            JsonValue::Bool(b) => GrowthBookAttributeValue::Bool(*b),
            JsonValue::Int(i) => GrowthBookAttributeValue::Int(*i),
            JsonValue::Float(t) => GrowthBookAttributeValue::Float(t.clone()),
            JsonValue::String(s) => GrowthBookAttributeValue::String(s.clone()),
            JsonValue::Array(items) => {
                let mut out: Vec<GrowthBookAttributeValue> = Vec::new();
                let mut i: usize = 0;
                while i < items.len()
                    invariant
                        *j == JsonValue::Array(*items),
                        i <= items@.len(),
                        out@.len() == i,
                        attr_json_items(out@, items@, i as int),
                        no_empty_items(out@, i as int),
                    decreases items@.len() - i,
                {
                    proof {
                        assert(decreases_to!(*j => (*j)->Array_0));
                        assert(decreases_to!(*items => items[i as int]));
                    }
                    let c = GrowthBookAttributeValue::from_json(&items[i]);
                    let ghost prev = out@;
                    out.push(c);
                    proof {
                        lemma_attr_json_items_extend(prev, items@, c, i as int);
                        lemma_no_empty_items_prefix(prev, out@, i as int);
                    }
                    i = i + 1;
                }
                GrowthBookAttributeValue::Array(out)
            },
            JsonValue::Object(members) => {
                if members.len() == 0 {
                    return GrowthBookAttributeValue::Empty;
                }
                let mut out: Vec<GrowthBookAttribute> = Vec::new();
                let mut i: usize = 0;
                while i < members.len()
                    invariant
                        *j == JsonValue::Object(*members),
                        i <= members@.len(),
                        out@.len() == i,
                        attr_json_members(out@, members@, i as int),
                        no_empty_entries(out@, i as int),
                    decreases members@.len() - i,
                {
                    proof {
                        assert(decreases_to!(*j => (*j)->Object_0));
                        assert(decreases_to!(*members => members[i as int]));
                        assert(decreases_to!(members[i as int] => members[i as int].value));
                    }
                    let v = GrowthBookAttributeValue::from_json(&members[i].value);
                    let e = GrowthBookAttribute { key: members[i].key.clone(), value: v };
                    let ghost prev = out@;
                    out.push(e);
                    proof {
                        lemma_attr_json_members_prefix(prev, out@, members@, i as int);
                        lemma_no_empty_entries_prefix(prev, out@, i as int);
                    }
                    i = i + 1;
                }
                GrowthBookAttributeValue::Object(out)
            },
        }
    }

    /// The JSON value of an attribute value; `Empty` becomes null.
    pub fn to_value(&self) -> (r: JsonValue)
        ensures
            json_of(*self, r),
        decreases self,
    {
        match self {
            GrowthBookAttributeValue::Empty => JsonValue::Null,
            GrowthBookAttributeValue::String(s) => JsonValue::String(s.clone()),
            GrowthBookAttributeValue::Int(i) => JsonValue::Int(*i),
            GrowthBookAttributeValue::Float(t) => JsonValue::Float(t.clone()),
            GrowthBookAttributeValue::Bool(b) => JsonValue::Bool(*b),
            GrowthBookAttributeValue::Array(items) => {
                let mut out: Vec<JsonValue> = Vec::new();
                let mut i: usize = 0;
                while i < items.len()
                    invariant
                        *self == GrowthBookAttributeValue::Array(*items),
                        i <= items@.len(),
                        out@.len() == i,
                        json_of_items(items@, out@, i as int),
                    decreases items@.len() - i,
                {
                    proof {
                        assert(decreases_to!(*self => (*self)->Array_0));
                        assert(decreases_to!(*items => items[i as int]));
                    }
                    let c = items[i].to_value();
                    let ghost prev = out@;
                    out.push(c);
                    proof { lemma_json_of_items_prefix(items@, prev, out@, i as int); }
                    i = i + 1;
                }
                JsonValue::Array(out)
            },
            GrowthBookAttributeValue::Object(entries) => {
                let mut out: Vec<JsonMember> = Vec::new();
                let mut i: usize = 0;
                while i < entries.len()
                    invariant
                        *self == GrowthBookAttributeValue::Object(*entries),
                        i <= entries@.len(),
                        out@.len() == i,
                        json_of_members(entries@, out@, i as int),
                    decreases entries@.len() - i,
                {
                    proof {
                        assert(decreases_to!(*self => (*self)->Object_0));
                        assert(decreases_to!(*entries => entries[i as int]));
                        assert(decreases_to!(entries[i as int] => entries[i as int].value));
                    }
                    let v = entries[i].value.to_value();
                    let m = JsonMember { key: entries[i].key.clone(), value: v };
                    let ghost prev = out@;
                    out.push(m);
                    proof { lemma_json_of_members_prefix(entries@, prev, out@, i as int); }
                    i = i + 1;
                }
                JsonValue::Object(out)
            },
        }
    }
}

impl GrowthBookAttribute {
    /// The attribute tree of a JSON object, one entry per member in order;
    /// any other JSON value is refused.
    pub fn from(value: &JsonValue) -> (r: Result<Vec<GrowthBookAttribute>, GrowthbookError>)
        ensures
            match value {
                JsonValue::Object(members) => r matches Ok(attrs) && attrs@.len() == members@.len()
                    && attr_json_members(attrs@, members@, attrs@.len() as int)
                    && no_empty_entries(attrs@, attrs@.len() as int),
                _ => r matches Err(e) && e.code == GrowthbookErrorCode::GrowthBookAttributeIsNotObject,
            },
    {
        match value {
            JsonValue::Object(members) => {
                let mut out: Vec<GrowthBookAttribute> = Vec::new();
                let mut i: usize = 0;
                while i < members.len()
                    invariant
                        i <= members@.len(),
                        out@.len() == i,
                        attr_json_members(out@, members@, i as int),
                        no_empty_entries(out@, i as int),
                    decreases members@.len() - i,
                {
                    let v = GrowthBookAttributeValue::from_json(&members[i].value);
                    let e = GrowthBookAttribute { key: members[i].key.clone(), value: v };
                    let ghost prev = out@;
                    out.push(e);
                    proof {
                        lemma_attr_json_members_prefix(prev, out@, members@, i as int);
                        lemma_no_empty_entries_prefix(prev, out@, i as int);
                    }
                    i = i + 1;
                }
                Ok(out)
            },
            _ => Err(GrowthbookError::new(
                GrowthbookErrorCode::GrowthBookAttributeIsNotObject,
                "GrowthBookAttribute must be an object with at leat one key value pair",
            )),
        }
    }
}

/// The record of an experiment rule that produced a result.
#[derive(Debug)]
pub struct Experiment {
    pub name: Option<String>,
    pub seed: Option<String>,
    pub hash_version: Option<i64>,
    pub hash_attribute: Option<String>,
    pub namespace: Option<NamespaceRange>,
    pub coverage: Option<u64>,
    pub ranges: Option<Vec<Range>>,
    pub meta: Option<Vec<VariationMeta>>,
    pub filters: Option<Vec<FilterRule>>,
    pub variations: Vec<JsonValue>,
    pub weights: Option<Vec<u64>>,
    pub condition: Option<JsonValue>,
}

/// How an experiment assigned its variation.
#[derive(Debug)]
pub struct ExperimentResult {
    pub feature_id: String,
    pub value: JsonValue,
    pub variation_id: i64,
    pub in_experiment: bool,
    pub hash_used: bool,
    pub hash_attribute: Option<String>,
    pub hash_value: Option<JsonValue>,
    pub bucket: Option<u64>,
    pub key: String,
    pub sticky_bucket_used: bool,
}

/// The outcome of evaluating a feature: its value, whether it is on, the
/// experiment that decided it if any, and which kind of rule decided it.
#[derive(Debug)]
pub struct FeatureResult {
    pub value: JsonValue,
    pub on: bool,
    pub off: bool,
    pub experiment: Option<Experiment>,
    pub experiment_result: Option<ExperimentResult>,
    pub source: String,
}

/// A result whose `on` follows the truthiness of its value and whose `off`
/// is its negation.
pub open spec fn derived_on(r: FeatureResult) -> bool {
    r.on == truthy(r.value) && r.off == !r.on
}

/// An off result with a null value and the given source.
pub open spec fn off_with_source(r: FeatureResult, source: Seq<char>) -> bool {
    r.value is Null && !r.on && r.off && r.experiment is None && r.experiment_result is None && r.source@ == source
}

impl FeatureResult {
    pub fn new(value: JsonValue, on: bool, source: String) -> (r: Self)
        ensures
            r.value == value,
            r.on == on,
            r.off == !on,
            r.source == source,
            r.experiment is None,
            r.experiment_result is None,
    {
        FeatureResult { value, on, off: !on, experiment: None, experiment_result: None, source }
    }

    /// A result decided by a force or rollout rule.
    pub fn force(value: JsonValue) -> (r: Self)
        ensures
            r.value == value,
            derived_on(r),
            r.source@ == "force"@,
            r.experiment is None,
            r.experiment_result is None,
    {
        let on = value.is_truthy();
        FeatureResult { value, on, off: !on, experiment: None, experiment_result: None, source: String::from_str("force") }
    }

    /// A result decided by an experiment rule.
    pub fn experiment(value: JsonValue, experiment: Experiment, experiment_result: ExperimentResult) -> (r: Self)
        ensures
            r.value == value,
            derived_on(r),
            r.source@ == "experiment"@,
            r.experiment == Some(experiment),
            r.experiment_result == Some(experiment_result),
    {
        let on = value.is_truthy();
        FeatureResult {
            value,
            on,
            off: !on,
            experiment: Some(experiment),
            experiment_result: Some(experiment_result),
            source: String::from_str("experiment"),
        }
    }

    /// A result that falls back to the feature's default value (null when it
    /// has none).
    pub fn from_default_value(option_value: Option<JsonValue>) -> (r: Self)
        ensures
            match option_value {
                Some(v) => r.value == v,
                None => r.value is Null,
            },
            derived_on(r),
            r.source@ == "defaultValue"@,
            r.experiment is None,
            r.experiment_result is None,
    {
        let value = match option_value {
            Some(v) => v,
            None => JsonValue::Null,
        };
        let on = value.is_truthy();
        FeatureResult { value, on, off: !on, experiment: None, experiment_result: None, source: String::from_str("defaultValue") }
    }

    /// The result of a prerequisite that was not met.
    pub fn prerequisite() -> (r: Self)
        ensures
            off_with_source(r, "prerequisite"@),
    {
        FeatureResult { value: JsonValue::Null, on: false, off: true, experiment: None, experiment_result: None, source: String::from_str("prerequisite") }
    }

    /// The result of a prerequisite chain that comes back to itself.
    pub fn cyclic_prerequisite() -> (r: Self)
        ensures
            off_with_source(r, "cyclicPrerequisite"@),
    {
        FeatureResult {
            value: JsonValue::Null,
            on: false,
            off: true,
            experiment: None,
            experiment_result: None,
            source: String::from_str("cyclicPrerequisite"),
        }
    }

    /// The result for a feature that the table does not hold.
    pub fn unknown_feature() -> (r: Self)
        ensures
            off_with_source(r, "unknownFeature"@),
    {
        FeatureResult { value: JsonValue::Null, on: false, off: true, experiment: None, experiment_result: None, source: String::from_str("unknownFeature") }
    }
}

} // verus!
