//! Caller-supplied attributes: an immutable tree of keyed values, its text
//! rendering, structural equality and the dotted-path lookup.
use vstd::prelude::*;
use crate::number::{read_stripped_integer, stripped_integer, decimal_wf, Decimal};
use crate::pattern::{contains_digit, has_regex_digit};
use crate::text::{int_text, push_int_text, slice_eq, str_eq};

verus! {

/// One keyed entry of an attribute tree.
#[derive(Debug)]
pub struct GrowthBookAttribute {
    pub key: String,
    pub value: GrowthBookAttributeValue,
}

/// A value of an attribute tree. A non-integral JSON number is held as the
/// decimal text of that number (`"1.5"`), since the evaluator never needs
/// more than its digits.
#[derive(Debug)]
pub enum GrowthBookAttributeValue {
    Empty,
    String(String),
    Int(i64),
    Float(String),
    Bool(bool),
    Array(Vec<GrowthBookAttributeValue>),
    Object(Vec<GrowthBookAttribute>),
}

/// The text of a value: strings as they are, numbers in decimal, booleans as
/// `true`/`false`, nothing for `Empty`, and the texts of the elements (or of
/// the entries' values) run together for arrays and objects.
pub open spec fn text_of(v: GrowthBookAttributeValue) -> Seq<char>
    decreases v,
{
    match v {
        GrowthBookAttributeValue::Empty => Seq::empty(),
        GrowthBookAttributeValue::String(s) => s@,
        GrowthBookAttributeValue::Int(i) => int_text(i as int),
        GrowthBookAttributeValue::Float(t) => t@,
        GrowthBookAttributeValue::Bool(b) => if b { seq!['t', 'r', 'u', 'e'] } else { seq!['f', 'a', 'l', 's', 'e'] },
        GrowthBookAttributeValue::Array(items) => texts_of(items@, items@.len() as int),
        GrowthBookAttributeValue::Object(entries) => entry_texts_of(entries@, entries@.len() as int),
    }
}

/// The texts of the first `n` values, run together.
pub open spec fn texts_of(items: Seq<GrowthBookAttributeValue>, n: int) -> Seq<char>
    decreases items, n,
{
    if n <= 0 || n > items.len() { Seq::empty() } else { texts_of(items, n - 1) + text_of(items[n - 1]) }
}

/// The texts of the values of the first `n` entries, run together.
pub open spec fn entry_texts_of(entries: Seq<GrowthBookAttribute>, n: int) -> Seq<char>
    decreases entries, n,
{
    if n <= 0 || n > entries.len() { Seq::empty() } else { entry_texts_of(entries, n - 1) + text_of(entries[n - 1].value) }
}

/// Structural equality of two values: same variant, same characters, same
/// number, and elements (or entries, keys included) equal in order.
pub open spec fn same_value(a: GrowthBookAttributeValue, b: GrowthBookAttributeValue) -> bool
    decreases a,
{
    match (a, b) {
        (GrowthBookAttributeValue::Empty, GrowthBookAttributeValue::Empty) => true,
        (GrowthBookAttributeValue::String(x), GrowthBookAttributeValue::String(y)) => x@ == y@,
        (GrowthBookAttributeValue::Int(x), GrowthBookAttributeValue::Int(y)) => x == y,
        (GrowthBookAttributeValue::Float(x), GrowthBookAttributeValue::Float(y)) => x@ == y@,
        (GrowthBookAttributeValue::Bool(x), GrowthBookAttributeValue::Bool(y)) => x == y,
        (GrowthBookAttributeValue::Array(x), GrowthBookAttributeValue::Array(y)) =>
            x@.len() == y@.len() && same_values(x@, y@, x@.len() as int),
        (GrowthBookAttributeValue::Object(x), GrowthBookAttributeValue::Object(y)) =>
            x@.len() == y@.len() && same_entries(x@, y@, x@.len() as int),
        _ => false,
    }
}

/// The first `n` values of `x` and `y` are pairwise equal.
pub open spec fn same_values(x: Seq<GrowthBookAttributeValue>, y: Seq<GrowthBookAttributeValue>, n: int) -> bool
    decreases x, n,
{
    if n <= 0 || n > x.len() || n > y.len() { n <= 0 } else { same_values(x, y, n - 1) && same_value(x[n - 1], y[n - 1]) }
}

/// The first `n` entries of `x` and `y` have equal keys and equal values.
pub open spec fn same_entries(x: Seq<GrowthBookAttribute>, y: Seq<GrowthBookAttribute>, n: int) -> bool
    decreases x, n,
{
    if n <= 0 || n > x.len() || n > y.len() {
        n <= 0
    } else {
        same_entries(x, y, n - 1) && x[n - 1].key@ == y[n - 1].key@ && same_value(x[n - 1].value, y[n - 1].value)
    }
}

/// End of the key segment that starts at `start`: the next `.` or the end.
pub open spec fn segment_end(key: Seq<char>, start: int) -> int
    recommends
        0 <= start <= key.len(),
    decreases key.len() - start,
{
    if start >= key.len() || key[start] == '.' { start } else { segment_end(key, start + 1) }
}

/// Index of the first entry whose key is `seg`, if any.
pub open spec fn first_with_key(attrs: Seq<GrowthBookAttribute>, seg: Seq<char>) -> Option<int> {
    if exists|i: int| 0 <= i < attrs.len() && attrs[i].key@ == seg {
        let i = choose|i: int| 0 <= i < attrs.len() && attrs[i].key@ == seg
            && forall|j: int| 0 <= j < i ==> attrs[j].key@ != seg;
        Some(i)
    } else {
        None
    }
}

/// Dotted-path lookup from the segment that starts at `start`. The first
/// entry whose key is the segment is taken; with segments left, an object is
/// entered, an `Empty` ends the lookup with nothing, and any other value is
/// the result.
pub open spec fn find_from(attrs: Seq<GrowthBookAttribute>, key: Seq<char>, start: int) -> Option<GrowthBookAttributeValue>
    decreases key.len() - start
    via find_from_decreases

{
    if start < 0 || start > key.len() {
        None
    } else {
        let end = segment_end(key, start);
        match first_with_key(attrs, key.subrange(start, end)) {
            None => None,
            Some(i) => {
                if end < key.len() {
                    match attrs[i].value {
                        GrowthBookAttributeValue::Object(children) => find_from(children@, key, end + 1),
                        GrowthBookAttributeValue::Empty => None,
                        other => Some(other),
                    }
                } else {
                    Some(attrs[i].value)
                }
            }
        }
    }
}

/// Lookup of a dotted key (`"a.b"`) in an attribute tree.
pub open spec fn find_attr(attrs: Seq<GrowthBookAttribute>, key: Seq<char>) -> Option<GrowthBookAttributeValue> {
    find_from(attrs, key, 0)
}

#[via_fn]
proof fn find_from_decreases(attrs: Seq<GrowthBookAttribute>, key: Seq<char>, start: int) {
    if 0 <= start <= key.len() {
        lemma_segment_end_bounds(key, start);
    }
}

proof fn lemma_same_values_at(x: Seq<GrowthBookAttributeValue>, y: Seq<GrowthBookAttributeValue>, n: int, i: int)
    requires
        0 <= i < n,
        same_values(x, y, n),
    ensures
        same_value(x[i], y[i]),
    decreases n,
{
    if i < n - 1 {
        lemma_same_values_at(x, y, n - 1, i);
    }
}

proof fn lemma_same_entries_at(x: Seq<GrowthBookAttribute>, y: Seq<GrowthBookAttribute>, n: int, i: int)
    requires
        0 <= i < n,
        same_entries(x, y, n),
    ensures
        x[i].key@ == y[i].key@ && same_value(x[i].value, y[i].value),
    decreases n,
{
    if i < n - 1 {
        lemma_same_entries_at(x, y, n - 1, i);
    }
}

proof fn lemma_first_with_key(attrs: Seq<GrowthBookAttribute>, seg: Seq<char>, i: int)
    requires
        0 <= i < attrs.len(),
        attrs[i].key@ == seg,
        forall|j: int| 0 <= j < i ==> attrs[j].key@ != seg,
    ensures
        first_with_key(attrs, seg) == Some(i),
{
    let k = choose|k: int| 0 <= k < attrs.len() && attrs[k].key@ == seg
        && forall|j: int| 0 <= j < k ==> attrs[j].key@ != seg;
    assert(k == i) by {
        if k < i {
            assert(attrs[k].key@ != seg);
        }
        if k > i {
            assert(attrs[i].key@ != seg);
        }
    }
}

proof fn lemma_segment_end_bounds(key: Seq<char>, start: int)
    requires
        0 <= start <= key.len(),
    ensures
        start <= segment_end(key, start) <= key.len(),
        segment_end(key, start) < key.len() ==> key[segment_end(key, start)] == '.',
        forall|j: int| start <= j < segment_end(key, start) ==> key[j] != '.',
    decreases key.len() - start,
{
    if start < key.len() && key[start] != '.' {
        lemma_segment_end_bounds(key, start + 1);
    }
}

fn find_segment_end(key: &str, start: usize) -> (r: usize)
    requires
        start <= key@.len(),
    ensures
        r as int == segment_end(key@, start as int),
{
    let n = key.unicode_len();
    let mut i = start;
    while i < n && key.get_char(i) != '.'
        invariant
            n == key@.len(),
            start <= i <= n,
            segment_end(key@, start as int) == segment_end(key@, i as int),
        decreases n - i,
    {
        i = i + 1;
    }
    i
}

fn find_from_exec<'a>(attrs: &'a [GrowthBookAttribute], key: &str, start: usize) -> (r: Option<&'a GrowthBookAttributeValue>)
    requires
        start <= key@.len(),
    ensures
        match r {
            Some(v) => find_from(attrs@, key@, start as int) == Some(*v),
            None => find_from(attrs@, key@, start as int) is None,
        },
    decreases key@.len() - start,
{
    let end = find_segment_end(key, start);
    proof { lemma_segment_end_bounds(key@, start as int); }
    let mut i: usize = 0;
    while i < attrs.len()
        invariant
            start <= end <= key@.len(),
            end == segment_end(key@, start as int),
            i <= attrs@.len(),
            forall|j: int| 0 <= j < i ==> attrs@[j].key@ != key@.subrange(start as int, end as int),
        decreases attrs@.len() - i,
    {
        if slice_eq(key, start, end, attrs[i].key.as_str()) {
            proof { lemma_first_with_key(attrs@, key@.subrange(start as int, end as int), i as int); }
            let n = key.unicode_len();
            if end < n {
                match &attrs[i].value {
                    GrowthBookAttributeValue::Object(children) => {
                        return find_from_exec(children.as_slice(), key, end + 1);
                    },
                    GrowthBookAttributeValue::Empty => {
                        return None;
                    },
                    other => {
                        return Some(other);
                    },
                }
            } else {
                return Some(&attrs[i].value);
            }
        }
        i = i + 1;
    }
    None
}

/// Looks up a dotted key (`"a.b.c"`) in an attribute tree; see `find_attr`.
pub fn find_value<'a>(attrs: &'a [GrowthBookAttribute], key: &str) -> (r: Option<&'a GrowthBookAttributeValue>)
    ensures
        match r {
            Some(v) => find_attr(attrs@, key@) == Some(*v),
            None => find_attr(attrs@, key@) is None,
        },
{
    find_from_exec(attrs, key, 0)
}

impl GrowthBookAttribute {
    pub fn new(key: String, value: GrowthBookAttributeValue) -> (r: Self)
        ensures
            r.key == key,
            r.value == value,
    {
        GrowthBookAttribute { key, value }
    }
}

impl GrowthBookAttributeValue {
    /// Appends the text of this value (`text_of`) to `s`.
    pub fn push_text(&self, s: &mut String)
        ensures
            final(s)@ == old(s)@ + text_of(*self),
        decreases self,
    {
        match self {
            GrowthBookAttributeValue::Empty => {
                assert(final(s)@ =~= old(s)@ + text_of(*self));
            },
            GrowthBookAttributeValue::String(t) => {
                s.append(t.as_str());
            },
            GrowthBookAttributeValue::Int(i) => {
                push_int_text(s, *i);
            },
            GrowthBookAttributeValue::Float(t) => {
                s.append(t.as_str());
            },
            GrowthBookAttributeValue::Bool(b) => {
                proof {
                    reveal_strlit("true");
                    reveal_strlit("false");
                }
                if *b {
                    s.append("true");
                } else {
                    s.append("false");
                }
            },
            GrowthBookAttributeValue::Array(items) => {
                let ghost s0 = s@;
                let mut i: usize = 0;
                while i < items.len()
                    invariant
                        *self == GrowthBookAttributeValue::Array(*items),
                        i <= items@.len(),
                        s@ == s0 + texts_of(items@, i as int),
                    decreases items@.len() - i,
                {
                    proof { assert(decreases_to!(*self => (*self)->Array_0)); assert(decreases_to!(*items => items[i as int])); assert(decreases_to!(*self => items[i as int])); }
                    items[i].push_text(s);
                    proof {
                        assert(texts_of(items@, i + 1) == texts_of(items@, i as int) + text_of(items@[i as int]));
                        assert(s@ =~= s0 + texts_of(items@, i + 1));
                    }
                    i = i + 1;
                }
            },
            GrowthBookAttributeValue::Object(entries) => {
                let ghost s0 = s@;
                let mut i: usize = 0;
                while i < entries.len()
                    invariant
                        *self == GrowthBookAttributeValue::Object(*entries),
                        i <= entries@.len(),
                        s@ == s0 + entry_texts_of(entries@, i as int),
                    decreases entries@.len() - i,
                {
                    proof {
                        assert(decreases_to!(*self => (*self)->Object_0));
                        assert(decreases_to!(*entries => entries[i as int]));
                        assert(decreases_to!(entries[i as int] => entries[i as int].value));
                        assert(decreases_to!(*self => entries[i as int].value));
                    }
                    entries[i].value.push_text(s);
                    proof {
                        assert(s@ =~= s0 + entry_texts_of(entries@, i + 1));
                    }
                    i = i + 1;
                }
            },
        }
    }

    /// The text of this value, as `text_of` states it.
    pub fn to_text(&self) -> (r: String)
        ensures
            r@ == text_of(*self),
    {
        let mut s = String::new();
        self.push_text(&mut s);
        assert(s@ =~= text_of(*self));
        s
    }

    /// Whether the text of this value holds a digit: such a value is
    /// compared as a number by the ordering operators.
    pub fn is_number(&self) -> (r: bool)
        ensures
            r == has_regex_digit(text_of(*self)),
    {
        let t = self.to_text();
        contains_digit(t.as_str())
    }

    /// The integer that the text of this value reads as once its dots are
    /// dropped (`1.5` reads as 15).
    pub fn as_number(&self) -> (r: Option<Decimal>)
        ensures
            r == stripped_integer(text_of(*self)),
            r matches Some(d) ==> decimal_wf(d),
    {
        let t = self.to_text();
        read_stripped_integer(t.as_str())
    }

    /// Structural equality, as `same_value` states it.
    pub fn equals(&self, other: &GrowthBookAttributeValue) -> (r: bool)
        ensures
            r == same_value(*self, *other),
        decreases self,
    {
        match (self, other) {
            (GrowthBookAttributeValue::Empty, GrowthBookAttributeValue::Empty) => true,
            (GrowthBookAttributeValue::String(x), GrowthBookAttributeValue::String(y)) => str_eq(x.as_str(), y.as_str()),
            (GrowthBookAttributeValue::Int(x), GrowthBookAttributeValue::Int(y)) => *x == *y,
            (GrowthBookAttributeValue::Float(x), GrowthBookAttributeValue::Float(y)) => str_eq(x.as_str(), y.as_str()),
            (GrowthBookAttributeValue::Bool(x), GrowthBookAttributeValue::Bool(y)) => *x == *y,
            (GrowthBookAttributeValue::Array(x), GrowthBookAttributeValue::Array(y)) => {
                if x.len() != y.len() {
                    return false;
                }
                let mut i: usize = 0;
                while i < x.len()
                    invariant
                        *self == GrowthBookAttributeValue::Array(*x),
                        *other == GrowthBookAttributeValue::Array(*y),
                        x@.len() == y@.len(),
                        i <= x@.len(),
                        same_values(x@, y@, i as int),
                    decreases x@.len() - i,
                {
                    proof {
                        assert(decreases_to!(*self => (*self)->Array_0));
                        assert(decreases_to!(*x => x[i as int]));
                        assert(decreases_to!(*self => x[i as int]));
                    }
                    if !x[i].equals(&y[i]) {
                        proof {
                            if same_values(x@, y@, x@.len() as int) {
                                lemma_same_values_at(x@, y@, x@.len() as int, i as int);
                            }
                        }
                        return false;
                    }
                    i = i + 1;
                }
                true
            },
            (GrowthBookAttributeValue::Object(x), GrowthBookAttributeValue::Object(y)) => {
                if x.len() != y.len() {
                    return false;
                }
                let mut i: usize = 0;
                while i < x.len()
                    invariant
                        *self == GrowthBookAttributeValue::Object(*x),
                        *other == GrowthBookAttributeValue::Object(*y),
                        x@.len() == y@.len(),
                        i <= x@.len(),
                        same_entries(x@, y@, i as int),
                    decreases x@.len() - i,
                {
                    proof {
                        assert(decreases_to!(*self => (*self)->Object_0));
                        assert(decreases_to!(*x => x[i as int]));
                        assert(decreases_to!(x[i as int] => x[i as int].value));
                        assert(decreases_to!(*self => x[i as int].value));
                    }
                    if !str_eq(x[i].key.as_str(), y[i].key.as_str()) || !x[i].value.equals(&y[i].value) {
                        proof {
                            if same_entries(x@, y@, x@.len() as int) {
                                lemma_same_entries_at(x@, y@, x@.len() as int, i as int);
                            }
                        }
                        return false;
                    }
                    i = i + 1;
                }
                true
            },
            _ => false,
        }
    }
}

} // verus!
