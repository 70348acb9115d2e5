//! Holdout filters: a subject passes when its hash lands in one of some
//! filter's ranges.
use vstd::prelude::*;
use crate::attribute::{find_attr, text_of, find_value, GrowthBookAttribute};
use crate::hash::{hash_spec, version_of, HashCode, HashCodeVersion};
use crate::range::{in_range_spec, Range};

verus! {

/// One traffic filter: a seed, a hash version and the admitted ranges.
#[derive(Clone, Debug)]
pub struct FilterRule {
    pub seed: String,
    pub hash_version: i64,
    pub ranges: Vec<Range>,
}

/// Some range holds `h`.
pub open spec fn some_range_holds(ranges: Seq<Range>, h: u64) -> bool {
    exists|i: int| 0 <= i < ranges.len() && in_range_spec(#[trigger] ranges[i], h)
}

/// Whether `filter` admits the subject whose hashed value has the text `t`.
pub open spec fn filter_admits(filter: FilterRule, t: Seq<char>) -> bool {
    match hash_spec(t, filter.seed@, version_of(filter.hash_version)) {
        Some(h) => some_range_holds(filter.ranges@, h),
        None => false,
    }
}

/// Some filter admits the subject whose hashed value has the text `t`.
pub open spec fn some_filter_admits(filters: Seq<FilterRule>, t: Seq<char>) -> bool {
    exists|i: int| 0 <= i < filters.len() && filter_admits(#[trigger] filters[i], t)
}

/// Whether the subject is filtered out: with no filters, always; without
/// the hash attribute (or without any attributes), always; otherwise unless
/// some filter admits it.
pub open spec fn filtered_out_spec(filters: Seq<FilterRule>, hash_attribute: Seq<char>, user: Option<Seq<GrowthBookAttribute>>) -> bool {
    if filters.len() == 0 {
        true
    } else {
        match user {
            None => true,
            Some(attrs) => match find_attr(attrs, hash_attribute) {
                None => true,
                Some(v) => !some_filter_admits(filters, text_of(v)),
            },
        }
    }
}

pub open spec fn attrs_view(o: Option<&Vec<GrowthBookAttribute>>) -> Option<Seq<GrowthBookAttribute>> {
    match o {
        Some(v) => Some(v@),
        None => None,
    }
}

fn admits(filter: &FilterRule, t: &str) -> (r: bool)
    ensures
        r == filter_admits(*filter, t@),
{
    let version = HashCodeVersion::from_i64(filter.hash_version);
    match HashCode::hash_code(t, filter.seed.as_str(), version) {
        Some(h) => {
            let mut i: usize = 0;
            while i < filter.ranges.len()
                invariant
                    hash_spec(t@, filter.seed@, version_of(filter.hash_version)) == Some(h),
                    i <= filter.ranges@.len(),
                    forall|j: int| 0 <= j < i ==> !in_range_spec(#[trigger] filter.ranges@[j], h),
                decreases filter.ranges@.len() - i,
            {
                if filter.ranges[i].in_range(&h) {
                    assert(in_range_spec(filter.ranges@[i as int], h));
                    return true;
                }
                i = i + 1;
            }
            false
        },
        None => false,
    }
}

pub struct Filter;

impl Filter {
    /// Whether the subject is filtered out, as `filtered_out_spec` states.
    pub fn is_filtered_out(filters: &Vec<FilterRule>, hash_attribute: &str, option_user_attributes: Option<&Vec<GrowthBookAttribute>>) -> (r: bool)
        ensures
            r == filtered_out_spec(filters@, hash_attribute@, attrs_view(option_user_attributes)),
    {
        if filters.len() == 0 {
            return true;
        }
        let user_attributes = match option_user_attributes {
            None => {
                return true;
            },
            Some(u) => u,
        };
        let user_value = match find_value(user_attributes.as_slice(), hash_attribute) {
            None => {
                return true;
            },
            Some(v) => v,
        };
        let t = user_value.to_text();
        let mut i: usize = 0;
        while i < filters.len()
            invariant
                t@ == text_of(*user_value),
                filters@.len() > 0,
                option_user_attributes == Some(user_attributes),
                find_attr(user_attributes@, hash_attribute@) == Some(*user_value),
                i <= filters@.len(),
                forall|j: int| 0 <= j < i ==> !filter_admits(#[trigger] filters@[j], t@),
            decreases filters@.len() - i,
        {
            if admits(&filters[i], t.as_str()) {
                assert(filter_admits(filters@[i as int], t@));
                return false;
            }
            i = i + 1;
        }
        true
    }
}

} // verus!
