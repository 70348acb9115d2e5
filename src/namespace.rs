//! Namespaces: named slices of the bucketing space that keep experiments
//! from sharing users.
use vstd::prelude::*;
use crate::attribute::{text_of, GrowthBookAttributeValue};
use crate::hash::{hash_v1_spec, HashCode, HashCodeVersion};
use crate::range::{in_range_spec, Range};

verus! {

/// The bucket position of a user value within a namespace.
pub open spec fn namespace_hash(user_value: GrowthBookAttributeValue, namespace: Seq<char>) -> u64 {
    hash_v1_spec(text_of(user_value) + "__"@, namespace)
}

pub struct Namespace;

impl Namespace {
    /// Whether the user value hashes, with `__` appended and version 1,
    /// into the namespace's range.
    pub fn is_in(user_value: &GrowthBookAttributeValue, namespace: &str, range: &Range) -> (r: bool)
        ensures
            r == in_range_spec(*range, namespace_hash(*user_value, namespace@)),
    {
        let mut input = user_value.to_text();
        input.append("__");
        match HashCode::hash_code(input.as_str(), namespace, HashCodeVersion::V1) {
            Some(h) => range.in_range(&h),
            None => false,
        }
    }
}

} // verus!
