//! The coverage check shared by force and rollout rules.
use vstd::prelude::*;
use crate::attribute::{text_of, GrowthBookAttributeValue};
use crate::hash::{hash_spec, version_of_option, HashCode, HashCodeVersion};
use crate::model::{derived_on, same_json, FeatureResult, JsonValue};
use crate::range::{in_range_spec, Range};

verus! {

/// Whether the subject whose value is `v` is let through: its hash under
/// `seed` lies in the range when there is one, else below the coverage;
/// with neither, or with an invalid hash version, it is not.
pub open spec fn coverage_admits(v: GrowthBookAttributeValue, coverage: Option<u64>, range: Option<Range>, seed: Seq<char>, hash_version: Option<i64>) -> bool {
    match hash_spec(text_of(v), seed, version_of_option(hash_version)) {
        None => false,
        Some(h) => match range {
            Some(r) => in_range_spec(r, h),
            None => match coverage {
                Some(c) => h < c,
                None => false,
            },
        },
    }
}

pub struct Coverage;

impl Coverage {
    /// The forced value when the subject is let through, as
    /// `coverage_admits` states.
    pub fn check(
        value: &GrowthBookAttributeValue,
        option_coverage: Option<u64>,
        option_range: Option<Range>,
        feature_name: &str,
        hash_version: Option<i64>,
        force_value: &JsonValue,
    ) -> (r: Option<FeatureResult>)
        ensures
            r.is_some() == coverage_admits(*value, option_coverage, option_range, feature_name@, hash_version),
            r matches Some(res) ==> same_json(res.value, *force_value) && derived_on(res) && res.source@ == "force"@ && res.experiment_result is None && res.experiment is None,
    {
        let text = value.to_text();
        match HashCode::hash_code(text.as_str(), feature_name, HashCodeVersion::from_option(hash_version)) {
            Some(user_weight) => {
                let admitted = match option_range {
                    Some(range) => range.in_range(&user_weight),
                    None => match option_coverage {
                        Some(coverage) => user_weight < coverage,
                        None => false,
                    },
                };
                if admitted {
                    Some(FeatureResult::force(force_value.copy()))
                } else {
                    None
                }
            },
            None => None,
        }
    }
}

} // verus!
