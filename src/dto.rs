//! Feature definitions: features, their rules and the values they carry.
use vstd::prelude::*;
use crate::attribute::{GrowthBookAttribute, GrowthBookAttributeValue};
use crate::filter::FilterRule;
use crate::model::{attr_json, no_empty_object, JsonValue};
use crate::range::{bucket_ranges_spec, Range};

verus! {

/// A feature value together with the attribute tree `{"value": ...}` that a
/// dependent feature's prerequisite condition is matched against. Only
/// `new` builds one, so the tree always belongs to the value.
#[derive(Debug)]
pub struct FeatureValue {
    json: JsonValue,
    tree: Vec<GrowthBookAttribute>,
}

/// `tree` is the one-entry tree `{"value": v}` for the JSON value `v`.
pub open spec fn value_tree_of(tree: Seq<GrowthBookAttribute>, v: JsonValue) -> bool {
    tree.len() == 1 && tree[0].key@ == "value"@ && attr_json(tree[0].value, v) && no_empty_object(tree[0].value)
}

impl FeatureValue {
    pub fn new(json: JsonValue) -> (r: FeatureValue)
        ensures
            r.json_spec() == json,
            value_tree_of(r.tree_spec()@, r.json_spec()),
    {
        let value = GrowthBookAttributeValue::from_json(&json);
        let mut tree: Vec<GrowthBookAttribute> = Vec::new();
        tree.push(GrowthBookAttribute::new(String::from_str("value"), value));
        proof { reveal_strlit("value"); }
        FeatureValue { json, tree }
    }

    #[verifier::type_invariant]
    spec fn wf(&self) -> bool {
        value_tree_of(self.tree@, self.json)
    }

    /// The JSON value.
    pub closed spec fn json_spec(&self) -> JsonValue {
        self.json
    }

    /// The tree `{"value": ...}` of the value.
    pub closed spec fn tree_spec(&self) -> Vec<GrowthBookAttribute> {
        self.tree
    }

    pub fn json(&self) -> (r: &JsonValue)
        ensures
            *r == self.json_spec(),
    {
        &self.json
    }

    /// The tree `{"value": v}`, which belongs to the JSON value `v`.
    pub fn tree(&self) -> (r: &Vec<GrowthBookAttribute>)
        ensures
            *r == self.tree_spec(),
            value_tree_of(r@, self.json_spec()),
    {
        proof { use_type_invariant(self); }
        &self.tree
    }
}

/// A feature: a default value and an ordered chain of rules.
#[derive(Debug)]
pub struct GrowthBookFeature {
    pub default_value: Option<FeatureValue>,
    pub rules: Option<Vec<GrowthBookFeatureRule>>,
}

/// One rule of a feature's chain.
#[derive(Debug)]
pub enum GrowthBookFeatureRule {
    Experiment(GrowthBookFeatureRuleExperiment),
    Rollout(GrowthBookFeatureRuleRollout),
    Force(GrowthBookFeatureRuleForce),
    Parent(GrowthBookFeatureRuleParent),
    Empty,
}

/// A rule that forces a value, optionally behind a condition, filters and a
/// range of the bucketing space.
#[derive(Debug)]
pub struct GrowthBookFeatureRuleForce {
    pub force: FeatureValue,
    pub coverage: Option<u64>,
    pub range: Option<Vec<u64>>,
    pub hash_version: Option<i64>,
    pub filters: Option<Vec<FilterRule>>,
    pub seed: Option<String>,
    pub condition: Option<Vec<GrowthBookAttribute>>,
}

/// A prerequisite gate: every listed feature must resolve to a value that
/// meets its condition.
#[derive(Debug)]
pub struct GrowthBookFeatureRuleParent {
    pub parent_conditions: Vec<GrowthBookFeatureRuleParentData>,
}

#[derive(Debug)]
pub struct GrowthBookFeatureRuleParentData {
    pub id: String,
    pub condition: Option<Vec<GrowthBookAttribute>>,
    pub gate: bool,
}

/// A percentage rollout of a forced value.
#[derive(Debug)]
pub struct GrowthBookFeatureRuleRollout {
    pub force: FeatureValue,
    pub coverage: u64,
    pub range: Option<Vec<u64>>,
    pub condition: Option<Vec<GrowthBookAttribute>>,
    pub hash_attribute: Option<String>,
    pub fallback_attribute: Option<String>,
    pub hash_version: Option<i64>,
}

/// An override that pins a feature's experiment to one variation.
#[derive(Clone, Debug)]
pub struct ForcedVariation {
    pub feature: String,
    pub variation: i64,
}

/// A named slice of the bucketing space.
#[derive(Clone, Debug)]
pub struct NamespaceRange {
    pub id: String,
    pub range: Range,
}

/// Per-variation metadata of an experiment.
#[derive(Clone, Debug)]
pub struct VariationMeta {
    pub key: Option<String>,
    pub passthrough: bool,
}

/// An experiment that assigns one of its variations by hashing.
#[derive(Debug)]
pub struct GrowthBookFeatureRuleExperiment {
    pub key: Option<String>,
    pub variations: Vec<FeatureValue>,
    pub name: Option<String>,
    pub coverage: Option<u64>,
    pub seed: Option<String>,
    pub hash_version: Option<i64>,
    pub hash_attribute: Option<String>,
    pub fallback_attribute: Option<String>,
    pub weights: Option<Vec<u64>>,
    pub namespace: Option<NamespaceRange>,
    pub ranges: Option<Vec<Range>>,
    pub meta: Option<Vec<VariationMeta>>,
    pub filters: Option<Vec<FilterRule>>,
    pub condition: Option<JsonValue>,
}

/// The seed of an experiment: its own, else its key, else the feature name.
pub open spec fn seed_spec(e: GrowthBookFeatureRuleExperiment, feature_name: Seq<char>) -> Seq<char> {
    match e.seed {
        Some(s) => s@,
        None => match e.key {
            Some(k) => k@,
            None => feature_name,
        },
    }
}

/// The attribute an experiment or rollout falls back to: its own, else `id`.
pub open spec fn fallback_spec(fallback: Option<String>) -> Seq<char> {
    match fallback {
        Some(f) => f@,
        None => "id"@,
    }
}

/// The variation ranges of an experiment: the explicit ones, else the
/// weighted partition.
pub open spec fn ranges_spec(e: GrowthBookFeatureRuleExperiment) -> Seq<Range> {
    match e.ranges {
        Some(rs) => rs@,
        None => bucket_ranges_spec(e.variations@.len() as i64, e.coverage, e.weights),
    }
}

pub(crate) fn fallback_or_id(fallback: &Option<String>) -> (r: String)
    ensures
        r@ == fallback_spec(*fallback),
{
    match fallback {
        Some(f) => f.clone(),
        None => {
            proof { reveal_strlit("id"); }
            String::from_str("id")
        },
    }
}

impl GrowthBookFeatureRuleRollout {
    pub fn get_fallback_attribute(&self) -> (r: String)
        ensures
            r@ == fallback_spec(self.fallback_attribute),
    {
        fallback_or_id(&self.fallback_attribute)
    }

    pub fn range(&self) -> (r: Option<Range>)
        ensures
            r == crate::range::range_of(self.range),
    {
        Range::get_range(self.range.clone())
    }
}

impl GrowthBookFeatureRuleForce {
    pub fn get_fallback_attribute(&self) -> (r: String)
        ensures
            r@ == "id"@,
    {
        proof { reveal_strlit("id"); }
        String::from_str("id")
    }

    pub fn range(&self) -> (r: Option<Range>)
        ensures
            r == crate::range::range_of(self.range),
    {
        Range::get_range(self.range.clone())
    }
}

impl GrowthBookFeatureRuleExperiment {
    /// The hashing seed, as `seed_spec` states.
    pub fn seed(&self, feature_name: &str) -> (r: String)
        ensures
            r@ == seed_spec(*self, feature_name@),
    {
        match &self.seed {
            Some(s) => s.clone(),
            None => match &self.key {
                Some(k) => k.clone(),
                None => String::from_str(feature_name),
            },
        }
    }

    /// The variation ranges, as `ranges_spec` states.
    pub fn ranges(&self) -> (r: Vec<Range>)
        ensures
            r@ == ranges_spec(*self),
    {
        match &self.ranges {
            Some(rs) => {
                let mut out: Vec<Range> = Vec::new();
                let mut i: usize = 0;
                while i < rs.len()
                    invariant
                        i <= rs@.len(),
                        out@ == rs@.subrange(0, i as int),
                    decreases rs@.len() - i,
                {
                    out.push(rs[i]);
                    assert(out@ =~= rs@.subrange(0, i + 1));
                    i = i + 1;
                }
                assert(out@ =~= rs@);
                out
            },
            None => {
                let n = self.variations.len();
                Range::get_bucket_range(n as i64, &self.coverage, self.weights.clone())
            },
        }
    }

    pub fn get_fallback_attribute(&self) -> (r: String)
        ensures
            r@ == fallback_spec(self.fallback_attribute),
    {
        fallback_or_id(&self.fallback_attribute)
    }
}

} // verus!
