//! The three deciding rule kinds (force, rollout, experiment) and the
//! prerequisite check.
use vstd::prelude::*;
use crate::attribute::{find_attr, find_value, text_of, GrowthBookAttribute, GrowthBookAttributeValue};
use crate::condition_spec::conditions_match;
use crate::coverage::{coverage_admits, Coverage};
use crate::dto::{
    fallback_spec, ranges_spec, seed_spec, FeatureValue, ForcedVariation, GrowthBookFeatureRuleExperiment,
    GrowthBookFeatureRuleForce, GrowthBookFeatureRuleParentData, GrowthBookFeatureRuleRollout, NamespaceRange, VariationMeta,
};
use crate::filter::{filtered_out_spec, Filter, FilterRule};
use crate::hash::{hash_spec, version_of_option, HashCode, HashCodeVersion};
use crate::model::{derived_on, json_of, same_json, Experiment, ExperimentResult, FeatureResult, JsonValue};
use crate::namespace::{namespace_hash, Namespace};
use crate::range::{choose_variation, choose_variation_spec, in_range_spec, range_of, Range};
use crate::text::{int_text, push_int_text, str_eq};

verus! {

/// The condition of a rule holds, or it has none.
pub open spec fn condition_ok(condition: Option<Vec<GrowthBookAttribute>>, user: Seq<GrowthBookAttribute>) -> bool {
    match condition {
        Some(c) => conditions_match(c@, user),
        None => true,
    }
}

/// The seed of a force rule: its own, else the feature name.
pub open spec fn force_seed(rule: GrowthBookFeatureRuleForce, feature_name: Seq<char>) -> Seq<char> {
    match rule.seed {
        Some(s) => s@,
        None => feature_name,
    }
}

/// A force rule fires when its condition holds, its filters let the `id`
/// attribute through, and, when it has a range or a coverage, the `id`
/// attribute is present and hashes into the range (or under the coverage).
#[verifier::opaque]
pub open spec fn force_fires(rule: GrowthBookFeatureRuleForce, feature_name: Seq<char>, user: Seq<GrowthBookAttribute>) -> bool {
    condition_ok(rule.condition, user)
        && (match rule.filters {
            Some(fs) => !filtered_out_spec(fs@, "id"@, Some(user)),
            None => true,
        })
        && (if range_of(rule.range) is None && rule.coverage is None {
            true
        } else {
            match find_attr(user, "id"@) {
                None => false,
                Some(v) => coverage_admits(v, rule.coverage, range_of(rule.range), force_seed(rule, feature_name), rule.hash_version),
            }
        })
}

/// The value a rollout hashes: its hash attribute when present, else its
/// fallback attribute (`id` by default).
pub open spec fn rollout_subject(rule: GrowthBookFeatureRuleRollout, user: Seq<GrowthBookAttribute>) -> Option<GrowthBookAttributeValue> {
    match rule.hash_attribute {
        Some(h) => match find_attr(user, h@) {
            Some(v) => Some(v),
            None => find_attr(user, fallback_spec(rule.fallback_attribute)),
        },
        None => find_attr(user, fallback_spec(rule.fallback_attribute)),
    }
}

/// A rollout fires when its condition holds and its subject is covered.
#[verifier::opaque]
pub open spec fn rollout_fires(rule: GrowthBookFeatureRuleRollout, feature_name: Seq<char>, user: Seq<GrowthBookAttribute>) -> bool {
    condition_ok(rule.condition, user) && match rollout_subject(rule, user) {
        Some(v) => coverage_admits(v, Some(rule.coverage), range_of(rule.range), feature_name, rule.hash_version),
        None => false,
    }
}

/// The attribute an experiment buckets on.
pub open spec fn experiment_attribute(e: GrowthBookFeatureRuleExperiment) -> Seq<char> {
    match e.hash_attribute {
        Some(h) => h@,
        None => fallback_spec(e.fallback_attribute),
    }
}

/// The first override for `feature_name` at index `i` or later.
pub open spec fn first_forced(fs: Seq<ForcedVariation>, feature_name: Seq<char>, i: int) -> Option<i64>
    decreases fs.len() - i,
{
    if i < 0 || i >= fs.len() {
        None
    } else if fs[i].feature@ == feature_name {
        Some(fs[i].variation)
    } else {
        first_forced(fs, feature_name, i + 1)
    }
}

/// The first override for `feature_name`, if any.
pub open spec fn forced_index(forced: Option<Vec<ForcedVariation>>, feature_name: Seq<char>) -> Option<i64> {
    match forced {
        None => None,
        Some(fs) => first_forced(fs@, feature_name, 0),
    }
}

/// The variation at `idx` is marked to defer to later rules.
pub open spec fn passthrough_spec(e: GrowthBookFeatureRuleExperiment, idx: int) -> bool {
    match e.meta {
        Some(ms) => idx < ms@.len() && ms@[idx].passthrough,
        None => false,
    }
}

/// The key reported for the variation at `idx`: its meta key, else its
/// index in decimal.
pub open spec fn meta_key_spec(e: GrowthBookFeatureRuleExperiment, idx: int) -> Seq<char> {
    match e.meta {
        Some(ms) => if idx < ms@.len() {
            match ms@[idx].key {
                Some(k) => k@,
                None => int_text(idx),
            }
        } else {
            int_text(idx)
        },
        None => int_text(idx),
    }
}

/// The namespace, when there is one, holds the subject.
pub open spec fn in_namespace(e: GrowthBookFeatureRuleExperiment, v: GrowthBookAttributeValue) -> bool {
    match e.namespace {
        Some(ns) => in_range_spec(ns.range, namespace_hash(v, ns.id@)),
        None => true,
    }
}

/// The bucket position of the experiment's subject.
pub open spec fn experiment_hash(e: GrowthBookFeatureRuleExperiment, feature_name: Seq<char>, v: GrowthBookAttributeValue) -> Option<u64> {
    hash_spec(text_of(v), seed_spec(e, feature_name), version_of_option(e.hash_version))
}

/// The variation that the hash picks and that decides, if any.
pub open spec fn hashed_variation(e: GrowthBookFeatureRuleExperiment, feature_name: Seq<char>, v: GrowthBookAttributeValue) -> Option<int> {
    match experiment_hash(e, feature_name, v) {
        None => None,
        Some(h) => {
            let idx = choose_variation_spec(h, ranges_spec(e));
            if idx < 0 || idx >= e.variations@.len() || passthrough_spec(e, idx) { None } else { Some(idx) }
        },
    }
}

/// The variation an experiment assigns and whether an override chose it;
/// none when the rule does not decide.
#[verifier::opaque]
pub open spec fn experiment_choice(
    e: GrowthBookFeatureRuleExperiment,
    feature_name: Seq<char>,
    user: Seq<GrowthBookAttribute>,
    forced: Option<Vec<ForcedVariation>>,
) -> Option<(int, bool)> {
    match find_attr(user, experiment_attribute(e)) {
        None => None,
        Some(v) => if !in_namespace(e, v) {
            None
        } else {
            match forced_index(forced, feature_name) {
                Some(k) if 0 <= k < e.variations@.len() => Some((k as int, true)),
                _ => match hashed_variation(e, feature_name, v) {
                    Some(idx) => Some((idx, false)),
                    None => None,
                },
            }
        },
    }
}

pub open spec fn opt_str(o: Option<String>) -> Option<Seq<char>> {
    match o {
        Some(s) => Some(s@),
        None => None,
    }
}

pub open spec fn opt_seq<T>(o: Option<Vec<T>>) -> Option<Seq<T>> {
    match o {
        Some(v) => Some(v@),
        None => None,
    }
}

pub open spec fn meta_view(m: VariationMeta) -> (Option<Seq<char>>, bool) {
    (opt_str(m.key), m.passthrough)
}

pub open spec fn opt_meta(o: Option<Vec<VariationMeta>>) -> Option<Seq<(Option<Seq<char>>, bool)>> {
    match o {
        Some(v) => Some(v@.map_values(|m: VariationMeta| meta_view(m))),
        None => None,
    }
}

pub open spec fn filter_view(f: FilterRule) -> (Seq<char>, i64, Seq<Range>) {
    (f.seed@, f.hash_version, f.ranges@)
}

pub open spec fn opt_filters(o: Option<Vec<FilterRule>>) -> Option<Seq<(Seq<char>, i64, Seq<Range>)>> {
    match o {
        Some(v) => Some(v@.map_values(|f: FilterRule| filter_view(f))),
        None => None,
    }
}

pub open spec fn namespace_view(o: Option<NamespaceRange>) -> Option<(Seq<char>, Range)> {
    match o {
        Some(n) => Some((n.id@, n.range)),
        None => None,
    }
}

pub open spec fn same_opt_json(a: Option<JsonValue>, b: Option<JsonValue>) -> bool {
    match (a, b) {
        (None, None) => true,
        (Some(x), Some(y)) => same_json(x, y),
        _ => false,
    }
}

/// The experiment record `x` describes the rule `e`: the same settings,
/// and variations equal to the rule's values.
pub open spec fn record_of(x: Experiment, e: GrowthBookFeatureRuleExperiment) -> bool {
    &&& opt_str(x.name) == opt_str(e.name)
    &&& opt_str(x.seed) == opt_str(e.seed)
    &&& x.hash_version == e.hash_version
    &&& opt_str(x.hash_attribute) == opt_str(e.hash_attribute)
    &&& namespace_view(x.namespace) == namespace_view(e.namespace)
    &&& x.coverage == e.coverage
    &&& opt_seq(x.ranges) == opt_seq(e.ranges)
    &&& opt_meta(x.meta) == opt_meta(e.meta)
    &&& opt_filters(x.filters) == opt_filters(e.filters)
    &&& x.variations@.len() == e.variations@.len()
    &&& forall|i: int| 0 <= i < x.variations@.len() ==> same_json(#[trigger] x.variations@[i], e.variations@[i].json_spec())
    &&& opt_seq(x.weights) == opt_seq(e.weights)
    &&& same_opt_json(x.condition, e.condition)
}

/// The attribute that an experiment result names as hashed: the rule's own
/// hash attribute under an override, else the attribute bucketed on.
pub open spec fn reported_attribute(e: GrowthBookFeatureRuleExperiment, forced: bool) -> Option<Seq<char>> {
    if forced { opt_str(e.hash_attribute) } else { Some(experiment_attribute(e)) }
}

/// What an experiment result records for the assigned variation.
pub open spec fn experiment_result_ok(
    r: FeatureResult,
    e: GrowthBookFeatureRuleExperiment,
    feature_name: Seq<char>,
    user: Seq<GrowthBookAttribute>,
    idx: int,
    forced: bool,
) -> bool {
    &&& same_json(r.value, e.variations@[idx].json_spec())
    &&& derived_on(r)
    &&& r.source@ == "experiment"@
    &&& r.experiment matches Some(x) && record_of(x, e)
    &&& r.experiment_result matches Some(er) && {
        &&& er.variation_id == idx as i64
        &&& er.hash_used
        &&& !er.sticky_bucket_used
        &&& opt_str(er.hash_attribute) == reported_attribute(e, forced)
        &&& (match find_attr(user, experiment_attribute(e)) {
            Some(v) => er.hash_value matches Some(hv) && json_of(v, hv),
            None => false,
        })
        &&& er.feature_id@ == feature_name
        &&& er.in_experiment
        &&& er.key@ == meta_key_spec(e, idx)
        &&& same_json(er.value, e.variations@[idx].json_spec())
        &&& er.bucket == (if forced { None } else {
            match find_attr(user, experiment_attribute(e)) {
                Some(v) => experiment_hash(e, feature_name, v),
                None => None,
            }
        })
    }
}

impl GrowthBookFeatureRuleForce {
    /// The forced value when the rule fires, as `force_fires` states.
    pub fn get_match_value(&self, feature_name: &str, user_attributes: &Vec<GrowthBookAttribute>) -> (r: Option<FeatureResult>)
        ensures
            r.is_some() == force_fires(*self, feature_name@, user_attributes@),
            r matches Some(res) ==> same_json(res.value, self.force.json_spec()) && derived_on(res) && res.source@ == "force"@ && res.experiment_result is None && res.experiment is None,
    {
        proof {
            reveal(force_fires);
            reveal(rollout_fires);
        }
        if let Some(condition) = &self.condition {
            if !crate::condition::matches(condition, user_attributes.as_slice()) {
                return None;
            }
        }
        let id = self.get_fallback_attribute();
        if let Some(filters) = &self.filters {
            if Filter::is_filtered_out(filters, id.as_str(), Some(user_attributes)) {
                return None;
            }
        }
        let range = self.range();
        if range.is_none() && self.coverage.is_none() {
            return Some(FeatureResult::force(self.force.json().copy()));
        }
        match find_value(user_attributes.as_slice(), id.as_str()) {
            Some(user_value) => {
                let seed = match &self.seed {
                    Some(s) => s.clone(),
                    None => String::from_str(feature_name),
                };
                Coverage::check(user_value, self.coverage, range, seed.as_str(), self.hash_version, self.force.json())
            },
            None => None,
        }
    }
}

impl GrowthBookFeatureRuleRollout {
    /// The forced value when the rollout fires, as `rollout_fires` states.
    pub fn get_match_value(&self, feature_name: &str, user_attributes: &Vec<GrowthBookAttribute>) -> (r: Option<FeatureResult>)
        ensures
            r.is_some() == rollout_fires(*self, feature_name@, user_attributes@),
            r matches Some(res) ==> same_json(res.value, self.force.json_spec()) && derived_on(res) && res.source@ == "force"@ && res.experiment_result is None && res.experiment is None,
    {
        proof {
            reveal(force_fires);
            reveal(rollout_fires);
        }
        if let Some(condition) = &self.condition {
            if !crate::condition::matches(condition, user_attributes.as_slice()) {
                return None;
            }
        }
        let fallback = self.get_fallback_attribute();
        let subject = match &self.hash_attribute {
            Some(h) => match find_value(user_attributes.as_slice(), h.as_str()) {
                Some(v) => Some(v),
                None => find_value(user_attributes.as_slice(), fallback.as_str()),
            },
            None => find_value(user_attributes.as_slice(), fallback.as_str()),
        };
        match subject {
            Some(user_value) => Coverage::check(user_value, Some(self.coverage), self.range(), feature_name, self.hash_version, self.force.json()),
            None => None,
        }
    }
}

fn copy_opt_string(o: &Option<String>) -> (r: Option<String>)
    ensures
        r == *o,
{
    match o {
        Some(s) => Some(s.clone()),
        None => None,
    }
}

fn copy_vec<T: Copy>(v: &Vec<T>) -> (r: Vec<T>)
    ensures
        r@ == v@,
{
    let mut out: Vec<T> = Vec::new();
    let mut i: usize = 0;
    while i < v.len()
        invariant
            i <= v@.len(),
            out@ == v@.subrange(0, i as int),
        decreases v@.len() - i,
    {
        out.push(v[i]);
        assert(out@ =~= v@.subrange(0, i + 1));
        i = i + 1;
    }
    assert(out@ =~= v@);
    out
}

fn copy_opt_vec<T: Copy>(o: &Option<Vec<T>>) -> (r: Option<Vec<T>>)
    ensures
        opt_seq(r) == opt_seq(*o),
{
    match o {
        Some(v) => Some(copy_vec(v)),
        None => None,
    }
}

fn copy_meta(o: &Option<Vec<VariationMeta>>) -> (r: Option<Vec<VariationMeta>>)
    ensures
        opt_meta(r) == opt_meta(*o),
{
    match o {
        Some(v) => {
            let mut out: Vec<VariationMeta> = Vec::new();
            let mut i: usize = 0;
            while i < v.len()
                invariant
                    i <= v@.len(),
                    out@.len() == i,
                    forall|k: int| 0 <= k < i ==> meta_view(#[trigger] out@[k]) == meta_view(v@[k]),
                decreases v@.len() - i,
            {
                out.push(VariationMeta { key: copy_opt_string(&v[i].key), passthrough: v[i].passthrough });
                i = i + 1;
            }
            assert(out@.map_values(|m: VariationMeta| meta_view(m)) =~= v@.map_values(|m: VariationMeta| meta_view(m)));
            Some(out)
        },
        None => None,
    }
}

fn copy_filters(o: &Option<Vec<FilterRule>>) -> (r: Option<Vec<FilterRule>>)
    ensures
        opt_filters(r) == opt_filters(*o),
{
    match o {
        Some(v) => {
            let mut out: Vec<FilterRule> = Vec::new();
            let mut i: usize = 0;
            while i < v.len()
                invariant
                    i <= v@.len(),
                    out@.len() == i,
                    forall|k: int| 0 <= k < i ==> filter_view(#[trigger] out@[k]) == filter_view(v@[k]),
                decreases v@.len() - i,
            {
                out.push(FilterRule { seed: v[i].seed.clone(), hash_version: v[i].hash_version, ranges: copy_vec(&v[i].ranges) });
                i = i + 1;
            }
            assert(out@.map_values(|f: FilterRule| filter_view(f)) =~= v@.map_values(|f: FilterRule| filter_view(f)));
            Some(out)
        },
        None => None,
    }
}

fn copy_values(values: &Vec<FeatureValue>) -> (r: Vec<JsonValue>)
    ensures
        r@.len() == values@.len(),
        forall|i: int| 0 <= i < r@.len() ==> same_json(#[trigger] r@[i], values@[i].json_spec()),
{
    let mut out: Vec<JsonValue> = Vec::new();
    let mut i: usize = 0;
    while i < values.len()
        invariant
            i <= values@.len(),
            out@.len() == i,
            forall|j: int| 0 <= j < i ==> same_json(#[trigger] out@[j], values@[j].json_spec()),
        decreases values@.len() - i,
    {
        out.push(values[i].json().copy());
        i = i + 1;
    }
    out
}

fn find_forced(forced: &Option<Vec<ForcedVariation>>, feature_name: &str) -> (r: Option<i64>)
    ensures
        r == forced_index(*forced, feature_name@),
{
    match forced {
        None => None,
        Some(fs) => {
            let mut i: usize = 0;
            while i < fs.len()
                invariant
                    *forced == Some(*fs),
                    i <= fs@.len(),
                    first_forced(fs@, feature_name@, 0) == first_forced(fs@, feature_name@, i as int),
                decreases fs@.len() - i,
            {
                if str_eq(fs[i].feature.as_str(), feature_name) {
                    return Some(fs[i].variation);
                }
                i = i + 1;
            }
            None
        },
    }
}

impl GrowthBookFeatureRuleExperiment {
    /// The key and pass-through mark of the variation at `index`.
    fn get_meta_value(&self, index: usize) -> (r: (String, bool))
        ensures
            r.0@ == meta_key_spec(*self, index as int),
            r.1 == passthrough_spec(*self, index as int),
    {
        let mut index_text = String::new();
        if index as u64 <= i64::MAX as u64 {
            push_int_text(&mut index_text, index as i64);
        } else {
            crate::text::push_nat_text(&mut index_text, index as u64);
        }
        assert(index_text@ == int_text(index as int));
        match &self.meta {
            Some(ms) => {
                if index < ms.len() {
                    let key = match &ms[index].key {
                        Some(k) => k.clone(),
                        None => index_text,
                    };
                    (key, ms[index].passthrough)
                } else {
                    (index_text, false)
                }
            },
            None => (index_text, false),
        }
    }

    /// The record of this experiment.
    pub fn model_experiment(&self) -> (r: Experiment)
        ensures
            record_of(r, *self),
    {
        Experiment {
            name: copy_opt_string(&self.name),
            seed: copy_opt_string(&self.seed),
            hash_version: self.hash_version,
            hash_attribute: copy_opt_string(&self.hash_attribute),
            namespace: match &self.namespace {
                Some(n) => Some(NamespaceRange { id: n.id.clone(), range: n.range }),
                None => None,
            },
            coverage: self.coverage,
            ranges: copy_opt_vec(&self.ranges),
            meta: copy_meta(&self.meta),
            filters: copy_filters(&self.filters),
            variations: copy_values(&self.variations),
            weights: copy_opt_vec(&self.weights),
            condition: match &self.condition {
                Some(c) => Some(c.copy()),
                None => None,
            },
        }
    }

    fn decided(
        &self,
        feature_name: &str,
        index: usize,
        hash_attribute: Option<String>,
        user_value: &GrowthBookAttributeValue,
        bucket: Option<u64>,
    ) -> (r: FeatureResult)
        requires
            index < self.variations@.len(),
        ensures
            same_json(r.value, self.variations@[index as int].json_spec()),
            derived_on(r),
            r.source@ == "experiment"@,
            r.experiment matches Some(x) && record_of(x, *self),
            r.experiment_result matches Some(er) && {
                &&& er.variation_id == index as i64
                &&& er.hash_used
                &&& !er.sticky_bucket_used
                &&& opt_str(er.hash_attribute) == opt_str(hash_attribute)
                &&& er.hash_value matches Some(hv) && json_of(*user_value, hv)
                &&& er.feature_id@ == feature_name@
                &&& er.in_experiment
                &&& er.key@ == meta_key_spec(*self, index as int)
                &&& same_json(er.value, self.variations@[index as int].json_spec())
                &&& er.bucket == bucket
            },
    {
        let (key, _) = self.get_meta_value(index);
        let experiment_result = ExperimentResult {
            feature_id: String::from_str(feature_name),
            value: self.variations[index].json().copy(),
            variation_id: index as i64,
            in_experiment: true,
            hash_used: true,
            hash_attribute,
            hash_value: Some(user_value.to_value()),
            bucket,
            key,
            sticky_bucket_used: false,
        };
        FeatureResult::experiment(self.variations[index].json().copy(), self.model_experiment(), experiment_result)
    }

    /// The assigned variation when the experiment decides, as
    /// `experiment_choice` states.
    pub fn get_match_value(
        &self,
        feature_name: &str,
        user_attributes: &Vec<GrowthBookAttribute>,
        forced_variations: &Option<Vec<ForcedVariation>>,
    ) -> (r: Option<FeatureResult>)
        ensures
            match experiment_choice(*self, feature_name@, user_attributes@, *forced_variations) {
                None => r is None,
                Some((idx, forced)) => r matches Some(res) && experiment_result_ok(res, *self, feature_name@, user_attributes@, idx, forced),
            },
    {
        match self.assign(feature_name, user_attributes, forced_variations) {
            Some((res, _)) => Some(res),
            None => None,
        }
    }

    /// The assigned variation and its index, when the experiment decides.
    pub(crate) fn assign(
        &self,
        feature_name: &str,
        user_attributes: &Vec<GrowthBookAttribute>,
        forced_variations: &Option<Vec<ForcedVariation>>,
    ) -> (r: Option<(FeatureResult, usize)>)
        ensures
            match experiment_choice(*self, feature_name@, user_attributes@, *forced_variations) {
                None => r is None,
                Some((idx, forced)) => r matches Some((res, i)) && i == idx
                    && experiment_result_ok(res, *self, feature_name@, user_attributes@, idx, forced),
            },
            r matches Some((_, i)) ==> i < self.variations@.len(),
    {
        proof { reveal(experiment_choice); }
        let attribute = match &self.hash_attribute {
            Some(h) => h.clone(),
            None => self.get_fallback_attribute(),
        };
        let user_value = match find_value(user_attributes.as_slice(), attribute.as_str()) {
            Some(v) => v,
            None => {
                return None;
            },
        };
        if let Some(ns) = &self.namespace {
            if !Namespace::is_in(user_value, ns.id.as_str(), &ns.range) {
                return None;
            }
        }
        if let Some(k) = find_forced(forced_variations, feature_name) {
            if k >= 0 && (k as u64) < self.variations.len() as u64 {
                return Some((self.decided(feature_name, k as usize, self.hash_attribute.clone(), user_value, None), k as usize));
            }
        }
        let text = user_value.to_text();
        let seed = self.seed(feature_name);
        let user_weight = match HashCode::hash_code(text.as_str(), seed.as_str(), HashCodeVersion::from_option(self.hash_version)) {
            Some(w) => w,
            None => {
                return None;
            },
        };
        let ranges = self.ranges();
        match choose_variation(user_weight, &ranges) {
            Some(index) => {
                if index >= self.variations.len() {
                    return None;
                }
                let (_, pass_through) = self.get_meta_value(index);
                if pass_through {
                    return None;
                }
                Some((self.decided(feature_name, index, Some(attribute), user_value, Some(user_weight)), index))
            },
            None => None,
        }
    }
}

impl GrowthBookFeatureRuleParentData {
    /// Whether the prerequisite's resolved value meets this gate's
    /// condition (always, when it has none).
    pub fn is_met(&self, value: &FeatureValue) -> (r: bool)
        ensures
            r == condition_ok(self.condition, value.tree_spec()@),
    {
        match &self.condition {
            Some(condition) => crate::condition::matches(condition, value.tree().as_slice()),
            None => true,
        }
    }
}

} // verus!
