//! Properties of evaluation that hold for all inputs.
use vstd::prelude::*;
use vstd::arithmetic::div_mod::lemma_div_is_ordered;
use vstd::arithmetic::mul::lemma_mul_inequality;
use crate::attribute::{text_of, GrowthBookAttribute, GrowthBookAttributeValue};
use crate::dto::{ranges_spec, seed_spec, FeatureValue, ForcedVariation, GrowthBookFeatureRule, GrowthBookFeatureRuleExperiment, GrowthBookFeatureRuleParent};
use crate::attribute::find_attr;
use crate::feature::{
    experiment_attribute, experiment_hash, namespace_view, opt_filters, opt_meta, opt_seq, opt_str, record_of, same_opt_json,
};
use crate::growthbook::{
    lemma_parents_step, lemma_rules_step, lookup_feature, resolve_feature, result_of, Decision, FeatureEntry,
};
use crate::hash::{hash_spec, HashCodeVersion, UNIT};
use crate::model::{
    json_of, json_of_items, json_of_members, same_json, same_json_items, same_json_members, Experiment, ExperimentResult, FeatureResult,
    JsonMember, JsonValue,
};
use crate::range::{
    adjusted_weights_spec, bucket_range_at, bucket_ranges_spec, choose_variation_spec, clamped_coverage_spec, in_range_spec,
    lemma_adjusted_weights_total, lemma_sum_first_monotone, rounded_end, sum_first, weights_usable, GRID, WEIGHT_SUM_MAX,
};

verus! {

proof fn lemma_same_json_symmetric(a: JsonValue, b: JsonValue)
    requires
        same_json(a, b),
    ensures
        same_json(b, a),
    decreases a,
{
    match (a, b) {
        (JsonValue::Array(x), JsonValue::Array(y)) => {
            assert(decreases_to!(a => x));
            lemma_items_symmetric(x@, y@, x@.len() as int);
        },
        (JsonValue::Object(x), JsonValue::Object(y)) => {
            assert(decreases_to!(a => x));
            lemma_members_symmetric(x@, y@, x@.len() as int);
        },
        _ => {},
    }
}

proof fn lemma_items_symmetric(x: Seq<JsonValue>, y: Seq<JsonValue>, n: int)
    requires
        0 <= n <= x.len(),
        n <= y.len(),
        same_json_items(x, y, n),
    ensures
        same_json_items(y, x, n),
    decreases x, n,
{
    if n > 0 {
        lemma_items_symmetric(x, y, n - 1);
        assert(decreases_to!(x => x[n - 1]));
        lemma_same_json_symmetric(x[n - 1], y[n - 1]);
    }
}

proof fn lemma_members_symmetric(x: Seq<JsonMember>, y: Seq<JsonMember>, n: int)
    requires
        0 <= n <= x.len(),
        n <= y.len(),
        same_json_members(x, y, n),
    ensures
        same_json_members(y, x, n),
    decreases x, n,
{
    if n > 0 {
        lemma_members_symmetric(x, y, n - 1);
        assert(decreases_to!(x => x[n - 1]));
        assert(decreases_to!(x[n - 1] => x[n - 1].value));
        lemma_same_json_symmetric(x[n - 1].value, y[n - 1].value);
    }
}

proof fn lemma_same_json_transitive(a: JsonValue, b: JsonValue, c: JsonValue)
    requires
        same_json(a, b),
        same_json(b, c),
    ensures
        same_json(a, c),
    decreases a,
{
    match (a, b, c) {
        (JsonValue::Array(x), JsonValue::Array(y), JsonValue::Array(z)) => {
            assert(decreases_to!(a => x));
            lemma_items_transitive(x@, y@, z@, x@.len() as int);
        },
        (JsonValue::Object(x), JsonValue::Object(y), JsonValue::Object(z)) => {
            assert(decreases_to!(a => x));
            lemma_members_transitive(x@, y@, z@, x@.len() as int);
        },
        _ => {},
    }
}

proof fn lemma_items_transitive(x: Seq<JsonValue>, y: Seq<JsonValue>, z: Seq<JsonValue>, n: int)
    requires
        0 <= n <= x.len(),
        n <= y.len(),
        n <= z.len(),
        same_json_items(x, y, n),
        same_json_items(y, z, n),
    ensures
        same_json_items(x, z, n),
    decreases x, n,
{
    if n > 0 {
        lemma_items_transitive(x, y, z, n - 1);
        assert(decreases_to!(x => x[n - 1]));
        lemma_same_json_transitive(x[n - 1], y[n - 1], z[n - 1]);
    }
}

proof fn lemma_members_transitive(x: Seq<JsonMember>, y: Seq<JsonMember>, z: Seq<JsonMember>, n: int)
    requires
        0 <= n <= x.len(),
        n <= y.len(),
        n <= z.len(),
        same_json_members(x, y, n),
        same_json_members(y, z, n),
    ensures
        same_json_members(x, z, n),
    decreases x, n,
{
    if n > 0 {
        lemma_members_transitive(x, y, z, n - 1);
        assert(decreases_to!(x => x[n - 1]));
        assert(decreases_to!(x[n - 1] => x[n - 1].value));
        lemma_same_json_transitive(x[n - 1].value, y[n - 1].value, z[n - 1].value);
    }
}

proof fn lemma_json_of_unique(a: GrowthBookAttributeValue, j1: JsonValue, j2: JsonValue)
    requires
        json_of(a, j1),
        json_of(a, j2),
    ensures
        same_json(j1, j2),
    decreases a,
{
    match (a, j1, j2) {
        (GrowthBookAttributeValue::Array(xs), JsonValue::Array(y1), JsonValue::Array(y2)) => {
            assert(decreases_to!(a => xs));
            lemma_json_of_items_unique(xs@, y1@, y2@, xs@.len() as int);
        },
        (GrowthBookAttributeValue::Object(es), JsonValue::Object(m1), JsonValue::Object(m2)) => {
            assert(decreases_to!(a => es));
            lemma_json_of_members_unique(es@, m1@, m2@, es@.len() as int);
        },
        _ => {},
    }
}

proof fn lemma_json_of_items_unique(xs: Seq<GrowthBookAttributeValue>, y1: Seq<JsonValue>, y2: Seq<JsonValue>, n: int)
    requires
        0 <= n <= xs.len(),
        n <= y1.len(),
        n <= y2.len(),
        json_of_items(xs, y1, n),
        json_of_items(xs, y2, n),
    ensures
        same_json_items(y1, y2, n),
    decreases xs, n,
{
    if n > 0 {
        lemma_json_of_items_unique(xs, y1, y2, n - 1);
        assert(decreases_to!(xs => xs[n - 1]));
        lemma_json_of_unique(xs[n - 1], y1[n - 1], y2[n - 1]);
    }
}

proof fn lemma_json_of_members_unique(es: Seq<GrowthBookAttribute>, m1: Seq<JsonMember>, m2: Seq<JsonMember>, n: int)
    requires
        0 <= n <= es.len(),
        n <= m1.len(),
        n <= m2.len(),
        json_of_members(es, m1, n),
        json_of_members(es, m2, n),
    ensures
        same_json_members(m1, m2, n),
    decreases es, n,
{
    if n > 0 {
        lemma_json_of_members_unique(es, m1, m2, n - 1);
        assert(decreases_to!(es => es[n - 1]));
        assert(decreases_to!(es[n - 1] => es[n - 1].value));
        lemma_json_of_unique(es[n - 1].value, m1[n - 1].value, m2[n - 1].value);
    }
}

/// Two experiment records agree: the same settings and structurally equal
/// variations and condition.
pub open spec fn same_record(x1: Experiment, x2: Experiment) -> bool {
    &&& opt_str(x1.name) == opt_str(x2.name)
    &&& opt_str(x1.seed) == opt_str(x2.seed)
    &&& x1.hash_version == x2.hash_version
    &&& opt_str(x1.hash_attribute) == opt_str(x2.hash_attribute)
    &&& namespace_view(x1.namespace) == namespace_view(x2.namespace)
    &&& x1.coverage == x2.coverage
    &&& opt_seq(x1.ranges) == opt_seq(x2.ranges)
    &&& opt_meta(x1.meta) == opt_meta(x2.meta)
    &&& opt_filters(x1.filters) == opt_filters(x2.filters)
    &&& x1.variations@.len() == x2.variations@.len()
    &&& forall|i: int| 0 <= i < x1.variations@.len() ==> same_json(#[trigger] x1.variations@[i], x2.variations@[i])
    &&& opt_seq(x1.weights) == opt_seq(x2.weights)
    &&& same_opt_json(x1.condition, x2.condition)
}

/// Two experiment results agree in every field.
pub open spec fn same_experiment_result(e1: ExperimentResult, e2: ExperimentResult) -> bool {
    &&& e1.feature_id@ == e2.feature_id@
    &&& same_json(e1.value, e2.value)
    &&& e1.variation_id == e2.variation_id
    &&& e1.in_experiment == e2.in_experiment
    &&& e1.hash_used == e2.hash_used
    &&& opt_str(e1.hash_attribute) == opt_str(e2.hash_attribute)
    &&& same_opt_json(e1.hash_value, e2.hash_value)
    &&& e1.bucket == e2.bucket
    &&& e1.key@ == e2.key@
    &&& e1.sticky_bucket_used == e2.sticky_bucket_used
}

proof fn lemma_records_agree(x1: Experiment, x2: Experiment, e: GrowthBookFeatureRuleExperiment)
    requires
        record_of(x1, e),
        record_of(x2, e),
    ensures
        same_record(x1, x2),
{
    assert forall|i: int| 0 <= i < x1.variations@.len() implies same_json(#[trigger] x1.variations@[i], x2.variations@[i]) by {
        lemma_same_json_symmetric(x2.variations@[i], e.variations@[i].json_spec());
        lemma_same_json_transitive(x1.variations@[i], e.variations@[i].json_spec(), x2.variations@[i]);
    }
    match (x1.condition, x2.condition, e.condition) {
        (Some(c1), Some(c2), Some(c)) => {
            lemma_same_json_symmetric(c2, c);
            lemma_same_json_transitive(c1, c, c2);
        },
        _ => {},
    }
}

/// Evaluation is deterministic: any two results that `check` may give for
/// the same table, attributes and overrides report the same source, the
/// same on/off state, structurally equal values and, for an experiment,
/// the same variation and bucket.
pub proof fn lemma_evaluation_deterministic(
    table: Seq<FeatureEntry>,
    null: FeatureValue,
    name: Seq<char>,
    user: Seq<GrowthBookAttribute>,
    forced: Option<Vec<ForcedVariation>>,
    r1: FeatureResult,
    r2: FeatureResult,
)
    requires
        result_of(r1, resolve_feature(table, null, name, Seq::empty(), user, forced), name, user),
        result_of(r2, resolve_feature(table, null, name, Seq::empty(), user, forced), name, user),
    ensures
        r1.source@ == r2.source@,
        r1.on == r2.on,
        r1.off == r2.off,
        same_json(r1.value, r2.value),
        r1.experiment_result is Some == r2.experiment_result is Some,
        r1.experiment_result matches Some(e1) ==> (r2.experiment_result matches Some(e2) && same_experiment_result(e1, e2)),
        r1.experiment is Some == r2.experiment is Some,
        r1.experiment matches Some(x1) ==> (r2.experiment matches Some(x2) && same_record(x1, x2)),
{
    let d = resolve_feature(table, null, name, Seq::empty(), user, forced);
    match d {
        Decision::Forced(v) => {
            lemma_same_json_symmetric(r2.value, v.json_spec());
            lemma_same_json_transitive(r1.value, v.json_spec(), r2.value);
        },
        Decision::Assigned(e, idx, _) => {
            lemma_same_json_symmetric(r2.value, e.variations@[idx].json_spec());
            lemma_same_json_transitive(r1.value, e.variations@[idx].json_spec(), r2.value);
            let e1 = r1.experiment_result->Some_0;
            let e2 = r2.experiment_result->Some_0;
            lemma_same_json_symmetric(e2.value, e.variations@[idx].json_spec());
            lemma_same_json_transitive(e1.value, e.variations@[idx].json_spec(), e2.value);
            let v = find_attr(user, experiment_attribute(e))->Some_0;
            lemma_json_of_unique(v, e1.hash_value->Some_0, e2.hash_value->Some_0);
            lemma_records_agree(r1.experiment->Some_0, r2.experiment->Some_0, e);
        },
        Decision::Default(Some(v)) => {
            lemma_same_json_symmetric(r2.value, v.json_spec());
            lemma_same_json_transitive(r1.value, v.json_spec(), r2.value);
        },
        _ => {},
    }
}

/// Every bucket position lies in `[0, 1)`.
pub proof fn lemma_hash_below_one(input: Seq<char>, seed: Seq<char>, version: HashCodeVersion)
    ensures
        hash_spec(input, seed, version) matches Some(h) ==> h < UNIT,
{
}

/// Weights of the wrong count, or whose sum lies outside `[0.99, 1.01]`,
/// give the equal-weight partition.
pub proof fn lemma_unusable_weights_ignored(variations: i64, coverage: Option<u64>, weights: Option<Vec<u64>>)
    requires
        !weights_usable(variations, weights),
    ensures
        bucket_ranges_spec(variations, coverage, weights) == bucket_ranges_spec(variations, coverage, None),
{
}

/// Raising the coverage never takes a position out of a variation's range:
/// ranges keep their start and only grow.
pub proof fn lemma_coverage_monotone(variations: i64, c1: u64, c2: u64, weights: Option<Vec<u64>>, i: int, v: u64)
    requires
        c1 <= c2,
        0 <= i < bucket_ranges_spec(variations, Some(c1), weights).len(),
        in_range_spec(bucket_ranges_spec(variations, Some(c1), weights)[i], v),
    ensures
        bucket_ranges_spec(variations, Some(c2), weights).len() == bucket_ranges_spec(variations, Some(c1), weights).len(),
        in_range_spec(bucket_ranges_spec(variations, Some(c2), weights)[i], v),
{
    let ws = adjusted_weights_spec(variations, weights);
    let k1 = clamped_coverage_spec(Some(c1));
    let k2 = clamped_coverage_spec(Some(c2));
    lemma_adjusted_weights_total(variations, weights);
    lemma_sum_first_monotone(ws, i, ws.len() as int);
    lemma_sum_first_monotone(ws, i + 1, ws.len() as int);
    let start = sum_first(ws, i);
    let w = ws[i] as int;
    assert(sum_first(ws, i + 1) == start + w);
    assert(start + w <= WEIGHT_SUM_MAX);
    assert(0 <= start);
    lemma_mul_inequality(k1 as int, k2 as int, w);
    assert(k1 * w <= k2 * w);
    let h = (GRID * UNIT) as int / 2;
    let x1 = start * UNIT + k1 * w + h;
    let x2 = start * UNIT + k2 * w + h;
    lemma_div_is_ordered(x1, x2, (GRID * UNIT) as int);
    let q1 = x1 / (GRID * UNIT) as int;
    let q2 = x2 / (GRID * UNIT) as int;
    lemma_mul_inequality(q1, q2, GRID as int);
    assert(rounded_end(start, k1 as int, w) == q1 * GRID);
    assert(rounded_end(start, k2 as int, w) == q2 * GRID);
    assert(k2 * w <= UNIT * WEIGHT_SUM_MAX) by (nonlinear_arith)
        requires k2 <= UNIT, 0 <= w <= WEIGHT_SUM_MAX;
    assert(start * UNIT <= WEIGHT_SUM_MAX * UNIT) by (nonlinear_arith)
        requires 0 <= start <= WEIGHT_SUM_MAX;
    assert(x2 >= 0);
    assert(q2 * GRID <= x2) by (nonlinear_arith)
        requires q2 == x2 / 100_000_000_000_000int, x2 >= 0;
    assert(0 <= q1) by (nonlinear_arith)
        requires q1 == x1 / 100_000_000_000_000int, x1 >= 0;
    assert(0 <= q1 * GRID);
    let r1 = bucket_range_at(ws, k1, i);
    let r2 = bucket_range_at(ws, k2, i);
    assert(bucket_ranges_spec(variations, Some(c1), weights)[i] == r1);
    assert(bucket_ranges_spec(variations, Some(c2), weights)[i] == r2);
    assert(r1.start == r2.start);
    assert(r1.end <= r2.end);
}

/// The same subject text, seed, hash version and variation ranges always
/// select the same variation index.
pub proof fn lemma_assignment_stable(
    e1: GrowthBookFeatureRuleExperiment,
    e2: GrowthBookFeatureRuleExperiment,
    name1: Seq<char>,
    name2: Seq<char>,
    v1: GrowthBookAttributeValue,
    v2: GrowthBookAttributeValue,
)
    requires
        text_of(v1) == text_of(v2),
        seed_spec(e1, name1) == seed_spec(e2, name2),
        e1.hash_version == e2.hash_version,
        ranges_spec(e1) == ranges_spec(e2),
    ensures
        experiment_hash(e1, name1, v1) == experiment_hash(e2, name2, v2),
        match experiment_hash(e1, name1, v1) {
            Some(h) => choose_variation_spec(h, ranges_spec(e1)) == choose_variation_spec(h, ranges_spec(e2)),
            None => true,
        },
{
}

/// A feature absent from the table resolves to `unknownFeature`: off, with
/// a null value.
pub proof fn lemma_unknown_feature(
    table: Seq<FeatureEntry>,
    null: FeatureValue,
    name: Seq<char>,
    user: Seq<GrowthBookAttribute>,
    forced: Option<Vec<ForcedVariation>>,
    r: FeatureResult,
)
    requires
        lookup_feature(table, name, 0) is None,
        result_of(r, resolve_feature(table, null, name, Seq::empty(), user, forced), name, user),
    ensures
        resolve_feature(table, null, name, Seq::empty(), user, forced) is Unknown,
        !r.on,
        r.off,
        r.value is Null,
        r.source@ == "unknownFeature"@,
{
}

/// Two features that each start with a prerequisite on the other resolve
/// to `cyclicPrerequisite`: the result is off, with a null value and no
/// experiment.
pub proof fn lemma_mutual_prerequisite_cycle(
    table: Seq<FeatureEntry>,
    null: FeatureValue,
    a: Seq<char>,
    b: Seq<char>,
    ia: int,
    ib: int,
    pa: GrowthBookFeatureRuleParent,
    pb: GrowthBookFeatureRuleParent,
    user: Seq<GrowthBookAttribute>,
    forced: Option<Vec<ForcedVariation>>,
    r: FeatureResult,
)
    requires
        result_of(r, resolve_feature(table, null, a, Seq::empty(), user, forced), a, user),
        lookup_feature(table, a, 0) == Some(ia),
        lookup_feature(table, b, 0) == Some(ib),
        0 <= ia < table.len(),
        0 <= ib < table.len(),
        table[ia].feature.rules matches Some(rules) && rules@.len() > 0 && rules@[0] == GrowthBookFeatureRule::Parent(pa),
        table[ib].feature.rules matches Some(rules) && rules@.len() > 0 && rules@[0] == GrowthBookFeatureRule::Parent(pb),
        pa.parent_conditions@.len() > 0 && pa.parent_conditions@[0].id@ == b,
        pb.parent_conditions@.len() > 0 && pb.parent_conditions@[0].id@ == a,
    ensures
        resolve_feature(table, null, a, Seq::empty(), user, forced) is Cyclic,
        r.source@ == "cyclicPrerequisite"@,
        r.value is Null,
        !r.on,
        r.off,
        r.experiment_result is None,
        r.experiment is None,
{
    let empty: Seq<Seq<char>> = Seq::empty();
    let chain_b = empty.push(a);
    lemma_rules_step(table, null, ia, a, empty, user, forced, 0);
    lemma_parents_step(table, null, ia, a, empty, user, forced, 0, 0, pa);
    lemma_rules_step(table, null, ib, b, chain_b, user, forced, 0);
    lemma_parents_step(table, null, ib, b, chain_b, user, forced, 0, 0, pb);
    assert(chain_b[0] == a);
    assert(chain_b.contains(a));
    if empty.contains(b) {
        let k = choose|k: int| 0 <= k < empty.len() && empty[k] == b;
        assert(false);
    }
}

} // verus!
