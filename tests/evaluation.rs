use growthbook_rust_sdk::attribute::{GrowthBookAttribute, GrowthBookAttributeValue};
use growthbook_rust_sdk::dto::{
    FeatureValue, ForcedVariation, GrowthBookFeature, GrowthBookFeatureRule, GrowthBookFeatureRuleExperiment, GrowthBookFeatureRuleForce,
    GrowthBookFeatureRuleParent, GrowthBookFeatureRuleParentData, GrowthBookFeatureRuleRollout, NamespaceRange, VariationMeta,
};
use growthbook_rust_sdk::error::GrowthbookErrorCode;
use growthbook_rust_sdk::filter::{Filter, FilterRule};
use growthbook_rust_sdk::growthbook::{FeatureEntry, GrowthBook};
use growthbook_rust_sdk::hash::{HashCode, HashCodeVersion};
use growthbook_rust_sdk::model::{FeatureResult, JsonValue};
use growthbook_rust_sdk::namespace::Namespace;
use growthbook_rust_sdk::range::{choose_variation, get_equal_weights, Range};

fn attr(key: &str, value: GrowthBookAttributeValue) -> GrowthBookAttribute {
    GrowthBookAttribute::new(String::from(key), value)
}

fn text(s: &str) -> GrowthBookAttributeValue {
    GrowthBookAttributeValue::String(String::from(s))
}

fn value(json: JsonValue) -> FeatureValue {
    FeatureValue::new(json)
}

fn feature(default: JsonValue, rules: Vec<GrowthBookFeatureRule>) -> GrowthBookFeature {
    GrowthBookFeature { default_value: Some(value(default)), rules: Some(rules) }
}

fn force(condition: Option<Vec<GrowthBookAttribute>>, forced: JsonValue) -> GrowthBookFeatureRule {
    GrowthBookFeatureRule::Force(GrowthBookFeatureRuleForce {
        force: value(forced),
        coverage: None,
        range: None,
        hash_version: None,
        filters: None,
        seed: None,
        condition,
    })
}

fn rollout(coverage: u64) -> GrowthBookFeatureRule {
    GrowthBookFeatureRule::Rollout(GrowthBookFeatureRuleRollout {
        force: value(JsonValue::Bool(true)),
        coverage,
        range: None,
        condition: None,
        hash_attribute: Some(String::from("any-id")),
        fallback_attribute: None,
        hash_version: None,
    })
}

fn experiment(coverage: u64) -> GrowthBookFeatureRule {
    let meta = (0..3).map(|i| VariationMeta { key: Some(format!("{i}")), passthrough: false }).collect();
    GrowthBookFeatureRule::Experiment(GrowthBookFeatureRuleExperiment {
        key: Some(String::from("any-experiment-key")),
        variations: vec![value(JsonValue::Bool(false)), value(JsonValue::Bool(true)), value(JsonValue::Bool(true))],
        name: None,
        coverage: Some(coverage),
        seed: Some(String::from("any-seed")),
        hash_version: Some(2),
        hash_attribute: Some(String::from("any-id")),
        fallback_attribute: None,
        weights: Some(vec![333_400_000, 333_300_000, 333_300_000]),
        namespace: None,
        ranges: None,
        meta: Some(meta),
        filters: None,
        condition: None,
    })
}

fn parent(id: &str, condition: Option<Vec<GrowthBookAttribute>>) -> GrowthBookFeatureRule {
    GrowthBookFeatureRule::Parent(GrowthBookFeatureRuleParent {
        parent_conditions: vec![GrowthBookFeatureRuleParentData { id: String::from(id), condition, gate: true }],
    })
}

fn table(entries: Vec<(&str, GrowthBookFeature)>) -> GrowthBook {
    GrowthBook::new(None, entries.into_iter().map(|(name, feature)| FeatureEntry { name: String::from(name), feature }).collect())
        .expect("feature names are unique")
}

fn eval(gb: &GrowthBook, name: &str, user: Vec<GrowthBookAttribute>) -> FeatureResult {
    gb.check(name, &Some(user))
}

fn flags() -> GrowthBook {
    table(vec![
        ("simple-flag", feature(JsonValue::Bool(true), vec![])),
        ("simple-flag-disabled", feature(JsonValue::Bool(false), vec![])),
        (
            "simple-rule-conditio",
            feature(JsonValue::Bool(false), vec![force(Some(vec![attr("any-id", text("018fcf11-bb67-7789-8d10-fcbb7de4ff7b"))]), JsonValue::Bool(true))]),
        ),
        ("rollout-flag-condition-by-attribute", feature(JsonValue::Bool(false), vec![rollout(500_000_000)])),
        ("rollout-zero-percentage-flag-condition-by-attribute", feature(JsonValue::Bool(false), vec![rollout(0)])),
        ("rollout-one-hundred-percentage-flag-condition-by-attribute", feature(JsonValue::Bool(false), vec![rollout(1_000_000_000)])),
        ("experiment-rule-condition-flag", feature(JsonValue::Bool(false), vec![experiment(1_000_000_000)])),
        ("experiment-rule-condition-ninety-coverage-flag", feature(JsonValue::Bool(false), vec![experiment(900_000_000)])),
        ("experiment-rule-condition-zero-coverage-flag", feature(JsonValue::Bool(false), vec![experiment(0)])),
        ("is-off-string-flag", feature(JsonValue::String(String::from("off")), vec![])),
        ("is-off-empty-string-flag", feature(JsonValue::String(String::new()), vec![])),
        ("fixed-value", feature(JsonValue::String(String::from("018fcf11-bb67-7789-8d10-fcbb7de4ff7b")), vec![])),
    ])
}

#[test]
fn should_return_enabled_true_flag_id_is_enabled() {
    assert!(flags().is_on("simple-flag", &None));
}

#[test]
fn should_return_enabled_false_flag_id_is_disabled() {
    assert!(!flags().is_on("simple-flag-disabled", &None));
}

#[test]
fn should_return_enabled_true_when_rule_match() {
    let r = eval(&flags(), "simple-rule-conditio", vec![attr("any-id", text("018fcf11-bb67-7789-8d10-fcbb7de4ff7b"))]);
    assert!(r.on);
    assert_eq!(r.source, "force");
}

#[test]
fn should_return_enabled_false_when_rule_not_match() {
    let r = eval(&flags(), "simple-rule-conditio", vec![attr("any-id", text("018fcf12-0c45-7811-9c71-d6264ba729b1"))]);
    assert!(!r.on);
    assert_eq!(r.source, "defaultValue");
}

#[test]
fn should_return_enabled_false_when_user_has_not_required_attribute() {
    let r = eval(&flags(), "simple-rule-conditio", vec![attr("any-other-id", text("018fcf12-0c45-7811-9c71-d6264ba729b1"))]);
    assert!(!r.on);
}

#[test]
fn rollout_percentage_zero_is_off() {
    assert!(!eval(&flags(), "rollout-zero-percentage-flag-condition-by-attribute", vec![attr("any-id", text("any"))]).on);
}

#[test]
fn rollout_percentage_full_is_on() {
    assert!(eval(&flags(), "rollout-one-hundred-percentage-flag-condition-by-attribute", vec![attr("any-id", text("any"))]).on);
}

#[test]
fn should_return_enabled_true_when_percentage_is_50_and_attribute_is_inside_range() {
    assert!(eval(&flags(), "rollout-flag-condition-by-attribute", vec![attr("any-id", text("018fde8a-77e6-7c15-93d3-d4cc4f018442"))]).on);
}

#[test]
fn should_return_enabled_false_when_percentage_is_50_and_attribute_is_outside_range() {
    assert!(!eval(&flags(), "rollout-flag-condition-by-attribute", vec![attr("any-id", text("01901d5f-fc5a-7dd4-9f60-7f0381d4ad33"))]).on);
}

#[test]
fn rollout_without_hash_attribute_is_off() {
    assert!(!eval(&flags(), "rollout-flag-condition-by-attribute", vec![attr("any-other-id", text("x"))]).on);
}

#[test]
fn experiment_variant_disabled() {
    let r = eval(&flags(), "experiment-rule-condition-flag", vec![attr("any-id", text("01901d5c-fb74-743d-a532-ed582d29a7e1"))]);
    assert!(!r.on);
    assert!(matches!(r.value, JsonValue::Bool(false)));
    assert_eq!(r.source, "experiment");
    let er = r.experiment_result.expect("experiment result");
    assert_eq!(er.key, "0");
    assert_eq!(er.variation_id, 0);
    assert_eq!(er.bucket, Some(63_100_000));
}

#[test]
fn experiment_variant_enabled() {
    let r = eval(&flags(), "experiment-rule-condition-ninety-coverage-flag", vec![attr("any-id", text("01901d5e-5b0e-75bf-92a3-7658d932634d"))]);
    assert!(r.on);
    assert!(matches!(r.value, JsonValue::Bool(true)));
    assert_eq!(r.experiment_result.expect("experiment result").key, "2");
}

#[test]
fn experiment_zero_coverage_falls_back() {
    let r = eval(&flags(), "experiment-rule-condition-zero-coverage-flag", vec![attr("any-id", text("018fd040-de77-72c7-af6e-6a67d430c0e6"))]);
    assert!(!r.on);
    assert!(r.experiment_result.is_none());
    assert_eq!(r.source, "defaultValue");
}

#[test]
fn experiment_assignment_is_stable() {
    let gb = flags();
    let user = || vec![attr("any-id", text("01901d5e-5b0e-75bf-92a3-7658d932634d"))];
    let a = eval(&gb, "experiment-rule-condition-flag", user()).experiment_result.expect("first").variation_id;
    let b = eval(&gb, "experiment-rule-condition-flag", user()).experiment_result.expect("second").variation_id;
    assert_eq!(a, b);
}

#[test]
fn forced_variation_overrides_hash() {
    let mut gb = flags();
    gb.forced_variations = Some(vec![ForcedVariation { feature: String::from("experiment-rule-condition-flag"), variation: 1 }]);
    let r = eval(&gb, "experiment-rule-condition-flag", vec![attr("any-id", text("01901d5c-fb74-743d-a532-ed582d29a7e1"))]);
    let er = r.experiment_result.expect("experiment result");
    assert_eq!(er.variation_id, 1);
    assert_eq!(er.bucket, None);
    assert!(r.on);
}

#[test]
fn passthrough_variation_defers() {
    let mut rule = match experiment(1_000_000_000) {
        GrowthBookFeatureRule::Experiment(e) => e,
        _ => unreachable!(),
    };
    rule.meta = Some(vec![
        VariationMeta { key: None, passthrough: true },
        VariationMeta { key: None, passthrough: false },
        VariationMeta { key: None, passthrough: false },
    ]);
    let gb = table(vec![("p", feature(JsonValue::Int(7), vec![GrowthBookFeatureRule::Experiment(rule)]))]);
    let r = eval(&gb, "p", vec![attr("any-id", text("01901d5c-fb74-743d-a532-ed582d29a7e1"))]);
    assert_eq!(r.source, "defaultValue");
    assert!(matches!(r.value, JsonValue::Int(7)));
}

#[test]
fn namespace_outside_skips_experiment() {
    let mut rule = match experiment(1_000_000_000) {
        GrowthBookFeatureRule::Experiment(e) => e,
        _ => unreachable!(),
    };
    rule.namespace = Some(NamespaceRange { id: String::from("ns1"), range: Range { start: 0, end: 0 } });
    let gb = table(vec![("n", feature(JsonValue::Null, vec![GrowthBookFeatureRule::Experiment(rule)]))]);
    let r = eval(&gb, "n", vec![attr("any-id", text("x"))]);
    assert_eq!(r.source, "defaultValue");
    assert!(r.off);
}

#[test]
fn should_return_off_when_value_is_string_value_is_empty() {
    assert!(flags().is_off("is-off-empty-string-flag", &None));
}

#[test]
fn non_empty_string_value_is_on() {
    assert!(flags().is_on("is-off-string-flag", &None));
}

#[test]
fn string_value_is_returned() {
    let r = flags().feature_result("fixed-value", &None);
    match r.value {
        JsonValue::String(s) => assert_eq!(s, "018fcf11-bb67-7789-8d10-fcbb7de4ff7b"),
        other => panic!("unexpected {:?}", other),
    }
}

#[test]
fn unknown_feature_is_off_and_null() {
    let r = flags().check("does-not-exist", &None);
    assert!(!r.on);
    assert!(r.off);
    assert!(matches!(r.value, JsonValue::Null));
    assert_eq!(r.source, "unknownFeature");
}

#[test]
fn mutual_prerequisites_are_cyclic() {
    let gb = table(vec![
        ("a", feature(JsonValue::Bool(true), vec![parent("b", None)])),
        ("b", feature(JsonValue::Bool(true), vec![parent("a", None)])),
    ]);
    let r = eval(&gb, "a", vec![]);
    assert_eq!(r.source, "cyclicPrerequisite");
    assert!(!r.on);
}

#[test]
fn prerequisite_met_continues_to_default() {
    let condition = vec![attr("value", GrowthBookAttributeValue::Bool(true))];
    let gb = table(vec![
        ("child", feature(JsonValue::Int(3), vec![parent("base", Some(condition))])),
        ("base", feature(JsonValue::Bool(true), vec![])),
    ]);
    let r = eval(&gb, "child", vec![]);
    assert_eq!(r.source, "defaultValue");
    assert!(matches!(r.value, JsonValue::Int(3)));
}

#[test]
fn prerequisite_unmet_is_off() {
    let condition = vec![attr("value", GrowthBookAttributeValue::Bool(true))];
    let gb = table(vec![
        ("child", feature(JsonValue::Int(3), vec![parent("base", Some(condition))])),
        ("base", feature(JsonValue::Bool(false), vec![])),
    ]);
    let r = eval(&gb, "child", vec![]);
    assert_eq!(r.source, "prerequisite");
    assert!(r.off);
}

#[test]
fn total_features_counts_table() {
    assert_eq!(flags().total_features(), 12);
}

#[test]
fn hash_version_one_vectors() {
    assert_eq!(HashCode::hash_code("a", "", HashCodeVersion::V1), Some(220_000_000));
    assert_eq!(HashCode::hash_code("b", "", HashCodeVersion::V1), Some(77_000_000));
    assert_eq!(HashCode::hash_code("a", "b", HashCodeVersion::V1), Some(946_000_000));
    assert_eq!(HashCode::hash_code("d", "ef", HashCodeVersion::V1), Some(652_000_000));
}

#[test]
fn hash_version_two_vectors() {
    assert_eq!(HashCode::hash_code("a", "", HashCodeVersion::V2), Some(21_600_000));
    assert_eq!(HashCode::hash_code("b", "", HashCodeVersion::V2), Some(905_400_000));
    assert_eq!(HashCode::hash_code("8952klfjas09ujkasdf", "asdf", HashCodeVersion::V2), Some(549_100_000));
}

#[test]
fn hash_invalid_version_is_none() {
    assert_eq!(HashCode::hash_code("a", "", HashCodeVersion::from_i64(3)), None);
    assert_eq!(HashCodeVersion::from_option(None), HashCodeVersion::V1);
}

#[test]
fn hash_is_below_one() {
    for input in ["", "x", "user-1", "a much longer identifier"] {
        let h = HashCode::hash_code(input, "seed", HashCodeVersion::V2).expect("valid version");
        assert!(h < 1_000_000_000);
    }
}

#[test]
fn bucket_ranges_equal_weights() {
    let r = Range::get_bucket_range(3, &None, None);
    assert_eq!(r, vec![
        Range { start: 0, end: 333_300_000 },
        Range { start: 333_333_333, end: 666_700_000 },
        Range { start: 666_666_666, end: 1_000_000_000 },
    ]);
}

#[test]
fn bucket_ranges_with_coverage() {
    let r = Range::get_bucket_range(2, &Some(500_000_000), None);
    assert_eq!(r, vec![Range { start: 0, end: 250_000_000 }, Range { start: 500_000_000, end: 750_000_000 }]);
}

#[test]
fn bucket_ranges_bad_weights_fall_back() {
    let bad_sum = Range::get_bucket_range(2, &None, Some(vec![500_000_000, 600_000_000]));
    let bad_len = Range::get_bucket_range(2, &None, Some(vec![1_000_000_000]));
    let equal = Range::get_bucket_range(2, &None, None);
    assert_eq!(bad_sum, equal);
    assert_eq!(bad_len, equal);
    let good = Range::get_bucket_range(2, &None, Some(vec![400_000_000, 600_000_000]));
    assert_eq!(good, vec![Range { start: 0, end: 400_000_000 }, Range { start: 400_000_000, end: 1_000_000_000 }]);
}

#[test]
fn coverage_growth_keeps_ranges() {
    let small = Range::get_bucket_range(2, &Some(200_000_000), None);
    let large = Range::get_bucket_range(2, &Some(800_000_000), None);
    for (a, b) in small.iter().zip(large.iter()) {
        assert_eq!(a.start, b.start);
        assert!(a.end <= b.end);
    }
}

#[test]
fn coverage_is_clamped() {
    assert_eq!(Range::get_bucket_range(1, &Some(5_000_000_000), None), vec![Range { start: 0, end: 1_000_000_000 }]);
}

#[test]
fn evaluate_get_equal_weights() {
    assert_eq!(get_equal_weights(4), vec![250_000_000; 4]);
    assert!(get_equal_weights(0).is_empty());
}

#[test]
fn evaluate_choose_variation() {
    let ranges = vec![Range { start: 0, end: 500_000_000 }, Range { start: 500_000_000, end: 1_000_000_000 }];
    assert_eq!(choose_variation(500_000_000, &ranges), Some(1));
    assert_eq!(choose_variation(0, &ranges), Some(0));
    assert_eq!(choose_variation(10, &vec![]), None);
}

#[test]
fn namespace_membership() {
    let user = text("user-1");
    assert!(Namespace::is_in(&user, "ns1", &Range { start: 684_000_000, end: 685_000_000 }));
    assert!(!Namespace::is_in(&user, "ns1", &Range { start: 0, end: 684_000_000 }));
}

#[test]
fn filters_admit_or_exclude() {
    let user = vec![attr("id", text("user-1"))];
    let admits = vec![FilterRule { seed: String::from("abc"), hash_version: 2, ranges: vec![Range { start: 700_000_000, end: 800_000_000 }] }];
    assert!(!Filter::is_filtered_out(&admits, "id", Some(&user)));
    let excludes = vec![FilterRule { seed: String::from("abc"), hash_version: 2, ranges: vec![Range { start: 0, end: 100_000_000 }] }];
    assert!(Filter::is_filtered_out(&excludes, "id", Some(&user)));
    assert!(Filter::is_filtered_out(&admits, "missing", Some(&user)));
    assert!(Filter::is_filtered_out(&vec![], "id", Some(&user)));
    assert!(Filter::is_filtered_out(&admits, "id", None));
}

#[test]
fn duplicate_feature_names_are_refused() {
    let entries = vec![
        FeatureEntry { name: String::from("x"), feature: feature(JsonValue::Bool(true), vec![]) },
        FeatureEntry { name: String::from("x"), feature: feature(JsonValue::Bool(false), vec![]) },
    ];
    let err = GrowthBook::new(None, entries).expect_err("duplicate");
    assert_eq!(err.code, GrowthbookErrorCode::DuplicateFeatureName);
}

#[test]
fn experiment_result_record_is_complete() {
    let r = eval(&flags(), "experiment-rule-condition-flag", vec![attr("any-id", text("01901d5c-fb74-743d-a532-ed582d29a7e1"))]);
    let er = r.experiment_result.expect("experiment result");
    assert!(er.hash_used);
    assert!(!er.sticky_bucket_used);
    assert_eq!(er.hash_attribute.as_deref(), Some("any-id"));
    match er.hash_value {
        Some(JsonValue::String(s)) => assert_eq!(s, "01901d5c-fb74-743d-a532-ed582d29a7e1"),
        other => panic!("unexpected {:?}", other),
    }
    let x = r.experiment.expect("experiment record");
    assert_eq!(x.variations.len(), 3);
    assert_eq!(x.seed.as_deref(), Some("any-seed"));
    assert_eq!(x.coverage, Some(1_000_000_000));
}

#[test]
fn empty_attribute_becomes_null() {
    assert!(matches!(GrowthBookAttributeValue::Empty.to_value(), JsonValue::Null));
}

fn force_with(coverage: Option<u64>, range: Option<Vec<u64>>) -> GrowthBook {
    let rule = GrowthBookFeatureRule::Force(GrowthBookFeatureRuleForce {
        force: value(JsonValue::Bool(true)),
        coverage,
        range,
        hash_version: None,
        filters: None,
        seed: Some(String::from("abc")),
        condition: None,
    });
    table(vec![("f", feature(JsonValue::Bool(false), vec![rule]))])
}

#[test]
fn force_rule_honours_coverage_and_range() {
    let user = || vec![attr("id", text("user-1"))];
    assert!(!eval(&force_with(Some(0), None), "f", user()).on);
    assert!(eval(&force_with(Some(1_000_000_000), None), "f", user()).on);
    assert!(eval(&force_with(None, Some(vec![604_000_000, 605_000_000])), "f", user()).on);
    assert!(!eval(&force_with(None, Some(vec![0, 604_000_000])), "f", user()).on);
    assert!(!eval(&force_with(Some(1_000_000_000), None), "f", vec![]).on);
    assert!(eval(&force_with(None, None), "f", vec![]).on);
}

#[test]
fn repeated_evaluation_is_identical() {
    let gb = flags();
    let user = || vec![attr("any-id", text("018fde8a-77e6-7c15-93d3-d4cc4f018442"))];
    for name in ["rollout-flag-condition-by-attribute", "experiment-rule-condition-flag", "simple-flag", "missing"] {
        let a = eval(&gb, name, user());
        let b = eval(&gb, name, user());
        assert_eq!(a.source, b.source);
        assert_eq!(a.on, b.on);
        assert_eq!(format!("{:?}", a.value), format!("{:?}", b.value));
    }
}
