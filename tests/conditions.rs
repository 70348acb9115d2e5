use growthbook_rust_sdk::attribute::{find_value, GrowthBookAttribute, GrowthBookAttributeValue};
use growthbook_rust_sdk::error::GrowthbookErrorCode;
use growthbook_rust_sdk::model::{JsonMember, JsonValue};
use growthbook_rust_sdk::version::normalize;

fn attr(key: &str, value: GrowthBookAttributeValue) -> GrowthBookAttribute {
    GrowthBookAttribute::new(String::from(key), value)
}

fn text(s: &str) -> GrowthBookAttributeValue {
    GrowthBookAttributeValue::String(String::from(s))
}

fn object(entries: Vec<GrowthBookAttribute>) -> GrowthBookAttributeValue {
    GrowthBookAttributeValue::Object(entries)
}

fn holds(condition: Vec<GrowthBookAttribute>, user: Vec<GrowthBookAttribute>) -> bool {
    growthbook_rust_sdk::condition::matches(&condition, &user)
}

#[test]
fn gt_version_string_greater_matches() {
    let condition = vec![attr("version", object(vec![attr("$gt", text("1.2.3"))]))];
    assert!(holds(condition, vec![attr("version", text("1.2.4"))]));
}

#[test]
fn gt_version_string_less_does_not_match() {
    let condition = vec![attr("version", object(vec![attr("$gt", text("1.2.3"))]))];
    assert!(!holds(condition, vec![attr("version", text("1.2.2"))]));
}

#[test]
fn gt_version_string_equal_does_not_match() {
    let condition = vec![attr("version", object(vec![attr("$gt", text("1.2.3"))]))];
    assert!(!holds(condition, vec![attr("version", text("1.2.3"))]));
}

#[test]
fn gt_missing_attribute_passes() {
    let condition = vec![attr("version", object(vec![attr("$gt", text("1.2.3"))]))];
    assert!(holds(condition, vec![attr("any", text("1.2.4"))]));
}

#[test]
fn gte_and_lte_bounds() {
    let gte = vec![attr("version", object(vec![attr("$gte", text("1.2.3"))]))];
    assert!(holds(gte, vec![attr("version", text("1.2.3"))]));
    let lte = vec![attr("version", object(vec![attr("$lte", text("1.2.3"))]))];
    assert!(!holds(lte, vec![attr("version", text("1.2.4"))]));
}

#[test]
fn lt_compares_text_without_digits() {
    let condition = vec![attr("name", object(vec![attr("$lt", text("m"))]))];
    assert!(holds(condition, vec![attr("name", text("apple"))]));
    let condition = vec![attr("name", object(vec![attr("$lt", text("m"))]))];
    assert!(!holds(condition, vec![attr("name", text("zebra"))]));
}

#[test]
fn elem_match_eq_finds_element() {
    let condition = vec![attr("any-data", object(vec![attr("$elemMatch", object(vec![attr("$eq", GrowthBookAttributeValue::Int(3))]))]))];
    let user = vec![attr(
        "any-data",
        GrowthBookAttributeValue::Array(vec![GrowthBookAttributeValue::Int(1), GrowthBookAttributeValue::Int(2), GrowthBookAttributeValue::Int(3)]),
    )];
    assert!(holds(condition, user));
}

#[test]
fn elem_match_eq_without_element() {
    let condition = vec![attr("any-data", object(vec![attr("$elemMatch", object(vec![attr("$eq", GrowthBookAttributeValue::Int(3))]))]))];
    let user = vec![attr("any-data", GrowthBookAttributeValue::Array(vec![GrowthBookAttributeValue::Int(1), GrowthBookAttributeValue::Int(2)]))];
    assert!(!holds(condition, user));
}

#[test]
fn not_elem_match_eq() {
    let condition = vec![attr(
        "any-data",
        object(vec![attr("$not", object(vec![attr("$elemMatch", object(vec![attr("$eq", text("3"))]))]))]),
    )];
    let user = vec![attr("any-data", GrowthBookAttributeValue::Array(vec![text("1"), text("2")]))];
    assert!(holds(condition, user));
}

#[test]
fn exists_false_on_empty_attributes() {
    let condition = vec![attr("age", object(vec![attr("$exists", GrowthBookAttributeValue::Bool(false))]))];
    assert!(holds(condition, vec![]));
}

#[test]
fn exists_false_with_present_attribute() {
    let condition = vec![attr("age", object(vec![attr("$exists", GrowthBookAttributeValue::Bool(false))]))];
    assert!(!holds(condition, vec![attr("age", GrowthBookAttributeValue::Int(5))]));
}

#[test]
fn plain_string_equality_requires_all_keys() {
    let condition = vec![attr("any-id", text("a")), attr("any-key", text("b"))];
    assert!(holds(condition, vec![attr("any-id", text("a")), attr("any-key", text("b"))]));
    let condition = vec![attr("any-id", text("a")), attr("any-key", text("b"))];
    assert!(!holds(condition, vec![attr("any-id", text("a"))]));
}

#[test]
fn empty_condition_matches() {
    assert!(holds(vec![], vec![attr("x", text("y"))]));
}

#[test]
fn regex_matches_and_bad_pattern_fails() {
    let condition = vec![attr("version", object(vec![attr("$regex", text("^[3-9]\\d*(\\.\\d+)*$"))]))];
    assert!(holds(condition, vec![attr("version", text("3.0"))]));
    let condition = vec![attr("version", object(vec![attr("$regex", text("^[3-9]\\d*(\\.\\d+)*$"))]))];
    assert!(!holds(condition, vec![attr("version", text("1.2.3"))]));
    let condition = vec![attr("version", object(vec![attr("$regex", text("(unclosed"))]))];
    assert!(!holds(condition, vec![attr("version", text("(unclosed"))]));
}

#[test]
fn in_and_nin_by_text() {
    let list = || GrowthBookAttributeValue::Array(vec![text("a"), GrowthBookAttributeValue::Int(1)]);
    assert!(holds(vec![attr("k", object(vec![attr("$in", list())]))], vec![attr("k", text("1"))]));
    assert!(!holds(vec![attr("k", object(vec![attr("$nin", list())]))], vec![attr("k", text("a"))]));
    assert!(holds(vec![attr("k", object(vec![attr("$nin", list())]))], vec![attr("k", text("b"))]));
}

#[test]
fn or_and_nor_clauses() {
    let clause = |v: &str| object(vec![attr("k", text(v))]);
    let or = vec![attr("$or", GrowthBookAttributeValue::Array(vec![clause("x"), clause("y")]))];
    assert!(holds(or, vec![attr("k", text("y"))]));
    let nor = vec![attr("$nor", GrowthBookAttributeValue::Array(vec![clause("x"), clause("y")]))];
    assert!(holds(nor, vec![attr("k", text("z"))]));
    let and = vec![attr("$and", GrowthBookAttributeValue::Array(vec![clause("x"), clause("y")]))];
    assert!(!holds(and, vec![attr("k", text("x"))]));
}

#[test]
fn type_and_size_operators() {
    let arr = || GrowthBookAttributeValue::Array(vec![GrowthBookAttributeValue::Int(1), GrowthBookAttributeValue::Int(2)]);
    assert!(holds(vec![attr("k", object(vec![attr("$type", text("array"))]))], vec![attr("k", arr())]));
    assert!(holds(vec![attr("k", object(vec![attr("$type", text("null"))]))], vec![]));
    assert!(holds(vec![attr("k", object(vec![attr("$size", GrowthBookAttributeValue::Int(2))]))], vec![attr("k", arr())]));
    let size_gt = vec![attr("k", object(vec![attr("$size", object(vec![attr("$gt", GrowthBookAttributeValue::Int(1))]))]))];
    assert!(holds(size_gt, vec![attr("k", arr())]));
}

#[test]
fn all_requires_every_element() {
    let cond = || vec![attr("k", object(vec![attr("$all", GrowthBookAttributeValue::Array(vec![text("a"), text("b")]))]))];
    assert!(holds(cond(), vec![attr("k", GrowthBookAttributeValue::Array(vec![text("b"), text("c"), text("a")]))]));
    assert!(!holds(cond(), vec![attr("k", GrowthBookAttributeValue::Array(vec![text("a")]))]));
}

#[test]
fn semantic_version_operators() {
    assert!(holds(vec![attr("v", object(vec![attr("$vgt", text("1.2.3"))]))], vec![attr("v", text("1.10.0"))]));
    assert!(holds(vec![attr("v", object(vec![attr("$vlt", text("1.2.3"))]))], vec![attr("v", text("1.2.3-beta"))]));
    assert!(holds(vec![attr("v", object(vec![attr("$veq", text("v1.2.3"))]))], vec![attr("v", text("1.2.3+build"))]));
}

#[test]
fn version_normalization() {
    assert_eq!(normalize("v1.2.3"), "00001-00002-00003-~");
    assert_eq!(normalize("1.2.3-beta"), "00001-00002-00003-beta");
    assert_eq!(normalize("1.2.3+build.5"), "00001-00002-00003-~");
    assert_eq!(normalize(""), "");
}

#[test]
fn dotted_path_lookup() {
    let tree = vec![attr("a", object(vec![attr("b", text("x"))]))];
    match find_value(&tree, "a.b") {
        Some(GrowthBookAttributeValue::String(s)) => assert_eq!(s, "x"),
        other => panic!("unexpected {:?}", other),
    }
    let null_tree = vec![attr("a", GrowthBookAttributeValue::Empty)];
    assert!(find_value(&null_tree, "a.b").is_none());
    let scalar_tree = vec![attr("a", text("s"))];
    assert!(matches!(find_value(&scalar_tree, "a.b"), Some(GrowthBookAttributeValue::String(_))));
}

#[test]
fn attribute_text_rendering() {
    let v = GrowthBookAttributeValue::Array(vec![GrowthBookAttributeValue::Int(-12), GrowthBookAttributeValue::Bool(true), text("x")]);
    assert_eq!(v.to_text(), "-12truex");
}

#[test]
fn attributes_from_non_object_are_refused() {
    let err = GrowthBookAttribute::from(&JsonValue::Int(1)).expect_err("must fail");
    assert_eq!(err.code, GrowthbookErrorCode::GrowthBookAttributeIsNotObject);
    let ok = GrowthBookAttribute::from(&JsonValue::Object(vec![JsonMember { key: String::from("id"), value: JsonValue::Object(vec![]) }]))
        .expect("object");
    assert_eq!(ok.len(), 1);
    assert!(matches!(ok[0].value, GrowthBookAttributeValue::Empty));
}

#[test]
fn ne_is_the_negation_of_eq() {
    let cond = || vec![attr("k", object(vec![attr("$ne", GrowthBookAttributeValue::Int(1))]))];
    assert!(!holds(cond(), vec![attr("k", text("1"))]));
    assert!(holds(cond(), vec![attr("k", text("2"))]));
    assert!(holds(cond(), vec![]));
    assert!(holds(cond(), vec![attr("k", GrowthBookAttributeValue::Empty)]));
}

#[test]
fn empty_object_condition_accepts_absent_or_null() {
    let cond = || vec![attr("k", object(vec![]))];
    assert!(holds(cond(), vec![]));
    assert!(holds(cond(), vec![attr("k", GrowthBookAttributeValue::Empty)]));
    assert!(!holds(cond(), vec![attr("k", text("x"))]));
}

#[test]
fn only_numeric_version_parts_are_padded() {
    assert_eq!(normalize("1.2.3rc1"), "00001-00002-3rc1-~");
    assert_eq!(normalize("2.0.0-alpha.1"), "00002-00000-00000-alpha-00001");
}

#[test]
fn wrongly_typed_operator_values_fail() {
    let regex = vec![attr("k", object(vec![attr("$regex", GrowthBookAttributeValue::Int(1))]))];
    assert!(!holds(regex, vec![attr("k", text("1"))]));
    let exists = vec![attr("k", object(vec![attr("$exists", text("yes"))]))];
    assert!(!holds(exists, vec![attr("k", text("1"))]));
}
