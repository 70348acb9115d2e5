//! Feature resolution: walks a feature's rule chain, following
//! prerequisites through the table with cycle detection.
use vstd::prelude::*;
use crate::attribute::GrowthBookAttribute;
use crate::dto::{FeatureValue, ForcedVariation, GrowthBookFeature, GrowthBookFeatureRule, GrowthBookFeatureRuleExperiment, GrowthBookFeatureRuleParent,
    GrowthBookFeatureRuleParentData};
use crate::feature::{condition_ok, experiment_choice, experiment_result_ok, force_fires, rollout_fires};
use crate::model::{derived_on, off_with_source, same_json, truthy, FeatureResult, JsonValue};
use crate::error::{GrowthbookError, GrowthbookErrorCode};
use crate::text::str_eq;

verus! {

/// A named feature of the table.
#[derive(Debug)]
pub struct FeatureEntry {
    pub name: String,
    pub feature: GrowthBookFeature,
}

/// A snapshot of the feature table with its forced variations.
#[derive(Debug)]
pub struct GrowthBook {
    pub forced_variations: Option<Vec<ForcedVariation>>,
    pub features: Vec<FeatureEntry>,
    /// The value that prerequisite conditions see for an outcome without
    /// one: null.
    pub null_value: FeatureValue,
}

/// How a feature was decided.
pub enum Decision {
    /// A force or rollout rule forced this value.
    Forced(FeatureValue),
    /// An experiment assigned the variation at this index (by an override
    /// when the flag is set).
    Assigned(GrowthBookFeatureRuleExperiment, int, bool),
    /// No rule decided: the default value, or null.
    Default(Option<FeatureValue>),
    /// A prerequisite's condition was not met.
    Prerequisite,
    /// The prerequisite chain came back to a feature being resolved.
    Cyclic,
    /// The table holds no such feature.
    Unknown,
}

/// The value a decision gives, with `null` standing for none.
pub open spec fn decision_value(d: Decision, null: FeatureValue) -> FeatureValue {
    match d {
        Decision::Forced(v) => v,
        Decision::Assigned(e, idx, _) => e.variations@[idx],
        Decision::Default(Some(v)) => v,
        _ => null,
    }
}

/// What a feature result reports for a decision.
pub open spec fn result_of(r: FeatureResult, d: Decision, feature_name: Seq<char>, user: Seq<GrowthBookAttribute>) -> bool {
    match d {
        Decision::Forced(v) => same_json(r.value, v.json_spec()) && derived_on(r) && r.source@ == "force"@ && r.experiment_result is None && r.experiment is None,
        Decision::Assigned(e, idx, forced) => experiment_result_ok(r, e, feature_name, user, idx, forced),
        Decision::Default(Some(v)) => same_json(r.value, v.json_spec()) && derived_on(r) && r.source@ == "defaultValue"@ && r.experiment_result is None && r.experiment is None,
        Decision::Default(None) => r.value is Null && !r.on && r.off && r.source@ == "defaultValue"@ && r.experiment_result is None && r.experiment is None,
        Decision::Prerequisite => off_with_source(r, "prerequisite"@),
        Decision::Cyclic => off_with_source(r, "cyclicPrerequisite"@),
        Decision::Unknown => off_with_source(r, "unknownFeature"@),
    }
}

/// Whether a decision turns the feature on: its value is truthy.
pub open spec fn decision_on(d: Decision) -> bool {
    match d {
        Decision::Forced(v) => truthy(v.json_spec()),
        Decision::Assigned(e, idx, _) => truthy(e.variations@[idx].json_spec()),
        Decision::Default(Some(v)) => truthy(v.json_spec()),
        _ => false,
    }
}

/// No two entries of the table share a name.
pub open spec fn names_unique(table: Seq<FeatureEntry>) -> bool {
    forall|a: int, b: int| 0 <= a < b < table.len() ==> table[a].name@ != table[b].name@
}

/// Index of the first entry named `name`, if any.
pub open spec fn lookup_feature(table: Seq<FeatureEntry>, name: Seq<char>, i: int) -> Option<int>
    decreases table.len() - i,
{
    if i < 0 || i >= table.len() {
        None
    } else if table[i].name@ == name {
        Some(i)
    } else {
        lookup_feature(table, name, i + 1)
    }
}

/// The feature being resolved, or one of the chain that led to it.
pub open spec fn visited(chain: Seq<Seq<char>>, name: Seq<char>, x: Seq<char>) -> bool {
    chain.contains(x) || x == name
}

/// Number of the first `n` table entries that are not yet visited.
pub open spec fn unvisited(table: Seq<FeatureEntry>, chain: Seq<Seq<char>>, name: Seq<char>, n: int) -> nat
    decreases n,
{
    if n <= 0 || n > table.len() {
        0
    } else {
        unvisited(table, chain, name, n - 1) + if visited(chain, name, table[n - 1].name@) { 0nat } else { 1nat }
    }
}

pub open spec fn fresh(chain: Seq<Seq<char>>, name: Seq<char>) -> nat {
    if chain.contains(name) { 0 } else { 1 }
}

pub open spec fn rule_count(table: Seq<FeatureEntry>, k: int) -> int {
    match table[k].feature.rules {
        Some(rules) => rules@.len() as int,
        None => 0,
    }
}

pub open spec fn parent_count(table: Seq<FeatureEntry>, k: int, i: int) -> int {
    match table[k].feature.rules {
        Some(rules) => match rules@[i] {
            GrowthBookFeatureRule::Parent(p) => p.parent_conditions@.len() as int,
            _ => 0,
        },
        None => 0,
    }
}

/// Resolves the feature named `name`, reached through `chain`.
pub open spec fn resolve_feature(
    table: Seq<FeatureEntry>,
    null: FeatureValue,
    name: Seq<char>,
    chain: Seq<Seq<char>>,
    user: Seq<GrowthBookAttribute>,
    forced: Option<Vec<ForcedVariation>>,
) -> Decision
    decreases unvisited(table, chain, name, table.len() as int), fresh(chain, name), 2nat, 0nat, 0nat,
{
    match lookup_feature(table, name, 0) {
        None => Decision::Unknown,
        Some(k) => resolve_rules(table, null, k, name, chain, user, forced, 0),
    }
}

/// Resolves the rules of entry `k` from rule `i` on.
pub open spec fn resolve_rules(
    table: Seq<FeatureEntry>,
    null: FeatureValue,
    k: int,
    name: Seq<char>,
    chain: Seq<Seq<char>>,
    user: Seq<GrowthBookAttribute>,
    forced: Option<Vec<ForcedVariation>>,
    i: int,
) -> Decision
    decreases unvisited(table, chain, name, table.len() as int), fresh(chain, name), 1nat,
        (if 0 <= k < table.len() && 0 <= i { rule_count(table, k) - i } else { 0 }) as nat,
        (if 0 <= k < table.len() && 0 <= i < rule_count(table, k) { parent_count(table, k, i) + 1 } else { 0 }) as nat,
{
    if k < 0 || k >= table.len() || i < 0 {
        Decision::Unknown
    } else {
        let f = table[k].feature;
        match f.rules {
            None => Decision::Default(f.default_value),
            Some(rules) => if i >= rules@.len() {
                Decision::Default(f.default_value)
            } else {
                match rules@[i] {
                    GrowthBookFeatureRule::Force(r) => if force_fires(r, name, user) {
                        Decision::Forced(r.force)
                    } else {
                        resolve_rules(table, null, k, name, chain, user, forced, i + 1)
                    },
                    GrowthBookFeatureRule::Rollout(r) => if rollout_fires(r, name, user) {
                        Decision::Forced(r.force)
                    } else {
                        resolve_rules(table, null, k, name, chain, user, forced, i + 1)
                    },
                    GrowthBookFeatureRule::Experiment(e) => match experiment_choice(e, name, user, forced) {
                        Some((idx, by_override)) => Decision::Assigned(e, idx, by_override),
                        None => resolve_rules(table, null, k, name, chain, user, forced, i + 1),
                    },
                    GrowthBookFeatureRule::Parent(_) => resolve_parents(table, null, k, name, chain, user, forced, i, 0),
                    GrowthBookFeatureRule::Empty => resolve_rules(table, null, k, name, chain, user, forced, i + 1),
                }
            },
        }
    }
}

/// Checks the prerequisites of rule `i` of entry `k` from the `j`-th on,
/// then goes on with the next rule.
pub open spec fn resolve_parents(
    table: Seq<FeatureEntry>,
    null: FeatureValue,
    k: int,
    name: Seq<char>,
    chain: Seq<Seq<char>>,
    user: Seq<GrowthBookAttribute>,
    forced: Option<Vec<ForcedVariation>>,
    i: int,
    j: int,
) -> Decision
    decreases unvisited(table, chain, name, table.len() as int), fresh(chain, name), 1nat,
        (if 0 <= k < table.len() && 0 <= i { rule_count(table, k) - i } else { 0 }) as nat,
        (if 0 <= j { parent_count(table, k, i) - j } else { 0 }) as nat,
    via resolve_parents_decreases
{
    if k < 0 || k >= table.len() || i < 0 || j < 0 || i >= rule_count(table, k) || !(table[k].feature.rules->Some_0@[i] is Parent) {
        Decision::Unknown
    } else {
        let pcs = table[k].feature.rules->Some_0@[i]->Parent_0.parent_conditions@;
        if j >= pcs.len() {
            resolve_rules(table, null, k, name, chain, user, forced, i + 1)
        } else {
            let pc = pcs[j];
            if chain.contains(pc.id@) {
                Decision::Cyclic
            } else {
                let pr = match lookup_feature(table, pc.id@, 0) {
                    None => Decision::Unknown,
                    Some(pk) => resolve_rules(table, null, pk, pc.id@, chain.push(name), user, forced, 0),
                };
                if pr is Cyclic {
                    Decision::Cyclic
                } else if !condition_ok(pc.condition, decision_value(pr, null).tree_spec()@) {
                    Decision::Prerequisite
                } else {
                    resolve_parents(table, null, k, name, chain, user, forced, i, j + 1)
                }
            }
        }
    }
}

/// One step of `resolve_rules`.
pub open spec fn rules_step(
    table: Seq<FeatureEntry>,
    null: FeatureValue,
    k: int,
    name: Seq<char>,
    chain: Seq<Seq<char>>,
    user: Seq<GrowthBookAttribute>,
    forced: Option<Vec<ForcedVariation>>,
    i: int,
) -> Decision {
    let f = table[k].feature;
    match f.rules {
        None => Decision::Default(f.default_value),
        Some(rules) => if i >= rules@.len() {
            Decision::Default(f.default_value)
        } else {
            match rules@[i] {
                GrowthBookFeatureRule::Force(r) => if force_fires(r, name, user) {
                    Decision::Forced(r.force)
                } else {
                    resolve_rules(table, null, k, name, chain, user, forced, i + 1)
                },
                GrowthBookFeatureRule::Rollout(r) => if rollout_fires(r, name, user) {
                    Decision::Forced(r.force)
                } else {
                    resolve_rules(table, null, k, name, chain, user, forced, i + 1)
                },
                GrowthBookFeatureRule::Experiment(e) => match experiment_choice(e, name, user, forced) {
                    Some((idx, by_override)) => Decision::Assigned(e, idx, by_override),
                    None => resolve_rules(table, null, k, name, chain, user, forced, i + 1),
                },
                GrowthBookFeatureRule::Parent(_) => resolve_parents(table, null, k, name, chain, user, forced, i, 0),
                GrowthBookFeatureRule::Empty => resolve_rules(table, null, k, name, chain, user, forced, i + 1),
            }
        },
    }
}

/// One step of `resolve_parents` at a prerequisite that exists.
pub open spec fn parents_step(
    table: Seq<FeatureEntry>,
    null: FeatureValue,
    k: int,
    name: Seq<char>,
    chain: Seq<Seq<char>>,
    user: Seq<GrowthBookAttribute>,
    forced: Option<Vec<ForcedVariation>>,
    i: int,
    j: int,
    pc: GrowthBookFeatureRuleParentData,
) -> Decision {
    if chain.contains(pc.id@) {
        Decision::Cyclic
    } else {
        let pr = match lookup_feature(table, pc.id@, 0) {
            None => Decision::Unknown,
            Some(pk) => resolve_rules(table, null, pk, pc.id@, chain.push(name), user, forced, 0),
        };
        if pr is Cyclic {
            Decision::Cyclic
        } else if !condition_ok(pc.condition, decision_value(pr, null).tree_spec()@) {
            Decision::Prerequisite
        } else {
            resolve_parents(table, null, k, name, chain, user, forced, i, j + 1)
        }
    }
}

pub proof fn lemma_rules_step(
    table: Seq<FeatureEntry>,
    null: FeatureValue,
    k: int,
    name: Seq<char>,
    chain: Seq<Seq<char>>,
    user: Seq<GrowthBookAttribute>,
    forced: Option<Vec<ForcedVariation>>,
    i: int,
)
    requires
        0 <= k < table.len(),
        0 <= i,
    ensures
        resolve_rules(table, null, k, name, chain, user, forced, i) == rules_step(table, null, k, name, chain, user, forced, i),
{
}

pub proof fn lemma_parents_step(
    table: Seq<FeatureEntry>,
    null: FeatureValue,
    k: int,
    name: Seq<char>,
    chain: Seq<Seq<char>>,
    user: Seq<GrowthBookAttribute>,
    forced: Option<Vec<ForcedVariation>>,
    i: int,
    j: int,
    parent: GrowthBookFeatureRuleParent,
)
    requires
        0 <= k < table.len(),
        0 <= i,
        0 <= j,
        table[k].feature.rules matches Some(rules) && i < rules@.len() && rules@[i] == GrowthBookFeatureRule::Parent(parent),
    ensures
        j < parent.parent_conditions@.len() ==> resolve_parents(table, null, k, name, chain, user, forced, i, j)
            == parents_step(table, null, k, name, chain, user, forced, i, j, parent.parent_conditions@[j]),
        j >= parent.parent_conditions@.len() ==> resolve_parents(table, null, k, name, chain, user, forced, i, j)
            == resolve_rules(table, null, k, name, chain, user, forced, i + 1),
{
}

#[via_fn]
proof fn resolve_parents_decreases(
    table: Seq<FeatureEntry>,
    null: FeatureValue,
    k: int,
    name: Seq<char>,
    chain: Seq<Seq<char>>,
    user: Seq<GrowthBookAttribute>,
    forced: Option<Vec<ForcedVariation>>,
    i: int,
    j: int,
) {
    if !(k < 0 || k >= table.len() || i < 0 || j < 0 || i >= rule_count(table, k) || !(table[k].feature.rules->Some_0@[i] is Parent)) {
        let pcs = table[k].feature.rules->Some_0@[i]->Parent_0.parent_conditions@;
        if j < pcs.len() {
            let pc = pcs[j];
            if !chain.contains(pc.id@) {
                match lookup_feature(table, pc.id@, 0) {
                    Some(pk) => {
                        lemma_lookup_found(table, pc.id@, 0);
                        lemma_step_decreases(table, chain, name, pc.id@, pk);
                    },
                    None => {},
                }
            }
        }
    }
}

proof fn lemma_lookup_found(table: Seq<FeatureEntry>, name: Seq<char>, i: int)
    ensures
        lookup_feature(table, name, i) matches Some(k) ==> 0 <= k < table.len() && table[k].name@ == name && i <= k,
    decreases table.len() - i,
{
    if 0 <= i < table.len() && table[i].name@ != name {
        lemma_lookup_found(table, name, i + 1);
    }
}

proof fn lemma_push_contains(chain: Seq<Seq<char>>, name: Seq<char>, x: Seq<char>)
    ensures
        chain.push(name).contains(x) == (chain.contains(x) || x == name),
{
    if chain.contains(x) {
        let i = choose|i: int| 0 <= i < chain.len() && chain[i] == x;
        assert(chain.push(name)[i] == x);
    }
    if x == name {
        assert(chain.push(name)[chain.len() as int] == x);
    }
    if chain.push(name).contains(x) {
        let i = choose|i: int| 0 <= i < chain.push(name).len() && chain.push(name)[i] == x;
        if i < chain.len() {
            assert(chain[i] == x);
        }
    }
}

proof fn lemma_unvisited_step(table: Seq<FeatureEntry>, chain: Seq<Seq<char>>, name: Seq<char>, pid: Seq<char>, pk: int, n: int)
    requires
        0 <= n <= table.len(),
        !chain.contains(pid),
    ensures
        unvisited(table, chain.push(name), pid, n) <= unvisited(table, chain, name, n),
        0 <= pk < n && table[pk].name@ == pid && pid != name
            ==> unvisited(table, chain.push(name), pid, n) < unvisited(table, chain, name, n),
    decreases n,
{
    if n > 0 {
        lemma_unvisited_step(table, chain, name, pid, pk, n - 1);
        lemma_push_contains(chain, name, table[n - 1].name@);
    }
}

proof fn lemma_step_decreases(table: Seq<FeatureEntry>, chain: Seq<Seq<char>>, name: Seq<char>, pid: Seq<char>, pk: int)
    requires
        0 <= pk < table.len(),
        table[pk].name@ == pid,
        !chain.contains(pid),
    ensures
        unvisited(table, chain.push(name), pid, table.len() as int) < unvisited(table, chain, name, table.len() as int)
        || (unvisited(table, chain.push(name), pid, table.len() as int) == unvisited(table, chain, name, table.len() as int)
            && fresh(chain.push(name), pid) < fresh(chain, name)),
{
    lemma_unvisited_step(table, chain, name, pid, pk, table.len() as int);
    lemma_push_contains(chain, name, pid);
    lemma_push_contains(chain, name, name);
}

} // verus!

verus! {

/// The views of a chain of feature names.
pub open spec fn chain_view(chain: Seq<String>) -> Seq<Seq<char>> {
    Seq::new(chain.len(), |i: int| chain[i]@)
}

/// The attribute tree a call evaluates against; absent attributes are an
/// empty tree.
pub open spec fn user_view(user: Option<Vec<GrowthBookAttribute>>) -> Seq<GrowthBookAttribute> {
    match user {
        Some(u) => u@,
        None => Seq::empty(),
    }
}

fn chain_contains(chain: &Vec<String>, name: &str) -> (r: bool)
    ensures
        r == chain_view(chain@).contains(name@),
{
    let mut i: usize = 0;
    while i < chain.len()
        invariant
            i <= chain@.len(),
            forall|j: int| 0 <= j < i ==> chain@[j]@ != name@,
        decreases chain@.len() - i,
    {
        if str_eq(chain[i].as_str(), name) {
            assert(chain_view(chain@)[i as int] == name@);
            return true;
        }
        i = i + 1;
    }
    proof {
        if chain_view(chain@).contains(name@) {
            let j = choose|j: int| 0 <= j < chain_view(chain@).len() && chain_view(chain@)[j] == name@;
            assert(chain@[j]@ == name@);
        }
    }
    false
}

fn extend_chain(chain: &Vec<String>, name: &str) -> (r: Vec<String>)
    ensures
        chain_view(r@) == chain_view(chain@).push(name@),
{
    let mut out: Vec<String> = Vec::new();
    let mut i: usize = 0;
    while i < chain.len()
        invariant
            i <= chain@.len(),
            out@.len() == i,
            forall|j: int| 0 <= j < i ==> out@[j]@ == chain@[j]@,
        decreases chain@.len() - i,
    {
        out.push(chain[i].clone());
        i = i + 1;
    }
    out.push(String::from_str(name));
    assert(chain_view(out@) =~= chain_view(chain@).push(name@));
    out
}

proof fn lemma_cyclic_source(r: FeatureResult, d: Decision, name: Seq<char>, user: Seq<GrowthBookAttribute>)
    requires
        result_of(r, d, name, user),
    ensures
        (r.source@ == "cyclicPrerequisite"@) == (d is Cyclic),
{
    reveal_strlit("cyclicPrerequisite");
    reveal_strlit("force");
    reveal_strlit("experiment");
    reveal_strlit("defaultValue");
    reveal_strlit("prerequisite");
    reveal_strlit("unknownFeature");
    assert("cyclicPrerequisite"@.len() == 18);
    assert("force"@.len() == 5);
    assert("experiment"@.len() == 10);
    assert("defaultValue"@.len() == 12);
    assert("prerequisite"@.len() == 12);
    assert("unknownFeature"@.len() == 14);
}

impl GrowthBook {
    /// A snapshot over the given table and overrides; a table that names a
    /// feature twice is refused.
    pub fn new(forced_variations: Option<Vec<ForcedVariation>>, features: Vec<FeatureEntry>) -> (r: Result<GrowthBook, GrowthbookError>)
        ensures
            match r {
                Ok(gb) => gb.forced_variations == forced_variations && gb.features == features && gb.wf(),
                Err(e) => e.code == GrowthbookErrorCode::DuplicateFeatureName && !names_unique(features@),
            },
    {
        let mut i: usize = 0;
        while i < features.len()
            invariant
                i <= features@.len(),
                forall|a: int, b: int| 0 <= a < b < features@.len() && a < i ==> features@[a].name@ != features@[b].name@,
            decreases features@.len() - i,
        {
            let mut j: usize = i + 1;
            while j < features.len()
                invariant
                    i < j <= features@.len(),
                    i < features@.len(),
                    forall|a: int, b: int| 0 <= a < b < features@.len() && a < i ==> features@[a].name@ != features@[b].name@,
                    forall|b: int| i < b < j ==> features@[i as int].name@ != features@[b].name@,
                decreases features@.len() - j,
            {
                if str_eq(features[i].name.as_str(), features[j].name.as_str()) {
                    return Err(GrowthbookError::new(GrowthbookErrorCode::DuplicateFeatureName, "a feature is named twice"));
                }
                j = j + 1;
            }
            i = i + 1;
        }
        let null_value = FeatureValue::new(JsonValue::Null);
        Ok(GrowthBook { forced_variations, features, null_value })
    }

    /// The stand-in value of decisions without one: null.
    pub open spec fn null_spec(&self) -> FeatureValue {
        self.null_value
    }

    pub open spec fn wf(&self) -> bool {
        self.null_value.json_spec() is Null && names_unique(self.features@)
    }

    /// Number of features in the table.
    pub fn total_features(&self) -> (r: usize)
        ensures
            r == self.features@.len(),
    {
        self.features.len()
    }

    fn find_feature(&self, name: &str) -> (r: Option<usize>)
        ensures
            match r {
                Some(k) => lookup_feature(self.features@, name@, 0) == Some(k as int),
                None => lookup_feature(self.features@, name@, 0) is None,
            },
    {
        let mut i: usize = 0;
        while i < self.features.len()
            invariant
                i <= self.features@.len(),
                lookup_feature(self.features@, name@, 0) == lookup_feature(self.features@, name@, i as int),
            decreases self.features@.len() - i,
        {
            if str_eq(self.features[i].name.as_str(), name) {
                return Some(i);
            }
            i = i + 1;
        }
        None
    }

    fn default_result<'a>(&'a self, k: usize) -> (r: (FeatureResult, &'a FeatureValue))
        requires
            self.wf(),
            k < self.features@.len(),
        ensures
            result_of(r.0, Decision::Default(self.features@[k as int].feature.default_value), Seq::empty(), Seq::empty()),
            *r.1 == decision_value(Decision::Default(self.features@[k as int].feature.default_value), self.null_spec()),
    {
        match &self.features[k].feature.default_value {
            Some(v) => (FeatureResult::from_default_value(Some(v.json().copy())), v),
            None => (FeatureResult::from_default_value(None), &self.null_value),
        }
    }

    /// Resolves entry `k` (named `name`) reached through `chain`, as
    /// `resolve_rules` states; also gives the value that prerequisite
    /// conditions on it see.
    fn resolve<'a>(&'a self, k: usize, name: &str, chain: &Vec<String>, user: &Vec<GrowthBookAttribute>) -> (r: (FeatureResult, &'a FeatureValue))
        requires
            self.wf(),
            k < self.features@.len(),
        ensures
            result_of(r.0, resolve_rules(self.features@, self.null_spec(), k as int, name@, chain_view(chain@), user@, self.forced_variations, 0), name@, user@),
            *r.1 == decision_value(resolve_rules(self.features@, self.null_spec(), k as int, name@, chain_view(chain@), user@, self.forced_variations, 0), self.null_spec()),
        decreases unvisited(self.features@, chain_view(chain@), name@, self.features@.len() as int), fresh(chain_view(chain@), name@), 1nat,
    {
        let ghost table = self.features@;
        let ghost null = self.null_spec();
        let ghost cv = chain_view(chain@);
        let ghost forced = self.forced_variations;
        let feature = &self.features[k].feature;
        proof { lemma_rules_step(table, null, k as int, name@, cv, user@, forced, 0); }
        let rules = match &feature.rules {
            None => {
                return self.default_result(k);
            },
            Some(rules) => rules,
        };
        let mut i: usize = 0;
        while i < rules.len()
            invariant
                self.wf(),
                k < table.len(),
                table == self.features@,
                null == self.null_spec(),
                cv == chain_view(chain@),
                forced == self.forced_variations,
                self.features@[k as int].feature.rules == Some(*rules),
                i <= rules@.len(),
                resolve_rules(table, null, k as int, name@, cv, user@, forced, 0)
                    == resolve_rules(table, null, k as int, name@, cv, user@, forced, i as int),
            decreases rules@.len() - i,
        {
            proof { lemma_rules_step(table, null, k as int, name@, cv, user@, forced, i as int); }
            match &rules[i] {
                GrowthBookFeatureRule::Force(rule) => {
                    if let Some(res) = rule.get_match_value(name, user) {
                        return (res, &rule.force);
                    }
                },
                GrowthBookFeatureRule::Rollout(rule) => {
                    if let Some(res) = rule.get_match_value(name, user) {
                        return (res, &rule.force);
                    }
                },
                GrowthBookFeatureRule::Experiment(rule) => {
                    if let Some((res, index)) = rule.assign(name, user, &self.forced_variations) {
                        return (res, &rule.variations[index]);
                    }
                },
                GrowthBookFeatureRule::Parent(parent) => {
                    if let Some(terminal) = self.check_parents(k, name, chain, user, i, parent) {
                        return terminal;
                    }
                },
                GrowthBookFeatureRule::Empty => {},
            }
            i = i + 1;
        }
        proof { lemma_rules_step(table, null, k as int, name@, cv, user@, forced, i as int); }
        self.default_result(k)
    }

    /// Checks the prerequisites of rule `i` of entry `k`: the terminal
    /// result when one is cyclic or not met, none when all are met.
    fn check_parents<'a>(
        &'a self,
        k: usize,
        name: &str,
        chain: &Vec<String>,
        user: &Vec<GrowthBookAttribute>,
        i: usize,
        parent: &GrowthBookFeatureRuleParent,
    ) -> (r: Option<(FeatureResult, &'a FeatureValue)>)
        requires
            self.wf(),
            k < self.features@.len(),
            self.features@[k as int].feature.rules matches Some(rules) && i < rules@.len()
                && rules@[i as int] == GrowthBookFeatureRule::Parent(*parent),
        ensures
            ({
                let d = resolve_parents(self.features@, self.null_spec(), k as int, name@, chain_view(chain@), user@, self.forced_variations, i as int, 0);
                match r {
                    Some((res, v)) => result_of(res, d, name@, user@) && *v == decision_value(d, self.null_spec()),
                    None => d == resolve_rules(self.features@, self.null_spec(), k as int, name@, chain_view(chain@), user@, self.forced_variations, i + 1),
                }
            }),
        decreases unvisited(self.features@, chain_view(chain@), name@, self.features@.len() as int), fresh(chain_view(chain@), name@), 0nat,
    {
        let ghost table = self.features@;
        let ghost null = self.null_spec();
        let ghost cv = chain_view(chain@);
        let ghost forced = self.forced_variations;
        let pcs = &parent.parent_conditions;
        let mut j: usize = 0;
        while j < pcs.len()
            invariant
                self.wf(),
                k < table.len(),
                table == self.features@,
                null == self.null_spec(),
                cv == chain_view(chain@),
                forced == self.forced_variations,
                self.features@[k as int].feature.rules matches Some(rules) && i < rules@.len()
                    && rules@[i as int] == GrowthBookFeatureRule::Parent(*parent),
                *pcs == parent.parent_conditions,
                j <= pcs@.len(),
                resolve_parents(table, null, k as int, name@, cv, user@, forced, i as int, 0)
                    == resolve_parents(table, null, k as int, name@, cv, user@, forced, i as int, j as int),
            decreases pcs@.len() - j,
        {
            proof { lemma_parents_step(table, null, k as int, name@, cv, user@, forced, i as int, j as int, *parent); }
            let pc = &pcs[j];
            if chain_contains(chain, pc.id.as_str()) {
                return Some((FeatureResult::cyclic_prerequisite(), &self.null_value));
            }
            let ghost pr = match lookup_feature(table, pc.id@, 0) {
                None => Decision::Unknown,
                Some(pk) => resolve_rules(table, null, pk, pc.id@, cv.push(name@), user@, forced, 0),
            };
            let (parent_result, parent_value) = match self.find_feature(pc.id.as_str()) {
                None => (FeatureResult::unknown_feature(), &self.null_value),
                Some(pk) => {
                    let next_chain = extend_chain(chain, name);
                    proof {
                        lemma_lookup_found(table, pc.id@, 0);
                        lemma_step_decreases(table, cv, name@, pc.id@, pk as int);
                    }
                    self.resolve(pk, pc.id.as_str(), &next_chain, user)
                },
            };
            proof {
                lemma_cyclic_source(parent_result, pr, pc.id@, user@);
            }
            if str_eq(parent_result.source.as_str(), "cyclicPrerequisite") {
                return Some((FeatureResult::cyclic_prerequisite(), &self.null_value));
            }
            if !pc.is_met(parent_value) {
                return Some((FeatureResult::prerequisite(), &self.null_value));
            }
            j = j + 1;
        }
        proof { lemma_parents_step(table, null, k as int, name@, cv, user@, forced, i as int, j as int, *parent); }
        None
    }

    /// The evaluation result of a feature; see `check`.
    pub fn feature_result(&self, feature_name: &str, user_attributes: &Option<Vec<GrowthBookAttribute>>) -> (r: FeatureResult)
        requires
            self.wf(),
        ensures
            result_of(r, resolve_feature(self.features@, self.null_spec(), feature_name@, Seq::empty(), user_view(*user_attributes), self.forced_variations),
                feature_name@, user_view(*user_attributes)),
    {
        self.check(feature_name, user_attributes)
    }

    /// Whether a feature evaluates to on.
    pub fn is_on(&self, feature_name: &str, user_attributes: &Option<Vec<GrowthBookAttribute>>) -> (r: bool)
        requires
            self.wf(),
        ensures
            r == decision_on(resolve_feature(self.features@, self.null_spec(), feature_name@, Seq::empty(), user_view(*user_attributes),
                self.forced_variations)),
    {
        let res = self.check(feature_name, user_attributes);
        res.on
    }

    /// Whether a feature evaluates to off.
    pub fn is_off(&self, feature_name: &str, user_attributes: &Option<Vec<GrowthBookAttribute>>) -> (r: bool)
        requires
            self.wf(),
        ensures
            r == !decision_on(resolve_feature(self.features@, self.null_spec(), feature_name@, Seq::empty(), user_view(*user_attributes),
                self.forced_variations)),
    {
        let res = self.check(feature_name, user_attributes);
        res.off
    }

    /// Evaluates the feature `flag_name` for the given attributes, as
    /// `resolve_feature` states; a feature the table does not hold is an
    /// `unknownFeature` result.
    pub fn check(&self, flag_name: &str, option_user_attributes: &Option<Vec<GrowthBookAttribute>>) -> (r: FeatureResult)
        requires
            self.wf(),
        ensures
            result_of(r, resolve_feature(self.features@, self.null_spec(), flag_name@, Seq::empty(), user_view(*option_user_attributes), self.forced_variations),
                flag_name@, user_view(*option_user_attributes)),
    {
        let empty: Vec<GrowthBookAttribute> = Vec::new();
        let user = match option_user_attributes {
            Some(u) => u,
            None => &empty,
        };
        assert(user@ == user_view(*option_user_attributes));
        match self.find_feature(flag_name) {
            Some(k) => {
                proof { lemma_lookup_found(self.features@, flag_name@, 0); }
                let chain: Vec<String> = Vec::new();
                assert(chain_view(chain@) =~= Seq::empty());
                let (res, _) = self.resolve(k, flag_name, &chain, user);
                res
            },
            None => FeatureResult::unknown_feature(),
        }
    }
}

} // verus!
