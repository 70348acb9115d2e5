//! Bucket ranges: coverage clamping, weight normalisation and the partition
//! of the bucketing space among variations. Positions are in billionths.
use vstd::prelude::*;
use crate::hash::UNIT;

verus! {

/// Width of the rounding grid for range ends: four decimal places.
pub const GRID: u64 = 100_000;

/// Lowest accepted sum of supplied weights (0.99).
pub const WEIGHT_SUM_MIN: u64 = 990_000_000;

/// Highest accepted sum of supplied weights (1.01).
pub const WEIGHT_SUM_MAX: u64 = 1_010_000_000;

/// A half-open range `[start, end)` of bucket positions.
#[derive(Clone, Copy, Debug, PartialEq, Eq, Structural)]
pub struct Range {
    pub start: u64,
    pub end: u64,
}

/// Whether `v` lies in `[r.start, r.end)`.
pub open spec fn in_range_spec(r: Range, v: u64) -> bool {
    r.start <= v && v < r.end
}

/// Coverage clamped to `[0, 1]`; absent coverage is full coverage.
pub open spec fn clamped_coverage_spec(coverage: Option<u64>) -> u64 {
    match coverage {
        None => UNIT,
        Some(c) => if c > UNIT { UNIT } else { c },
    }
}

/// Sum of the first `n` weights.
pub open spec fn sum_first(ws: Seq<u64>, n: int) -> int
    decreases n,
{
    if n <= 0 || n > ws.len() { 0 } else { sum_first(ws, n - 1) + ws[n - 1] }
}

/// Supplied weights are used when there is one per variation and their sum
/// lies within `[0.99, 1.01]`.
pub open spec fn weights_usable(variations: i64, weights: Option<Vec<u64>>) -> bool {
    match weights {
        None => false,
        Some(ws) => variations == ws@.len()
            && WEIGHT_SUM_MIN <= sum_first(ws@, ws@.len() as int) <= WEIGHT_SUM_MAX,
    }
}

/// `n` equal weights of one `n`-th each (none when `n` is not positive).
pub open spec fn equal_weights_spec(variations: i64) -> Seq<u64> {
    if variations <= 0 {
        Seq::empty()
    } else {
        Seq::new(variations as nat, |i: int| (UNIT / variations as u64) as u64)
    }
}

/// The weights that bucketing uses: the supplied ones when usable, else
/// equal weights.
pub open spec fn adjusted_weights_spec(variations: i64, weights: Option<Vec<u64>>) -> Seq<u64> {
    if weights_usable(variations, weights) { weights->Some_0@ } else { equal_weights_spec(variations) }
}

/// `start + coverage * weight`, rounded half up to four decimal places.
pub open spec fn rounded_end(start: int, coverage: int, weight: int) -> int {
    ((start * UNIT + coverage * weight + (GRID * UNIT) / 2) / (GRID * UNIT)) * GRID
}

/// The range of the variation at `i`: it starts at the sum of the weights
/// before it and spans its weight times the clamped coverage.
pub open spec fn bucket_range_at(ws: Seq<u64>, coverage: u64, i: int) -> Range {
    Range {
        start: sum_first(ws, i) as u64,
        end: rounded_end(sum_first(ws, i), coverage as int, ws[i] as int) as u64,
    }
}

/// The partition of the bucketing space among the variations.
pub open spec fn bucket_ranges_spec(variations: i64, coverage: Option<u64>, weights: Option<Vec<u64>>) -> Seq<Range> {
    let ws = adjusted_weights_spec(variations, weights);
    Seq::new(ws.len(), |i: int| bucket_range_at(ws, clamped_coverage_spec(coverage), i))
}

/// Index of the first range that holds `v`, or -1 when none does.
pub open spec fn choose_variation_spec(v: u64, ranges: Seq<Range>) -> int {
    if exists|i: int| 0 <= i < ranges.len() && in_range_spec(ranges[i], v) {
        choose|i: int| 0 <= i < ranges.len() && in_range_spec(ranges[i], v)
            && forall|j: int| 0 <= j < i ==> !in_range_spec(ranges[j], v)
    } else {
        -1
    }
}

pub proof fn lemma_sum_first_monotone(ws: Seq<u64>, i: int, j: int)
    requires
        0 <= i <= j <= ws.len(),
    ensures
        sum_first(ws, i) <= sum_first(ws, j),
        0 <= sum_first(ws, i),
    decreases j,
{
    if i < j {
        lemma_sum_first_monotone(ws, i, j - 1);
    } else if i > 0 {
        lemma_sum_first_monotone(ws, i - 1, i - 1);
    }
}

proof fn lemma_first_in_range(v: u64, ranges: Seq<Range>, i: int)
    requires
        0 <= i < ranges.len(),
        in_range_spec(ranges[i], v),
        forall|j: int| 0 <= j < i ==> !in_range_spec(ranges[j], v),
    ensures
        choose_variation_spec(v, ranges) == i,
{
    let k = choose|k: int| 0 <= k < ranges.len() && in_range_spec(ranges[k], v)
        && forall|j: int| 0 <= j < k ==> !in_range_spec(ranges[j], v);
    assert(k == i) by {
        if k < i {
            assert(!in_range_spec(ranges[k], v));
        }
        if k > i {
            assert(!in_range_spec(ranges[i], v));
        }
    }
}

/// A range from a two-element list; anything else gives none.
pub open spec fn range_of(range: Option<Vec<u64>>) -> Option<Range> {
    match range {
        Some(v) => if v@.len() == 2 { Some(Range { start: v@[0], end: v@[1] }) } else { None },
        None => None,
    }
}

impl Range {
    /// A range from a two-element list; anything else gives none.
    pub fn get_range(range: Option<Vec<u64>>) -> (r: Option<Range>)
        ensures
            r == range_of(range),
    {
        match range {
            Some(v) => {
                if v.len() == 2 {
                    Some(Range { start: v[0], end: v[1] })
                } else {
                    None
                }
            },
            None => None,
        }
    }

    /// Whether `value` lies in this range.
    pub fn in_range(&self, value: &u64) -> (r: bool)
        ensures
            r == in_range_spec(*self, *value),
    {
        *value >= self.start && *value < self.end
    }

    /// The ranges of `variations` variations under `coverage` and `weights`,
    /// as `bucket_ranges_spec` states.
    pub fn get_bucket_range(variations: i64, coverage: &Option<u64>, weights: Option<Vec<u64>>) -> (r: Vec<Range>)
        ensures
            r@ == bucket_ranges_spec(variations, *coverage, weights),
    {
        let clamped = clamped_coverage(*coverage);
        let ws = adjusted_weights(variations, weights);
        let ghost spec_ws = adjusted_weights_spec(variations, weights);
        proof {
            lemma_adjusted_weights_total(variations, weights);
        }
        let mut result: Vec<Range> = Vec::new();
        let mut acc: u64 = 0;
        let mut i: usize = 0;
        while i < ws.len()
            invariant
                ws@ == spec_ws,
                clamped <= UNIT,
                clamped == clamped_coverage_spec(*coverage),
                sum_first(spec_ws, spec_ws.len() as int) <= WEIGHT_SUM_MAX,
                i <= ws@.len(),
                acc == sum_first(spec_ws, i as int),
                result@.len() == i,
                forall|j: int| 0 <= j < i ==> result@[j] == bucket_range_at(spec_ws, clamped, j),
            decreases ws@.len() - i,
        {
            proof {
                lemma_sum_first_monotone(spec_ws, i + 1, spec_ws.len() as int);
                lemma_sum_first_monotone(spec_ws, i as int, i as int);
            }
            let w = ws[i];
            let start = acc;
            assert(w as int + start as int <= WEIGHT_SUM_MAX);
            assert(start * UNIT <= WEIGHT_SUM_MAX * UNIT) by (nonlinear_arith)
                requires start <= WEIGHT_SUM_MAX;
            assert(clamped * w <= UNIT * WEIGHT_SUM_MAX) by (nonlinear_arith)
                requires clamped <= UNIT, w <= WEIGHT_SUM_MAX;
            let scaled = start * UNIT + clamped as u64 * w + (GRID * UNIT) / 2;
            let q = scaled / (GRID * UNIT);
            assert(q * GRID <= scaled) by (nonlinear_arith)
                requires
                    q == scaled / 100_000_000_000_000u64,
            {
                assert(q * 100_000_000_000_000u64 <= scaled);
            }
            let end = q * GRID;
            result.push(Range { start, end });
            acc = acc + w;
            i = i + 1;
        }
        assert(result@ =~= bucket_ranges_spec(variations, *coverage, weights));
        result
    }
}

pub proof fn lemma_adjusted_weights_total(variations: i64, weights: Option<Vec<u64>>)
    ensures
        sum_first(adjusted_weights_spec(variations, weights), adjusted_weights_spec(variations, weights).len() as int)
            <= WEIGHT_SUM_MAX,
{
    if !weights_usable(variations, weights) && variations > 0 {
        let ws = equal_weights_spec(variations);
        let w = UNIT / variations as u64;
        assert forall|k: int| 0 <= k <= ws.len() implies sum_first(ws, k) == k * w by {
            lemma_equal_prefix(ws, w, k);
        }
        assert(w * variations <= UNIT) by (nonlinear_arith)
            requires w == UNIT / variations as u64, variations > 0;
    }
}

proof fn lemma_equal_prefix(ws: Seq<u64>, w: u64, k: int)
    requires
        0 <= k <= ws.len(),
        forall|j: int| 0 <= j < ws.len() ==> ws[j] == w,
    ensures
        sum_first(ws, k) == k * w,
    decreases k,
{
    if k > 0 {
        lemma_equal_prefix(ws, w, k - 1);
        assert(sum_first(ws, k) == sum_first(ws, k - 1) + ws[k - 1]);
        assert(k * w == (k - 1) * w + w) by (nonlinear_arith);
    } else {
        assert(k * w == 0) by (nonlinear_arith) requires k == 0;
    }
}

/// Coverage clamped to `[0, 1]`, one whole when absent.
pub fn clamped_coverage(coverage: Option<u64>) -> (r: u64)
    ensures
        r == clamped_coverage_spec(coverage),
        r <= UNIT,
{
    match coverage {
        None => UNIT,
        Some(value) => if value > UNIT { UNIT } else { value },
    }
}

/// The weights that bucketing uses, as `adjusted_weights_spec` states.
pub fn adjusted_weights(variations: i64, weights: Option<Vec<u64>>) -> (r: Vec<u64>)
    ensures
        r@ == adjusted_weights_spec(variations, weights),
{
    let ghost w0 = weights;
    if let Some(found_weights) = weights {
        if variations >= 0 && variations as u64 == found_weights.len() as u64 {
            let mut sum: u128 = 0;
            let mut i: usize = 0;
            while i < found_weights.len()
                invariant
                    i <= found_weights@.len(),
                    sum == sum_first(found_weights@, i as int),
                    sum <= i * 0x1_0000_0000_0000_0000,
                decreases found_weights@.len() - i,
            {
                sum = sum + found_weights[i] as u128;
                i = i + 1;
            }
            if WEIGHT_SUM_MIN as u128 <= sum && sum <= WEIGHT_SUM_MAX as u128 {
                return found_weights;
            }
        }
    }
    get_equal_weights(variations)
}

/// `variations` equal weights of one `variations`-th each.
pub fn get_equal_weights(variations: i64) -> (r: Vec<u64>)
    ensures
        r@ == equal_weights_spec(variations),
{
    let mut vec: Vec<u64> = Vec::new();
    if variations <= 0 {
        assert(vec@ =~= equal_weights_spec(variations));
        return vec;
    }
    let weight = UNIT / variations as u64;
    let mut i: i64 = 0;
    while i < variations
        invariant
            0 <= i <= variations,
            weight == UNIT / variations as u64,
            vec@.len() == i,
            forall|j: int| 0 <= j < i ==> vec@[j] == weight,
        decreases variations - i,
    {
        vec.push(weight);
        i = i + 1;
    }
    assert(vec@ =~= equal_weights_spec(variations));
    vec
}

/// Index of the first range that holds `user_weight`, if any.
pub fn choose_variation(user_weight: u64, ranges: &Vec<Range>) -> (r: Option<usize>)
    ensures
        match r {
            Some(i) => i as int == choose_variation_spec(user_weight, ranges@),
            None => choose_variation_spec(user_weight, ranges@) == -1,
        },
{
    let mut i: usize = 0;
    while i < ranges.len()
        invariant
            i <= ranges@.len(),
            forall|j: int| 0 <= j < i ==> !in_range_spec(ranges@[j], user_weight),
        decreases ranges@.len() - i,
    {
        if ranges[i].in_range(&user_weight) {
            proof { lemma_first_in_range(user_weight, ranges@, i as int); }
            return Some(i);
        }
        i = i + 1;
    }
    None
}

} // verus!
