//! Reading numbers out of attribute text for the ordering operators. Dots
//! are dropped before a text is read as an integer (`"1.5"` reads as 15);
//! a non-integral number keeps its decimal point. Numbers of 19 digits or
//! more, and scales beyond 18 places, do not read.
use vstd::prelude::*;

verus! {

/// Magnitude bound of a readable number's digits (10^19, exclusive).
pub const DIGITS_LIMIT: u64 = 10_000_000_000_000_000_000;

/// Largest readable number of decimal places.
pub const MAX_SCALE: u32 = 18;

/// A decimal number `mant / 10^scale`.
#[derive(Clone, Copy, Debug, PartialEq, Eq, Structural)]
pub struct Decimal {
    pub mant: i128,
    pub scale: u32,
}

pub open spec fn pow10(n: nat) -> int
    decreases n,
{
    if n == 0 { 1 } else { 10 * pow10((n - 1) as nat) }
}

/// Sign of `a - b` for the numbers that two decimals denote.
pub open spec fn decimal_cmp(a: Decimal, b: Decimal) -> int {
    let x = a.mant * pow10(b.scale as nat);
    let y = b.mant * pow10(a.scale as nat);
    if x < y { -1 } else if x > y { 1 } else { 0 }
}

pub open spec fn is_ascii_digit(c: char) -> bool {
    '0' <= c <= '9'
}

/// Value of a run of ASCII digits.
pub open spec fn digits_value(s: Seq<char>) -> int
    decreases s.len(),
{
    if s.len() == 0 { 0 } else { digits_value(s.drop_last()) * 10 + (s.last() as u32 - '0' as u32) }
}

/// The characters of `s` without its dots.
pub open spec fn strip_dots(s: Seq<char>) -> Seq<char>
    decreases s.len(),
{
    if s.len() == 0 {
        s
    } else if s.last() == '.' {
        strip_dots(s.drop_last())
    } else {
        strip_dots(s.drop_last()).push(s.last())
    }
}

/// A non-empty run of ASCII digits.
pub open spec fn all_digits(s: Seq<char>) -> bool {
    s.len() > 0 && forall|i: int| 0 <= i < s.len() ==> is_ascii_digit(#[trigger] s[i])
}

/// Length of a leading sign, `-` or `+`.
pub open spec fn sign_len(t: Seq<char>) -> int {
    if t.len() > 0 && (t[0] == '-' || t[0] == '+') { 1 } else { 0 }
}

/// An optional sign then at least one ASCII digit, with a magnitude below
/// `DIGITS_LIMIT`.
pub open spec fn integer_of(t: Seq<char>) -> Option<int> {
    let body = t.subrange(sign_len(t), t.len() as int);
    if all_digits(body) && digits_value(body) < DIGITS_LIMIT {
        Some(if t.len() > 0 && t[0] == '-' { -digits_value(body) } else { digits_value(body) })
    } else {
        None
    }
}

/// Number of characters after the last dot of `t`, if it has one.
pub open spec fn places_after_dot(t: Seq<char>) -> Option<nat>
    decreases t.len(),
{
    if t.len() == 0 {
        None
    } else if t.last() == '.' {
        Some(0)
    } else {
        match places_after_dot(t.drop_last()) {
            Some(n) => Some(n + 1),
            None => None,
        }
    }
}

/// A text read as an integer once its dots are dropped.
pub open spec fn stripped_integer(t: Seq<char>) -> Option<Decimal> {
    match integer_of(strip_dots(t)) {
        Some(v) => Some(Decimal { mant: v as i128, scale: 0 }),
        None => None,
    }
}

/// The decimal text of a non-integral number: its digits over ten to the
/// number of places after the dot.
pub open spec fn decimal_text(t: Seq<char>) -> Option<Decimal> {
    let scale: nat = match places_after_dot(t) { Some(n) => n, None => 0 };
    match integer_of(strip_dots(t)) {
        Some(v) => if scale <= MAX_SCALE { Some(Decimal { mant: v as i128, scale: scale as u32 }) } else { None },
        None => None,
    }
}

proof fn lemma_digits_value_bounds(s: Seq<char>)
    requires
        forall|i: int| 0 <= i < s.len() ==> is_ascii_digit(#[trigger] s[i]),
    ensures
        digits_value(s) >= 0,
    decreases s.len(),
{
    if s.len() > 0 {
        lemma_digits_value_bounds(s.drop_last());
    }
}

proof fn lemma_pow10_monotone(n: nat, m: nat)
    requires
        n <= m,
    ensures
        1 <= pow10(n) <= pow10(m),
    decreases m,
{
    if n < m {
        lemma_pow10_monotone(n, (m - 1) as nat);
    } else if n > 0 {
        lemma_pow10_monotone((n - 1) as nat, (n - 1) as nat);
    }
}

proof fn lemma_pow10_bound(n: nat)
    requires
        n <= 18,
    ensures
        1 <= pow10(n) <= 1_000_000_000_000_000_000,
{
    lemma_pow10_monotone(n, 18);
    assert(pow10(18) == 1_000_000_000_000_000_000) by {
        reveal_with_fuel(pow10, 19);
    }
}

/// Reads `s` without its dots as an integer; see `integer_of`.
pub fn parse_stripped(s: &str) -> (r: Option<i128>)
    ensures
        r == (match integer_of(strip_dots(s@)) { Some(v) => Some(v as i128), None => None }),
        r matches Some(v) ==> -(DIGITS_LIMIT as int) < v < DIGITS_LIMIT,
{
    let n = s.unicode_len();
    let mut chars: Vec<char> = Vec::new();
    let mut i: usize = 0;
    while i < n
        invariant
            n == s@.len(),
            i <= n,
            chars@ == strip_dots(s@.subrange(0, i as int)),
        decreases n - i,
    {
        let c = s.get_char(i);
        assert(s@.subrange(0, i + 1).drop_last() =~= s@.subrange(0, i as int));
        if c != '.' {
            chars.push(c);
        }
        i = i + 1;
    }
    assert(s@.subrange(0, n as int) =~= s@);
    let t = chars;
    assert(t@ == strip_dots(s@));
    let len = t.len();
    if len == 0 {
        return None;
    }
    let start: usize = if t[0] == '-' || t[0] == '+' { 1 } else { 0 };
    assert(start == sign_len(t@));
    proof {
        let body = t@.subrange(start as int, len as int);
        if all_digits(body) {
            lemma_digits_value_bounds(body);
        }
    }
    match read_digits(&t, start) {
        Some(value) => {
            if t[0] == '-' {
                Some(-(value as i128))
            } else {
                Some(value as i128)
            }
        },
        None => None,
    }
}

/// Reads `t[start..]` as a run of digits below `DIGITS_LIMIT`.
fn read_digits(t: &Vec<char>, start: usize) -> (r: Option<u64>)
    requires
        start <= t@.len(),
    ensures
        r == (if all_digits(t@.subrange(start as int, t@.len() as int))
            && digits_value(t@.subrange(start as int, t@.len() as int)) < DIGITS_LIMIT {
            Some(digits_value(t@.subrange(start as int, t@.len() as int)) as u64)
        } else {
            None
        }),
{
    let len = t.len();
    let ghost body = t@.subrange(start as int, len as int);
    if start == len {
        return None;
    }
    let mut value: u64 = 0;
    let mut j: usize = start;
    while j < len
        invariant
            start < len,
            start <= j <= len,
            len == t@.len(),
            body == t@.subrange(start as int, len as int),
            forall|k: int| start <= k < j ==> is_ascii_digit(#[trigger] t@[k]),
            value as int == digits_value(t@.subrange(start as int, j as int)),
            value < DIGITS_LIMIT,
        decreases len - j,
    {
        let c = t[j];
        if !('0' <= c && c <= '9') {
            assert(body[j - start] == c);
            assert(!all_digits(body));
            return None;
        }
        let d = (c as u32 - '0' as u32) as u64;
        assert(t@.subrange(start as int, j + 1).drop_last() =~= t@.subrange(start as int, j as int));
        if value > (DIGITS_LIMIT - 1 - d) / 10 {
            proof {
                assert(digits_value(t@.subrange(start as int, j + 1)) == value * 10 + d);
                if all_digits(body) {
                    assert forall|k: int| start <= k < len implies is_ascii_digit(#[trigger] t@[k]) by {
                        assert(t@[k] == body[k - start]);
                    }
                    lemma_prefix_value_grows(t@, start as int, j + 1, len as int);
                }
            }
            return None;
        }
        value = value * 10 + d;
        j = j + 1;
    }
    proof {
        assert(body =~= t@.subrange(start as int, j as int));
        assert forall|i: int| 0 <= i < body.len() implies is_ascii_digit(#[trigger] body[i]) by {
            assert(body[i] == t@[start + i]);
        }
    }
    Some(value)
}

proof fn lemma_prefix_value_grows(t: Seq<char>, start: int, j: int, len: int)
    requires
        0 <= start <= j <= len == t.len(),
        forall|k: int| start <= k < len ==> is_ascii_digit(#[trigger] t[k]),
    ensures
        digits_value(t.subrange(start, j)) <= digits_value(t.subrange(start, len)),
    decreases len - j,
{
    if j < len {
        lemma_prefix_value_grows(t, start, j + 1, len);
        assert(t.subrange(start, j + 1).drop_last() =~= t.subrange(start, j));
        lemma_digits_value_bounds(t.subrange(start, j));
    }
}

/// A decimal whose digits and scale lie within the readable bounds.
pub open spec fn decimal_wf(d: Decimal) -> bool {
    -(DIGITS_LIMIT as int) < d.mant < DIGITS_LIMIT && d.scale <= MAX_SCALE
}

/// Number of characters after the last dot, as `places_after_dot` states.
fn places(t: &str) -> (r: Option<usize>)
    ensures
        match r {
            Some(n) => places_after_dot(t@) == Some(n as nat),
            None => places_after_dot(t@) is None,
        },
{
    let n = t.unicode_len();
    let mut count: usize = 0;
    let mut seen = false;
    let mut i: usize = 0;
    while i < n
        invariant
            n == t@.len(),
            i <= n,
            count <= i,
            seen ==> places_after_dot(t@.subrange(0, i as int)) == Some(count as nat),
            !seen ==> places_after_dot(t@.subrange(0, i as int)) is None,
        decreases n - i,
    {
        let c = t.get_char(i);
        assert(t@.subrange(0, i + 1).drop_last() =~= t@.subrange(0, i as int));
        if c == '.' {
            seen = true;
            count = 0;
        } else if seen {
            count = count + 1;
        }
        i = i + 1;
    }
    assert(t@.subrange(0, n as int) =~= t@);
    if seen { Some(count) } else { None }
}

/// Reads a text as an integer once its dots are dropped.
pub fn read_stripped_integer(t: &str) -> (r: Option<Decimal>)
    ensures
        r == stripped_integer(t@),
        r matches Some(d) ==> decimal_wf(d),
{
    match parse_stripped(t) {
        Some(v) => Some(Decimal { mant: v, scale: 0 }),
        None => None,
    }
}

/// Reads the decimal text of a non-integral number; see `decimal_text`.
pub fn read_decimal_text(t: &str) -> (r: Option<Decimal>)
    ensures
        r == decimal_text(t@),
        r matches Some(d) ==> decimal_wf(d),
{
    let scale: usize = match places(t) {
        Some(n) => n,
        None => 0,
    };
    match parse_stripped(t) {
        Some(v) => {
            if scale <= MAX_SCALE as usize {
                Some(Decimal { mant: v, scale: scale as u32 })
            } else {
                None
            }
        },
        None => None,
    }
}

fn pow10_exec(n: u32) -> (r: i128)
    requires
        n <= MAX_SCALE,
    ensures
        r == pow10(n as nat),
        1 <= r <= 1_000_000_000_000_000_000,
{
    let mut r: i128 = 1;
    let mut i: u32 = 0;
    while i < n
        invariant
            i <= n <= MAX_SCALE,
            r == pow10(i as nat),
        decreases n - i,
    {
        proof { lemma_pow10_bound(i as nat); }
        r = r * 10;
        i = i + 1;
    }
    proof { lemma_pow10_bound(n as nat); }
    r
}

/// Compares the numbers that two decimals denote.
pub fn compare_decimal(a: &Decimal, b: &Decimal) -> (r: i8)
    requires
        decimal_wf(*a),
        decimal_wf(*b),
    ensures
        r as int == decimal_cmp(*a, *b),
{
    let pa = pow10_exec(a.scale);
    let pb = pow10_exec(b.scale);
    assert(-10_000_000_000_000_000_000_000_000_000_000_000_000 <= a.mant * pb <= 10_000_000_000_000_000_000_000_000_000_000_000_000)
        by (nonlinear_arith)
        requires -10_000_000_000_000_000_000 < a.mant < 10_000_000_000_000_000_000, 1 <= pb <= 1_000_000_000_000_000_000;
    assert(-10_000_000_000_000_000_000_000_000_000_000_000_000 <= b.mant * pa <= 10_000_000_000_000_000_000_000_000_000_000_000_000)
        by (nonlinear_arith)
        requires -10_000_000_000_000_000_000 < b.mant < 10_000_000_000_000_000_000, 1 <= pa <= 1_000_000_000_000_000_000;
    let x = a.mant * pb;
    let y = b.mant * pa;
    if x < y { -1 } else if x > y { 1 } else { 0 }
}

} // verus!
