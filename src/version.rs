//! Normalisation of version strings so that a plain string comparison
//! orders them as versions: `v1.2.3+build` becomes
//! `00001-00002-00003-~`.
use vstd::prelude::*;
use crate::pattern::{contains_digit, has_regex_digit};

verus! {

/// No line break in `s` from `p` on.
pub open spec fn no_line_break_from(s: Seq<char>, p: int) -> bool {
    forall|k: int| p <= k < s.len() ==> s[k] != '\n'
}

/// Where a `+build` suffix starts: the first `+` at or after `from` that no
/// line break follows; the end of `s` when there is none.
pub open spec fn build_cut(s: Seq<char>, from: int) -> int
    decreases s.len() - from,
{
    if from < 0 || from >= s.len() {
        s.len() as int
    } else if s[from] == '+' && no_line_break_from(s, from) {
        from
    } else {
        build_cut(s, from + 1)
    }
}

/// Length of a leading `v`.
pub open spec fn v_prefix_len(s: Seq<char>) -> int {
    if s.len() > 0 && s[0] == 'v' { 1 } else { 0 }
}

/// The version without a leading `v` and without a `+build` suffix.
pub open spec fn strip_decoration(s: Seq<char>) -> Seq<char> {
    s.subrange(v_prefix_len(s), build_cut(s, v_prefix_len(s)))
}

/// The current piece `cur`, as a list of at most one non-empty piece.
pub open spec fn emit(cur: Seq<char>) -> Seq<Seq<char>> {
    if cur.len() > 0 { seq![cur] } else { Seq::empty() }
}

/// Splits `s` on `-` and `.`, dropping empty pieces; `cur` is the piece
/// read so far.
pub open spec fn split_parts(s: Seq<char>, cur: Seq<char>) -> Seq<Seq<char>>
    decreases s.len(),
{
    if s.len() == 0 {
        emit(cur)
    } else if s[0] == '-' || s[0] == '.' {
        emit(cur) + split_parts(s.drop_first(), Seq::empty())
    } else {
        split_parts(s.drop_first(), cur.push(s[0]))
    }
}

/// Every character of `p` is a digit (in the sense of the regex class `\d`).
pub open spec fn all_regex_digits(p: Seq<char>) -> bool {
    forall|i: int| 0 <= i < p.len() ==> has_regex_digit(#[trigger] p.subrange(i, i + 1))
}

/// A purely numeric piece is left-padded with zeros to five characters.
pub open spec fn pad_part(p: Seq<char>) -> Seq<char> {
    if p.len() > 0 && p.len() < 5 && all_regex_digits(p) {
        Seq::new((5 - p.len()) as nat, |i: int| '0') + p
    } else {
        p
    }
}

/// The first `n` pieces joined with `-`.
pub open spec fn join_parts(ps: Seq<Seq<char>>, n: int) -> Seq<char>
    decreases n,
{
    if n <= 0 || n > ps.len() {
        Seq::empty()
    } else if n == 1 {
        ps[0]
    } else {
        join_parts(ps, n - 1) + seq!['-'] + ps[n - 1]
    }
}

/// The pieces of a version, with a `~` piece added to a plain
/// `major.minor.patch` so that it sorts after its pre-releases.
pub open spec fn version_parts(v: Seq<char>) -> Seq<Seq<char>> {
    let ps = split_parts(strip_decoration(v), Seq::empty());
    if ps.len() == 3 { ps.push(seq!['~']) } else { ps }
}

/// The normalised form of a version: its padded pieces joined with `-`, or
/// the version itself when it has no pieces.
pub open spec fn normalize_spec(v: Seq<char>) -> Seq<char> {
    let ps = version_parts(v);
    if ps.len() == 0 {
        v
    } else {
        let padded = Seq::new(ps.len(), |i: int| pad_part(ps[i]));
        join_parts(padded, ps.len() as int)
    }
}

pub open spec fn views(parts: Seq<String>) -> Seq<Seq<char>> {
    Seq::new(parts.len(), |i: int| parts[i]@)
}

fn no_line_break(s: &str, p: usize) -> (r: bool)
    requires
        p <= s@.len(),
    ensures
        r == no_line_break_from(s@, p as int),
{
    let n = s.unicode_len();
    let mut k = p;
    while k < n
        invariant
            n == s@.len(),
            p <= k <= n,
            forall|j: int| p <= j < k ==> s@[j] != '\n',
        decreases n - k,
    {
        if s.get_char(k) == '\n' {
            return false;
        }
        k = k + 1;
    }
    true
}

fn find_build_cut(s: &str, from: usize) -> (r: usize)
    requires
        from <= s@.len(),
    ensures
        r as int == build_cut(s@, from as int),
        from <= r <= s@.len(),
{
    let n = s.unicode_len();
    let mut p = from;
    while p < n
        invariant
            n == s@.len(),
            from <= p <= n,
            build_cut(s@, from as int) == build_cut(s@, p as int),
        decreases n - p,
    {
        if s.get_char(p) == '+' && no_line_break(s, p) {
            return p;
        }
        p = p + 1;
    }
    p
}

fn is_numeric_part(part: &str) -> (r: bool)
    ensures
        r == all_regex_digits(part@),
{
    let n = part.unicode_len();
    let mut i: usize = 0;
    while i < n
        invariant
            n == part@.len(),
            i <= n,
            forall|j: int| 0 <= j < i ==> has_regex_digit(#[trigger] part@.subrange(j, j + 1)),
        decreases n - i,
    {
        if !contains_digit(part.substring_char(i, i + 1)) {
            return false;
        }
        i = i + 1;
    }
    true
}

fn pad(part: &String, out: &mut String)
    ensures
        final(out)@ == old(out)@ + pad_part(part@),
{
    let n = part.as_str().unicode_len();
    if n > 0 && n < 5 && is_numeric_part(part.as_str()) {
        let ghost start = out@;
        let mut k: usize = n;
        proof { reveal_strlit("0"); }
        while k < 5
            invariant
                n <= k <= 5,
                out@ == start + Seq::new((k - n) as nat, |i: int| '0'),
            decreases 5 - k,
        {
            proof { reveal_strlit("0"); }
            out.append("0");
            assert(out@ =~= start + Seq::new((k + 1 - n) as nat, |i: int| '0'));
            k = k + 1;
        }
        out.append(part.as_str());
        assert(out@ =~= old(out)@ + pad_part(part@));
    } else {
        out.append(part.as_str());
    }
}

/// Splits the version into its pieces, as `version_parts` states.
fn split_version(version: &str) -> (r: Vec<String>)
    ensures
        views(r@) == version_parts(version@),
{
    let n = version.unicode_len();
    let a: usize = if n > 0 && version.get_char(0) == 'v' { 1 } else { 0 };
    let cut = find_build_cut(version, a);
    let ghost s = strip_decoration(version@);
    assert(s =~= version@.subrange(a as int, cut as int));
    let mut parts: Vec<String> = Vec::new();
    let mut cur = String::new();
    let mut i: usize = a;
    assert(version@.subrange(a as int, cut as int).subrange(0, (cut - a) as int) =~= s);
    while i < cut
        invariant
            a <= i <= cut <= n,
            n == version@.len(),
            s == version@.subrange(a as int, cut as int),
            split_parts(s, Seq::empty()) == views(parts@) + split_parts(version@.subrange(i as int, cut as int), cur@),
        decreases cut - i,
    {
        let c = version.get_char(i);
        let ghost rest = version@.subrange(i as int, cut as int);
        assert(rest[0] == c);
        assert(rest.drop_first() =~= version@.subrange(i + 1, cut as int));
        if c == '-' || c == '.' {
            let ghost before = views(parts@);
            if cur.as_str().unicode_len() > 0 {
                parts.push(cur);
                assert(views(parts@) =~= before + emit(cur@));
            } else {
                assert(views(parts@) =~= before + emit(cur@));
            }
            cur = String::new();
            assert(split_parts(s, Seq::empty()) =~= views(parts@) + split_parts(version@.subrange(i + 1, cut as int), cur@));
        } else {
            let piece = version.substring_char(i, i + 1);
            assert(piece@ =~= seq![c]);
            let ghost cur0 = cur@;
            cur.append(piece);
            assert(cur@ =~= cur0.push(c));
        }
        i = i + 1;
    }
    let ghost before = views(parts@);
    if cur.as_str().unicode_len() > 0 {
        parts.push(cur);
    }
    assert(views(parts@) =~= split_parts(s, Seq::empty())) by {
        assert(version@.subrange(i as int, cut as int).len() == 0);
    }
    if parts.len() == 3 {
        proof { reveal_strlit("~"); }
        let ghost before2 = views(parts@);
        let tilde = String::from_str("~");
        assert(tilde@ =~= seq!['~']);
        parts.push(tilde);
        assert(views(parts@) =~= before2.push(seq!['~']));
    }
    parts
}

/// Normalises a version string, as `normalize_spec` states.
pub fn normalize(version: &str) -> (r: String)
    ensures
        r@ == normalize_spec(version@),
{
    let parts = split_version(version);
    if parts.len() == 0 {
        return String::from_str(version);
    }
    let ghost ps = version_parts(version@);
    let ghost padded = Seq::new(ps.len(), |i: int| pad_part(ps[i]));
    let mut out = String::new();
    let mut i: usize = 0;
    proof { reveal_strlit("-"); }
    while i < parts.len()
        invariant
            views(parts@) == ps,
            padded == Seq::new(ps.len(), |i: int| pad_part(ps[i])),
            i <= parts@.len(),
            out@ == join_parts(padded, i as int),
        decreases parts@.len() - i,
    {
        assert(parts@[i as int]@ == ps[i as int]);
        proof { reveal_strlit("-"); }
        if i > 0 {
            out.append("-");
        }
        let ghost prev = out@;
        pad(&parts[i], &mut out);
        proof {
            if i == 0 {
                assert(out@ =~= join_parts(padded, 1));
            } else {
                assert(out@ =~= join_parts(padded, i + 1));
            }
        }
        i = i + 1;
    }
    out
}

} // verus!
