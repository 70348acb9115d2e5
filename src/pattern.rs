//! Regular-expression matching, through the `regex` crate.
use vstd::prelude::*;

verus! {

/// Whether `pattern` compiles as a regular expression.
pub uninterp spec fn pattern_compiles(pattern: Seq<char>) -> bool;

/// Whether the compiled `pattern` matches somewhere in `text`.
pub uninterp spec fn pattern_matches(pattern: Seq<char>, text: Seq<char>) -> bool;

#[verifier::external_type_specification]
#[verifier::external_body]
pub struct ExRegex(regex::Regex);

/// A regular expression together with the pattern it was compiled from.
/// Only `compile` builds one.
pub struct CompiledPattern {
    pattern: String,
    regex: regex::Regex,
}

impl CompiledPattern {
    /// The pattern this expression was compiled from.
    pub closed spec fn pattern_of(&self) -> Seq<char> {
        self.pattern@
    }
}

/// Relies on regex::Regex::new: it compiles the pattern, or fails exactly
/// when the pattern is not a valid expression.
#[verifier::external_body]
pub(crate) fn compile(pattern: &str) -> (r: Option<CompiledPattern>)
    ensures
        r.is_some() == pattern_compiles(pattern@),
        r matches Some(c) ==> c.pattern_of() == pattern@,
{
    regex::Regex::new(pattern).ok().map(|regex| CompiledPattern { pattern: pattern.to_string(), regex })
}

/// Relies on regex::Regex::is_match: whether the expression matches
/// somewhere in `text`.
#[verifier::external_body]
pub(crate) fn is_match(compiled: &CompiledPattern, text: &str) -> (r: bool)
    ensures
        r == pattern_matches(compiled.pattern_of(), text@),
{
    compiled.regex.is_match(text)
}

/// The regular expression of one decimal digit (Unicode class `\d`).
pub open spec fn digit_pattern() -> Seq<char> {
    "\\d"@
}

/// Whether some character of `s` is a digit in the sense of the regex class
/// `\d` (Unicode decimal digits).
pub open spec fn has_regex_digit(s: Seq<char>) -> bool {
    pattern_compiles(digit_pattern()) && pattern_matches(digit_pattern(), s)
}

/// Whether some character of `s` is a digit, as `has_regex_digit` states.
pub fn contains_digit(s: &str) -> (r: bool)
    ensures
        r == has_regex_digit(s@),
{
    match compile("\\d") {
        Some(digit) => is_match(&digit, s),
        None => false,
    }
}

} // verus!
