//! Regular expressions, compiled and applied by the `regex` crate.

use vstd::prelude::*;

verus! {

#[verifier::external_type_specification]
#[verifier::external_body]
pub struct ExRegex(regex::Regex);

/// Whether the `regex` crate accepts `pattern` as a regular expression.
pub uninterp spec fn regex_compiles(pattern: Seq<char>) -> bool;

/// What the `regex` crate's `Regex::replace` makes of `haystack` with the
/// expression `pattern`: the leftmost-first match replaced by
/// `replacement`, whose `$` references are expanded.
pub uninterp spec fn regex_replace_first(
    pattern: Seq<char>,
    haystack: Seq<char>,
    replacement: Seq<char>,
) -> Seq<char>;

/// A compiled regular expression, with the text it was compiled from.
pub struct Pattern {
    source: String,
    compiled: regex::Regex,
}

impl Pattern {
    /// The text that the expression was compiled from.
    pub closed spec fn source(&self) -> Seq<char> {
        self.source@
    }
}

/// Compiles `source` with `regex::Regex::new`. The contract claims that
/// compiling succeeds exactly when the crate accepts the pattern, and that
/// the result remembers its source.
#[verifier::external_body]
fn compile_regex(source: &str) -> (compiled: Option<Pattern>)
    ensures
        compiled is Some <==> regex_compiles(source@),
        compiled matches Some(p) ==> p.source() == source@,
{
    match regex::Regex::new(source) {
        Ok(re) => Some(Pattern { source: source.to_string(), compiled: re }),
        Err(_) => None,
    }
}

/// Replaces the first match of `pattern` in `haystack` with `Regex::replace`.
/// The contract claims that the result is `regex_replace_first` of the
/// source of the pattern, the haystack and the replacement; what that is
/// is left to the name.
#[verifier::external_body]
fn replace_first(pattern: &Pattern, haystack: &str, replacement: &str) -> (replaced: String)
    ensures
        replaced@ == regex_replace_first(pattern.source(), haystack@, replacement@),
{
    pattern.compiled.replace(haystack, replacement).into_owned()
}

/// Compiles `pattern` and replaces its first match in `haystack` with
/// `replacement`; nothing when the pattern does not compile.
pub fn replace_pattern(pattern: &str, haystack: &str, replacement: &str) -> (replaced: Option<String>)
    ensures
        replaced is Some <==> regex_compiles(pattern@),
        replaced matches Some(r) ==> r@ == regex_replace_first(pattern@, haystack@, replacement@),
{
    match compile_regex(pattern) {
        Some(p) => Some(replace_first(&p, haystack, replacement)),
        None => None,
    }
}

} // verus!
