//! Compiled regular expressions, used by title normalisation.

use vstd::prelude::*;

verus! {

#[verifier::external_type_specification]
#[verifier::external_body]
pub struct ExRegex(regex::Regex);

/// Whether `regex::Regex::new` accepts `pattern`.
pub uninterp spec fn regex_compiles(pattern: Seq<char>) -> bool;

/// The text `regex::Regex::replace_all` produces for the regex compiled from
/// `pattern`, applied to `haystack` with `replacement`.
pub uninterp spec fn regex_replace_all_result(
    pattern: Seq<char>,
    haystack: Seq<char>,
    replacement: Seq<char>,
) -> Seq<char>;

/// The text `regex::Regex::replace` (first match only) produces for the regex
/// compiled from `pattern`, applied to `haystack` with `replacement`.
pub uninterp spec fn regex_replace_first_result(
    pattern: Seq<char>,
    haystack: Seq<char>,
    replacement: Seq<char>,
) -> Seq<char>;

/// A regular expression together with the pattern text it was compiled from.
/// Values are only built by [`Pattern::compile`], so `re` is always the
/// compilation of `source`.
pub struct Pattern {
    source: String,
    re: regex::Regex,
}

impl View for Pattern {
    type V = Seq<char>;

    closed spec fn view(&self) -> Seq<char> {
        self.source@
    }
}

/// Calls `regex::Regex::new`; succeeds exactly when the pattern compiles
/// (named `regex_compiles`). Nothing is claimed about the compiled value itself.
#[verifier::external_body]
fn compile_regex(pattern: &str) -> (r: Option<regex::Regex>)
    ensures
        r is Some <==> regex_compiles(pattern@),
{
    regex::Regex::new(pattern).ok()
}

impl Pattern {
    /// Compiles `pattern`; `None` exactly when the regex engine rejects it.
    pub fn compile(pattern: &str) -> (r: Option<Pattern>)
        ensures
            r is Some <==> regex_compiles(pattern@),
            r matches Some(p) ==> p@ == pattern@,
    {
        match compile_regex(pattern) {
            Some(re) => Some(Pattern { source: pattern.to_owned(), re }),
            None => None,
        }
    }

    /// Calls `regex::Regex::replace_all` on the compiled regex; the result is
    /// named `regex_replace_all_result` of the pattern text, the haystack and
    /// the replacement.
    #[verifier::external_body]
    pub(crate) fn replace_all(&self, haystack: &str, replacement: &str) -> (r: String)
        ensures
            r@ == regex_replace_all_result(self@, haystack@, replacement@),
    {
        self.re.replace_all(haystack, replacement).into_owned()
    }

    /// Calls `regex::Regex::replace` (first match only) on the compiled regex;
    /// the result is named `regex_replace_first_result` of the pattern text, the
    /// haystack and the replacement.
    #[verifier::external_body]
    pub(crate) fn replace_first(&self, haystack: &str, replacement: &str) -> (r: String)
        ensures
            r@ == regex_replace_first_result(self@, haystack@, replacement@),
    {
        self.re.replace(haystack, replacement).into_owned()
    }
}

} // verus!
