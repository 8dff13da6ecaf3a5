//! Pattern compilation: a raw pattern string is validated and compiled,
//! eagerly and before any filesystem access, into a reusable matcher.

use vstd::prelude::*;
use crate::record::SearchError;

verus! {

/// Whether a pattern string is a valid regular expression, that is, one the
/// pattern compiler accepts. This names the success condition of
/// `grep_regex::RegexMatcher::new`, a function of the pattern string alone.
pub uninterp spec fn pattern_valid(pattern: Seq<char>) -> bool;

/// Whether a scanned line satisfies a pattern. This names the criterion by
/// which `grep_searcher::Searcher::search_path` reports a line when its
/// matcher was compiled from `pattern`: for a fixed pattern it is a function
/// of the line's text alone.
pub uninterp spec fn line_matches(pattern: Seq<char>, line: Seq<char>) -> bool;

#[verifier::external_type_specification]
#[verifier::external_body]
pub struct ExRegexMatcher(grep_regex::RegexMatcher);

/// A compiled matcher together with the pattern text it was compiled from.
/// Construction is the only failure point: once built, it is always valid.
pub struct Pattern {
    pub(crate) source: String,
    pub(crate) matcher: grep_regex::RegexMatcher,
}

impl Pattern {
    /// The pattern text this matcher was compiled from.
    pub closed spec fn source_view(&self) -> Seq<char> {
        self.source@
    }

    /// The pattern string this matcher was compiled from.
    pub fn source(&self) -> (r: &String)
        ensures
            r@ == self.source_view(),
    {
        &self.source
    }

    /// Compiles a pattern string eagerly. A syntactically invalid pattern is
    /// the only failure, and it is reported before any filesystem access.
    pub fn compile(pattern: &String) -> (r: Result<Pattern, SearchError>)
        ensures
            r is Ok <==> pattern_valid(pattern@),
            r matches Ok(p) ==> p.source_view() == pattern@,
            r matches Err(e) ==> e is InvalidPattern,
    {
        match compile_matcher(pattern) {
            Ok(p) => Ok(p),
            Err(reason) => Err(SearchError::InvalidPattern { reason }),
        }
    }
}

/// Relies on `grep_regex::RegexMatcher::new`: with the default builder,
/// whether it succeeds depends on the pattern string alone; `pattern_valid`
/// names that condition, and the compiled matcher keeps its pattern text.
#[verifier::external_body]
fn compile_matcher(pattern: &String) -> (r: Result<Pattern, String>)
    ensures
        r is Ok <==> pattern_valid(pattern@),
        r matches Ok(p) ==> p.source_view() == pattern@,
{
    match grep_regex::RegexMatcher::new(pattern.as_str()) {
        Ok(matcher) => Ok(Pattern { source: pattern.clone(), matcher }),
        Err(e) => Err(format!("{}", e)),
    }
}

} // verus!
