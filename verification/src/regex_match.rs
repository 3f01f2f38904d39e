use vstd::prelude::*;

use crate::string_err::StringErr;

verus! {

/// Whether a pattern compiles, or the text of the error it fails with.
pub type BuildOutcome = Result<(), Seq<char>>;

/// Whether a pattern matches, or the text of the error it fails with.
pub type MatchOutcome = Result<bool, Seq<char>>;

/// What `regex::Regex::new` gives for a pattern, apart from the compiled
/// regex itself: `Ok` where the pattern compiles, and otherwise `Err` with
/// the error as its `Debug` formatting writes it.
pub uninterp spec fn regex_build(pattern: Seq<char>) -> BuildOutcome;

/// What `regex::Regex::is_match` answers, for the regex compiled from
/// `pattern`, on `haystack`: whether the regex matches anywhere in it.
pub uninterp spec fn regex_matches(pattern: Seq<char>, haystack: Seq<char>) -> bool;

/// Calls `regex::Regex::new` on `pattern` and, where it compiles,
/// `regex::Regex::is_match` of that regex on `haystack`; a compile error is
/// turned into its `Debug` text. The contract claims that the outcome is
/// `regex_build` of the pattern and, where it compiles, `regex_matches` of the
/// pattern and the haystack.
#[verifier::external_body]
fn regex_compile_and_match(pattern: &str, haystack: &str) -> (r: Result<bool, String>)
    ensures
        r matches Ok(b) ==> regex_build(pattern@) is Ok && b == regex_matches(pattern@, haystack@),
        r matches Err(m) ==> regex_build(pattern@) == BuildOutcome::Err(m@),
{
    match regex::Regex::new(pattern) {
        Ok(re) => Ok(re.is_match(haystack)),
        Err(e) => Err(format!("{:?}", e)),
    }
}

/// What matching `pattern` as a regex against `haystack` gives: whether it
/// matches, or the compile error's text.
pub open spec fn regex_outcome(pattern: Seq<char>, haystack: Seq<char>) -> MatchOutcome {
    match regex_build(pattern) {
        Ok(_) => Ok(regex_matches(pattern, haystack)),
        Err(msg) => Err(msg),
    }
}

/// Compiles `pattern` and tells whether it matches anywhere in `haystack`;
/// fails with the compile error's `Debug` text where the pattern does not
/// compile.
pub fn regex_match(pattern: &str, haystack: &str) -> (r: Result<bool, StringErr>)
    ensures
        r matches Ok(b) ==> regex_outcome(pattern@, haystack@) == MatchOutcome::Ok(b),
        r matches Err(e) ==> regex_outcome(pattern@, haystack@) == MatchOutcome::Err(e@),
{
    match regex_compile_and_match(pattern, haystack) {
        Ok(b) => Ok(b),
        Err(m) => Err(StringErr::new(m)),
    }
}

}
