//! Regular expressions, through the `regex` crate.

use regex::Error as RegexError;
use vstd::prelude::*;

verus! {

#[verifier::external_type_specification]
#[verifier::external_body]
pub struct ExRegex(regex::Regex);

#[verifier::external_type_specification]
#[verifier::external_body]
pub struct ExRegexError(RegexError);

/// Whether `regex::Regex::new` accepts `pattern` (it refuses invalid
/// patterns and those that exceed its default size limit).
pub uninterp spec fn regex_compiles(pattern: Seq<char>) -> bool;

/// Whether the regex compiled from `pattern` matches somewhere in `text`
/// (`regex::Regex::is_match`).
pub uninterp spec fn regex_matches(pattern: Seq<char>, text: Seq<char>) -> bool;

/// A compiled regular expression together with its pattern. Only
/// `compile_regex` makes one, so the two always belong together.
pub struct RegexMatcher {
    re: regex::Regex,
    pattern: String,
}

impl View for RegexMatcher {
    type V = Seq<char>;

    closed spec fn view(&self) -> Seq<char> {
        self.pattern@
    }
}

/// Compiles `pattern` with `regex::Regex::new`; the contract ties success
/// to `regex_compiles` and keeps the pattern with the regex.
#[verifier::external_body]
pub(crate) fn compile_regex(pattern: &str) -> (r: Result<RegexMatcher, RegexError>)
    ensures
        match r {
            Ok(m) => m@ == pattern@ && regex_compiles(pattern@),
            Err(_) => !regex_compiles(pattern@),
        },
{
    let re = regex::Regex::new(pattern)?;
    Ok(RegexMatcher { re, pattern: pattern.to_string() })
}

/// Calls `regex::Regex::is_match` on `text`; the contract names the result
/// by the pattern the regex was compiled from.
#[verifier::external_body]
pub(crate) fn regex_is_match(m: &RegexMatcher, text: &str) -> (b: bool)
    ensures
        b == regex_matches(m@, text@),
{
    m.re.is_match(text)
}

/// The message of a regex compilation error (its `Display`).
#[verifier::external_body]
pub(crate) fn regex_error_text(e: &RegexError) -> String {
    e.to_string()
}

} // verus!
