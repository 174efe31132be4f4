//! Compiled name patterns.
//!
//! Patterns are compiled and matched by the `regex` crate. Verus does not look
//! into that crate: what this module says of it is taken on trust.

use regex::Regex;
use vstd::prelude::*;

verus! {

/// A compiled regular expression of the `regex` crate; opaque to the verifier.
#[verifier::external_type_specification]
#[verifier::external_body]
pub struct ExRegex(regex::Regex);

/// The error with which the `regex` crate refuses a pattern; opaque to the
/// verifier.
#[verifier::external_type_specification]
#[verifier::external_body]
pub struct ExRegexError(regex::Error);

/// Whether `Regex::new` accepts the pattern: it is well formed and what it
/// compiles to stays within the crate's default size limit. This depends on
/// the pattern alone, for one build of the `regex` crate.
pub uninterp spec fn pattern_is_valid(pattern: Seq<char>) -> bool;

/// The pattern text that a compiled expression was made from, as
/// `Regex::as_str` returns it.
pub uninterp spec fn regex_source(re: Regex) -> Seq<char>;

/// Whether the expression matches somewhere in the text, as `Regex::is_match`
/// answers.
pub uninterp spec fn regex_matches(re: Regex, text: Seq<char>) -> bool;

/// `Regex::new` compiles a pattern. Trusted: it succeeds exactly on the
/// patterns that [`pattern_is_valid`] names, and the expression it returns
/// keeps the pattern text it was given.
pub assume_specification[ regex::Regex::new ](re: &str) -> (r: Result<Regex, regex::Error>)
    ensures
        r is Ok <==> pattern_is_valid(re@),
        r matches Ok(compiled) ==> regex_source(compiled) == re@,
;

/// `Regex::is_match` searches the whole text for a match. Trusted: its answer
/// is the one that [`regex_matches`] names.
pub assume_specification[ regex::Regex::is_match ](re: &Regex, haystack: &str) -> (b: bool)
    ensures
        b == regex_matches(*re, haystack@),
;

} // verus!
