//! Match rules: patterns over file paths that decide which connection serves
//! a request.

use regex::Regex;
use vstd::prelude::*;

verus! {

/// The error that the `regex` crate reports for a pattern it cannot compile.
#[verifier::external_type_specification]
#[verifier::external_body]
pub struct ExRegexError(regex::Error);

/// Whether `regex::Regex::new` accepts `pattern`: it is a regular
/// expression in the crate's syntax, and small enough for the crate's
/// default size limit.
pub uninterp spec fn pattern_compiles(pattern: Seq<char>) -> bool;

/// Whether the expression that `regex::Regex::new` compiles from `pattern`
/// has a match anywhere in `text`, as `regex::Regex::is_match` reports it.
/// It says nothing of a pattern that does not compile.
pub uninterp spec fn pattern_finds(pattern: Seq<char>, text: Seq<char>) -> bool;

/// Compiles `pattern` with `regex::Regex::new` and, if that works, searches
/// `text` with `regex::Regex::is_match`. Nothing of this is proved. The
/// contract gives the two results their names: the answer is the crate's
/// error exactly if the pattern does not compile, and otherwise tells
/// whether the compiled expression matches somewhere in `text`.
#[verifier::external_body]
fn compile_and_match(pattern: &str, text: &str) -> (found: Result<bool, regex::Error>)
    ensures
        found is Ok <==> pattern_compiles(pattern@),
        found matches Ok(b) ==> b == pattern_finds(pattern@, text@),
{
    match Regex::new(pattern) {
        Ok(re) => Ok(re.is_match(text)),
        Err(e) => Err(e),
    }
}

/// Why a match rule could not be made.
#[derive(Clone, Copy, Debug, PartialEq, Eq, Structural)]
pub enum RuleError {
    /// The pattern is not a regular expression that compiles.
    InvalidPattern,
}

/// A pattern over file paths, held as its text. A rule made by `new` holds
/// a pattern that compiles.
#[derive(Debug, PartialEq, Eq)]
pub struct MatchRule {
    pattern: String,
}

impl View for MatchRule {
    type V = Seq<char>;

    closed spec fn view(&self) -> Seq<char> {
        self.pattern@
    }
}

/// Whether a rule with this pattern claims `path`: the pattern compiles and
/// matches somewhere in the path.
pub open spec fn rule_accepts(pattern: Seq<char>, path: Seq<char>) -> bool {
    pattern_compiles(pattern) && pattern_finds(pattern, path)
}

impl Clone for MatchRule {
    fn clone(&self) -> (copy: MatchRule)
        ensures
            copy@ == self@,
    {
        MatchRule { pattern: self.pattern.clone() }
    }
}

impl MatchRule {
    /// Makes a rule from `pattern`, and refuses a pattern that does not
    /// compile. Whether a pattern compiles does not depend on the text that
    /// is searched, so the empty text serves to find out.
    pub fn new(pattern: String) -> (made: Result<MatchRule, RuleError>)
        ensures
            made is Ok <==> pattern_compiles(pattern@),
            made matches Ok(rule) ==> rule@ == pattern@,
            made matches Err(e) ==> e == RuleError::InvalidPattern,
    {
        match compile_and_match(pattern.as_str(), "") {
            Ok(_) => Ok(MatchRule { pattern }),
            Err(_) => Err(RuleError::InvalidPattern),
        }
    }

    /// The pattern text.
    pub fn pattern(&self) -> (text: &str)
        ensures
            text@ == self@,
    {
        self.pattern.as_str()
    }

    /// Whether this rule claims `path`: its pattern matches somewhere in
    /// the path. A pattern that does not compile claims nothing.
    pub fn matches(&self, path: &str) -> (hit: bool)
        ensures
            hit == rule_accepts(self@, path@),
    {
        match compile_and_match(self.pattern.as_str(), path) {
            Ok(found) => found,
            Err(_) => false,
        }
    }
}

} // verus!
