use vstd::prelude::*;

use crate::error::Error;
use crate::messages::planning_with;

verus! {

/// Whether the regex crate accepts a pattern; its syntax alone decides.
pub uninterp spec fn regex_valid(pattern: Seq<char>) -> bool;

/// Whether a pattern matches anywhere in a text; a function of the pattern
/// and the text alone.
pub uninterp spec fn regex_match(pattern: Seq<char>, text: Seq<char>) -> bool;

/// The outside regex type, declared so that a compiled value can be held.
#[verifier::external_type_specification]
#[verifier::external_body]
pub struct ExRegex(regex::Regex);

/// A compiled regular expression, keeping the pattern it was built from.
pub struct Pattern {
    re: regex::Regex,
    pattern: String,
}

impl Pattern {
    /// The pattern the expression was compiled from.
    pub closed spec fn spec_pattern(self) -> Seq<char> {
        self.pattern@
    }

    /// Relies on regex::Regex::new: it compiles a pattern, or refuses it by
    /// its syntax alone.
    #[verifier::external_body]
    pub fn compile(pattern: &str) -> (r: Option<Pattern>)
        ensures
            (r is Some) == regex_valid(pattern@),
            r matches Some(p) ==> p.spec_pattern() == pattern@,
    {
        match regex::Regex::new(pattern) {
            Ok(re) => Some(Pattern { re, pattern: pattern.to_owned() }),
            Err(_) => None,
        }
    }

    /// Relies on regex::Regex::is_match: whether there is a match anywhere in
    /// the text, decided by the pattern and the text alone.
    #[verifier::external_body]
    pub fn is_match(&self, text: &str) -> (r: bool)
        ensures
            r == regex_match(self.spec_pattern(), text@),
    {
        self.re.is_match(text)
    }
}

/// "invalid regular expression: {pattern}"
pub open spec fn msg_invalid_regex(pattern: Seq<char>) -> Seq<char> {
    "invalid regular expression: "@ + pattern
}

/// Compiles a pattern or reports the planning error the rewrite uses.
pub fn compile_regex(pattern: &str) -> (r: Result<Pattern, Error>)
    ensures
        match r {
            Result::Ok(p) => regex_valid(pattern@) && p.spec_pattern() == pattern@,
            Result::Err(e) => !regex_valid(pattern@) && planning_with(
                e,
                msg_invalid_regex(pattern@),
            ),
        },
{
    match Pattern::compile(pattern) {
        Option::Some(p) => Ok(p),
        Option::None => {
            let mut m = String::new();
            m.append("invalid regular expression: ");
            m.append(pattern);
            proof {
                assert(m@ =~= msg_invalid_regex(pattern@));
            }
            Err(Error::Planning(m))
        },
    }
}

} // verus!
