//! The regular expression by which files are left out of a copy.

use regex::Regex;
use vstd::prelude::*;

use crate::path::{slash_joined, utf8_lossy, MPath};

verus! {

#[verifier::external_type_specification]
#[verifier::external_body]
pub struct ExRegex(Regex);

#[verifier::external_type_specification]
#[verifier::external_body]
pub struct ExRegexError(regex::Error);

/// Whether a regular expression that was compiled from `pattern` with the crate's
/// defaults has a match anywhere in `text`, as `Regex::is_match` tells it.
pub uninterp spec fn regex_matches(pattern: Seq<char>, text: Seq<char>) -> bool;

/// A compiled regular expression beside the pattern that it was compiled from.
/// Values come from `compile` alone.
pub struct ExcludeRegex {
    pattern: String,
    regex: Regex,
}

/// A pattern that was refused, beside the reason. Values come from
/// `ExcludeRegex::compile` alone.
#[derive(Debug)]
pub struct RefusedPattern {
    pattern: String,
    reason: regex::Error,
}

impl RefusedPattern {
    /// The pattern that was refused.
    pub closed spec fn pattern(&self) -> Seq<char> {
        self.pattern@
    }

    /// Why it was refused.
    pub closed spec fn reason(&self) -> regex::Error {
        self.reason
    }

    /// Why the pattern was refused.
    pub fn into_reason(self) -> (reason: regex::Error)
        ensures
            reason == self.reason(),
    {
        self.reason
    }
}

impl ExcludeRegex {
    /// The pattern that the expression was compiled from.
    pub closed spec fn pattern(&self) -> Seq<char> {
        self.pattern@
    }

    /// Whether the path, written with slashes, has a match.
    pub open spec fn covers(&self, path: Seq<Seq<u8>>) -> bool {
        regex_matches(self.pattern(), utf8_lossy(slash_joined(path)))
    }

    /// Calls `Regex::new`. What it compiles, it compiles from the pattern given, and what
    /// it refuses is that pattern. Which patterns it accepts is left unsaid: besides the
    /// syntax, that rests on a limit to the memory of the compiled program, which differs
    /// between machines.
    #[verifier::external_body]
    pub(crate) fn compile(pattern: &str) -> (compiled: Result<ExcludeRegex, RefusedPattern>)
        ensures
            match compiled {
                Ok(regex) => regex.pattern() == pattern@,
                Err(refused) => refused.pattern() == pattern@,
            },
    {
        match Regex::new(pattern) {
            Ok(regex) => Ok(ExcludeRegex { pattern: pattern.to_owned(), regex }),
            Err(reason) => Err(RefusedPattern { pattern: pattern.to_owned(), reason }),
        }
    }

    /// Calls `Regex::is_match`. Its result depends on the pattern and the text alone.
    #[verifier::external_body]
    fn is_match(&self, text: &str) -> (found: bool)
        ensures
            found == regex_matches(self.pattern(), text@),
    {
        self.regex.is_match(text)
    }
}

impl MPath {
    /// Whether the path, written with slashes, has a match for the expression.
    pub fn matches_regex(&self, regex: &ExcludeRegex) -> (found: bool)
        ensures
            found == regex_matches(regex.pattern(), utf8_lossy(slash_joined(self@))),
            found == regex.covers(self@),
    {
        let text = self.text();
        regex.is_match(text.as_str())
    }
}

} // verus!
