//! Regular expressions, compiled and matched by the `regex` crate.
use vstd::prelude::*;

verus! {

/// A compiled regular expression of the `regex` crate; opaque, held inside `Pattern`.
#[verifier::external_type_specification]
#[verifier::external_body]
pub struct ExRegex(regex::Regex);

/// The error `regex::Regex::new` returns for a pattern it refuses; passed back to callers.
#[verifier::external_type_specification]
#[verifier::external_body]
pub struct ExRegexError(regex::Error);

/// Whether `regex::Regex::new` accepts the pattern (its syntax, and the default size limit).
pub uninterp spec fn regex_compiles(pattern: Seq<char>) -> bool;

/// Whether the regular expression written `pattern` matches somewhere in `text`.
pub uninterp spec fn regex_finds(pattern: Seq<char>, text: Seq<char>) -> bool;

/// A compiled regular expression, together with the pattern it was compiled from.
pub struct Pattern {
    source: String,
    compiled: regex::Regex,
}

impl Pattern {
    /// The pattern this expression was compiled from.
    pub closed spec fn source(&self) -> Seq<char> {
        self.source@
    }

    /// Compiles `pattern`; fails exactly when `regex::Regex::new` refuses it.
    pub fn new(pattern: &str) -> (r: Result<Pattern, regex::Error>)
        ensures
            r is Ok <==> regex_compiles(pattern@),
            r is Ok ==> r->Ok_0.source() == pattern@,
    {
        compile(pattern)
    }

    /// Whether the expression matches somewhere in `text`.
    pub fn is_match(&self, text: &str) -> (r: bool)
        ensures
            r == regex_finds(self.source(), text@),
    {
        find_in(self, text)
    }
}

/// Relies on `regex::Regex::new`: it returns `Ok` exactly for the patterns it accepts,
/// which depends on the pattern alone.
#[verifier::external_body]
fn compile(pattern: &str) -> (r: Result<Pattern, regex::Error>)
    ensures
        r is Ok <==> regex_compiles(pattern@),
        r is Ok ==> r->Ok_0.source@ == pattern@,
{
    match regex::Regex::new(pattern) {
        Ok(compiled) => Ok(Pattern { source: pattern.to_string(), compiled }),
        Err(e) => Err(e),
    }
}

/// Relies on `regex::Regex::is_match`: whether the expression matches anywhere in the
/// text. A `Pattern` is only built by `compile`, so `compiled` is `source` compiled.
#[verifier::external_body]
fn find_in(p: &Pattern, text: &str) -> (r: bool)
    ensures
        r == regex_finds(p.source@, text@),
{
    p.compiled.is_match(text)
}

} // verus!
