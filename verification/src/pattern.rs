//! Compiled case-insensitive trigger patterns.
//!
//! Pattern syntax and matching are supplied by the `regex` crate.  This
//! module is the only place that talks to it: the two uninterpreted names
//! below stand for what its compiler and matcher return, and every other
//! contract in the crate speaks of patterns through those names.

use vstd::prelude::*;

verus! {

#[verifier::external_type_specification]
#[verifier::external_body]
pub struct ExRegex(regex::Regex);

/// Whether `pattern` is accepted by the regex compiler (with its default
/// limits): the result of `regex::RegexBuilder::build`, which depends on the
/// pattern text alone.
pub uninterp spec fn pattern_valid(pattern: Seq<char>) -> bool;

/// Whether the case-insensitive compilation of `pattern` matches anywhere in
/// `text`: the result of `regex::Regex::is_match`, which depends on the
/// pattern and the text alone.
pub uninterp spec fn pattern_matches(pattern: Seq<char>, text: Seq<char>) -> bool;

/// A trigger pattern together with its compiled, case-insensitive form.
///
/// The fields are private and only [`Pattern::compile`] builds a value, so
/// the compiled form always belongs to the recorded source text.
pub struct Pattern {
    source: String,
    compiled: regex::Regex,
}

impl View for Pattern {
    type V = Seq<char>;

    /// A pattern is abstractly its source text.
    closed spec fn view(&self) -> Seq<char> {
        self.source@
    }
}

impl Pattern {
    /// Relies on `regex::RegexBuilder::build` (with `case_insensitive(true)`):
    /// compilation succeeds exactly on the pattern texts it accepts, and the
    /// compiled value is kept beside its source text.
    #[verifier::external_body]
    pub fn compile(pattern: &str) -> (r: Option<Pattern>)
        ensures
            r is Some <==> pattern_valid(pattern@),
            r matches Some(p) ==> p@ == pattern@,
    {
        match regex::RegexBuilder::new(pattern).case_insensitive(true).build() {
            Ok(compiled) => Some(Pattern { source: pattern.to_owned(), compiled }),
            Err(_) => None,
        }
    }

    /// Relies on `regex::Regex::is_match`: true if and only if the compiled
    /// pattern matches somewhere in `text`, a function of the pattern and the
    /// text alone.
    #[verifier::external_body]
    pub fn is_match(&self, text: &str) -> (r: bool)
        ensures
            r == pattern_matches(self@, text@),
    {
        self.compiled.is_match(text)
    }

    /// The source text the pattern was compiled from.
    pub fn source(&self) -> (r: &str)
        ensures
            r@ == self@,
    {
        self.source.as_str()
    }
}

} // verus!
