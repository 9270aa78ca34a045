//! Patterns: compiling one, and asking whether and where it matches a line.
//!
//! Matching itself is the work of the `regex` crate. What this module takes
//! from it on trust is written above each function that calls it.

use vstd::prelude::*;
use vstd::utf8::*;
use crate::text::is_text_boundary;

verus! {

#[verifier::external_type_specification]
#[verifier::external_body]
pub struct ExRegex(regex::Regex);

#[verifier::external_type_specification]
#[verifier::external_body]
pub struct ExRegexError(regex::Error);

/// `regex::Regex`'s `clone`. Nothing is claimed of the copy.
pub assume_specification[ <regex::Regex as Clone>::clone ](regex: &regex::Regex) -> regex::Regex;

/// The first match of `pattern` in `haystack`, as `regex::Regex::find`
/// reports it: the byte offsets, into the UTF-8 encoding of `haystack`, at
/// which the leftmost match starts and ends; `None` where the pattern matches
/// nowhere in `haystack`.
pub uninterp spec fn leftmost_match(pattern: Seq<char>, haystack: Seq<char>) -> Option<(int, int)>;

/// A pattern that compiled, ready to be matched against any number of lines.
///
/// Its view is the text of the pattern. The two fields are only ever set
/// together, when a pattern is compiled, so the matcher is always the one
/// that was compiled from that text.
#[derive(Debug, Clone)]
pub struct CompiledPattern {
    regex: regex::Regex,
    source: String,
}

impl View for CompiledPattern {
    type V = Seq<char>;

    closed spec fn view(&self) -> Seq<char> {
        self.source@
    }
}

/// Why a pattern did not compile.
#[derive(Debug, PartialEq, Eq, Clone)]
pub struct InvalidPattern {
    /// The compiler's own account of the fault.
    pub message: String,
}

/// The span that the matcher reported, as offsets without a bound.
pub open spec fn span_view(span: Option<(usize, usize)>) -> Option<(int, int)> {
    match span {
        Some((start, end)) => Some((start as int, end as int)),
        None => None,
    }
}

/// Whether `span` can be the first match in `line`: it starts no later than
/// it ends, lies within the line, and both its ends stand between characters.
pub open spec fn is_span_of(line: Seq<char>, span: (int, int)) -> bool {
    &&& span.0 <= span.1
    &&& is_text_boundary(line, span.0)
    &&& is_text_boundary(line, span.1)
}

/// Calls `regex::Regex::new`. Trusted: a pattern that compiles gives a
/// matcher for that very pattern text. Which patterns compile is left open:
/// besides the grammar, a limit on the size of the compiled pattern decides,
/// and that size is counted in the memory of the machine at hand.
#[verifier::external_body]
fn regex_new(pattern: &str) -> (outcome: Result<CompiledPattern, regex::Error>)
    ensures
        outcome matches Ok(compiled) ==> compiled@ == pattern@,
{
    match regex::Regex::new(pattern) {
        Ok(regex) => Ok(CompiledPattern { regex, source: pattern.to_owned() }),
        Err(error) => Err(error),
    }
}

/// Calls `regex::Error`'s `to_string`. Nothing is claimed of the text.
#[verifier::external_body]
fn regex_error_text(error: &regex::Error) -> (text: String) {
    error.to_string()
}

/// Calls `regex::Regex::is_match`. Trusted: it answers `true` exactly where
/// `regex::Regex::find` on the same pattern and haystack finds a match.
#[verifier::external_body]
fn regex_is_match(compiled: &CompiledPattern, haystack: &str) -> (found: bool)
    ensures
        found == leftmost_match(compiled@, haystack@).is_some(),
{
    compiled.regex.is_match(haystack)
}

/// Calls `regex::Regex::find`. Trusted: the span it reports depends on the
/// pattern text and the haystack alone, starts no later than it ends, lies
/// within the haystack, and cuts no character of the haystack in two.
#[verifier::external_body]
fn regex_find(compiled: &CompiledPattern, haystack: &str) -> (span: Option<(usize, usize)>)
    ensures
        span_view(span) == leftmost_match(compiled@, haystack@),
        span matches Some(found) ==> is_span_of(haystack@, (found.0 as int, found.1 as int)),
{
    compiled.regex.find(haystack).map(|found| (found.start(), found.end()))
}

/// What a compilation comes to: the compiled pattern as it is, or the
/// refusal with the compiler's message.
pub fn compiled_or_refused(outcome: Result<CompiledPattern, regex::Error>) -> (result: Result<
    CompiledPattern,
    InvalidPattern,
>)
    ensures
        outcome matches Ok(compiled) ==> result == Ok::<CompiledPattern, InvalidPattern>(compiled),
        outcome is Err ==> result is Err,
{
    match outcome {
        Ok(compiled) => Ok(compiled),
        Err(error) => Err(InvalidPattern { message: regex_error_text(&error) }),
    }
}

/// Compiles `regex_query`. A pattern that compiles comes back as a matcher
/// for that very text; one that does not is refused as `InvalidPattern`.
/// Which of the two happens is for the `regex` crate to say.
pub fn create_regex_expression(regex_query: &str) -> (result: Result<
    CompiledPattern,
    InvalidPattern,
>)
    ensures
        result matches Ok(compiled) ==> compiled@ == regex_query@,
{
    compiled_or_refused(regex_new(regex_query))
}

impl CompiledPattern {
    /// The text that this pattern was compiled from.
    pub fn pattern(&self) -> (text: &str)
        ensures
            text@ == self@,
    {
        self.source.as_str()
    }

    /// Whether the pattern matches somewhere in `line`.
    pub fn is_match(&self, line: &str) -> (found: bool)
        ensures
            found == leftmost_match(self@, line@).is_some(),
    {
        regex_is_match(self, line)
    }

    /// Where the first match of the pattern in `line` starts and ends, in
    /// bytes from the start of `line`; `None` where there is no match.
    pub fn locate(&self, line: &str) -> (span: Option<(usize, usize)>)
        ensures
            span_view(span) == leftmost_match(self@, line@),
            span matches Some(found) ==> is_span_of(line@, (found.0 as int, found.1 as int)),
    {
        regex_find(self, line)
    }
}

/// A line is a match exactly when a first match can be located in it:
/// whatever `is_match` answers for a pattern and a line, `locate` returns a
/// span for them if and only if that answer is `true`.
pub proof fn lemma_match_iff_located(
    pattern: Seq<char>,
    line: Seq<char>,
    found: bool,
    span: Option<(usize, usize)>,
)
    requires
        found == leftmost_match(pattern, line).is_some(),
        span_view(span) == leftmost_match(pattern, line),
    ensures
        found <==> span is Some,
{
}

} // verus!
