//! Regular-expression matching through the `regex` crate.

use vstd::prelude::*;

verus! {

#[verifier::external_type_specification]
#[verifier::external_body]
pub struct ExRegex(regex::Regex);

#[verifier::external_type_specification]
#[verifier::external_body]
pub struct ExRegexError(regex::Error);

/// Whether `regex::Regex::new` accepts `pattern`.
pub uninterp spec fn regex_compiles(pattern: Seq<char>) -> bool;

/// Whether the regular expression `pattern`, compiled by `regex::Regex::new`,
/// finds a match anywhere in `haystack`.
pub uninterp spec fn regex_matches(pattern: Seq<char>, haystack: Seq<char>) -> bool;

/// The `Display` text of the error that `regex::Regex::new` returns for
/// `pattern`.
pub uninterp spec fn regex_error_message(pattern: Seq<char>) -> Seq<char>;

/// The error that refused a pattern, together with that pattern.
///
/// Values are only made by [`compile_pattern`], so `error` is what
/// `regex::Regex::new` returned for `source`.
pub struct PatternError {
    source: String,
    error: regex::Error,
}

impl View for PatternError {
    type V = Seq<char>;

    /// The pattern that was refused.
    closed spec fn view(&self) -> Seq<char> {
        self.source@
    }
}

/// A regular expression together with the pattern it was compiled from.
///
/// Values are only made by [`compile_pattern`], so `regex` is always the
/// compilation of `source`.
pub struct CompiledPattern {
    source: String,
    regex: regex::Regex,
}

impl View for CompiledPattern {
    type V = Seq<char>;

    /// The pattern the expression was compiled from.
    closed spec fn view(&self) -> Seq<char> {
        self.source@
    }
}

/// Compiles `pattern` with `regex::Regex::new`.
///
/// Trusted: `Regex::new` succeeds exactly on the patterns that
/// [`regex_compiles`] names; the compiled expression, or the error, is kept
/// with a copy of its pattern.
#[verifier::external_body]
pub(crate) fn compile_pattern(pattern: &str) -> (res: Result<CompiledPattern, PatternError>)
    ensures
        res is Ok <==> regex_compiles(pattern@),
        res matches Ok(compiled) ==> compiled@ == pattern@,
        res matches Err(refused) ==> refused@ == pattern@,
{
    match regex::Regex::new(pattern) {
        Ok(regex) => Ok(CompiledPattern { source: pattern.to_string(), regex }),
        Err(error) => Err(PatternError { source: pattern.to_string(), error }),
    }
}

/// Searches `haystack` with `regex::Regex::is_match`.
///
/// Trusted: the answer is the one [`regex_matches`] names for the pattern the
/// expression was compiled from.
#[verifier::external_body]
pub(crate) fn pattern_is_match(compiled: &CompiledPattern, haystack: &str) -> (res: bool)
    ensures
        res == regex_matches(compiled@, haystack@),
{
    compiled.regex.is_match(haystack)
}

/// The `Display` text of a `regex::Error`.
///
/// Trusted: the text is the one [`regex_error_message`] names for the refused
/// pattern.
#[verifier::external_body]
pub(crate) fn regex_error_text(refused: &PatternError) -> (res: String)
    ensures
        res@ == regex_error_message(refused@),
{
    refused.error.to_string()
}

} // verus!
