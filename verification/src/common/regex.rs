//! A small regular-expression helper: compile a pattern and collect the
//! first capture group of each non-overlapping match. Both what a pattern
//! accepts and the collected groups are fixed functions of the pattern and
//! the text, so they carry names.

use vstd::prelude::*;

verus! {

/// Whether `re` is a valid pattern for the regex engine.
pub uninterp spec fn regex_ok(re: Seq<char>) -> bool;

/// The first capture group of each non-overlapping match of `re` in `s`,
/// in match order (matches without a first group are skipped).
pub uninterp spec fn regex_groups_of(re: Seq<char>, s: Seq<char>) -> Seq<Seq<char>>;

/// Declares the pattern error type so the wrapper can return it.
#[verifier::external_type_specification]
#[verifier::external_body]
pub struct ExRegexError(regex::Error);

/// Why a match was refused.
#[derive(Debug, PartialEq)]
pub enum RegexError {
    /// The pattern does not compile.
    InvalidPattern,
}

/// Relies on `regex::Regex::new` and `Regex::captures_iter`: compilation
/// success depends on the pattern alone, and the walk over the
/// non-overlapping matches — keeping each match's first capture group —
/// depends on the pattern and the text alone.
#[verifier::external_body]
fn regex_extract_groups(re: &str, s: &str) -> (r: Result<Vec<String>, regex::Error>)
    ensures
        r is Ok == regex_ok(re@),
        r matches Ok(v) ==> v.deep_view() == regex_groups_of(re@, s@),
{
    let rx = regex::Regex::new(re)?;
    let mut list: Vec<String> = Vec::new();
    for c in rx.captures_iter(s) {
        if let Some(m) = c.get(1) {
            list.push(m.as_str().to_string());
        }
    }
    Ok(list)
}

/// Text that a pattern can be run over.
pub trait SimpleRegexMatch {
    /// The first capture group of each match of `re`, in match order.
    /// Fails exactly when the pattern does not compile.
    fn regex(&self, re: &str) -> (r: Result<Vec<String>, RegexError>)
        ensures
            r is Ok == regex_ok(re@),
            r matches Err(e) ==> e == RegexError::InvalidPattern,
    ;
}

impl SimpleRegexMatch for str {
    fn regex(&self, re: &str) -> (r: Result<Vec<String>, RegexError>)
        ensures
            r is Ok == regex_ok(re@),
            r matches Ok(v) ==> v.deep_view() == regex_groups_of(re@, self@),
            r matches Err(e) ==> e == RegexError::InvalidPattern,
    {
        match regex_extract_groups(re, self) {
            Ok(v) => Ok(v),
            Err(_) => Err(RegexError::InvalidPattern),
        }
    }
}

impl SimpleRegexMatch for String {
    fn regex(&self, re: &str) -> (r: Result<Vec<String>, RegexError>)
        ensures
            r is Ok == regex_ok(re@),
            r matches Ok(v) ==> v.deep_view() == regex_groups_of(re@, self@),
            r matches Err(e) ==> e == RegexError::InvalidPattern,
    {
        self.as_str().regex(re)
    }
}

} // verus!
