use vstd::prelude::*;

verus! {

/// Whether `regex::Regex::new` accepts a pattern.
pub uninterp spec fn spec_regex_is_valid(pattern: Seq<char>) -> bool;

/// What `Regex::replace` returns: `text` with the first match of `pattern` replaced.
pub uninterp spec fn spec_regex_replace(
    pattern: Seq<char>,
    text: Seq<char>,
    replacement: Seq<char>,
) -> Seq<char>;

/// What `Regex::is_match` returns: whether `pattern` matches somewhere in `text`.
pub uninterp spec fn spec_regex_is_match(pattern: Seq<char>, text: Seq<char>) -> bool;

/// Compiles `pattern` with `regex::Regex::new` and replaces its first match in `text` with
/// `Regex::replace`. Trusted: there is a result exactly when the pattern compiles
/// (`spec_regex_is_valid`), and it is `spec_regex_replace(pattern, text, replacement)`.
#[verifier::external_body]
pub(crate) fn regex_replace(pattern: &str, text: &str, replacement: &str) -> (r: Option<String>)
    ensures
        r is Some <==> spec_regex_is_valid(pattern@),
        r matches Some(s) ==> s@ == spec_regex_replace(pattern@, text@, replacement@),
{
    match regex::Regex::new(pattern) {
        Ok(re) => Some(re.replace(text, replacement).into_owned()),
        Err(_) => None,
    }
}

/// Compiles `pattern` with `regex::Regex::new` and tests `text` with `Regex::is_match`.
/// Trusted: there is a result exactly when the pattern compiles (`spec_regex_is_valid`), and
/// it is `spec_regex_is_match(pattern, text)`.
#[verifier::external_body]
pub(crate) fn regex_is_match(pattern: &str, text: &str) -> (r: Option<bool>)
    ensures
        r is Some <==> spec_regex_is_valid(pattern@),
        r matches Some(b) ==> b == spec_regex_is_match(pattern@, text@),
{
    match regex::Regex::new(pattern) {
        Ok(re) => Some(re.is_match(text)),
        Err(_) => None,
    }
}

} // verus!
