//! Regular expressions, through the `regex` crate. A pattern is kept as its
//! text; each use compiles it with the flags given.

use vstd::prelude::*;

verus! {

/// `regex::Error`, the reason the `regex` crate refuses a pattern.
#[verifier::external_type_specification]
#[verifier::external_body]
pub struct ExRegexError(regex::Error);

/// The `regex` crate accepts `pattern` (with case-insensitive matching when
/// `ci`): `RegexBuilder::new(pattern).case_insensitive(ci).build()` is `Ok`.
pub uninterp spec fn regex_accepts(pattern: Seq<char>, ci: bool) -> bool;

/// The capture groups of the leftmost-first match of `pattern` in `text`
/// (`Regex::captures`): `None` without a match, otherwise one entry per group,
/// group 0 being the whole match and `None` standing for a group that took no
/// part in the match.
pub uninterp spec fn regex_captures(pattern: Seq<char>, ci: bool, text: Seq<char>) -> Option<Seq<Option<Seq<char>>>>;

/// `text` with every non-overlapping match of `pattern` replaced by `rep`
/// (`Regex::replace_all`, case-sensitive, `$` references in `rep` expanded).
pub uninterp spec fn regex_replace_all(pattern: Seq<char>, text: Seq<char>, rep: Seq<char>) -> Seq<char>;

/// The view of an optional string.
pub open spec fn opt_view(o: Option<String>) -> Option<Seq<char>> {
    match o {
        Some(s) => Some(s@),
        None => None,
    }
}

/// The views of optional capture groups.
pub open spec fn groups_view(v: Seq<Option<String>>) -> Seq<Option<Seq<char>>> {
    v.map_values(|o: Option<String>| opt_view(o))
}

/// Compiles `pattern` (`RegexBuilder::new(pattern).case_insensitive(ci).build()`),
/// keeping only whether it was accepted; the error says why not.
#[verifier::external_body]
pub(crate) fn regex_build(pattern: &str, ci: bool) -> (r: Result<(), regex::Error>)
    ensures
        r is Ok <==> regex_accepts(pattern@, ci),
{
    regex::RegexBuilder::new(pattern).case_insensitive(ci).build().map(|_| ())
}

/// The text of a `regex::Error` (its `Display`).
#[verifier::external_body]
pub(crate) fn regex_error_text(e: &regex::Error) -> String {
    e.to_string()
}

/// The capture groups of the first match of `pattern` in `text`
/// (`Regex::captures` on the pattern compiled with the flags given).
#[verifier::external_body]
pub(crate) fn regex_capture(pattern: &str, ci: bool, text: &str) -> (r: Option<Vec<Option<String>>>)
    requires
        regex_accepts(pattern@, ci),
    ensures
        r is Some <==> regex_captures(pattern@, ci, text@) is Some,
        r matches Some(g) ==> groups_view(g@) == regex_captures(pattern@, ci, text@).unwrap(),
{
    let re = regex::RegexBuilder::new(pattern).case_insensitive(ci).build().unwrap();
    re.captures(text).map(|c| c.iter().map(|m| m.map(|m| m.as_str().to_string())).collect())
}

/// `text` with every match of `pattern` replaced by `rep`
/// (`Regex::new(pattern)?.replace_all(text, rep)`). The patterns `<[^>]+>`
/// (a negated class repeated) and `\s+` (the white-space class repeated) are
/// valid syntax as the crate documents it, so they compile.
#[verifier::external_body]
pub(crate) fn regex_replace(pattern: &str, text: &str, rep: &str) -> (r: Result<String, regex::Error>)
    ensures
        r is Ok <==> regex_accepts(pattern@, false),
        pattern@ == "<[^>]+>"@ || pattern@ == "\\s+"@ ==> r is Ok,
        r matches Ok(s) ==> s@ == regex_replace_all(pattern@, text@, rep@),
{
    regex::Regex::new(pattern).map(|re| re.replace_all(text, rep).into_owned())
}

} // verus!
