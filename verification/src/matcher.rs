//! Header matching and HTML stripping used by the IMAP scan. Pure helpers so
//! they can be tested without a mail server.

use vstd::prelude::*;
use crate::pattern::{regex_accepts, regex_replace, regex_replace_all};
use crate::text::{
    chars_of, contains_chars, has_substring, string_of, to_lower, trim_chars, trim_text,
    trim_ws, unicode_lowercase,
};

verus! {

/// The view of an optional string slice.
pub open spec fn opt_str_view(o: Option<&str>) -> Option<Seq<char>> {
    match o {
        Some(s) => Some(s@),
        None => None,
    }
}

/// A header passes a needle when the needle is absent or empty, or when the
/// lowercased header contains the lowercased needle.
pub open spec fn header_matches_spec(needle: Option<Seq<char>>, haystack: Seq<char>) -> bool {
    match needle {
        None => true,
        Some(n) => n.len() == 0 || has_substring(unicode_lowercase(haystack), unicode_lowercase(n)),
    }
}

/// Case-insensitive substring test. `None`/empty needle always matches (skip the
/// check).
pub fn header_matches(needle: Option<&str>, haystack: &str) -> (r: bool)
    ensures
        r == header_matches_spec(opt_str_view(needle), haystack@),
{
    match needle {
        None => true,
        Some(n) => {
            let nc = chars_of(n);
            if nc.len() == 0 {
                return true;
            }
            let h = to_lower(haystack);
            let l = to_lower(n);
            let hc = chars_of(h.as_str());
            let lc = chars_of(l.as_str());
            contains_chars(hc.as_slice(), lc.as_slice())
        },
    }
}

/// Both the From and the Subject header pass their needles.
pub fn matches(
    match_from: Option<&str>,
    match_subject: Option<&str>,
    from_header: &str,
    subject_header: &str,
) -> (r: bool)
    ensures
        r == (header_matches_spec(opt_str_view(match_from), from_header@)
            && header_matches_spec(opt_str_view(match_subject), subject_header@)),
{
    header_matches(match_from, from_header) && header_matches(match_subject, subject_header)
}

/// The pattern of an HTML tag.
pub open spec fn tag_pattern() -> Seq<char> {
    "<[^>]+>"@
}

/// The pattern of a run of white space.
pub open spec fn space_run_pattern() -> Seq<char> {
    "\\s+"@
}

/// Tags replaced by a space, white-space runs collapsed to one space, then
/// trimmed.
pub open spec fn stripped_html(html: Seq<char>) -> Seq<char> {
    trim_ws(regex_replace_all(space_run_pattern(), regex_replace_all(tag_pattern(), html, " "@), " "@))
}

/// Strip HTML tags and collapse whitespace to single spaces, then trim.
pub fn strip_html(html: &str) -> (r: String)
    ensures
        r@ == stripped_html(html@),
{
    let tagless = match regex_replace("<[^>]+>", html, " ") {
        Ok(s) => s,
        Err(_) => return String::new(),
    };
    let spaced = match regex_replace("\\s+", tagless.as_str(), " ") {
        Ok(s) => s,
        Err(_) => return String::new(),
    };
    let t = trim_text(spaced.as_str());
    string_of(t.as_slice())
}

/// The text of a mail body: the plain part, trimmed, when it has any
/// characters left, otherwise the stripped HTML part.
pub open spec fn body_text_spec(plain: Seq<char>, html: Seq<char>) -> Seq<char> {
    if trim_ws(plain).len() > 0 {
        trim_ws(plain)
    } else {
        stripped_html(html)
    }
}

/// Pick body text: prefer non-empty plain text, else strip the HTML part.
pub fn body_text(plain: &str, html: &str) -> (r: String)
    ensures
        r@ == body_text_spec(plain@, html@),
{
    let p = trim_text(plain);
    if p.len() > 0 {
        string_of(p.as_slice())
    } else {
        strip_html(html)
    }
}

} // verus!
