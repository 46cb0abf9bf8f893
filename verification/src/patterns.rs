//! The regular expressions the library runs, through the `regex` crate:
//! which spans of a text a pattern matches is that crate's to decide, so
//! these contracts name the results.
use vstd::prelude::*;

verus! {

/// For each match of `pattern` in `text`, in order, the text of its first
/// capture group (`regex::Regex::new` and `Regex::captures_iter`); none when
/// the pattern does not compile.
pub uninterp spec fn regex_captures(pattern: Seq<char>, text: Seq<char>) -> Option<Seq<Seq<char>>>;

/// `regex::Regex::new(pattern)` and the first capture group of each match
/// that `captures_iter` yields (empty when the group did not take part).
/// Which spans match is the regex crate's to decide, so the contract names
/// the result.
#[verifier::external_body]
pub(crate) fn captures(pattern: &str, text: &str) -> (r: Option<Vec<String>>)
    ensures
        match r {
            Some(v) => regex_captures(pattern@, text@) == Some(v@.map_values(|s: String| s@)),
            None => regex_captures(pattern@, text@) is None,
        },
{
    regex::Regex::new(pattern).ok().map(|re| {
        re.captures_iter(text).map(|c| c.get(1).map_or(String::new(), |m| m.as_str().to_string())).collect()
    })
}

/// For the first match of `pattern` in `text`, the text of each capture
/// group after the whole match, in order (none for a group that did not take
/// part); none when nothing matches or the pattern does not compile.
pub uninterp spec fn regex_first_groups(pattern: Seq<char>, text: Seq<char>) -> Option<Seq<Option<Seq<char>>>>;

/// `regex::Regex::new(pattern)` and `Regex::captures(text)`: the groups of
/// the first match.
#[verifier::external_body]
pub(crate) fn first_groups(pattern: &str, text: &str) -> (r: Option<Vec<Option<String>>>)
    ensures
        match r {
            Some(v) => regex_first_groups(pattern@, text@) == Some(v@.map_values(|g: Option<String>| match g {
                Some(s) => Some(s@),
                None => None,
            })),
            None => regex_first_groups(pattern@, text@) is None,
        },
{
    let re = regex::Regex::new(pattern).ok()?;
    let caps = re.captures(text)?;
    Some((1..caps.len()).map(|i| caps.get(i).map(|m| m.as_str().to_string())).collect())
}

/// Whether `pattern` matches somewhere in `text`; none when the pattern does
/// not compile.
pub uninterp spec fn regex_is_match(pattern: Seq<char>, text: Seq<char>) -> Option<bool>;

/// `regex::Regex::new(pattern)` and `Regex::is_match(text)`.
#[verifier::external_body]
pub(crate) fn is_match(pattern: &str, text: &str) -> (r: Option<bool>)
    ensures
        r == regex_is_match(pattern@, text@),
{
    regex::Regex::new(pattern).ok().map(|re| re.is_match(text))
}

/// For each match of `pattern` in `text`, in order, the texts of its first
/// two capture groups; none when the pattern does not compile.
pub uninterp spec fn regex_capture_pairs(pattern: Seq<char>, text: Seq<char>) -> Option<Seq<(Seq<char>, Seq<char>)>>;

/// `regex::Regex::new(pattern)` and, for each match `captures_iter` yields,
/// groups 1 and 2 (empty when a group did not take part).
#[verifier::external_body]
pub(crate) fn capture_pairs(pattern: &str, text: &str) -> (r: Option<Vec<(String, String)>>)
    ensures
        match r {
            Some(v) => regex_capture_pairs(pattern@, text@) == Some(v@.map_values(|p: (String, String)| (p.0@, p.1@))),
            None => regex_capture_pairs(pattern@, text@) is None,
        },
{
    regex::Regex::new(pattern).ok().map(|re| {
        re.captures_iter(text)
            .map(|c| {
                (
                    c.get(1).map_or(String::new(), |m| m.as_str().to_string()),
                    c.get(2).map_or(String::new(), |m| m.as_str().to_string()),
                )
            })
            .collect()
    })
}

} // verus!
