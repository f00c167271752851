//! Pattern matching on text, done by the `regex` crate.
//!
//! Nothing here is proved: each function hands its arguments to `regex` and
//! hands back what `regex` answers, as plain strings. What `regex` answers
//! takes the whole of its documentation to state, so it is given a name
//! here, and the tokenizers are stated over these names.

use regex::Regex;
use vstd::prelude::*;

verus! {

/// The first match of the pattern in the text, as `regex` finds it: the
/// text before the match, the match, and the text after it. None where the
/// pattern matches nowhere, or is no pattern that `regex` accepts.
pub uninterp spec fn first_match(pattern: Seq<char>, text: Seq<char>) -> Option<
    (Seq<char>, Seq<char>, Seq<char>),
>;

/// The capture groups of the first match of the pattern in the text, as
/// `regex` reports them: for every group of the pattern, in the order of
/// the pattern and beginning with the group of the whole match, its name,
/// if it has one, and what it matched, if it took part. None where the
/// pattern matches nowhere, or is no pattern that `regex` accepts.
pub uninterp spec fn capture_groups(pattern: Seq<char>, text: Seq<char>) -> Option<
    Seq<(Option<Seq<char>>, Option<Seq<char>>)>,
>;

/// Whether the pattern matches somewhere in the text, as `regex` decides
/// it. False where the pattern is no pattern that `regex` accepts.
pub uninterp spec fn has_match(pattern: Seq<char>, text: Seq<char>) -> bool;

/// The view of an optional text.
pub open spec fn view_text(text: Option<String>) -> Option<Seq<char>> {
    match text {
        Some(t) => Some(t@),
        None => None,
    }
}

/// The view of a match.
pub open spec fn view_match(m: Option<(String, String, String)>) -> Option<
    (Seq<char>, Seq<char>, Seq<char>),
> {
    match m {
        Some(m) => Some((m.0@, m.1@, m.2@)),
        None => None,
    }
}

/// The view of the capture groups of a match.
pub open spec fn view_groups(groups: Option<Vec<(Option<String>, Option<String>)>>) -> Option<
    Seq<(Option<Seq<char>>, Option<Seq<char>>)>,
> {
    match groups {
        Some(g) => Some(
            Seq::new(g@.len(), |i: int| (view_text(g@[i].0), view_text(g@[i].1))),
        ),
        None => None,
    }
}

/// `Regex::new` and `Regex::find`: the first match of `pattern` in `text`,
/// cut out of the text. The contract claims that the answer depends on the
/// pattern and the text alone and that the three pieces, put together
/// again, are the text: `regex` reports a match by its two offsets into
/// the text, which lie between characters.
#[verifier::external_body]
pub(crate) fn find(pattern: &str, text: &str) -> (r: Option<(String, String, String)>)
    ensures
        view_match(r) == first_match(pattern@, text@),
        r matches Some(m) ==> m.0@ + m.1@ + m.2@ == text@,
{
    match Regex::new(pattern) {
        Ok(re) => match re.find(text) {
            Some(m) => Some(
                (
                    text[..m.start()].to_string(),
                    m.as_str().to_string(),
                    text[m.end()..].to_string(),
                ),
            ),
            None => None,
        },
        Err(_) => None,
    }
}

/// `Regex::new`, `Regex::captures`, `Regex::capture_names` and
/// `Captures::get`: the capture groups of the first match of `pattern` in
/// `text`, each with its name and what it matched. The contract claims that
/// the answer depends on the pattern and the text alone.
#[verifier::external_body]
pub(crate) fn captures(pattern: &str, text: &str) -> (r: Option<
    Vec<(Option<String>, Option<String>)>,
>)
    ensures
        view_groups(r) == capture_groups(pattern@, text@),
{
    let re = match Regex::new(pattern) {
        Ok(re) => re,
        Err(_) => return None,
    };
    let caps = re.captures(text)?;
    let mut groups = Vec::new();
    for (index, name) in re.capture_names().enumerate() {
        let found = caps.get(index).map(|m| m.as_str().to_string());
        groups.push((name.map(|n| n.to_string()), found));
    }
    Some(groups)
}

/// `Regex::new` and `Regex::is_match`: whether `pattern` matches somewhere
/// in `text`. The contract claims that the answer depends on the pattern
/// and the text alone.
#[verifier::external_body]
pub(crate) fn is_match(pattern: &str, text: &str) -> (r: bool)
    ensures
        r == has_match(pattern@, text@),
{
    match Regex::new(pattern) {
        Ok(re) => re.is_match(text),
        Err(_) => false,
    }
}

} // verus!
