//! Regular-expression searches, done by the `regex` crate.

use vstd::prelude::*;

verus! {

/// The substrings of `text` that `pattern` matches, one after the other and
/// without overlap, as the engine yields them; `None` where `pattern` is not
/// a regular expression that the engine accepts.
pub uninterp spec fn regex_matches(pattern: Seq<char>, text: Seq<char>) -> Option<Seq<Seq<char>>>;

/// The capture groups of the first match of `pattern` in `text`, the whole
/// match first; a group that took no part in the match is `None`. The inner
/// `None` says that nothing matched, the outer one that `pattern` is not a
/// regular expression that the engine accepts.
pub uninterp spec fn regex_captures(pattern: Seq<char>, text: Seq<char>) -> Option<
    Option<Seq<Option<Seq<char>>>>,
>;

/// Compiles `pattern` with `regex::Regex::new` and walks
/// `Regex::find_iter` over `text`, copying each match out with
/// `Match::as_str`. Both depend on the two strings alone.
#[verifier::external_body]
pub(crate) fn find_all(pattern: &str, text: &str) -> (found: Result<Vec<String>, regex::Error>)
    ensures
        match found {
            Ok(matches) => regex_matches(pattern@, text@) == Some(matches.deep_view()),
            Err(_) => regex_matches(pattern@, text@) is None,
        },
{
    let re = regex::Regex::new(pattern)?;
    let mut matches = Vec::new();
    for m in re.find_iter(text) {
        matches.push(m.as_str().to_string());
    }
    Ok(matches)
}

/// Compiles `pattern` with `regex::Regex::new`, searches `text` with
/// `Regex::captures` and copies the groups out in the order of
/// `Captures::iter`. Both depend on the two strings alone.
#[verifier::external_body]
pub(crate) fn first_captures(pattern: &str, text: &str) -> (found: Result<
    Option<Vec<Option<String>>>,
    regex::Error,
>)
    ensures
        match found {
            Ok(groups) => regex_captures(pattern@, text@) == Some(groups.deep_view()),
            Err(_) => regex_captures(pattern@, text@) is None,
        },
{
    let re = regex::Regex::new(pattern)?;
    let groups = re.captures(text).map(
        |caps| caps.iter().map(|group| group.map(|m| m.as_str().to_string())).collect(),
    );
    Ok(groups)
}

} // verus!
