//! Regular expressions and globs. The matching itself is the work of the
//! `fancy_regex`, `regex` and `wax` crates; what they decide is given a name
//! here, and the rest of the crate is stated over those names.
use vstd::prelude::*;

verus! {

/// Whether `fancy_regex` finds the pattern anywhere in the text; `None` where
/// the pattern does not compile or the search gives up.
pub uninterp spec fn pattern_matches(pattern: Seq<char>, text: Seq<char>) -> Option<bool>;

/// The capture groups of the first match that `fancy_regex` finds, group 0
/// being the whole match and a group that took no part being `None`; `None`
/// where there is no match, the pattern does not compile or the search gives
/// up.
pub uninterp spec fn pattern_groups(pattern: Seq<char>, text: Seq<char>) -> Option<
    Seq<Option<Seq<char>>>,
>;

/// The text with the first match of the pattern replaced by the expanded
/// replacement, as `fancy_regex` does it; `None` where the pattern does not
/// compile or the search gives up.
pub uninterp spec fn pattern_replaced(
    pattern: Seq<char>,
    text: Seq<char>,
    replacement: Seq<char>,
) -> Option<Seq<char>>;

/// Whether `regex` finds the pattern anywhere in the text; `None` where the
/// pattern does not compile.
pub uninterp spec fn plain_pattern_matches(pattern: Seq<char>, text: Seq<char>) -> Option<bool>;

/// Whether the `wax` glob matches the whole text; `None` where the glob does
/// not compile.
pub uninterp spec fn glob_matches(glob: Seq<char>, text: Seq<char>) -> Option<bool>;

pub open spec fn group_views(groups: Seq<Option<String>>) -> Seq<Option<Seq<char>>> {
    groups.map_values(
        |g: Option<String>|
            match g {
                Some(s) => Some(s@),
                None => None,
            },
    )
}

pub open spec fn groups_view(groups: Option<Vec<Option<String>>>) -> Option<
    Seq<Option<Seq<char>>>,
> {
    match groups {
        Some(g) => Some(group_views(g@)),
        None => None,
    }
}

pub open spec fn text_view(text: Option<String>) -> Option<Seq<char>> {
    match text {
        Some(s) => Some(s@),
        None => None,
    }
}

/// `fancy_regex::Regex::new` and `Regex::is_match`: the answer is the one
/// named `pattern_matches`, with every error turned into `None`.
#[verifier::external_body]
pub(crate) fn is_match(pattern: &str, text: &str) -> (r: Option<bool>)
    ensures
        r == pattern_matches(pattern@, text@),
{
    match fancy_regex::Regex::new(pattern) {
        Ok(re) => match re.is_match(text) {
            Ok(found) => Some(found),
            Err(_) => None,
        },
        Err(_) => None,
    }
}

/// `fancy_regex::Regex::new` and `Regex::captures`: the groups are the ones
/// named `pattern_groups`, each as an owned string.
#[verifier::external_body]
pub(crate) fn captures(pattern: &str, text: &str) -> (r: Option<Vec<Option<String>>>)
    ensures
        groups_view(r) == pattern_groups(pattern@, text@),
{
    match fancy_regex::Regex::new(pattern) {
        Ok(re) => match re.captures(text) {
            Ok(Some(found)) => Some(
                found.iter().map(|group| group.map(|m| m.as_str().to_string())).collect(),
            ),
            Ok(None) => None,
            Err(_) => None,
        },
        Err(_) => None,
    }
}

/// `fancy_regex::Regex::new` and `Regex::try_replacen` with a limit of one:
/// the text is the one named `pattern_replaced`.
#[verifier::external_body]
pub(crate) fn replace_first(pattern: &str, text: &str, replacement: &str) -> (r: Option<String>)
    ensures
        text_view(r) == pattern_replaced(pattern@, text@, replacement@),
{
    match fancy_regex::Regex::new(pattern) {
        Ok(re) => match re.try_replacen(text, 1, replacement) {
            Ok(replaced) => Some(replaced.into_owned()),
            Err(_) => None,
        },
        Err(_) => None,
    }
}

/// `regex::Regex::new` and `Regex::is_match`: the answer is the one named
/// `plain_pattern_matches`.
#[verifier::external_body]
pub(crate) fn plain_is_match(pattern: &str, text: &str) -> (r: Option<bool>)
    ensures
        r == plain_pattern_matches(pattern@, text@),
{
    match regex::Regex::new(pattern) {
        Ok(re) => Some(re.is_match(text)),
        Err(_) => None,
    }
}

/// `wax::Glob::new` and `Pattern::is_match`: the answer is the one named
/// `glob_matches`, and `None` where the glob is refused.
#[verifier::external_body]
pub(crate) fn glob_is_match(glob: &str, text: &str) -> (r: Option<bool>)
    ensures
        r == glob_matches(glob@, text@),
{
    match wax::Glob::new(glob) {
        Ok(compiled) => Some(wax::Pattern::is_match(&compiled, text)),
        Err(_) => None,
    }
}

} // verus!
