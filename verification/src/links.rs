//! The addresses that a text names.
//!
//! An address is the destination of an inline link, `[label](destination)`.
//! The label may be empty and holds no `]`; the destination is not empty and
//! holds no `)`.

use vstd::prelude::*;

verus! {

/// The shape of an inline link, as a regular expression.
pub const LINK_PATTERN: &'static str = r"\[[^\]]*\]\(([^)]+)\)";

/// The group of `LINK_PATTERN` that holds the destination.
pub const DESTINATION_GROUP: usize = 1;

/// What the group `group` of the regular expression `pattern` holds in each
/// of its successive matches in `text`, as the crate `regex` finds them, in
/// the order of the matches: `None` for a match that the group has no part
/// in. The whole is `None` where `pattern` does not compile.
pub uninterp spec fn group_texts(pattern: Seq<char>, group: usize, text: Seq<char>) -> Option<
    Seq<Option<Seq<char>>>,
>;

/// Compiles `pattern` with `regex::Regex::new`, walks the matches that
/// `Regex::captures_iter` finds in `text`, and takes from each the text of
/// the group `group` (`Captures::get`, `Match::as_str`).
///
/// The contract claims no more than that the outcome depends on the pattern,
/// the group and the text alone, and gives it the name `group_texts`.
#[verifier::external_body]
fn find_group_texts(pattern: &str, group: usize, text: &str) -> (groups: Option<
    Vec<Option<String>>,
>)
    ensures
        groups.deep_view() == group_texts(pattern@, group, text@),
{
    let regex = match regex::Regex::new(pattern) {
        Ok(regex) => regex,
        Err(_) => return None,
    };
    let mut groups = Vec::new();
    for captures in regex.captures_iter(text) {
        groups.push(match captures.get(group) {
            Some(found) => Some(found.as_str().to_string()),
            None => None,
        });
    }
    Some(groups)
}

/// The groups of `groups` that took part in their match, in order.
pub open spec fn present(groups: Seq<Option<Seq<char>>>) -> Seq<Seq<char>>
    decreases groups.len(),
{
    if groups.len() == 0 {
        seq![]
    } else {
        match groups.last() {
            Some(group) => present(groups.drop_last()).push(group),
            None => present(groups.drop_last()),
        }
    }
}

/// The destinations that a search gave: the groups that took part in their
/// match, in order, and none where there was no search.
pub open spec fn destinations(groups: Option<Seq<Option<Seq<char>>>>) -> Seq<Seq<char>> {
    match groups {
        Some(groups) => present(groups),
        None => seq![],
    }
}

/// The addresses that `text` names: the destinations of its inline links, in
/// the order in which they stand in the text, each as often as it stands
/// there.
pub open spec fn link_destinations(text: Seq<char>) -> Seq<Seq<char>> {
    destinations(group_texts(LINK_PATTERN@, DESTINATION_GROUP, text))
}

/// Collects the destinations that a search gave.
pub fn collect_destinations(groups: Option<Vec<Option<String>>>) -> (urls: Vec<String>)
    ensures
        urls.deep_view() == destinations(groups.deep_view()),
{
    let mut urls: Vec<String> = Vec::new();
    match groups {
        Some(groups) => {
            let mut i: usize = 0;
            while i < groups.len()
                invariant
                    i <= groups.len(),
                    urls.deep_view() == present(groups.deep_view().take(i as int)),
                decreases groups.len() - i,
            {
                proof {
                    let seen = groups.deep_view().take(i as int);
                    assert(groups.deep_view().take(i + 1).drop_last() =~= seen);
                }
                match &groups[i] {
                    Some(group) => {
                        urls.push(group.clone());
                    },
                    None => {},
                }
                i = i + 1;
            }
            proof {
                assert(groups.deep_view().take(groups.len() as int) =~= groups.deep_view());
            }
        },
        None => {},
    }
    urls
}

/// Finds the addresses that `text` names: the destination of every inline
/// link, in the order of the text, duplicates included. A text without links
/// gives no address.
pub fn extract_urls(text: &str) -> (urls: Vec<String>)
    ensures
        urls.deep_view() == link_destinations(text@),
{
    collect_destinations(find_group_texts(LINK_PATTERN, DESTINATION_GROUP, text))
}

/// Reading the addresses of a text again gives the same addresses in the
/// same order: what `extract_urls` returns depends on the text alone.
pub proof fn lemma_extraction_repeats(
    text: Seq<char>,
    first: Seq<Seq<char>>,
    second: Seq<Seq<char>>,
)
    requires
        first == link_destinations(text),
        second == link_destinations(text),
    ensures
        first == second,
{
}

} // verus!
