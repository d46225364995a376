//! The label of a page: the text of its title.

use vstd::prelude::*;
use vstd::string::*;
use crate::text::{join, trim, trimmed};

verus! {

/// The selector of the element that holds a page's title.
pub const TITLE_SELECTOR: &'static str = "title";

/// The longest page, in characters, that is searched for a title. A longer
/// page has no label.
///
/// The parser keeps its texts in buffers whose sizes are 32-bit numbers,
/// rounded up to a power of two, and fails where such a number overflows. A
/// character takes at most four bytes, so no text made of a page within this
/// bound comes near that.
pub const MAX_PAGE_CHARS: usize = 0x1000_0000;

/// The texts that the selector `selector` finds in the document `html`, as
/// the crate `scraper` gives them: for each element that matches, in the
/// order in which they are found, the pieces of text that the element
/// holds, in their order. The whole is `None` where `selector` is no selector.
pub uninterp spec fn selected_texts(html: Seq<char>, selector: Seq<char>) -> Option<
    Seq<Seq<Seq<char>>>,
>;

/// Parses `selector` with `scraper::Selector::parse` and `html` with
/// `scraper::Html::parse_document`, walks the elements that `Html::select`
/// yields and takes from each the pieces that `ElementRef::text` yields.
///
/// The contract claims no more than that the outcome depends on the two
/// texts alone, and gives it the name `selected_texts`. It leaves out the
/// pages of more than `MAX_PAGE_CHARS` characters: `parse_document` copies
/// the page into a buffer of `tendril`, which refuses more bytes than a `u32`
/// counts, and a text that grows past half of that fails when its buffer is
/// enlarged.
#[verifier::external_body]
fn select_texts(html: &str, selector: &str) -> (found: Option<Vec<Vec<String>>>)
    requires
        html@.len() <= MAX_PAGE_CHARS,
    ensures
        found.deep_view() == selected_texts(html@, selector@),
{
    let selector = match scraper::Selector::parse(selector) {
        Ok(selector) => selector,
        Err(_) => return None,
    };
    let document = scraper::Html::parse_document(html);
    let mut found = Vec::new();
    for element in document.select(&selector) {
        let mut pieces = Vec::new();
        for piece in element.text() {
            pieces.push(piece.to_string());
        }
        found.push(pieces);
    }
    Some(found)
}

/// The text of the first element that a search found: its pieces, one after
/// the other. `None` where nothing was found.
pub open spec fn first_text(found: Option<Seq<Seq<Seq<char>>>>) -> Option<Seq<char>> {
    match found {
        Some(elements) => if elements.len() > 0 {
            Some(elements.first().flatten())
        } else {
            None
        },
        None => None,
    }
}

/// The label that the text of a title gives: the text without the white
/// space around it, unless nothing is left of it.
pub open spec fn label_of(text: Option<Seq<char>>) -> Option<Seq<char>> {
    match text {
        Some(t) => if trimmed(t).len() > 0 {
            Some(trimmed(t))
        } else {
            None
        },
        None => None,
    }
}

/// The label of the page `html`: that of the text of its first title, where
/// the page is no longer than `MAX_PAGE_CHARS`.
pub open spec fn page_label(html: Seq<char>) -> Option<Seq<char>> {
    if html.len() <= MAX_PAGE_CHARS {
        label_of(first_text(selected_texts(html, TITLE_SELECTOR@)))
    } else {
        None
    }
}

/// Takes the text of the first element that a search found.
pub fn first_element_text(found: Option<Vec<Vec<String>>>) -> (text: Option<String>)
    ensures
        text.deep_view() == first_text(found.deep_view()),
{
    match found {
        Some(elements) => {
            if elements.len() > 0 {
                Some(join(&elements[0]))
            } else {
                None
            }
        },
        None => None,
    }
}

/// Turns the text of a title element, if there was one, into a label.
pub fn label_from_text(text: Option<String>) -> (label: Option<String>)
    ensures
        label.deep_view() == label_of(text.deep_view()),
{
    match text {
        Some(t) => {
            let kept = trim(t.as_str());
            if kept.is_empty() {
                None
            } else {
                Some(String::from_str(kept))
            }
        },
        None => None,
    }
}

/// Finds the label of a page: the trimmed text of its first `title`
/// element. `None` where the page has no such element, where the text is
/// empty, and where the page is longer than `MAX_PAGE_CHARS`.
pub fn extract_title(html: &str) -> (label: Option<String>)
    ensures
        label.deep_view() == page_label(html@),
{
    if html.unicode_len() > MAX_PAGE_CHARS {
        return None;
    }
    label_from_text(first_element_text(select_texts(html, TITLE_SELECTOR)))
}

} // verus!
