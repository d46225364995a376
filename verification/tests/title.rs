//! The label of a page.

use link_titles::title::{
    extract_title, first_element_text, label_from_text, MAX_PAGE_CHARS, TITLE_SELECTOR,
};

fn label(text: &str) -> Option<String> {
    Some(text.to_string())
}

fn element(pieces: &[&str]) -> Vec<String> {
    pieces.iter().map(|piece| piece.to_string()).collect()
}

#[test]
fn finds_the_title_of_a_page() {
    let page = "<!DOCTYPE html><html><head><title>Hello</title></head><body><p>x</p></body></html>";
    assert_eq!(extract_title(page), label("Hello"));
}

#[test]
fn trims_the_title() {
    assert_eq!(extract_title("<title>\n   Hello, world \t</title>"), label("Hello, world"));
    assert_eq!(extract_title("<title>a  b</title>"), label("a  b"));
}

#[test]
fn the_title_is_not_the_page() {
    let page = "<html><head><title>T</title></head><body>T and more</body></html>";
    assert_ne!(extract_title(page), label(page));
    assert_eq!(extract_title(page), label("T"));
}

#[test]
fn page_without_title_has_no_label() {
    assert_eq!(extract_title(""), None);
    assert_eq!(extract_title("plain text"), None);
    assert_eq!(extract_title("<html><body><h1>Heading</h1></body></html>"), None);
}

#[test]
fn empty_title_is_no_label() {
    assert_eq!(extract_title("<title></title>"), None);
    assert_eq!(extract_title("<title>  \n\t </title>"), None);
    assert_eq!(extract_title("<html><head><title>\u{a0}</title></head></html>"), None);
}

#[test]
fn malformed_markup_is_no_error() {
    assert_eq!(extract_title("<title>Open"), label("Open"));
    assert_eq!(extract_title("<<<>>><title>x</title"), label("x</title"));
    assert_eq!(extract_title("</title>"), None);
    assert_eq!(extract_title("<html><head><titl>no</titl></head>"), None);
}

#[test]
fn character_references_are_resolved() {
    assert_eq!(extract_title("<title>a &amp; b &lt; c</title>"), label("a & b < c"));
}

#[test]
fn markup_inside_the_title_is_text() {
    assert_eq!(extract_title("<title>a <b>b</b> c</title>"), label("a <b>b</b> c"));
}

#[test]
fn the_selector_is_title() {
    assert_eq!(TITLE_SELECTOR, "title");
}

#[test]
fn label_of_a_text_is_the_text_trimmed() {
    assert_eq!(label_from_text(label("  Hello ")), label("Hello"));
    assert_eq!(label_from_text(label("Hello")), label("Hello"));
    assert_eq!(label_from_text(label("a\nb")), label("a\nb"));
}

#[test]
fn label_of_nothing_is_nothing() {
    assert_eq!(label_from_text(None), None);
    assert_eq!(label_from_text(label("")), None);
    assert_eq!(label_from_text(label(" \r\n ")), None);
}

#[test]
fn the_first_of_two_titles_counts() {
    let page = "<html><head><title>First</title><title>Second</title></head></html>";
    assert_eq!(extract_title(page), label("First"));
}

#[test]
fn text_of_an_element_is_its_pieces_joined() {
    let found = Some(vec![element(&["a ", "b", " c"])]);
    assert_eq!(first_element_text(found), label("a b c"));
    assert_eq!(first_element_text(Some(vec![element(&["one"])])), label("one"));
    assert_eq!(first_element_text(Some(vec![element(&[])])), label(""));
}

#[test]
fn text_of_the_first_element_is_taken() {
    let found = Some(vec![element(&["first"]), element(&["second", "third"])]);
    assert_eq!(first_element_text(found), label("first"));
    let found = Some(vec![element(&[]), element(&["second"])]);
    assert_eq!(first_element_text(found), label(""));
}

#[test]
fn no_element_has_no_text() {
    assert_eq!(first_element_text(Some(Vec::new())), None);
    assert_eq!(first_element_text(None), None);
}

#[test]
fn the_longest_page_has_2_to_the_28_characters() {
    assert_eq!(MAX_PAGE_CHARS, 1 << 28);
}

#[test]
fn long_page_has_its_title() {
    let mut page = String::from("<html><head><title>Long</title></head><body>");
    page.push_str(&"<p>text</p>\n".repeat(100_000));
    page.push_str("</body></html>");
    assert_eq!(extract_title(&page), label("Long"));
}

#[test]
fn page_over_the_limit_has_no_label() {
    let title = "<title>T</title>";
    assert_eq!(extract_title(title), label("T"));
    let mut page = String::from(title);
    page.push_str(&" ".repeat(MAX_PAGE_CHARS + 1 - title.len()));
    assert_eq!(page.len(), MAX_PAGE_CHARS + 1);
    assert_eq!(extract_title(&page), None);
}
