//! The addresses that a text names.

use link_titles::links::{collect_destinations, extract_urls, LINK_PATTERN};

fn strings(items: &[&str]) -> Vec<String> {
    items.iter().map(|item| item.to_string()).collect()
}

/// What the regular expression itself finds, for comparison.
fn by_regex(text: &str) -> Vec<String> {
    let regex = regex::Regex::new(LINK_PATTERN).unwrap();
    regex.captures_iter(text).map(|found| found[1].to_string()).collect()
}

#[test]
fn finds_the_destinations_in_order() {
    let urls = extract_urls("[a](http://x.test/1)\n[b](http://x.test/2)");
    assert_eq!(urls, strings(&["http://x.test/1", "http://x.test/2"]));
}

#[test]
fn text_without_links_names_no_address() {
    assert_eq!(extract_urls(""), Vec::<String>::new());
    let text = "no links here, only (round) and [square] brackets";
    assert_eq!(extract_urls(text), Vec::<String>::new());
}

#[test]
fn keeps_duplicates() {
    let urls = extract_urls("[a](u) and [b](u) and again [a](u)");
    assert_eq!(urls, strings(&["u", "u", "u"]));
}

#[test]
fn discards_the_label() {
    assert_eq!(extract_urls("see [the label](the destination)"), strings(&["the destination"]));
    assert_ne!(extract_urls("[label](destination)"), strings(&["[label](destination)"]));
}

#[test]
fn empty_label_is_a_link_and_empty_destination_is_none() {
    assert_eq!(extract_urls("[](http://x.test/)"), strings(&["http://x.test/"]));
    assert_eq!(extract_urls("[a]()"), Vec::<String>::new());
}

#[test]
fn malformed_links_are_passed_over() {
    assert_eq!(extract_urls("[a] (b)"), Vec::<String>::new());
    assert_eq!(extract_urls("[a](b"), Vec::<String>::new());
    assert_eq!(extract_urls("a](b)"), Vec::<String>::new());
    assert_eq!(extract_urls("[a(b)"), Vec::<String>::new());
    assert_eq!(extract_urls("[a](b [c](d)"), strings(&["b [c](d"]));
    assert_eq!(extract_urls("[a[b](c)"), strings(&["c"]));
    assert_eq!(extract_urls("[a](b)(c)"), strings(&["b"]));
    assert_eq!(extract_urls("[a](b)[c](d)"), strings(&["b", "d"]));
}

#[test]
fn labels_and_destinations_may_hold_any_other_character() {
    assert_eq!(extract_urls("[two\nlines](http://x.test/a b)"), strings(&["http://x.test/a b"]));
    assert_eq!(
        extract_urls("[größer](http://x.test/ü/日本)"),
        strings(&["http://x.test/ü/日本"])
    );
    assert_eq!(extract_urls("[a](one\ntwo)"), strings(&["one\ntwo"]));
}

#[test]
fn reading_twice_gives_the_same() {
    let text = "x [a](1) y [b](2) z [a](1) [c]() [d](4";
    assert_eq!(extract_urls(text), extract_urls(text));
    assert_eq!(extract_urls(text), strings(&["1", "2", "1"]));
}

#[test]
fn agrees_with_the_regular_expression() {
    let texts = [
        "",
        "[a](b)",
        "[a](b)[c](d)",
        "[[a]](b)",
        "[a]((b))",
        "[a](b))",
        "![image](http://x.test/i.png)",
        "[a]\n(b)",
        "]( [x](y) )(",
        "[é](ü) [](z) [q]()",
    ];
    for text in texts {
        assert_eq!(extract_urls(text), by_regex(text));
    }
}

#[test]
fn collects_the_groups_that_are_present() {
    let groups = Some(vec![Some("a".to_string()), None, Some("b".to_string()), None]);
    assert_eq!(collect_destinations(groups), strings(&["a", "b"]));
    assert_eq!(collect_destinations(Some(vec![])), Vec::<String>::new());
    assert_eq!(collect_destinations(Some(vec![None])), Vec::<String>::new());
    assert_eq!(collect_destinations(None), Vec::<String>::new());
}
