//! The decisions of one fetch.

use link_titles::fetch::{
    after_body, after_send, outcome_from_label, reason_for_status, status_is_success, Body, Sent,
    Step, BODY_READ_ERROR, NO_TITLE, STATUS_PREFIX,
};
use link_titles::outcome::FetchOutcome;

fn success(label: &str) -> FetchOutcome {
    FetchOutcome::Success { label: label.to_string() }
}

fn failure(reason: &str) -> FetchOutcome {
    FetchOutcome::Failure { reason: reason.to_string() }
}

fn page(text: &str) -> Body {
    Body::Text { text: text.to_string() }
}

#[test]
fn the_reasons_are_fixed() {
    assert_eq!(BODY_READ_ERROR, "BODY READ ERROR");
    assert_eq!(NO_TITLE, "NO TITLE");
    assert_eq!(STATUS_PREFIX, "HTTP ");
}

#[test]
fn success_is_200_to_299() {
    for status in 0..=u16::MAX {
        assert_eq!(status_is_success(status), (200..=299).contains(&status));
    }
    assert!(status_is_success(200));
    assert!(status_is_success(204));
    assert!(status_is_success(299));
    assert!(!status_is_success(199));
    assert!(!status_is_success(300));
    assert!(!status_is_success(404));
}

#[test]
fn reason_names_the_status() {
    assert_eq!(reason_for_status(404), "HTTP 404");
    assert_eq!(reason_for_status(500), "HTTP 500");
    assert_eq!(reason_for_status(301), "HTTP 301");
    assert_eq!(reason_for_status(0), "HTTP 0");
    assert_eq!(reason_for_status(65535), "HTTP 65535");
}

#[test]
fn reasons_of_different_statuses_differ() {
    let statuses = [100u16, 199, 300, 304, 400, 403, 404, 410, 500, 503, 999];
    for first in statuses {
        for second in statuses {
            assert_eq!(reason_for_status(first) == reason_for_status(second), first == second);
        }
    }
}

#[test]
fn transport_error_ends_the_fetch_with_its_message() {
    let sent = Sent::TransportError { message: "connection refused".to_string() };
    assert_eq!(after_send(sent), Step::Done { outcome: failure("connection refused") });
    let sent = Sent::TransportError { message: String::new() };
    assert_eq!(after_send(sent), Step::Done { outcome: failure("") });
}

#[test]
fn refused_status_ends_the_fetch() {
    let refused = [(404u16, "HTTP 404"), (500, "HTTP 500"), (199, "HTTP 199"), (300, "HTTP 300")];
    for (status, reason) in refused {
        assert_eq!(after_send(Sent::Response { status }), Step::Done { outcome: failure(reason) });
    }
}

#[test]
fn success_status_asks_for_the_body() {
    assert_eq!(after_send(Sent::Response { status: 200 }), Step::ReadBody);
    assert_eq!(after_send(Sent::Response { status: 201 }), Step::ReadBody);
    assert_eq!(after_send(Sent::Response { status: 299 }), Step::ReadBody);
}

#[test]
fn unreadable_body_is_a_failure() {
    assert_eq!(after_body(Body::Unreadable), failure("BODY READ ERROR"));
}

#[test]
fn titled_page_is_a_success() {
    let hello = "<html><head><title>Hello</title></head></html>";
    assert_eq!(after_body(page(hello)), success("Hello"));
    assert_eq!(after_body(page("<title>  Hello there\n</title>")), success("Hello there"));
}

#[test]
fn empty_body_has_no_title() {
    assert_eq!(after_body(page("")), failure("NO TITLE"));
}

#[test]
fn page_without_usable_title_is_a_failure() {
    assert_eq!(after_body(page("<html><body>text</body></html>")), failure("NO TITLE"));
    assert_eq!(after_body(page("<title> </title>")), failure("NO TITLE"));
}

#[test]
fn label_becomes_a_success_and_none_a_failure() {
    assert_eq!(outcome_from_label(Some("Hello".to_string())), success("Hello"));
    assert_eq!(outcome_from_label(None), failure("NO TITLE"));
}

#[test]
fn title_that_reads_like_a_reason_is_still_a_success() {
    assert_eq!(after_body(page("<title>NO TITLE</title>")), success("NO TITLE"));
    assert_eq!(after_body(page("<title>HTTP 404</title>")), success("HTTP 404"));
}

#[test]
fn page_over_the_limit_is_a_failure() {
    let mut text = String::from("<title>T</title>");
    text.push_str(&"\n".repeat(link_titles::title::MAX_PAGE_CHARS));
    assert_eq!(after_body(Body::Text { text }), failure("NO TITLE"));
}
