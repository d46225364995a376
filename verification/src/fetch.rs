//! The decisions of one fetch.
//!
//! A fetch sends one request and, where the answer is a success, reads the
//! body that comes with it. The caller does the sending and the reading; the
//! functions here decide, from what came back, how the fetch goes on and what
//! it ends in. The first of these that applies settles the outcome:
//!
//! - no response came: a failure, with the transport's message as reason;
//! - the status is no success: a failure that names the status;
//! - the body could not be read: a failure;
//! - the page has no label: a failure;
//! - otherwise a success, with the label of the page.

use vstd::prelude::*;
use vstd::string::*;
use crate::outcome::{FetchOutcome, OutcomeModel};
use crate::text::{decimal, lemma_decimal_injective, push_decimal, trimmed};
use crate::title::{
    extract_title, first_text, page_label, selected_texts, MAX_PAGE_CHARS, TITLE_SELECTOR,
};

verus! {

/// The reason of a fetch whose body could not be read.
pub const BODY_READ_ERROR: &'static str = "BODY READ ERROR";

/// The reason of a fetch whose page has no label.
pub const NO_TITLE: &'static str = "NO TITLE";

/// What stands before the status in the reason of a refused request.
pub const STATUS_PREFIX: &'static str = "HTTP ";

/// What sending the request came to.
#[derive(Debug, PartialEq, Eq)]
pub enum Sent {
    /// A response came, with this status code.
    Response { status: u16 },
    /// No response came; `message` says what went wrong on the way.
    TransportError { message: String },
}

/// What reading the body of a response came to.
#[derive(Debug, PartialEq, Eq)]
pub enum Body {
    /// The whole body, as text.
    Text { text: String },
    /// The body could not be read to its end.
    Unreadable,
}

/// How a fetch goes on once the request was sent.
#[derive(Debug, PartialEq, Eq)]
pub enum Step {
    /// The response is a success: read its body next.
    ReadBody,
    /// The fetch is over.
    Done { outcome: FetchOutcome },
}

/// `Sent` as a mathematical value.
pub enum SentModel {
    Response { status: u16 },
    TransportError { message: Seq<char> },
}

/// `Body` as a mathematical value.
pub enum BodyModel {
    Text { text: Seq<char> },
    Unreadable,
}

/// `Step` as a mathematical value.
pub enum StepModel {
    ReadBody,
    Done { outcome: OutcomeModel },
}

impl View for Sent {
    type V = SentModel;

    open spec fn view(&self) -> SentModel {
        match self {
            Sent::Response { status } => SentModel::Response { status: *status },
            Sent::TransportError { message } => SentModel::TransportError { message: message@ },
        }
    }
}

impl View for Body {
    type V = BodyModel;

    open spec fn view(&self) -> BodyModel {
        match self {
            Body::Text { text } => BodyModel::Text { text: text@ },
            Body::Unreadable => BodyModel::Unreadable,
        }
    }
}

impl View for Step {
    type V = StepModel;

    open spec fn view(&self) -> StepModel {
        match self {
            Step::ReadBody => StepModel::ReadBody,
            Step::Done { outcome } => StepModel::Done { outcome: outcome@ },
        }
    }
}

/// Whether `status` is a success: a code from 200 to 299.
pub open spec fn is_success_status(status: u16) -> bool {
    200 <= status <= 299
}

/// The reason of a fetch that was answered with the status `status`.
pub open spec fn status_reason(status: u16) -> Seq<char> {
    STATUS_PREFIX@ + decimal(status as nat)
}

/// How a fetch goes on after `sent`.
pub open spec fn step_after(sent: SentModel) -> StepModel {
    match sent {
        SentModel::TransportError { message } => StepModel::Done {
            outcome: OutcomeModel::Failure { reason: message },
        },
        SentModel::Response { status } => if is_success_status(status) {
            StepModel::ReadBody
        } else {
            StepModel::Done { outcome: OutcomeModel::Failure { reason: status_reason(status) } }
        },
    }
}

/// What a fetch ends in once the body was read, given the label of the page
/// if it has one.
pub open spec fn outcome_of_label(label: Option<Seq<char>>) -> OutcomeModel {
    match label {
        Some(label) => OutcomeModel::Success { label },
        None => OutcomeModel::Failure { reason: NO_TITLE@ },
    }
}

/// What a fetch ends in once `body` was read from a successful response.
pub open spec fn outcome_of_body(body: BodyModel) -> OutcomeModel {
    match body {
        BodyModel::Unreadable => OutcomeModel::Failure { reason: BODY_READ_ERROR@ },
        BodyModel::Text { text } => outcome_of_label(page_label(text)),
    }
}

/// What a whole fetch ends in: `sent` decides unless it asks for the body,
/// and then `body` does.
pub open spec fn outcome_of(sent: SentModel, body: BodyModel) -> OutcomeModel {
    match step_after(sent) {
        StepModel::Done { outcome } => outcome,
        StepModel::ReadBody => outcome_of_body(body),
    }
}

/// Whether `status` is a success.
pub fn status_is_success(status: u16) -> (yes: bool)
    ensures
        yes == is_success_status(status),
{
    200 <= status && status <= 299
}

/// The reason of a fetch that was answered with the status `status`: the
/// word `HTTP` and the code in decimal.
pub fn reason_for_status(status: u16) -> (reason: String)
    ensures
        reason@ == status_reason(status),
{
    let mut reason = String::from_str(STATUS_PREFIX);
    push_decimal(&mut reason, status);
    reason
}

/// Decides how a fetch goes on once the request was sent: it ends in a
/// failure unless a response with a success status came, whose body is to be
/// read next.
pub fn after_send(sent: Sent) -> (step: Step)
    ensures
        step@ == step_after(sent@),
{
    match sent {
        Sent::TransportError { message } => Step::Done {
            outcome: FetchOutcome::Failure { reason: message },
        },
        Sent::Response { status } => {
            if status_is_success(status) {
                Step::ReadBody
            } else {
                Step::Done { outcome: FetchOutcome::Failure { reason: reason_for_status(status) } }
            }
        },
    }
}

/// Decides what a fetch ends in once the body was read, given the label that
/// was found in it: a success with that label, or a failure where there is
/// none.
pub fn outcome_from_label(label: Option<String>) -> (outcome: FetchOutcome)
    ensures
        outcome@ == outcome_of_label(label.deep_view()),
{
    match label {
        Some(label) => FetchOutcome::Success { label },
        None => FetchOutcome::Failure { reason: String::from_str(NO_TITLE) },
    }
}

/// Decides what a fetch ends in once the body of a successful response was
/// read: a success with the label of the page, or a failure where the body
/// could not be read or the page has no label.
pub fn after_body(body: Body) -> (outcome: FetchOutcome)
    ensures
        outcome@ == outcome_of_body(body@),
{
    match body {
        Body::Unreadable => FetchOutcome::Failure { reason: String::from_str(BODY_READ_ERROR) },
        Body::Text { text } => outcome_from_label(extract_title(text.as_str())),
    }
}

/// A fetch whose request got no response ends in a failure with the
/// transport's message as its reason, whatever a body would have held.
pub proof fn lemma_transport_error_fails(message: Seq<char>, body: BodyModel)
    ensures
        outcome_of(SentModel::TransportError { message }, body)
            == (OutcomeModel::Failure { reason: message }),
{
}

/// A fetch that is answered with a status that is no success ends in a
/// failure whose reason names the status, whatever the body holds.
pub proof fn lemma_refused_status_fails(status: u16, body: BodyModel)
    requires
        !is_success_status(status),
    ensures
        outcome_of(SentModel::Response { status }, body)
            == (OutcomeModel::Failure { reason: status_reason(status) }),
{
}

/// The reason of a refused request tells the status: two statuses with the
/// same reason are the same.
pub proof fn lemma_status_reason_tells_status(first: u16, second: u16)
    requires
        status_reason(first) == status_reason(second),
    ensures
        first == second,
{
    let prefix = STATUS_PREFIX@;
    let a = decimal(first as nat);
    let b = decimal(second as nat);
    assert(a =~= (prefix + a).subrange(prefix.len() as int, (prefix + a).len() as int));
    assert(b =~= (prefix + b).subrange(prefix.len() as int, (prefix + b).len() as int));
    lemma_decimal_injective(first as nat, second as nat);
}

/// A fetch that is answered with a success and a page of no more than
/// `MAX_PAGE_CHARS` characters whose title holds more than white space ends
/// in a success, and the label is the text of the title without the white
/// space around it.
pub proof fn lemma_titled_page_succeeds(status: u16, page: Seq<char>, title: Seq<char>)
    requires
        is_success_status(status),
        page.len() <= MAX_PAGE_CHARS,
        first_text(selected_texts(page, TITLE_SELECTOR@)) == Some(title),
        trimmed(title).len() > 0,
    ensures
        outcome_of(SentModel::Response { status }, BodyModel::Text { text: page })
            == (OutcomeModel::Success { label: trimmed(title) }),
{
}

/// A fetch that is answered with a success and a page without a label, be it
/// that the page has no title, that its title holds white space only or that
/// the page is longer than `MAX_PAGE_CHARS`, ends in the failure `NO_TITLE`.
pub proof fn lemma_untitled_page_fails(status: u16, page: Seq<char>)
    requires
        is_success_status(status),
        page_label(page) is None,
    ensures
        outcome_of(SentModel::Response { status }, BodyModel::Text { text: page })
            == (OutcomeModel::Failure { reason: NO_TITLE@ }),
{
}

} // verus!
