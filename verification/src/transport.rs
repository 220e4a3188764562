//! What the HTTP client and the task runtime report, as far as the rules of
//! this crate read it.

use vstd::prelude::*;

use crate::outcome::{
    outcome_of, outcomes_of, spec_failure, spec_success, status_or_zero, Outcome, OutcomeView,
    Reply, ReplyView, RequestError, RequestErrorView,
};

verus! {

/// `reqwest::Error`, carried through as an opaque value.
#[verifier::external_type_specification]
#[verifier::external_body]
pub struct ExTransportError(reqwest::Error);

/// `reqwest::Response`, carried through as an opaque value.
#[verifier::external_type_specification]
#[verifier::external_body]
pub struct ExTransportResponse(reqwest::Response);

/// `tokio::task::JoinError`, carried through as an opaque value.
#[verifier::external_type_specification]
#[verifier::external_body]
pub struct ExTaskError(tokio::task::JoinError);

/// The HTTP status that a transport error carries, as `reqwest::Error::status`
/// reports it.
pub uninterp spec fn transport_status(error: reqwest::Error) -> Option<u16>;

/// The text that a transport error displays.
pub uninterp spec fn transport_message(error: reqwest::Error) -> Seq<char>;

/// Calls `reqwest::Error::status` and gives the code as a number. The status
/// is a function of the error alone, and `http::StatusCode` holds only codes
/// from 100 to 999.
#[verifier::external_body]
fn status_of_error(error: &reqwest::Error) -> (status: Option<u16>)
    ensures
        status == transport_status(*error),
        status matches Some(code) ==> 100 <= code <= 999,
{
    match error.status() {
        Some(code) => Some(code.as_u16()),
        None => None,
    }
}

/// Calls `to_string` on a `reqwest::Error`. Its `Display` writes a fixed
/// phrase for the kind of error first, so the text is never empty.
#[verifier::external_body]
fn message_of_error(error: &reqwest::Error) -> (message: String)
    ensures
        message@ == transport_message(*error),
        message@.len() > 0,
{
    error.to_string()
}

/// The failure that a transport error stands for.
pub open spec fn spec_transport_failure(error: reqwest::Error) -> RequestErrorView {
    RequestErrorView {
        status_code: status_or_zero(transport_status(error)),
        error: transport_message(error),
    }
}

/// Turns an error of the HTTP client into the failure it stands for: its HTTP
/// status where it carries one, `0` where it carries none, and its text.
pub fn failure_of_transport(error: &reqwest::Error) -> (failure: RequestError)
    ensures
        failure@ == spec_transport_failure(*error),
        failure@.status_code == 0 <==> transport_status(*error) is None,
        failure@.error.len() > 0,
{
    let status = status_of_error(error);
    let message = message_of_error(error);
    RequestError::new(status, message)
}

/// The text that a task error displays.
pub uninterp spec fn task_message(error: tokio::task::JoinError) -> Seq<char>;

/// Calls `to_string` on a `tokio::task::JoinError`. Its `Display` starts every
/// text with the word "task", so the text is never empty.
#[verifier::external_body]
fn message_of_task_error(error: &tokio::task::JoinError) -> (message: String)
    ensures
        message@ == task_message(*error),
        message@.len() > 0,
{
    error.to_string()
}

/// The failure that a task error stands for: no HTTP status, and its text.
pub open spec fn spec_task_failure(error: tokio::task::JoinError) -> RequestErrorView {
    RequestErrorView { status_code: 0, error: task_message(error) }
}

/// Turns the error of a task that did not run to its end into a failure
/// without an HTTP status.
pub fn failure_of_task(error: &tokio::task::JoinError) -> (failure: RequestError)
    ensures
        failure@ == spec_task_failure(*error),
        failure@.error.len() > 0,
{
    let message = message_of_task_error(error);
    RequestError::new(None, message)
}

/// The status of a response, as `reqwest::Response::status` reports it.
pub uninterp spec fn response_status(response: reqwest::Response) -> u16;

/// The address a response finally came from, as `reqwest::Response::url`
/// reports it, in its text form.
pub uninterp spec fn response_url(response: reqwest::Response) -> Seq<char>;

/// Calls `reqwest::Response::status` and gives the code as a number. The
/// status is a function of the response alone, and `http::StatusCode` holds
/// only codes from 100 to 999.
#[verifier::external_body]
fn status_of_response(response: &reqwest::Response) -> (status: u16)
    ensures
        status == response_status(*response),
        100 <= status <= 999,
{
    response.status().as_u16()
}

/// Calls `reqwest::Response::url` and gives the address as text: the address
/// after redirects, which is a function of the response alone.
#[verifier::external_body]
fn url_of_response(response: &reqwest::Response) -> (url: String)
    ensures
        url@ == response_url(*response),
{
    response.url().to_string()
}

/// The reply that a response stands for before its body has been read.
pub open spec fn spec_received(response: reqwest::Response) -> ReplyView {
    ReplyView {
        status_code: response_status(response) as nat,
        final_url: response_url(response),
        text: None,
    }
}

/// The text that reading a body gave, if it gave one.
pub open spec fn text_read(read: Result<String, reqwest::Error>) -> Option<Seq<char>> {
    match read {
        Ok(text) => Some(text@),
        Err(_) => None,
    }
}

/// Notes the status and the final address of a response. The body is not
/// read here: reading it uses the response up, so this comes first.
pub fn received(response: &reqwest::Response) -> (reply: Reply)
    ensures
        reply@ == spec_received(*response),
        100 <= reply@.status_code <= 999,
{
    let status_code = status_of_response(response);
    let final_url = url_of_response(response);
    Reply { status_code, final_url, text: None }
}

/// Adds to a reply what reading its body gave. A body that could not be read
/// leaves the reply without text; it does not turn the reply into an error.
pub fn with_text(reply: Reply, read: Result<String, reqwest::Error>) -> (full: Reply)
    ensures
        full@ == (ReplyView {
            status_code: reply@.status_code,
            final_url: reply@.final_url,
            text: text_read(read),
        }),
{
    let Reply { status_code, final_url, text: _ } = reply;
    let text = match read {
        Ok(text) => Some(text),
        Err(_) => None,
    };
    Reply { status_code, final_url, text }
}

/// What a joined task settles to: its value where the task ran and the
/// request went through, else the failure of the request or of the task.
pub open spec fn spec_settle<T>(
    joined: Result<Result<T, reqwest::Error>, tokio::task::JoinError>,
) -> Result<T, RequestErrorView> {
    match joined {
        Ok(Ok(value)) => Ok(value),
        Ok(Err(error)) => Err(spec_transport_failure(error)),
        Err(error) => Err(spec_task_failure(error)),
    }
}

/// Whether a joined task brought no HTTP status with it: it did unless the
/// client failed with an error that carries one.
pub open spec fn without_status<T>(
    joined: Result<Result<T, reqwest::Error>, tokio::task::JoinError>,
) -> bool {
    match joined {
        Ok(Err(error)) => transport_status(error) is None,
        _ => true,
    }
}

/// Whether an outcome, if it is a failure, says what went wrong.
pub open spec fn explained(outcome: OutcomeView) -> bool {
    outcome matches OutcomeView::Failure { error, .. } ==> error.len() > 0
}

/// A settled request with its failure taken by its view.
pub open spec fn failure_view<T>(settled: Result<T, RequestError>) -> Result<T, RequestErrorView> {
    match settled {
        Ok(value) => Ok(value),
        Err(failure) => Err(failure@),
    }
}

/// Settles one joined task. The value of a request that went through is
/// handed on untouched; an error of the client becomes a failure with the
/// error's status, or `0`; a task that did not finish becomes a failure with
/// status `0`.
pub fn settle<T>(joined: Result<Result<T, reqwest::Error>, tokio::task::JoinError>) -> (settled:
    Result<T, RequestError>)
    ensures
        failure_view(settled) == spec_settle(joined),
        settled matches Err(failure) ==> failure@.error.len() > 0,
        settled matches Err(failure) ==> (failure@.status_code == 0 <==> without_status(joined)),
{
    match joined {
        Ok(Ok(value)) => Ok(value),
        Ok(Err(error)) => Err(failure_of_transport(&error)),
        Err(error) => Err(failure_of_task(&error)),
    }
}

/// Settles every joined task of a batch, each in its own place.
pub fn settle_all<T>(
    joined: Vec<Result<Result<T, reqwest::Error>, tokio::task::JoinError>>,
) -> (settled: Vec<Result<T, RequestError>>)
    ensures
        settled@.len() == joined@.len(),
        forall|i: int|
            0 <= i < joined@.len() ==> failure_view(#[trigger] settled@[i]) == spec_settle(
                joined@[i],
            ),
        forall|i: int|
            0 <= i < joined@.len() ==> ((#[trigger] settled@[i]) matches Err(failure)
                ==> failure@.error.len() > 0),
{
    let ghost all = joined@;
    let mut settled: Vec<Result<T, RequestError>> = Vec::new();
    for one in it: joined
        invariant
            it.seq() == all,
            settled@.len() == it.index(),
            forall|i: int|
                0 <= i < settled@.len() ==> failure_view(#[trigger] settled@[i]) == spec_settle(
                    all[i],
                ),
            forall|i: int|
                0 <= i < settled@.len() ==> ((#[trigger] settled@[i]) matches Err(failure)
                    ==> failure@.error.len() > 0),
    {
        settled.push(settle(one));
    }
    settled
}

/// The outcome that a joined task stands for, where the task's value is the
/// reply to its request.
pub open spec fn spec_conclude(
    joined: Result<Result<Reply, reqwest::Error>, tokio::task::JoinError>,
) -> OutcomeView {
    match joined {
        Ok(Ok(reply)) => spec_success(reply@),
        Ok(Err(error)) => spec_failure(spec_transport_failure(error)),
        Err(error) => spec_failure(spec_task_failure(error)),
    }
}

/// Concludes one request from its joined task: a reply is a success, an error
/// of the client a failure with the error's status or `0`, an unfinished task
/// a failure with status `0`.
pub fn conclude(joined: Result<Result<Reply, reqwest::Error>, tokio::task::JoinError>) -> (outcome:
    Outcome)
    ensures
        outcome@ == spec_conclude(joined),
        outcome@ is Success <==> joined matches Ok(Ok(_)),
        explained(outcome@),
        outcome@ matches OutcomeView::Failure { status_code, .. } ==> (status_code == 0
            <==> without_status(joined)),
{
    outcome_of(settle(joined))
}

/// Concludes a whole batch: one outcome for each joined task, in the order of
/// the tasks. No task's result changes what another concludes to.
pub fn conclude_all(
    joined: Vec<Result<Result<Reply, reqwest::Error>, tokio::task::JoinError>>,
) -> (outcomes: Vec<Outcome>)
    ensures
        outcomes@.len() == joined@.len(),
        forall|i: int|
            0 <= i < joined@.len() ==> (#[trigger] outcomes@[i])@ == spec_conclude(joined@[i]),
        forall|i: int| 0 <= i < joined@.len() ==> explained((#[trigger] outcomes@[i])@),
{
    let settled = settle_all(joined);
    let outcomes = outcomes_of(settled);
    assert forall|i: int| 0 <= i < joined@.len() implies (#[trigger] outcomes@[i])@
        == spec_conclude(joined@[i]) && explained(outcomes@[i]@) by {
        assert(failure_view(settled@[i]) == spec_settle(joined@[i]));
    }
    outcomes
}

} // verus!
