//! The tagged result of one request, and the error half of it.

use vstd::prelude::*;

verus! {

/// Why a request produced no response: the HTTP status if one is known,
/// `0` if none is, and a message for people.
#[derive(Clone, Debug, PartialEq, Eq)]
pub struct RequestError {
    pub status_code: u16,
    pub error: String,
}

/// The mathematical value of a [`RequestError`].
pub struct RequestErrorView {
    pub status_code: nat,
    pub error: Seq<char>,
}

impl View for RequestError {
    type V = RequestErrorView;

    open spec fn view(&self) -> RequestErrorView {
        RequestErrorView { status_code: self.status_code as nat, error: self.error@ }
    }
}

/// The status code a failure reports: the HTTP status where the error carries
/// one, and the sentinel `0` where it carries none.
pub open spec fn status_or_zero(status: Option<u16>) -> nat {
    match status {
        Some(code) => code as nat,
        None => 0,
    }
}

impl RequestError {
    /// Builds the error for a request that failed with `message`, with the
    /// HTTP status that the failure carried, if it carried one.
    pub fn new(status: Option<u16>, message: String) -> (failure: RequestError)
        ensures
            failure@ == (RequestErrorView {
                status_code: status_or_zero(status),
                error: message@,
            }),
    {
        let status_code: u16 = match status {
            Some(code) => code,
            None => 0,
        };
        RequestError { status_code, error: message }
    }
}

/// A response as it was received: its status, the address it finally came
/// from, and the text of its body where the body could be read.
#[derive(Clone, Debug, PartialEq, Eq)]
pub struct Reply {
    pub status_code: u16,
    pub final_url: String,
    pub text: Option<String>,
}

/// The mathematical value of a [`Reply`].
pub struct ReplyView {
    pub status_code: nat,
    pub final_url: Seq<char>,
    pub text: Option<Seq<char>>,
}

impl View for Reply {
    type V = ReplyView;

    open spec fn view(&self) -> ReplyView {
        ReplyView {
            status_code: self.status_code as nat,
            final_url: self.final_url@,
            text: match self.text {
                Some(text) => Some(text@),
                None => None,
            },
        }
    }
}

/// What one request came to: a response, or the reason there is none.
#[derive(Clone, Debug, PartialEq, Eq)]
pub enum Outcome {
    Success { status_code: u16, final_url: String, body: String },
    Failure { status_code: u16, error: String },
}

/// The mathematical value of an [`Outcome`].
pub enum OutcomeView {
    Success { status_code: nat, final_url: Seq<char>, body: Seq<char> },
    Failure { status_code: nat, error: Seq<char> },
}

impl View for Outcome {
    type V = OutcomeView;

    open spec fn view(&self) -> OutcomeView {
        match *self {
            Outcome::Success { status_code, final_url, body } => OutcomeView::Success {
                status_code: status_code as nat,
                final_url: final_url@,
                body: body@,
            },
            Outcome::Failure { status_code, error } => OutcomeView::Failure {
                status_code: status_code as nat,
                error: error@,
            },
        }
    }
}

/// The status that an outcome reports, whichever of the two it is.
pub open spec fn spec_status_code(outcome: OutcomeView) -> nat {
    match outcome {
        OutcomeView::Success { status_code, .. } => status_code,
        OutcomeView::Failure { status_code, .. } => status_code,
    }
}

/// The body that a success reports: the text that was read, and the empty
/// text where none could be read.
pub open spec fn text_or_empty(text: Option<Seq<char>>) -> Seq<char> {
    match text {
        Some(text) => text,
        None => Seq::empty(),
    }
}

/// The success that a reply stands for. A reply is a success whatever its
/// status: a 404 that was received is a success with status 404.
pub open spec fn spec_success(reply: ReplyView) -> OutcomeView {
    OutcomeView::Success {
        status_code: reply.status_code,
        final_url: reply.final_url,
        body: text_or_empty(reply.text),
    }
}

/// The failure outcome that an error stands for.
pub open spec fn spec_failure(failure: RequestErrorView) -> OutcomeView {
    OutcomeView::Failure { status_code: failure.status_code, error: failure.error }
}

/// The outcome of a request that either got a reply or failed.
pub open spec fn spec_outcome(settled: Result<ReplyView, RequestErrorView>) -> OutcomeView {
    match settled {
        Ok(reply) => spec_success(reply),
        Err(failure) => spec_failure(failure),
    }
}

/// The value of a settled request, reply and failure each taken by its view.
pub open spec fn settled_view(settled: Result<Reply, RequestError>) -> Result<
    ReplyView,
    RequestErrorView,
> {
    match settled {
        Ok(reply) => Ok(reply@),
        Err(failure) => Err(failure@),
    }
}

impl Outcome {
    /// The success for a reply. A body that could not be read does not make
    /// the request fail: the success then has an empty body.
    pub fn success(reply: Reply) -> (outcome: Outcome)
        ensures
            outcome@ == spec_success(reply@),
    {
        let Reply { status_code, final_url, text } = reply;
        let body = match text {
            Some(text) => text,
            None => String::new(),
        };
        Outcome::Success { status_code, final_url, body }
    }

    /// The failure for an error, with the error's status and message.
    pub fn failure(failure: RequestError) -> (outcome: Outcome)
        ensures
            outcome@ == spec_failure(failure@),
    {
        let RequestError { status_code, error } = failure;
        Outcome::Failure { status_code, error }
    }

    /// Whether the request got a response.
    pub fn is_success(&self) -> (yes: bool)
        ensures
            yes == (self@ is Success),
    {
        match self {
            Outcome::Success { .. } => true,
            Outcome::Failure { .. } => false,
        }
    }

    /// The status the outcome reports: that of the response, or that of the
    /// error, which is `0` where the error had none.
    pub fn status_code(&self) -> (code: u16)
        ensures
            code == spec_status_code(self@),
    {
        match self {
            Outcome::Success { status_code, .. } => *status_code,
            Outcome::Failure { status_code, .. } => *status_code,
        }
    }
}

/// The outcome of one settled request: a reply becomes a success, an error a
/// failure.
pub fn outcome_of(settled: Result<Reply, RequestError>) -> (outcome: Outcome)
    ensures
        outcome@ == spec_outcome(settled_view(settled)),
        outcome@ is Success <==> settled is Ok,
{
    match settled {
        Ok(reply) => Outcome::success(reply),
        Err(failure) => Outcome::failure(failure),
    }
}

/// The outcomes of a run of settled requests, each in the place of its
/// request.
pub fn outcomes_of(settled: Vec<Result<Reply, RequestError>>) -> (outcomes: Vec<Outcome>)
    ensures
        outcomes@.len() == settled@.len(),
        forall|i: int|
            0 <= i < settled@.len() ==> (#[trigger] outcomes@[i])@ == spec_outcome(
                settled_view(settled@[i]),
            ),
{
    let ghost all = settled@;
    let mut outcomes: Vec<Outcome> = Vec::new();
    for one in it: settled
        invariant
            it.seq() == all,
            outcomes@.len() == it.index(),
            forall|i: int|
                0 <= i < outcomes@.len() ==> (#[trigger] outcomes@[i])@ == spec_outcome(
                    settled_view(all[i]),
                ),
    {
        outcomes.push(outcome_of(one));
    }
    outcomes
}

} // verus!
