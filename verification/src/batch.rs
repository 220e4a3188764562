//! A whole batch: from the reports of its requests, in the order in which
//! they finished, to its outcomes, in the order in which they were asked.

use vstd::prelude::*;

use crate::board::{
    gather, lemma_empty_batch_gathers, lemma_full_batch_gathers, reports_each_once, spec_gather,
};
use crate::outcome::{Outcome, OutcomeView, Reply};
use crate::transport::{conclude_all, explained, spec_conclude};

verus! {

/// The time every request of a batch is given, from connecting to the end of
/// its body, in seconds.
pub const REQUEST_TIMEOUT_SECS: u64 = 30;

/// The values of a run of outcomes.
pub open spec fn outcome_views(outcomes: Seq<Outcome>) -> Seq<OutcomeView> {
    Seq::new(outcomes.len(), |i: int| outcomes[i]@)
}

/// The outcomes of a batch of `count` requests whose tasks reported as
/// `arrivals` say, each report with the number of its request: one outcome
/// for each request, in the order of the requests, where every request has a
/// report; nothing where one has none.
pub open spec fn spec_assemble(
    count: nat,
    arrivals: Seq<(usize, Result<Result<Reply, reqwest::Error>, tokio::task::JoinError>)>,
) -> Option<Seq<OutcomeView>> {
    match spec_gather(count, arrivals) {
        Some(joined) => Some(Seq::new(joined.len(), |i: int| spec_conclude(joined[i]))),
        None => None,
    }
}

/// Assembles the outcomes of a batch of `count` requests from the reports of
/// its tasks, which may come in any order. A report whose number names no
/// request, or one that was reported before, is passed over.
pub fn assemble(
    count: usize,
    arrivals: Vec<(usize, Result<Result<Reply, reqwest::Error>, tokio::task::JoinError>)>,
) -> (outcomes: Option<Vec<Outcome>>)
    ensures
        match spec_assemble(count as nat, arrivals@) {
            Some(expected) => outcomes is Some && outcome_views(outcomes->Some_0@) == expected,
            None => outcomes is None,
        },
        outcomes matches Some(all) ==> all@.len() == count,
        outcomes matches Some(all) ==> forall|i: int|
            0 <= i < all@.len() ==> explained((#[trigger] all@[i])@),
{
    match gather(count, arrivals) {
        Some(joined) => Some(conclude_all(joined)),
        None => None,
    }
}

/// A batch has as many outcomes as requests: when every request reports
/// exactly once, in whatever order, the batch is assembled and holds one
/// outcome for each.
pub proof fn lemma_one_outcome_for_each_request(
    count: nat,
    arrivals: Seq<(usize, Result<Result<Reply, reqwest::Error>, tokio::task::JoinError>)>,
)
    requires
        reports_each_once(count, arrivals),
    ensures
        spec_assemble(count, arrivals) is Some,
        spec_assemble(count, arrivals)->Some_0.len() == count,
{
    lemma_full_batch_gathers(count, arrivals);
}

/// A batch of no requests has no outcomes, and is no error.
pub proof fn lemma_empty_batch_has_no_outcomes()
    ensures
        spec_assemble(
            0,
            Seq::<(usize, Result<Result<Reply, reqwest::Error>, tokio::task::JoinError>)>::empty(),
        ) == Some(Seq::<OutcomeView>::empty()),
{
    lemma_empty_batch_gathers::<Result<Result<Reply, reqwest::Error>, tokio::task::JoinError>>();
}

/// The outcome at a request's place is the outcome of that request: when
/// every request reports exactly once, the report numbered `i` decides the
/// outcome at place `i`, wherever among the reports it came.
pub proof fn lemma_outcome_is_of_its_own_request(
    count: nat,
    arrivals: Seq<(usize, Result<Result<Reply, reqwest::Error>, tokio::task::JoinError>)>,
)
    requires
        reports_each_once(count, arrivals),
    ensures
        spec_assemble(count, arrivals) is Some,
        forall|j: int|
            0 <= j < arrivals.len() ==> spec_assemble(count, arrivals)->Some_0[(
            #[trigger] arrivals[j]).0 as int] == spec_conclude(arrivals[j].1),
{
    lemma_full_batch_gathers(count, arrivals);
}

} // verus!
