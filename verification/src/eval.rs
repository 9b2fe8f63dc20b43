//! Evaluation: the hard filter, the evaluator capability, and its two
//! strategies (local heuristics and an external scoring service).

pub mod filter;
pub mod llm;
pub mod local;

use vstd::prelude::*;
use crate::models::{Criteria, EvalError, Novel, NovelScore, Review};
use crate::eval::filter::spec_passes_hard_filters;

verus! {

/// What one evaluation step asks of the driver: either the score is
/// ready, or a request must first be sent to an external scoring
/// service and its response handed back.
pub enum Evaluation {
    /// The score could be computed on the spot.
    Ready(NovelScore),
    /// The novel, handed back untouched, and the request body that must
    /// be sent to the external scoring service.
    NeedsService(Novel, Vec<u8>),
}

/// A strategy for scoring novels against user criteria.
///
/// `pre_filter` is the cheap check run before any expensive work; both
/// shipped strategies delegate it to the hard filter, and the contract
/// pins that down. `evaluate` either produces the score directly or
/// hands back a service request; in the latter case `interpret` turns
/// the service's response into the score.
pub trait Evaluator: Sized {
    /// Cheap pre-check; exactly the hard filter.
    fn pre_filter(&self, novel: &Novel, criteria: &Criteria) -> (r: bool)
        ensures
            r == spec_passes_hard_filters(*novel, *criteria),
    ;

    /// Score a novel, or request help from an external service.
    fn evaluate(&self, novel: Novel, reviews: &Vec<Review>, criteria: &Criteria) -> (r: Result<
        Evaluation,
        EvalError,
    >)
        ensures
            (r matches Ok(Evaluation::Ready(s)) ==> s.novel == novel && s.wf()),
            (r matches Ok(Evaluation::NeedsService(n, req)) ==> n == novel),
    ;

    /// Turn an external service response into the score for `novel`.
    fn interpret(&self, novel: Novel, response: &Vec<u8>) -> (r: Result<NovelScore, EvalError>)
        ensures
            (r matches Ok(s) ==> s.novel == novel && s.wf()),
    ;
}

} // verus!
