//! The orchestration state machine: seed the frontier, then loop
//! stop-check, pop, pre-filter, evaluate, discover, until a stop
//! condition fires or the frontier empties; finally sort the results.
//!
//! The pipeline holds every decision of the run; the driver around it
//! performs the fetches and service calls the steps ask for and hands
//! the plain results back in. The stop condition is checked at
//! iteration boundaries only, before the next candidate is consumed.

use vstd::prelude::*;
use crate::discovery::also_liked::{discovery_admits, spec_discovery_admits};
use crate::eval::filter::spec_passes_hard_filters;
use crate::eval::{Evaluation, Evaluator};
use crate::models::{Criteria, EvalError, Novel, NovelScore, ParseError, StopCondition};
use crate::queue::NovelQueue;
use crate::ranking::{sort_by_score_desc, sort_desc};
use crate::text::{all_digits, digits_val, eq_bytes, parse_u64, sbytes, subvec};

verus! {

/// Where the run stands.
#[derive(Clone, Copy, PartialEq, Eq, Structural, Debug)]
pub enum Phase {
    /// Seeds are still being pushed.
    Seeding,
    /// Ready to begin the next loop iteration.
    Ready,
    /// A candidate passed the pre-filter; its reviews are awaited.
    AwaitingReviews,
    /// The evaluator asked for an external service call.
    AwaitingService,
    /// A candidate was scored; discoveries may be offered.
    Discovering,
    /// The run is over; only the sorted results remain.
    Stopped,
}

/// What one loop iteration asks of the driver.
#[derive(Clone, Copy, PartialEq, Eq, Structural, Debug)]
pub enum Step {
    /// A stop condition fired or the frontier is exhausted.
    Stopped,
    /// The candidate failed the pre-filter and was discarded.
    Skipped,
    /// Fetch the reviews of the novel with this id and hand them back.
    FetchReviews(u64),
}

/// What to do after a candidate was scored.
#[derive(Clone, Copy, PartialEq, Eq, Structural, Debug)]
pub enum AfterScore {
    /// Discovery is off; begin the next iteration.
    Continue,
    /// Discovery is on: fetch novels related to this id and offer them.
    Discover(u64),
}

/// The outcome of handing reviews to the evaluator.
#[derive(Debug, PartialEq, Eq)]
pub enum ReviewStep {
    /// The score was recorded on the spot.
    Scored(AfterScore),
    /// Send this request to the external scoring service and hand the
    /// response back.
    NeedsService(Vec<u8>),
}

/// Every recorded score is well formed.
pub open spec fn results_wf(s: Seq<NovelScore>) -> bool {
    forall|i: int| 0 <= i < s.len() ==> (#[trigger] s[i]).wf()
}

/// The stop condition, evaluated against the result count and the
/// elapsed time. Frontier exhaustion is handled separately and always
/// ends the run.
pub open spec fn spec_should_stop(sc: StopCondition, n_results: int, elapsed_ms: u64) -> bool {
    match sc {
        StopCondition::MaxNovels(m) => n_results >= m,
        StopCondition::MaxTime(limit_s) => elapsed_ms >= limit_s * 1000,
        StopCondition::EmptyQueue => false,
    }
}

/// The main processing pipeline, generic over the evaluation strategy.
pub struct Pipeline<E: Evaluator> {
    /// User-defined evaluation criteria.
    criteria: Criteria,
    /// When to stop the run.
    stop_condition: StopCondition,
    /// Whether discoveries are fed back into the frontier.
    discovery_enabled: bool,
    /// The scoring strategy.
    evaluator: E,
    /// The frontier of candidates awaiting processing.
    queue: NovelQueue,
    /// Scores accumulated so far, in evaluation order.
    results: Vec<NovelScore>,
    /// Where the run stands.
    phase: Phase,
    /// The candidate between pre-filter and scoring, if any.
    current: Option<Novel>,
}

impl<E: Evaluator> Pipeline<E> {
    /// Where the run stands.
    pub closed spec fn spec_phase(self) -> Phase {
        self.phase
    }

    /// The scores accumulated so far, in evaluation order.
    pub closed spec fn spec_results(self) -> Seq<NovelScore> {
        self.results@
    }

    /// The frontier queue.
    pub closed spec fn spec_frontier(self) -> NovelQueue {
        self.queue
    }

    /// The criteria of the run.
    pub closed spec fn spec_criteria(self) -> Criteria {
        self.criteria
    }

    /// The stop condition of the run.
    pub closed spec fn spec_stop(self) -> StopCondition {
        self.stop_condition
    }

    /// Whether discovery is enabled.
    pub closed spec fn spec_discovery_enabled(self) -> bool {
        self.discovery_enabled
    }

    /// The candidate currently between pre-filter and scoring.
    pub closed spec fn spec_current(self) -> Option<Novel> {
        self.current
    }

    /// The run's configuration never changes after construction.
    pub open spec fn same_config(self, other: Pipeline<E>) -> bool {
        &&& other.spec_criteria() == self.spec_criteria()
        &&& other.spec_stop() == self.spec_stop()
        &&& other.spec_discovery_enabled() == self.spec_discovery_enabled()
    }

    /// Structural invariant: the frontier is well formed; a candidate is
    /// held exactly while reviews or a service response are awaited;
    /// under a `max_novels` cap the recorded and in-flight scores never
    /// exceed the cap; every recorded score is well formed.
    pub open spec fn inv(self) -> bool {
        &&& self.spec_frontier().inv()
        &&& (self.spec_current() is Some <==> (self.spec_phase() == Phase::AwaitingReviews
            || self.spec_phase() == Phase::AwaitingService))
        &&& match self.spec_stop() {
            StopCondition::MaxNovels(m) => self.spec_results().len() + (if self.spec_current()
                is Some {
                1int
            } else {
                0int
            }) <= m,
            _ => true,
        }
        &&& results_wf(self.spec_results())
    }

    /// Build a new pipeline.
    pub fn new(
        criteria: Criteria,
        stop_condition: StopCondition,
        discovery_enabled: bool,
        evaluator: E,
    ) -> (p: Pipeline<E>)
        ensures
            p.inv(),
            p.spec_phase() == Phase::Seeding,
            p.spec_results() == Seq::<NovelScore>::empty(),
            p.spec_frontier().queued() == Seq::<Novel>::empty(),
            p.spec_frontier().seen_ids() == Seq::<u64>::empty(),
            p.spec_criteria() == criteria,
            p.spec_stop() == stop_condition,
            p.spec_discovery_enabled() == discovery_enabled,
    {
        let p = Pipeline {
            criteria,
            stop_condition,
            discovery_enabled,
            evaluator,
            queue: NovelQueue::new(),
            results: Vec::new(),
            phase: Phase::Seeding,
            current: None,
        };
        proof {
            assert(p.spec_results() =~= Seq::<NovelScore>::empty());
        }
        p
    }

    /// Push one resolved seed into the frontier; duplicates are refused.
    pub fn push_seed(&mut self, novel: Novel) -> (admitted: bool)
        requires
            old(self).spec_phase() == Phase::Seeding,
            old(self).inv(),
        ensures
            final(self).inv(),
            old(self).same_config(*final(self)),
            final(self).spec_phase() == Phase::Seeding,
            final(self).spec_results() == old(self).spec_results(),
            NovelQueue::push_rel(
                old(self).spec_frontier(),
                novel,
                final(self).spec_frontier(),
                admitted,
            ),
    {
        self.queue.push(novel)
    }

    /// End the seeding phase; processing may begin.
    pub fn finish_seeding(&mut self)
        requires
            old(self).spec_phase() == Phase::Seeding,
            old(self).inv(),
        ensures
            final(self).inv(),
            old(self).same_config(*final(self)),
            final(self).spec_phase() == Phase::Ready,
            final(self).spec_results() == old(self).spec_results(),
            final(self).spec_frontier() == old(self).spec_frontier(),
    {
        self.phase = Phase::Ready;
    }

    /// The number of candidates currently queued.
    pub fn frontier_len(&self) -> (r: usize)
        ensures
            r == self.spec_frontier().queued().len(),
    {
        self.queue.len()
    }

    /// Whether an id has ever been admitted to the frontier.
    pub fn frontier_seen(&self, novel_id: u64) -> (r: bool)
        ensures
            r == self.spec_frontier().spec_seen(novel_id),
    {
        self.queue.has_seen(novel_id)
    }

    /// Whether the stop condition has been met.
    fn should_stop(&self, elapsed_ms: u64) -> (r: bool)
        ensures
            r == spec_should_stop(self.spec_stop(), self.spec_results().len() as int, elapsed_ms),
    {
        match &self.stop_condition {
            StopCondition::MaxNovels(m) => self.results.len() >= *m,
            StopCondition::MaxTime(limit_s) => (elapsed_ms as u128) >= (*limit_s as u128) * 1000,
            StopCondition::EmptyQueue => false,
        }
    }

    /// Begin one loop iteration: check the stop condition before
    /// consuming anything, then pop the next candidate and apply the
    /// pre-filter. Every outcome but `Stopped` consumes exactly one
    /// queued candidate, so with nothing new admitted the frontier is
    /// exhausted after finitely many iterations.
    pub fn begin_iteration(&mut self, elapsed_ms: u64) -> (step: Step)
        requires
            old(self).spec_phase() == Phase::Ready,
            old(self).inv(),
        ensures
            final(self).inv(),
            old(self).same_config(*final(self)),
            final(self).spec_results() == old(self).spec_results(),
            final(self).spec_frontier().seen_ids() == old(self).spec_frontier().seen_ids(),
            match step {
                Step::Stopped => {
                    &&& final(self).spec_phase() == Phase::Stopped
                    &&& (spec_should_stop(
                        old(self).spec_stop(),
                        old(self).spec_results().len() as int,
                        elapsed_ms,
                    ) || old(self).spec_frontier().queued().len() == 0)
                    &&& final(self).spec_frontier().queued() == old(
                        self,
                    ).spec_frontier().queued()
                },
                Step::Skipped => {
                    &&& !spec_should_stop(
                        old(self).spec_stop(),
                        old(self).spec_results().len() as int,
                        elapsed_ms,
                    )
                    &&& old(self).spec_frontier().queued().len() > 0
                    &&& !spec_passes_hard_filters(
                        old(self).spec_frontier().queued()[0],
                        old(self).spec_criteria(),
                    )
                    &&& final(self).spec_phase() == Phase::Ready
                    &&& final(self).spec_frontier().queued() == old(
                        self,
                    ).spec_frontier().queued().drop_first()
                },
                Step::FetchReviews(id) => {
                    &&& !spec_should_stop(
                        old(self).spec_stop(),
                        old(self).spec_results().len() as int,
                        elapsed_ms,
                    )
                    &&& old(self).spec_frontier().queued().len() > 0
                    &&& spec_passes_hard_filters(
                        old(self).spec_frontier().queued()[0],
                        old(self).spec_criteria(),
                    )
                    &&& id == old(self).spec_frontier().queued()[0].id
                    &&& final(self).spec_current() == Some(old(self).spec_frontier().queued()[0])
                    &&& final(self).spec_phase() == Phase::AwaitingReviews
                    &&& final(self).spec_frontier().queued() == old(
                        self,
                    ).spec_frontier().queued().drop_first()
                },
            },
    {
        if self.should_stop(elapsed_ms) {
            self.phase = Phase::Stopped;
            return Step::Stopped;
        }
        let popped = self.queue.pop();
        match popped {
            None => {
                self.phase = Phase::Stopped;
                Step::Stopped
            },
            Some(novel) => {
                if !self.evaluator.pre_filter(&novel, &self.criteria) {
                    Step::Skipped
                } else {
                    let id = novel.id;
                    self.current = Some(novel);
                    self.phase = Phase::AwaitingReviews;
                    Step::FetchReviews(id)
                }
            },
        }
    }

    /// Hand the fetched reviews to the evaluator. Either the score is
    /// recorded on the spot, or a service request is produced, or the
    /// evaluation fails and the run aborts with the results kept.
    pub fn supply_reviews(&mut self, reviews: Vec<crate::models::Review>) -> (r: Result<
        ReviewStep,
        EvalError,
    >)
        requires
            old(self).spec_phase() == Phase::AwaitingReviews,
            old(self).inv(),
        ensures
            final(self).inv(),
            old(self).same_config(*final(self)),
            final(self).spec_frontier() == old(self).spec_frontier(),
            match r {
                Ok(ReviewStep::Scored(after)) => {
                    &&& final(self).spec_results() == old(self).spec_results().push(
                        final(self).spec_results().last(),
                    )
                    &&& final(self).spec_results().last().novel == old(
                        self,
                    ).spec_current()->Some_0
                    &&& final(self).spec_results().last().wf()
                    &&& (after == AfterScore::Discover(old(self).spec_current()->Some_0.id)
                        <==> old(self).spec_discovery_enabled())
                    &&& (after == AfterScore::Continue <==> !old(self).spec_discovery_enabled())
                    &&& final(self).spec_phase() == (if old(self).spec_discovery_enabled() {
                        Phase::Discovering
                    } else {
                        Phase::Ready
                    })
                },
                Ok(ReviewStep::NeedsService(_)) => {
                    &&& final(self).spec_results() == old(self).spec_results()
                    &&& final(self).spec_phase() == Phase::AwaitingService
                    &&& final(self).spec_current() == old(self).spec_current()
                },
                Err(_) => {
                    &&& final(self).spec_results() == old(self).spec_results()
                    &&& final(self).spec_phase() == Phase::Stopped
                },
            },
    {
        let mut cur: Option<Novel> = None;
        core::mem::swap(&mut cur, &mut self.current);
        match cur {
            Some(novel) => {
                match self.evaluator.evaluate(novel, &reviews, &self.criteria) {
                    Ok(Evaluation::Ready(score)) => {
                        let id = score.novel.id;
                        self.results.push(score);
                        proof {
                            assert forall|i: int| 0 <= i < self.results@.len() implies (
                            #[trigger] self.results@[i]).wf() by {
                                if i < old(self).spec_results().len() {
                                    assert(old(self).spec_results()[i].wf());
                                }
                            }
                        }
                        if self.discovery_enabled {
                            self.phase = Phase::Discovering;
                            Ok(ReviewStep::Scored(AfterScore::Discover(id)))
                        } else {
                            self.phase = Phase::Ready;
                            Ok(ReviewStep::Scored(AfterScore::Continue))
                        }
                    },
                    Ok(Evaluation::NeedsService(novel_back, request)) => {
                        self.current = Some(novel_back);
                        self.phase = Phase::AwaitingService;
                        Ok(ReviewStep::NeedsService(request))
                    },
                    Err(e) => {
                        self.phase = Phase::Stopped;
                        Err(e)
                    },
                }
            },
            None => vstd::pervasive::unreached(),
        }
    }

    /// Hand the external service's response to the evaluator; on
    /// success the score is recorded, on failure the run aborts with
    /// the results kept.
    pub fn supply_service_response(&mut self, response: &Vec<u8>) -> (r: Result<
        AfterScore,
        EvalError,
    >)
        requires
            old(self).spec_phase() == Phase::AwaitingService,
            old(self).inv(),
        ensures
            final(self).inv(),
            old(self).same_config(*final(self)),
            final(self).spec_frontier() == old(self).spec_frontier(),
            match r {
                Ok(after) => {
                    &&& final(self).spec_results() == old(self).spec_results().push(
                        final(self).spec_results().last(),
                    )
                    &&& final(self).spec_results().last().novel == old(
                        self,
                    ).spec_current()->Some_0
                    &&& final(self).spec_results().last().wf()
                    &&& (after == AfterScore::Discover(old(self).spec_current()->Some_0.id)
                        <==> old(self).spec_discovery_enabled())
                    &&& (after == AfterScore::Continue <==> !old(self).spec_discovery_enabled())
                    &&& final(self).spec_phase() == (if old(self).spec_discovery_enabled() {
                        Phase::Discovering
                    } else {
                        Phase::Ready
                    })
                },
                Err(_) => {
                    &&& final(self).spec_results() == old(self).spec_results()
                    &&& final(self).spec_phase() == Phase::Stopped
                },
            },
    {
        let mut cur: Option<Novel> = None;
        core::mem::swap(&mut cur, &mut self.current);
        match cur {
            Some(novel) => {
                match self.evaluator.interpret(novel, response) {
                    Ok(score) => {
                        let id = score.novel.id;
                        self.results.push(score);
                        proof {
                            assert forall|i: int| 0 <= i < self.results@.len() implies (
                            #[trigger] self.results@[i]).wf() by {
                                if i < old(self).spec_results().len() {
                                    assert(old(self).spec_results()[i].wf());
                                }
                            }
                        }
                        if self.discovery_enabled {
                            self.phase = Phase::Discovering;
                            Ok(AfterScore::Discover(id))
                        } else {
                            self.phase = Phase::Ready;
                            Ok(AfterScore::Continue)
                        }
                    },
                    Err(e) => {
                        self.phase = Phase::Stopped;
                        Err(e)
                    },
                }
            },
            None => vstd::pervasive::unreached(),
        }
    }

    /// Offer one discovered novel. It enters the frontier only if it
    /// passes the lightweight admission rule and its id was never seen
    /// before; ids already seen never grow the frontier, which bounds
    /// the run.
    pub fn offer_discovery(&mut self, novel: Novel) -> (admitted: bool)
        requires
            old(self).spec_phase() == Phase::Discovering,
            old(self).inv(),
        ensures
            final(self).inv(),
            old(self).same_config(*final(self)),
            final(self).spec_phase() == Phase::Discovering,
            final(self).spec_results() == old(self).spec_results(),
            if spec_discovery_admits(old(self).spec_criteria(), novel) {
                NovelQueue::push_rel(
                    old(self).spec_frontier(),
                    novel,
                    final(self).spec_frontier(),
                    admitted,
                )
            } else {
                admitted == false && final(self).spec_frontier() == old(self).spec_frontier()
            },
    {
        if !discovery_admits(&self.criteria, &novel) {
            return false;
        }
        self.queue.push(novel)
    }

    /// Discovery for the current candidate is over, whether it
    /// succeeded or failed; a failed discovery only means nothing was
    /// offered, and the run continues.
    pub fn finish_discovery(&mut self)
        requires
            old(self).spec_phase() == Phase::Discovering,
            old(self).inv(),
        ensures
            final(self).inv(),
            old(self).same_config(*final(self)),
            final(self).spec_phase() == Phase::Ready,
            final(self).spec_results() == old(self).spec_results(),
            final(self).spec_frontier() == old(self).spec_frontier(),
    {
        self.phase = Phase::Ready;
    }

    /// Take the final results, sorted by overall score descending with
    /// ties in original evaluation order.
    pub fn into_results(self) -> (r: Vec<NovelScore>)
        requires
            self.spec_phase() == Phase::Stopped,
        ensures
            r@ == sort_desc(self.spec_results()),
    {
        sort_by_score_desc(self.results)
    }
}

/// Under a `max_novels` stop condition the recorded results never
/// exceed the cap: evaluation of a new candidate only begins while the
/// count is still below it.
pub proof fn lemma_max_novels_bound<E: Evaluator>(p: Pipeline<E>, m: usize)
    requires
        p.inv(),
        p.spec_stop() == StopCondition::MaxNovels(m),
    ensures
        p.spec_results().len() <= m,
{
}

/// Under a `max_time` stop condition, once the elapsed time reaches the
/// limit the next iteration stops before any new evaluation begins.
pub proof fn lemma_max_time_stops(
    stop: StopCondition,
    n_results: int,
    elapsed_ms: u64,
    limit_s: u64,
)
    requires
        stop == StopCondition::MaxTime(limit_s),
        elapsed_ms >= limit_s * 1000,
    ensures
        spec_should_stop(stop, n_results, elapsed_ms),
{
}

/// An id already seen never grows the frontier. Hence once discovery
/// proposes only already-seen ids, each iteration shrinks the frontier
/// by one and the run reaches exhaustion, which stops it whatever the
/// configured stop condition.
pub proof fn lemma_seen_push_no_growth(q0: NovelQueue, n: Novel, q1: NovelQueue, admitted: bool)
    requires
        NovelQueue::push_rel(q0, n, q1, admitted),
        q0.spec_seen(n.id),
    ensures
        admitted == false,
        q1.queued() == q0.queued(),
{
}

/// A decimal id without markup around it.
pub open spec fn parses_as_u64(s: Seq<u8>) -> bool {
    s.len() >= 1 && all_digits(s) && digits_val(s) <= u64::MAX
}

/// The end of the path segment starting at `i`: the next `/` or the end
/// of the string.
pub open spec fn seg_end(s: Seq<u8>, i: int) -> int
    decreases s.len() - i,
{
    if i < 0 || i >= s.len() {
        s.len() as int
    } else if s[i] == 47 {
        i
    } else {
        seg_end(s, i + 1)
    }
}

proof fn lemma_seg_end_bounds(s: Seq<u8>, i: int)
    requires
        0 <= i <= s.len(),
    ensures
        i <= seg_end(s, i) <= s.len(),
    decreases s.len() - i,
{
    if i < s.len() && s[i] != 47 {
        lemma_seg_end_bounds(s, i + 1);
    }
}

/// Scan the `/`-separated segments from position `i` for a `fiction`
/// segment directly followed by a decimal id.
pub open spec fn scan_fiction_id(s: Seq<u8>, i: int) -> Option<u64>
    decreases s.len() + 1 - i,
    via scan_fiction_id_decreases
{
    if i < 0 || i > s.len() {
        None
    } else {
        let e = seg_end(s, i);
        if s.subrange(i, e) == sbytes("fiction"@) && e < s.len() && parses_as_u64(
            s.subrange(e + 1, seg_end(s, e + 1)),
        ) {
            Some(digits_val(s.subrange(e + 1, seg_end(s, e + 1))) as u64)
        } else if e >= s.len() {
            None
        } else {
            scan_fiction_id(s, e + 1)
        }
    }
}

#[via_fn]
proof fn scan_fiction_id_decreases(s: Seq<u8>, i: int) {
    if 0 <= i <= s.len() {
        lemma_seg_end_bounds(s, i);
    }
}

/// What `parse_novel_id` returns: a bare decimal id, or the first id
/// that follows a `fiction` path segment.
pub open spec fn spec_parse_novel_id(s: Seq<u8>) -> Option<u64> {
    if parses_as_u64(s) {
        Some(digits_val(s) as u64)
    } else {
        scan_fiction_id(s, 0)
    }
}

/// The position of the next `/` at or after `i`, or the end.
fn next_slash(s: &Vec<u8>, i: usize) -> (r: usize)
    requires
        i <= s@.len(),
    ensures
        r == seg_end(s@, i as int),
        i <= r <= s@.len(),
{
    let mut j: usize = i;
    while j < s.len()
        invariant
            i <= j <= s@.len(),
            seg_end(s@, i as int) == seg_end(s@, j as int),
        decreases s@.len() - j,
    {
        if s[j] == 47 {
            return j;
        }
        j += 1;
    }
    j
}

/// Extract a catalog fiction id from a URL or raw id string: either the
/// whole string is a decimal id, or the id follows a `fiction` path
/// segment as in `https://www.royalroad.com/fiction/12345/some-title`.
pub fn parse_novel_id(url_or_id: &Vec<u8>) -> (r: Result<u64, ParseError>)
    ensures
        match spec_parse_novel_id(url_or_id@) {
            Some(n) => r == Ok::<u64, ParseError>(n),
            None => r == Err::<u64, ParseError>(ParseError::InvalidId),
        },
{
    match parse_u64(url_or_id) {
        Some(n) => Ok(n),
        None => {
            proof {
                reveal_strlit("fiction");
            }
            let fiction = crate::text::ascii_bytes("fiction");
            let n = url_or_id.len();
            let mut i: usize = 0;
            loop
                invariant
                    0 <= i <= n,
                    n == url_or_id@.len(),
                    !parses_as_u64(url_or_id@),
                    fiction@ == sbytes("fiction"@),
                    scan_fiction_id(url_or_id@, 0) == scan_fiction_id(url_or_id@, i as int),
                decreases n + 1 - i,
            {
                let e = next_slash(url_or_id, i);
                let seg = subvec(url_or_id, i, e);
                if eq_bytes(&seg, &fiction) && e < n {
                    let e2 = next_slash(url_or_id, e + 1);
                    let num = subvec(url_or_id, e + 1, e2);
                    match parse_u64(&num) {
                        Some(id) => {
                            return Ok(id);
                        },
                        None => {},
                    }
                }
                if e >= n {
                    return Err(ParseError::InvalidId);
                }
                i = e + 1;
            }
        },
    }
}

} // verus!
