//! The external-service evaluator: builds a bounded-size scoring
//! request from the criteria, the novel and a capped selection of
//! reviews, and parses the service's structured response into a score.
//! It fails rather than degrade on an unparseable or incomplete
//! response; sending the request is the driver's job.

use vstd::prelude::*;
use crate::eval::filter::passes_hard_filters;
use crate::eval::{Evaluation, Evaluator};
use crate::json::{
    get_member, get_members, num_milli_at, obj_members, obj_value, read_milli_at, read_str_at,
    skip_ws, str_at, ws_end,
};
use crate::models::{status_label_spec, Criteria, EvalError, Novel, NovelScore, Review};
use crate::text::{ascii_bytes, copy_bytes, dec_spec, push_all, sbytes, subvec, u64_to_dec};

verus! {

/// `s` cut to at most `k` bytes.
pub open spec fn trunc(s: Seq<u8>, k: int) -> Seq<u8> {
    if s.len() <= k {
        s
    } else {
        s.take(k)
    }
}

/// Cut a byte string to at most `k` bytes.
fn trunc_bytes(v: &Vec<u8>, k: usize) -> (r: Vec<u8>)
    ensures
        r@ == trunc(v@, k as int),
{
    if v.len() <= k {
        copy_bytes(v)
    } else {
        let r = subvec(v, 0, k);
        proof {
            assert(r@ =~= v@.take(k as int));
        }
        r
    }
}

/// The bodies of the first `k` reviews, each cut to five hundred
/// bytes, one per line.
pub open spec fn reviews_excerpt(revs: Seq<Review>, k: nat) -> Seq<u8>
    decreases k,
{
    if k == 0 || revs.len() == 0 {
        Seq::empty()
    } else {
        trunc(revs[0].text@, 500) + sbytes("\n"@) + reviews_excerpt(
            revs.drop_first(),
            (k - 1) as nat,
        )
    }
}

/// The scoring request sent to the external service: the user's
/// request, the novel's metadata, its description cut to two thousand
/// bytes, and up to three review bodies.
pub open spec fn spec_llm_prompt(n: Novel, revs: Seq<Review>, c: Criteria) -> Seq<u8> {
    sbytes(
        "Score this novel against the request; respond with a JSON object holding overall_score, sub_scores and reasoning.\nrequest: "@,
    ) + (match c.prompt {
        Some(p) => trunc(p@, 500),
        None => Seq::empty(),
    }) + sbytes("\ntitle: "@) + trunc(n.title@, 200) + sbytes("\nrating: "@) + dec_spec(
        n.rating_milli as nat,
    ) + sbytes(" of 5000\npages: "@) + dec_spec(n.pages as nat) + sbytes("\nstatus: "@)
        + status_label_spec(n.status) + sbytes("\nchapters: "@) + dec_spec(n.chapter_count as nat)
        + sbytes("\ndescription: "@) + trunc(n.description@, 2000) + sbytes("\nreviews:\n"@)
        + reviews_excerpt(revs, 3)
}

/// Append the capped review excerpt to `out`.
fn push_reviews_excerpt(out: &mut Vec<u8>, revs: &Vec<Review>, k: usize)
    ensures
        final(out)@ == old(out)@ + reviews_excerpt(revs@, k as nat),
{
    proof {
        reveal_strlit("\n");
    }
    let nl = ascii_bytes("\n");
    let mut i: usize = 0;
    proof {
        assert(out@ + Seq::<u8>::empty() =~= out@);
        assert(revs@.skip(0) =~= revs@);
    }
    loop
        invariant
            0 <= i <= revs@.len(),
            i <= k,
            nl@ == sbytes("\n"@),
            old(out)@ + reviews_excerpt(revs@, k as nat) == out@ + reviews_excerpt(
                revs@.skip(i as int),
                (k - i) as nat,
            ),
        decreases revs@.len() - i,
    {
        if i >= revs.len() || i >= k {
            proof {
                assert(out@ + reviews_excerpt(revs@.skip(i as int), (k - i) as nat) =~= out@);
            }
            return ;
        }
        proof {
            assert(revs@.skip(i as int)[0] == revs@[i as int]);
            assert(revs@.skip(i as int).drop_first() =~= revs@.skip(i as int + 1));
        }
        let t = trunc_bytes(&revs[i].text, 500);
        proof {
            let piece = trunc(revs@[i as int].text@, 500) + sbytes("\n"@);
            assert(out@ + (piece + reviews_excerpt(revs@.skip(i as int + 1), (k - i - 1) as nat))
                =~= ((out@ + trunc(revs@[i as int].text@, 500)) + sbytes("\n"@))
                + reviews_excerpt(revs@.skip(i as int + 1), (k - i - 1) as nat));
        }
        push_all(out, &t);
        push_all(out, &nl);
        i += 1;
    }
}

/// The position of the response's top-level object.
pub open spec fn resp_obj(s: Seq<u8>) -> Option<int> {
    let a = ws_end(s, 0);
    if a < s.len() && s[a] == 123 {
        Some(a)
    } else {
        None
    }
}

/// The overall score carried by a service response, in thousandths.
pub open spec fn spec_resp_overall(s: Seq<u8>) -> Option<u64> {
    match resp_obj(s) {
        None => None,
        Some(a) => match obj_value(s, a, sbytes("overall_score"@)) {
            None => None,
            Some((v0, _)) => num_milli_at(s, v0),
        },
    }
}

/// The reasoning string carried by a service response.
pub open spec fn spec_resp_reasoning(s: Seq<u8>) -> Option<Seq<u8>> {
    match resp_obj(s) {
        None => None,
        Some(a) => match obj_value(s, a, sbytes("reasoning"@)) {
            None => None,
            Some((v0, _)) => str_at(s, v0),
        },
    }
}

/// The member list of the response's sub-score object.
pub open spec fn spec_resp_sub_members(s: Seq<u8>) -> Option<Seq<(Seq<u8>, (int, int))>> {
    match resp_obj(s) {
        None => None,
        Some(a) => match obj_value(s, a, sbytes("sub_scores"@)) {
            None => None,
            Some((v0, _)) => obj_members(s, v0),
        },
    }
}

/// The named sub-scores, in thousandths; nothing if any value is not a
/// number.
pub open spec fn subs_values(s: Seq<u8>, ms: Seq<(Seq<u8>, (int, int))>) -> Option<
    Seq<(Seq<u8>, u64)>,
>
    decreases ms.len(),
{
    if ms.len() == 0 {
        Some(Seq::empty())
    } else {
        match num_milli_at(s, ms[0].1.0) {
            None => None,
            Some(v) => match subs_values(s, ms.drop_first()) {
                None => None,
                Some(rest) => Some(seq![(ms[0].0, v)] + rest),
            },
        }
    }
}

/// Every sub-score stays in the unit interval.
pub open spec fn subs_in_range(vs: Seq<(Seq<u8>, u64)>) -> bool {
    forall|i: int| 0 <= i < vs.len() ==> (#[trigger] vs[i]).1 <= 1000
}

/// The error a response earns, if it earns one: malformed structure
/// before range problems, the overall score before the sub-scores.
pub open spec fn spec_resp_error(s: Seq<u8>) -> Option<EvalError> {
    if resp_obj(s) is None {
        Some(EvalError::MalformedResponse)
    } else if spec_resp_overall(s) is None {
        Some(EvalError::MissingScore)
    } else if spec_resp_overall(s)->Some_0 > 1000 {
        Some(EvalError::OutOfRange)
    } else if spec_resp_sub_members(s) is None {
        Some(EvalError::MalformedResponse)
    } else if subs_values(s, spec_resp_sub_members(s)->Some_0) is None {
        Some(EvalError::MalformedResponse)
    } else if !subs_in_range(subs_values(s, spec_resp_sub_members(s)->Some_0)->Some_0) {
        Some(EvalError::OutOfRange)
    } else if spec_resp_reasoning(s) is None {
        Some(EvalError::MalformedResponse)
    } else {
        None
    }
}

/// An evaluator that defers scoring to an external service.
pub struct LlmEvaluator {
    /// API key for the service, handed to the transport by the driver.
    pub api_key: Vec<u8>,
    /// Model identifier.
    pub model: Vec<u8>,
    /// Service endpoint URL.
    pub endpoint: Vec<u8>,
}

impl LlmEvaluator {
    /// Create a new external-service evaluator with the given API
    /// configuration.
    pub fn new(api_key: Vec<u8>, model: Vec<u8>, endpoint: Vec<u8>) -> (r: LlmEvaluator)
        ensures
            r.api_key@ == api_key@,
            r.model@ == model@,
            r.endpoint@ == endpoint@,
    {
        LlmEvaluator { api_key, model, endpoint }
    }
}

impl Evaluator for LlmEvaluator {
    fn pre_filter(&self, novel: &Novel, criteria: &Criteria) -> (r: bool) {
        passes_hard_filters(novel, criteria)
    }

    fn evaluate(&self, novel: Novel, reviews: &Vec<Review>, criteria: &Criteria) -> (r: Result<
        Evaluation,
        EvalError,
    >)
        ensures
            r matches Ok(Evaluation::NeedsService(n, req)) && n == novel && req@
                == spec_llm_prompt(novel, reviews@, *criteria),
    {
        proof {
            reveal_strlit(
                "Score this novel against the request; respond with a JSON object holding overall_score, sub_scores and reasoning.\nrequest: ",
            );
            reveal_strlit("\ntitle: ");
            reveal_strlit("\nrating: ");
            reveal_strlit(" of 5000\npages: ");
            reveal_strlit("\nstatus: ");
            reveal_strlit("\nchapters: ");
            reveal_strlit("\ndescription: ");
            reveal_strlit("\nreviews:\n");
        }
        let mut req = ascii_bytes(
            "Score this novel against the request; respond with a JSON object holding overall_score, sub_scores and reasoning.\nrequest: ",
        );
        match &criteria.prompt {
            Some(p) => {
                let t = trunc_bytes(p, 500);
                push_all(&mut req, &t);
            },
            None => {
                proof {
                    assert(req@ + Seq::<u8>::empty() =~= req@);
                }
            },
        }
        let s1 = ascii_bytes("\ntitle: ");
        push_all(&mut req, &s1);
        let t1 = trunc_bytes(&novel.title, 200);
        push_all(&mut req, &t1);
        let s2 = ascii_bytes("\nrating: ");
        push_all(&mut req, &s2);
        let d1 = u64_to_dec(novel.rating_milli);
        push_all(&mut req, &d1);
        let s3 = ascii_bytes(" of 5000\npages: ");
        push_all(&mut req, &s3);
        let d2 = u64_to_dec(novel.pages);
        push_all(&mut req, &d2);
        let s4 = ascii_bytes("\nstatus: ");
        push_all(&mut req, &s4);
        let lb = novel.status.label();
        push_all(&mut req, &lb);
        let s5 = ascii_bytes("\nchapters: ");
        push_all(&mut req, &s5);
        let d3 = u64_to_dec(novel.chapter_count);
        push_all(&mut req, &d3);
        let s6 = ascii_bytes("\ndescription: ");
        push_all(&mut req, &s6);
        let t2 = trunc_bytes(&novel.description, 2000);
        push_all(&mut req, &t2);
        let s7 = ascii_bytes("\nreviews:\n");
        push_all(&mut req, &s7);
        push_reviews_excerpt(&mut req, reviews, 3);
        proof {
            assert(req@ =~= spec_llm_prompt(novel, reviews@, *criteria));
        }
        Ok(Evaluation::NeedsService(novel, req))
    }

    fn interpret(&self, novel: Novel, response: &Vec<u8>) -> (r: Result<NovelScore, EvalError>)
        ensures
            match spec_resp_error(response@) {
                Some(e) => r == Err::<NovelScore, EvalError>(e),
                None => r matches Ok(sc) && sc.novel == novel && sc.overall_milli
                    == spec_resp_overall(response@)->Some_0 && crate::eval::local::subs_match(
                    sc.sub_scores@,
                    subs_values(response@, spec_resp_sub_members(response@)->Some_0)->Some_0,
                ) && sc.reasoning@ == spec_resp_reasoning(response@)->Some_0,
            },
    {
        proof {
            reveal_strlit("overall_score");
            reveal_strlit("sub_scores");
            reveal_strlit("reasoning");
        }
        let a = skip_ws(response, 0);
        if !(a < response.len() && response[a] == 123) {
            return Err(EvalError::MalformedResponse);
        }
        let overall = match get_member(response, a, &ascii_bytes("overall_score")) {
            None => {
                return Err(EvalError::MissingScore);
            },
            Some(span) => match read_milli_at(response, span.0) {
                None => {
                    return Err(EvalError::MissingScore);
                },
                Some(v) => v,
            },
        };
        if overall > 1000 {
            return Err(EvalError::OutOfRange);
        }
        let members = match get_member(response, a, &ascii_bytes("sub_scores")) {
            None => {
                return Err(EvalError::MalformedResponse);
            },
            Some(span) => match get_members(response, span.0) {
                None => {
                    return Err(EvalError::MalformedResponse);
                },
                Some(ms) => ms,
            },
        };
        let ghost mv = crate::json::members_view(members@);
        let mut subs: Vec<(Vec<u8>, u64)> = Vec::new();
        let mut k: usize = 0;
        let mut parse_ok: bool = true;
        proof {
            assert(mv.skip(0) =~= mv);
            assert(crate::eval::local::subs_seq_view(subs@)
                =~= Seq::<(Seq<u8>, u64)>::empty());
        }
        while k < members.len() && parse_ok
            invariant
                0 <= k <= members@.len(),
                mv == crate::json::members_view(members@),
                mv.len() == members@.len(),
                forall|j: int| 0 <= j < members@.len() ==> (#[trigger] members@[j]).1.0
                    < members@[j].1.1 <= response@.len(),
                subs_values(response@, mv) == (match subs_values(response@, mv.skip(k as int)) {
                    Some(rest) => Some(crate::eval::local::subs_seq_view(subs@) + rest),
                    None => None::<Seq<(Seq<u8>, u64)>>,
                }),
                !parse_ok ==> subs_values(response@, mv.skip(k as int)) is None,
            decreases members@.len() - k + (if parse_ok {
                1int
            } else {
                0int
            }),
        {
            proof {
                assert(mv.skip(k as int)[0] == (members@[k as int].0@, (
                    members@[k as int].1.0 as int,
                    members@[k as int].1.1 as int,
                )));
                assert(mv.skip(k as int).drop_first() =~= mv.skip(k as int + 1));
            }
            let m = &members[k];
            match read_milli_at(response, m.1.0) {
                None => {
                    parse_ok = false;
                },
                Some(v) => {
                    let key = copy_bytes(&m.0);
                    proof {
                        let entry = (members@[k as int].0@, v);
                        if subs_values(response@, mv.skip(k as int + 1)) is Some {
                            let rest = subs_values(response@, mv.skip(k as int + 1))->Some_0;
                            assert(crate::eval::local::subs_seq_view(subs@.push((key, v)))
                                =~= crate::eval::local::subs_seq_view(subs@) + seq![entry]);
                            assert(crate::eval::local::subs_seq_view(subs@) + (seq![entry] + rest)
                                =~= (crate::eval::local::subs_seq_view(subs@) + seq![entry])
                                + rest);
                        }
                    }
                    subs.push((key, v));
                    k += 1;
                },
            }
        }
        if !parse_ok {
            return Err(EvalError::MalformedResponse);
        }
        proof {
            assert(mv.skip(k as int) =~= Seq::<(Seq<u8>, (int, int))>::empty());
            assert(subs_values(response@, mv) == Some(crate::eval::local::subs_seq_view(subs@)));
        }
        let mut j: usize = 0;
        let mut bad: bool = false;
        while j < subs.len()
            invariant
                0 <= j <= subs@.len(),
                bad == !(forall|t: int| 0 <= t < j ==> (#[trigger] subs@[t]).1 <= 1000),
            decreases subs@.len() - j,
        {
            if subs[j].1 > 1000 {
                bad = true;
            }
            j += 1;
        }
        if bad {
            proof {
                let vs = subs_values(response@, mv)->Some_0;
                let t = choose|t: int| !(0 <= t < subs@.len() ==> subs@[t].1 <= 1000);
                assert(vs[t].1 > 1000);
                assert(!subs_in_range(vs));
            }
            return Err(EvalError::OutOfRange);
        }
        let reasoning = match get_member(response, a, &ascii_bytes("reasoning")) {
            None => {
                return Err(EvalError::MalformedResponse);
            },
            Some(span) => match read_str_at(response, span.0) {
                None => {
                    return Err(EvalError::MalformedResponse);
                },
                Some(t) => t,
            },
        };
        let sc = NovelScore { novel, overall_milli: overall, sub_scores: subs, reasoning };
        proof {
            let vs = subs_values(response@, mv)->Some_0;
            assert forall|t: int| 0 <= t < vs.len() implies (#[trigger] vs[t]).1 <= 1000 by {
                assert(vs[t].1 == sc.sub_scores@[t].1);
            }
            assert(subs_in_range(vs));
            assert(crate::eval::local::subs_match(sc.sub_scores@, vs));
            assert(sc.wf());
        }
        Ok(sc)
    }
}

} // verus!
