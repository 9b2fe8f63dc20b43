//! The local heuristic evaluator: keyword signals from the criteria
//! prompt against the description and review bodies, blended with
//! metadata-alignment sub-scores under fixed weights. Works entirely
//! offline and always succeeds on well-formed inputs.

use vstd::prelude::*;
use vstd::arithmetic::div_mod::{lemma_div_by_multiple, lemma_div_is_ordered};
use crate::eval::filter::passes_hard_filters;
use crate::eval::{Evaluation, Evaluator};
use crate::json::{lemma_ws_end_bounds, skip_ws, ws_end};
use crate::models::{Criteria, EvalError, Novel, NovelScore, Review};
use crate::text::{
    ascii_bytes, dec_spec, find_at, find_from, is_ws, lower_seq, push_all, sbytes, subvec,
    to_lower, u64_to_dec,
};

verus! {

/// The first whitespace byte at or after `i`, or the end.
pub open spec fn word_end(s: Seq<u8>, i: int) -> int
    decreases s.len() - i,
{
    if i < 0 || i >= s.len() {
        s.len() as int
    } else if is_ws(s[i]) {
        i
    } else {
        word_end(s, i + 1)
    }
}

proof fn lemma_word_end_bounds(s: Seq<u8>, i: int)
    requires
        0 <= i <= s.len(),
    ensures
        i <= word_end(s, i) <= s.len(),
        (i < s.len() && !is_ws(s[i])) ==> word_end(s, i) > i,
    decreases s.len() - i,
{
    if i < s.len() && !is_ws(s[i]) {
        lemma_word_end_bounds(s, i + 1);
    }
}

/// Advance to the next whitespace byte.
fn skip_word(s: &Vec<u8>, i: usize) -> (r: usize)
    requires
        i <= s@.len(),
    ensures
        r == word_end(s@, i as int),
        i <= r <= s@.len(),
{
    let mut j: usize = i;
    while j < s.len()
        invariant
            i <= j <= s@.len(),
            word_end(s@, i as int) == word_end(s@, j as int),
        decreases s@.len() - j,
    {
        let b = s[j];
        if b == 32 || b == 9 || b == 10 || b == 13 {
            return j;
        }
        j += 1;
    }
    j
}

/// The whitespace-separated words of `s` from position `i` on.
pub open spec fn words_from(s: Seq<u8>, i: int) -> Seq<Seq<u8>>
    decreases s.len() + 1 - i,
    via words_from_decreases
{
    if i < 0 || i > s.len() {
        Seq::empty()
    } else {
        let j = ws_end(s, i);
        if j >= s.len() {
            Seq::empty()
        } else {
            let e = word_end(s, j);
            seq![s.subrange(j, e)] + words_from(s, e)
        }
    }
}

#[via_fn]
proof fn words_from_decreases(s: Seq<u8>, i: int) {
    if 0 <= i <= s.len() {
        lemma_ws_end_bounds(s, i);
        let j = ws_end(s, i);
        if j < s.len() {
            assert(!is_ws(s[j]));
            lemma_word_end_bounds(s, j);
        }
    }
}

/// Sequence view of a word list.
pub open spec fn words_view(v: Seq<Vec<u8>>) -> Seq<Seq<u8>> {
    Seq::new(v.len(), |k: int| v[k]@)
}

/// Split a byte string into its whitespace-separated words.
fn split_words(v: &Vec<u8>) -> (r: Vec<Vec<u8>>)
    ensures
        words_view(r@) == words_from(v@, 0),
        forall|k: int| 0 <= k < r@.len() ==> (#[trigger] r@[k])@.len() >= 1,
{
    let n = v.len();
    let mut out: Vec<Vec<u8>> = Vec::new();
    let mut i: usize = 0;
    proof {
        assert(words_view(out@) =~= Seq::<Seq<u8>>::empty());
    }
    loop
        invariant
            0 <= i <= n,
            n == v@.len(),
            words_from(v@, 0) == words_view(out@) + words_from(v@, i as int),
            forall|k: int| 0 <= k < out@.len() ==> (#[trigger] out@[k])@.len() >= 1,
        decreases n + 1 - i,
    {
        let j = skip_ws(v, i);
        if j >= n {
            proof {
                assert(words_view(out@) + words_from(v@, i as int) =~= words_view(out@));
            }
            return out;
        }
        let e = skip_word(v, j);
        proof {
            lemma_ws_end_bounds(v@, i as int);
            assert(!is_ws(v@[j as int]));
            lemma_word_end_bounds(v@, j as int);
            assert(e > j);
        }
        let w = subvec(v, j, e);
        proof {
            let t = v@.subrange(j as int, e as int);
            assert(words_view(out@.push(w)) =~= words_view(out@) + seq![t]);
            assert(words_view(out@) + (seq![t] + words_from(v@, e as int)) =~= (words_view(out@)
                + seq![t]) + words_from(v@, e as int));
        }
        out.push(w);
        i = e;
    }
}

/// `n` occurs somewhere in `h`.
pub open spec fn contains_sub(h: Seq<u8>, n: Seq<u8>) -> bool {
    find_at(h, n, 0) is Some
}

/// Check whether `n` occurs in `h`.
fn contains_bytes(h: &Vec<u8>, n: &Vec<u8>) -> (r: bool)
    requires
        n@.len() >= 1,
    ensures
        r == contains_sub(h@, n@),
{
    match find_from(h, n, 0) {
        Some(_) => true,
        None => false,
    }
}

/// The word occurs, lower-cased, in some review body.
pub open spec fn review_hit(revs: Seq<Review>, lw: Seq<u8>) -> bool {
    exists|i: int|
        0 <= i < revs.len() && contains_sub(lower_seq((#[trigger] revs[i]).text@), lw)
}

/// Check whether the lower-cased word occurs in any review body.
fn hit_in_reviews(revs: &Vec<Review>, lw: &Vec<u8>) -> (r: bool)
    requires
        lw@.len() >= 1,
    ensures
        r == review_hit(revs@, lw@),
{
    let mut i: usize = 0;
    while i < revs.len()
        invariant
            0 <= i <= revs@.len(),
            forall|k: int|
                0 <= k < i ==> !contains_sub(lower_seq((#[trigger] revs@[k]).text@), lw@),
            lw@.len() >= 1,
        decreases revs@.len() - i,
    {
        let low = to_lower(&revs[i].text);
        if contains_bytes(&low, lw) {
            return true;
        }
        i += 1;
    }
    false
}

/// How many of the words occur, lower-cased, in the lower-cased
/// description or in some review body.
pub open spec fn count_hits(words: Seq<Seq<u8>>, desc_l: Seq<u8>, revs: Seq<Review>) -> nat
    decreases words.len(),
{
    if words.len() == 0 {
        0
    } else {
        (if contains_sub(desc_l, lower_seq(words[0])) || review_hit(revs, lower_seq(words[0])) {
            1nat
        } else {
            0nat
        }) + count_hits(words.drop_first(), desc_l, revs)
    }
}

/// The matched and total keyword counts, when the criteria carry a
/// prompt with at least one word.
pub open spec fn spec_kw_stats(c: Criteria, n: Novel, revs: Seq<Review>) -> Option<(nat, nat)> {
    match c.prompt {
        Some(p) => {
            let ws = words_from(p@, 0);
            if ws.len() == 0 {
                None
            } else {
                Some((count_hits(ws, lower_seq(n.description@), revs), ws.len()))
            }
        },
        None => None,
    }
}

/// The keyword sub-score: the matched share of the prompt words.
pub open spec fn kw_milli(matched: nat, total: nat) -> u64
    recommends
        1 <= total,
        matched <= total,
{
    (1000 * matched / total) as u64
}

/// The rating sub-score: proximity of the rating to the maximum.
pub open spec fn rating_score(rm: u64) -> u64 {
    if rm >= 5000 {
        1000
    } else {
        (rm / 5) as u64
    }
}

/// The popularity sub-score, saturating at ten thousand followers.
pub open spec fn popularity_score(f: u64) -> u64 {
    if f >= 10000 {
        1000
    } else {
        (f / 10) as u64
    }
}

/// The structural sub-score, saturating at one hundred chapters.
pub open spec fn structure_score(c: u64) -> u64 {
    if c >= 100 {
        1000
    } else {
        (c * 10) as u64
    }
}

/// The blended overall score, under fixed weights; the keyword signal
/// carries the largest weight when a prompt is present.
pub open spec fn spec_local_overall(n: Novel, revs: Seq<Review>, c: Criteria) -> u64 {
    let rs = rating_score(n.rating_milli);
    let ps = popularity_score(n.followers);
    let ss = structure_score(n.chapter_count);
    match spec_kw_stats(c, n, revs) {
        Some((m, t)) => ((4 * kw_milli(m, t) + 3 * rs + 2 * ps + ss) / 10) as u64,
        None => ((5 * rs + 3 * ps + 2 * ss) / 10) as u64,
    }
}

/// The sub-score breakdown that accompanies the overall score.
pub open spec fn spec_local_subs(n: Novel, revs: Seq<Review>, c: Criteria) -> Seq<(Seq<u8>, u64)> {
    let base = seq![
        (sbytes("rating"@), rating_score(n.rating_milli)),
        (sbytes("popularity"@), popularity_score(n.followers)),
        (sbytes("structure"@), structure_score(n.chapter_count)),
    ];
    match spec_kw_stats(c, n, revs) {
        Some((m, t)) => seq![(sbytes("keywords"@), kw_milli(m, t))] + base,
        None => base,
    }
}

/// The reasoning string that accompanies the score.
pub open spec fn spec_local_reasoning(n: Novel, revs: Seq<Review>, c: Criteria) -> Seq<u8> {
    sbytes("rating "@) + dec_spec(n.rating_milli as nat) + sbytes(" of 5000; followers "@)
        + dec_spec(n.followers as nat) + sbytes("; chapters "@) + dec_spec(
        n.chapter_count as nat,
    ) + (match spec_kw_stats(c, n, revs) {
        Some((m, t)) => sbytes("; keywords "@) + dec_spec(m) + sbytes(" of "@) + dec_spec(t),
        None => Seq::empty(),
    })
}

/// Sequence view of a sub-score list.
pub open spec fn subs_seq_view(v: Seq<(Vec<u8>, u64)>) -> Seq<(Seq<u8>, u64)> {
    Seq::new(v.len(), |k: int| (v[k].0@, v[k].1))
}

/// A sub-score list matches its expected breakdown.
pub open spec fn subs_match(v: Seq<(Vec<u8>, u64)>, t: Seq<(Seq<u8>, u64)>) -> bool {
    v.len() == t.len() && forall|i: int|
        0 <= i < v.len() ==> (#[trigger] v[i]).0@ == t[i].0 && v[i].1 == t[i].1
}

/// An evaluator that uses local heuristics and keyword matching.
pub struct LocalEvaluator;

impl LocalEvaluator {
    /// Create a new local evaluator.
    pub fn new() -> (r: LocalEvaluator) {
        LocalEvaluator
    }
}

/// Count the prompt words matched by the description or the reviews.
fn count_matches(words: &Vec<Vec<u8>>, desc: &Vec<u8>, reviews: &Vec<Review>) -> (r: usize)
    requires
        forall|k: int| 0 <= k < words@.len() ==> (#[trigger] words@[k])@.len() >= 1,
    ensures
        r == count_hits(words_view(words@), lower_seq(desc@), reviews@),
        r <= words@.len(),
{
    let desc_l = to_lower(desc);
    let n = words.len();
    let mut k: usize = 0;
    let mut acc: usize = 0;
    let ghost wv = words_view(words@);
    proof {
        assert(wv.skip(0) =~= wv);
    }
    loop
        invariant
            0 <= k <= n,
            acc <= k,
            n == words@.len(),
            wv == words_view(words@),
            desc_l@ == lower_seq(desc@),
            forall|j: int| 0 <= j < words@.len() ==> (#[trigger] words@[j])@.len() >= 1,
            count_hits(wv, lower_seq(desc@), reviews@) == acc + count_hits(
                wv.skip(k as int),
                lower_seq(desc@),
                reviews@,
            ),
        decreases n - k,
    {
        if k >= n {
            proof {
                assert(wv.skip(k as int) =~= Seq::<Seq<u8>>::empty());
            }
            return acc;
        }
        proof {
            assert(wv.skip(k as int)[0] == words@[k as int]@);
            assert(wv.skip(k as int).drop_first() =~= wv.skip(k as int + 1));
        }
        let lw = to_lower(&words[k]);
        let hit = if contains_bytes(&desc_l, &lw) {
            true
        } else {
            hit_in_reviews(reviews, &lw)
        };
        if hit {
            acc += 1;
        }
        k += 1;
    }
}

impl Evaluator for LocalEvaluator {
    fn pre_filter(&self, novel: &Novel, criteria: &Criteria) -> (r: bool) {
        passes_hard_filters(novel, criteria)
    }

    fn evaluate(&self, novel: Novel, reviews: &Vec<Review>, criteria: &Criteria) -> (r: Result<
        Evaluation,
        EvalError,
    >)
        ensures
            r matches Ok(Evaluation::Ready(sc)) && sc.novel == novel && sc.wf()
                && sc.overall_milli == spec_local_overall(novel, reviews@, *criteria)
                && subs_match(sc.sub_scores@, spec_local_subs(novel, reviews@, *criteria))
                && sc.reasoning@ == spec_local_reasoning(novel, reviews@, *criteria),
    {
        proof {
            reveal_strlit("keywords");
            reveal_strlit("rating");
            reveal_strlit("popularity");
            reveal_strlit("structure");
            reveal_strlit("rating ");
            reveal_strlit(" of 5000; followers ");
            reveal_strlit("; chapters ");
            reveal_strlit("; keywords ");
            reveal_strlit(" of ");
        }
        let rs: u64 = if novel.rating_milli >= 5000 {
            1000
        } else {
            novel.rating_milli / 5
        };
        let ps: u64 = if novel.followers >= 10000 {
            1000
        } else {
            novel.followers / 10
        };
        let ss: u64 = if novel.chapter_count >= 100 {
            1000
        } else {
            novel.chapter_count * 10
        };
        let kw_stats: Option<(u64, u64)> = match &criteria.prompt {
            Some(p) => {
                let words = split_words(p);
                if words.len() == 0 {
                    None
                } else {
                    let m = count_matches(&words, &novel.description, reviews);
                    let t = words.len();
                    proof {
                        assert(spec_kw_stats(*criteria, novel, reviews@) == Some(
                            (m as nat, t as nat),
                        ));
                    }
                    Some((m as u64, t as u64))
                }
            },
            None => None,
        };
        let mut sub_scores: Vec<(Vec<u8>, u64)> = Vec::new();
        let mut overall: u64 = 0;
        match kw_stats {
            Some(mt) => {
                let m = mt.0;
                let t = mt.1;
                proof {
                    assert(1000 * m <= 1000 * t) by (nonlinear_arith)
                        requires
                            m <= t,
                    {}
                    lemma_div_is_ordered(1000 * m as int, 1000 * t as int, t as int);
                    lemma_div_by_multiple(1000, t as int);
                    assert(1000 * (t as int) == (t as int) * 1000) by (nonlinear_arith);
                    assert(1000 * (m as int) / (t as int) <= 1000);
                }
                let kw: u64 = ((1000u128 * (m as u128)) / (t as u128)) as u64;
                proof {
                    assert(kw == kw_milli(m as nat, t as nat));
                    assert(kw <= 1000);
                }
                sub_scores.push((ascii_bytes("keywords"), kw));
                sub_scores.push((ascii_bytes("rating"), rs));
                sub_scores.push((ascii_bytes("popularity"), ps));
                sub_scores.push((ascii_bytes("structure"), ss));
                overall = (4 * kw + 3 * rs + 2 * ps + ss) / 10;
            },
            None => {
                sub_scores.push((ascii_bytes("rating"), rs));
                sub_scores.push((ascii_bytes("popularity"), ps));
                sub_scores.push((ascii_bytes("structure"), ss));
                overall = (5 * rs + 3 * ps + 2 * ss) / 10;
            },
        }
        let mut reasoning: Vec<u8> = ascii_bytes("rating ");
        let d1 = u64_to_dec(novel.rating_milli);
        push_all(&mut reasoning, &d1);
        let s2 = ascii_bytes(" of 5000; followers ");
        push_all(&mut reasoning, &s2);
        let d2 = u64_to_dec(novel.followers);
        push_all(&mut reasoning, &d2);
        let s3 = ascii_bytes("; chapters ");
        push_all(&mut reasoning, &s3);
        let d3 = u64_to_dec(novel.chapter_count);
        push_all(&mut reasoning, &d3);
        match kw_stats {
            Some(mt) => {
                let s4 = ascii_bytes("; keywords ");
                push_all(&mut reasoning, &s4);
                let d4 = u64_to_dec(mt.0);
                push_all(&mut reasoning, &d4);
                let s5 = ascii_bytes(" of ");
                push_all(&mut reasoning, &s5);
                let d5 = u64_to_dec(mt.1);
                push_all(&mut reasoning, &d5);
            },
            None => {
                proof {
                    assert(reasoning@ + Seq::<u8>::empty() =~= reasoning@);
                }
            },
        }
        let score = NovelScore { novel, overall_milli: overall, sub_scores, reasoning };
        proof {
            assert(score.reasoning@ =~= spec_local_reasoning(score.novel, reviews@, *criteria));
            assert(subs_match(
                score.sub_scores@,
                spec_local_subs(score.novel, reviews@, *criteria),
            ));
        }
        Ok(Evaluation::Ready(score))
    }

    fn interpret(&self, novel: Novel, response: &Vec<u8>) -> (r: Result<NovelScore, EvalError>) {
        Err(EvalError::MalformedResponse)
    }
}

} // verus!
