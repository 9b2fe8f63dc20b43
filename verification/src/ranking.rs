//! Ordering of the final results: a stable sort by overall score,
//! highest first, with ties kept in original evaluation order.

use vstd::prelude::*;
use vstd::seq_lib::lemma_multiset_commutative;
use crate::models::NovelScore;

verus! {

/// Insert `x` into `s` directly after every element whose score is at
/// least `x`'s: the stable insertion position for a descending order.
pub open spec fn insert_desc(s: Seq<NovelScore>, x: NovelScore) -> Seq<NovelScore>
    decreases s.len(),
{
    if s.len() == 0 {
        seq![x]
    } else if s[0].overall_milli >= x.overall_milli {
        seq![s[0]] + insert_desc(s.drop_first(), x)
    } else {
        seq![x] + s
    }
}

/// Stable insertion sort by overall score, highest first.
pub open spec fn sort_desc(s: Seq<NovelScore>) -> Seq<NovelScore>
    decreases s.len(),
{
    if s.len() == 0 {
        Seq::empty()
    } else {
        insert_desc(sort_desc(s.drop_last()), s.last())
    }
}

/// Scores never increase along the sequence.
pub open spec fn sorted_desc(s: Seq<NovelScore>) -> bool {
    forall|i: int, j: int|
        0 <= i < j < s.len() ==> s[i].overall_milli >= s[j].overall_milli
}

/// The elements with one given overall score.
pub open spec fn with_score(v: u64) -> spec_fn(NovelScore) -> bool {
    |sc: NovelScore| sc.overall_milli == v
}

proof fn lemma_insert_desc_props(s: Seq<NovelScore>, x: NovelScore)
    requires
        sorted_desc(s),
    ensures
        insert_desc(s, x).len() == s.len() + 1,
        sorted_desc(insert_desc(s, x)),
        insert_desc(s, x).to_multiset() == s.to_multiset().insert(x),
        forall|k: int|
            0 <= k < insert_desc(s, x).len() ==> (#[trigger] insert_desc(s, x)[k] == x
                || s.contains(insert_desc(s, x)[k])),
    decreases s.len(),
{
    if s.len() == 0 {
        assert(s =~= Seq::<NovelScore>::empty());
        assert(seq![x] =~= s.push(x));
        s.to_multiset_ensures();
        assert((s.push(x)).to_multiset() =~= s.to_multiset().insert(x));
        assert(insert_desc(s, x).to_multiset() =~= s.to_multiset().insert(x));
    } else if s[0].overall_milli >= x.overall_milli {
        let rest = s.drop_first();
        assert(sorted_desc(rest));
        lemma_insert_desc_props(rest, x);
        let ins = insert_desc(rest, x);
        let r = seq![s[0]] + ins;
        assert(insert_desc(s, x) == r);
        // every element of the result is x or an element of s
        assert forall|k: int| 0 <= k < r.len() implies (#[trigger] r[k] == x || s.contains(
            r[k],
        )) by {
            if k == 0 {
                assert(s[0] == r[0]);
            } else {
                assert(r[k] == ins[k - 1]);
                if ins[k - 1] == x {
                } else {
                    assert(rest.contains(ins[k - 1]));
                    let w = choose|w: int| 0 <= w < rest.len() && rest[w] == ins[k - 1];
                    assert(s[w + 1] == ins[k - 1]);
                }
            }
        }
        // sortedness
        assert forall|i: int, j: int| 0 <= i < j < r.len() implies r[i].overall_milli
            >= r[j].overall_milli by {
            if i == 0 {
                if r[j] == x {
                } else {
                    assert(ins[j - 1] == r[j]);
                    assert(rest.contains(r[j]) || r[j] == x);
                    if rest.contains(r[j]) {
                        let w = choose|w: int| 0 <= w < rest.len() && rest[w] == r[j];
                        assert(s[w + 1] == r[j]);
                    }
                }
            } else {
                assert(r[i] == ins[i - 1] && r[j] == ins[j - 1]);
            }
        }
        // multiset
        lemma_multiset_commutative(seq![s[0]], ins);
        lemma_multiset_commutative(seq![s[0]], rest);
        assert(s =~= seq![s[0]] + rest);
        assert(r.to_multiset() =~= s.to_multiset().insert(x));
    } else {
        let r = seq![x] + s;
        assert forall|i: int, j: int| 0 <= i < j < r.len() implies r[i].overall_milli
            >= r[j].overall_milli by {
            if i == 0 {
                assert(r[j] == s[j - 1]);
                if j >= 2 {
                    assert(s[0].overall_milli >= s[j - 1].overall_milli);
                }
            } else {
                assert(r[i] == s[i - 1] && r[j] == s[j - 1]);
            }
        }
        lemma_multiset_commutative(seq![x], s);
        let e = Seq::<NovelScore>::empty();
        assert(seq![x] =~= e.push(x));
        e.to_multiset_ensures();
        assert((e.push(x)).to_multiset() =~= e.to_multiset().insert(x));
        assert(r.to_multiset() =~= s.to_multiset().insert(x));
        assert forall|k: int| 0 <= k < r.len() implies (#[trigger] r[k] == x || s.contains(
            r[k],
        )) by {
            if k >= 1 {
                assert(r[k] == s[k - 1]);
            }
        }
    }
}

/// The sorted output is a permutation of the input, with scores in
/// descending order.
pub proof fn lemma_sort_desc_props(s: Seq<NovelScore>)
    ensures
        sort_desc(s).len() == s.len(),
        sorted_desc(sort_desc(s)),
        sort_desc(s).to_multiset() == s.to_multiset(),
    decreases s.len(),
{
    if s.len() > 0 {
        let dl = s.drop_last();
        lemma_sort_desc_props(dl);
        lemma_insert_desc_props(sort_desc(dl), s.last());
        dl.to_multiset_ensures();
        assert(dl.push(s.last()) =~= s);
        assert((dl.push(s.last())).to_multiset() =~= dl.to_multiset().insert(s.last()));
        assert(sort_desc(s).to_multiset() =~= s.to_multiset());
    } else {
        assert(s =~= Seq::<NovelScore>::empty());
        assert(sort_desc(s).to_multiset() =~= s.to_multiset());
    }
}

proof fn lemma_insert_desc_filter(s: Seq<NovelScore>, x: NovelScore, v: u64)
    requires
        sorted_desc(s),
    ensures
        insert_desc(s, x).filter(with_score(v)) == (if x.overall_milli == v {
            s.filter(with_score(v)).push(x)
        } else {
            s.filter(with_score(v))
        }),
    decreases s.len(),
{
    let p = with_score(v);
    reveal(Seq::filter);
    if s.len() == 0 {
        assert(s =~= Seq::<NovelScore>::empty());
        assert(seq![x] =~= s.push(x));
        s.lemma_filter_push(x, p);
        assert(s.filter(p) =~= s);
        if x.overall_milli == v {
            assert(insert_desc(s, x).filter(p) =~= s.filter(p).push(x));
        } else {
            assert(insert_desc(s, x).filter(p) =~= s.filter(p));
        }
    } else if s[0].overall_milli >= x.overall_milli {
        let rest = s.drop_first();
        assert(sorted_desc(rest));
        lemma_insert_desc_filter(rest, x, v);
        let ins = insert_desc(rest, x);
        Seq::lemma_filter_prepend(ins, s[0], p);
        Seq::lemma_filter_prepend(rest, s[0], p);
        assert(s =~= seq![s[0]] + rest);
        let head = if p(s[0]) {
            seq![s[0]]
        } else {
            Seq::<NovelScore>::empty()
        };
        assert(insert_desc(s, x).filter(p) == head + ins.filter(p));
        assert(s.filter(p) == head + rest.filter(p));
        if x.overall_milli == v {
            assert(head + rest.filter(p).push(x) =~= (head + rest.filter(p)).push(x));
        }
    } else {
        // every element of s scores strictly below x, so when x has the
        // score in question nothing in s does
        Seq::lemma_filter_prepend(s, x, p);
        if x.overall_milli == v {
            assert forall|i: int| 0 <= i < s.len() implies !p(#[trigger] s[i]) by {
                if i > 0 {
                    assert(s[0].overall_milli >= s[i].overall_milli);
                }
            }
            s.lemma_all_neg_filter_empty(p);
            assert(seq![x] + s.filter(p) =~= s.filter(p).push(x));
        } else {
            assert((Seq::<NovelScore>::empty() + s.filter(p)) =~= s.filter(p));
        }
    }
}

/// Stability: for every score value, the elements carrying that value
/// appear in the sorted output in exactly the order they appear in the
/// input. Together with `lemma_sort_desc_props` this says the sort is a
/// stable descending sort: ties keep their original evaluation order.
pub proof fn lemma_sort_desc_stable(s: Seq<NovelScore>, v: u64)
    ensures
        sort_desc(s).filter(with_score(v)) == s.filter(with_score(v)),
    decreases s.len(),
{
    let p = with_score(v);
    reveal(Seq::filter);
    if s.len() > 0 {
        let dl = s.drop_last();
        lemma_sort_desc_stable(dl, v);
        lemma_sort_desc_props(dl);
        lemma_insert_desc_filter(sort_desc(dl), s.last(), v);
    }
}

/// The stable insertion position for `x`: directly after every element
/// scoring at least `x`.
proof fn lemma_insert_desc_at(t: Seq<NovelScore>, x: NovelScore, pos: int)
    requires
        0 <= pos <= t.len(),
        forall|k: int| 0 <= k < pos ==> (#[trigger] t[k]).overall_milli >= x.overall_milli,
        pos == t.len() || t[pos].overall_milli < x.overall_milli,
    ensures
        insert_desc(t, x) == t.take(pos) + seq![x] + t.skip(pos),
    decreases t.len(),
{
    if pos == 0 {
        if t.len() == 0 {
            assert(insert_desc(t, x) =~= t.take(0) + seq![x] + t.skip(0));
        } else {
            assert(t[0].overall_milli < x.overall_milli);
            assert(insert_desc(t, x) =~= t.take(0) + seq![x] + t.skip(0));
        }
    } else {
        assert(t[0].overall_milli >= x.overall_milli);
        let rest = t.drop_first();
        assert forall|k: int| 0 <= k < pos - 1 implies (#[trigger] rest[k]).overall_milli
            >= x.overall_milli by {
            assert(rest[k] == t[k + 1]);
        }
        if pos - 1 < rest.len() {
            assert(rest[pos - 1] == t[pos]);
        }
        lemma_insert_desc_at(rest, x, pos - 1);
        assert(insert_desc(t, x) == seq![t[0]] + (rest.take(pos - 1) + seq![x] + rest.skip(pos
            - 1)));
        assert(seq![t[0]] + (rest.take(pos - 1) + seq![x] + rest.skip(pos - 1)) =~= t.take(pos)
            + seq![x] + t.skip(pos));
    }
}

/// Sort scored results by overall score, highest first; results with
/// equal scores keep their original order.
pub fn sort_by_score_desc(scores: Vec<NovelScore>) -> (r: Vec<NovelScore>)
    ensures
        r@ == sort_desc(scores@),
{
    let ghost orig: Seq<NovelScore> = scores@;
    let mut rem = scores;
    let mut out: Vec<NovelScore> = Vec::new();
    proof {
        assert(rem@ =~= orig.skip(0));
        assert(out@ =~= sort_desc(orig.take(0)));
    }
    while rem.len() > 0
        invariant
            rem@.len() <= orig.len(),
            rem@ == orig.skip(orig.len() - rem@.len()),
            out@ == sort_desc(orig.take(orig.len() - rem@.len())),
        decreases rem@.len(),
    {
        let ghost k: int = orig.len() - rem@.len();
        let x = rem.remove(0);
        proof {
            assert(x == orig.skip(k)[0]);
            assert(x == orig[k]);
            assert(rem@ =~= orig.skip(k).drop_first());
            assert(rem@ =~= orig.skip(k + 1));
        }
        let mut pos: usize = 0;
        while pos < out.len() && out[pos].overall_milli >= x.overall_milli
            invariant
                0 <= pos <= out@.len(),
                forall|j: int|
                    0 <= j < pos ==> (#[trigger] out@[j]).overall_milli >= x.overall_milli,
            decreases out@.len() - pos,
        {
            pos += 1;
        }
        proof {
            lemma_insert_desc_at(out@, x, pos as int);
            assert(out@.insert(pos as int, x) =~= out@.take(pos as int) + seq![x] + out@.skip(
                pos as int,
            ));
            assert(orig.take(k + 1).drop_last() =~= orig.take(k));
            assert(orig.take(k + 1).last() == orig[k]);
            assert(sort_desc(orig.take(k + 1)) == insert_desc(sort_desc(orig.take(k)), orig[k]));
        }
        out.insert(pos, x);
    }
    proof {
        assert(orig.take(orig.len() - rem@.len()) =~= orig);
        assert(orig =~= scores@);
    }
    out
}

} // verus!
