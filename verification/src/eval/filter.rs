//! The hard filter: strict pass/fail checks of a novel against the
//! numeric and categorical thresholds of the criteria.
//!
//! Every criterion left unset is vacuously satisfied; every comparison
//! is inclusive at the boundary; tag comparisons are ASCII
//! case-insensitive exact matches.

use vstd::prelude::*;
use crate::models::{Criteria, Novel, NovelStatus};
use crate::text::{eq_bytes, lower_seq, to_lower};

verus! {

/// A tag equal (ASCII case-insensitively) to `t` is among `tags`.
pub open spec fn has_tag_ci(tags: Seq<Vec<u8>>, t: Seq<u8>) -> bool {
    exists|j: int| 0 <= j < tags.len() && lower_seq((#[trigger] tags[j])@) == lower_seq(t)
}

/// The status allow-list accepts `st`: no list, an empty list, or a
/// list that contains `st`.
pub open spec fn status_allowed(opt: Option<Vec<NovelStatus>>, st: NovelStatus) -> bool {
    match opt {
        Some(a) => a@.len() == 0 || a@.contains(st),
        None => true,
    }
}

/// Every tag of the optional requirement list is present among `tags`.
pub open spec fn tags_all_present(tags: Seq<Vec<u8>>, opt: Option<Vec<Vec<u8>>>) -> bool {
    match opt {
        Some(req) => forall|i: int|
            0 <= i < req@.len() ==> has_tag_ci(tags, (#[trigger] req@[i])@),
        None => true,
    }
}

/// No tag of the optional exclusion list is present among `tags`.
pub open spec fn tags_none_present(tags: Seq<Vec<u8>>, opt: Option<Vec<Vec<u8>>>) -> bool {
    match opt {
        Some(exc) => forall|i: int|
            0 <= i < exc@.len() ==> !has_tag_ci(tags, (#[trigger] exc@[i])@),
        None => true,
    }
}

/// The hard filter as a predicate: pages within bounds, rating at least
/// the minimum, status in the allow-list when one is given and
/// non-empty, all required tags present, no excluded tag present.
pub open spec fn spec_passes_hard_filters(n: Novel, c: Criteria) -> bool {
    &&& match c.min_pages {
        Some(m) => n.pages >= m,
        None => true,
    }
    &&& match c.max_pages {
        Some(m) => n.pages <= m,
        None => true,
    }
    &&& match c.min_rating_milli {
        Some(m) => n.rating_milli >= m,
        None => true,
    }
    &&& status_allowed(c.allowed_statuses, n.status)
    &&& tags_all_present(n.tags@, c.required_tags)
    &&& tags_none_present(n.tags@, c.excluded_tags)
}

/// Whether any of `tags` equals `t`, ASCII case-insensitively.
fn tag_in_ci(tags: &Vec<Vec<u8>>, t: &Vec<u8>) -> (r: bool)
    ensures
        r == has_tag_ci(tags@, t@),
{
    let lt = to_lower(t);
    let mut i: usize = 0;
    while i < tags.len()
        invariant
            0 <= i <= tags@.len(),
            lt@ == lower_seq(t@),
            forall|j: int| 0 <= j < i ==> lower_seq((#[trigger] tags@[j])@) != lower_seq(t@),
        decreases tags@.len() - i,
    {
        let li = to_lower(&tags[i]);
        if eq_bytes(&li, &lt) {
            return true;
        }
        i += 1;
    }
    false
}

/// Check the status allow-list.
pub fn check_status_allowed(opt: &Option<Vec<NovelStatus>>, st: NovelStatus) -> (r: bool)
    ensures
        r == status_allowed(*opt, st),
{
    match opt {
        Some(allowed) => {
            if allowed.len() == 0 {
                return true;
            }
            let mut i: usize = 0;
            let mut found: bool = false;
            while i < allowed.len()
                invariant
                    0 <= i <= allowed@.len(),
                    found == exists|j: int| 0 <= j < i && allowed@[j] == st,
                decreases allowed@.len() - i,
            {
                if allowed[i] == st {
                    found = true;
                }
                i += 1;
            }
            proof {
                if found {
                    assert(allowed@.contains(st));
                } else {
                    assert(!allowed@.contains(st));
                }
                assert(opt->Some_0@ == allowed@);
            }
            found
        },
        None => true,
    }
}

/// Check that every required tag is present.
pub fn check_tags_all_present(tags: &Vec<Vec<u8>>, opt: &Option<Vec<Vec<u8>>>) -> (r: bool)
    ensures
        r == tags_all_present(tags@, *opt),
{
    match opt {
        Some(required) => {
            let mut i: usize = 0;
            while i < required.len()
                invariant
                    *opt == Some(*required),
                    0 <= i <= required@.len(),
                    forall|j: int| 0 <= j < i ==> has_tag_ci(tags@, (#[trigger] required@[j])@),
                decreases required@.len() - i,
            {
                if !tag_in_ci(tags, &required[i]) {
                    proof {
                        assert((*opt)->Some_0@ == required@);
                        assert(!has_tag_ci(tags@, (((*opt)->Some_0)@[i as int])@));
                    }
                    return false;
                }
                i += 1;
            }
            proof {
                assert((*opt)->Some_0@ == required@);
            }
            true
        },
        None => true,
    }
}

/// Check that no excluded tag is present.
pub fn check_tags_none_present(tags: &Vec<Vec<u8>>, opt: &Option<Vec<Vec<u8>>>) -> (r: bool)
    ensures
        r == tags_none_present(tags@, *opt),
{
    match opt {
        Some(excluded) => {
            let mut i: usize = 0;
            while i < excluded.len()
                invariant
                    *opt == Some(*excluded),
                    0 <= i <= excluded@.len(),
                    forall|j: int| 0 <= j < i ==> !has_tag_ci(tags@, (#[trigger] excluded@[j])@),
                decreases excluded@.len() - i,
            {
                if tag_in_ci(tags, &excluded[i]) {
                    proof {
                        assert((*opt)->Some_0@ == excluded@);
                        assert(has_tag_ci(tags@, (((*opt)->Some_0)@[i as int])@));
                    }
                    return false;
                }
                i += 1;
            }
            proof {
                assert((*opt)->Some_0@ == excluded@);
            }
            true
        },
        None => true,
    }
}

/// Check whether a novel passes all hard filters defined in the
/// criteria. A filter that is `None` is treated as "no constraint".
pub fn passes_hard_filters(novel: &Novel, criteria: &Criteria) -> (r: bool)
    ensures
        r == spec_passes_hard_filters(*novel, *criteria),
{
    match &criteria.min_pages {
        Some(m) => {
            if novel.pages < *m {
                return false;
            }
        },
        None => {},
    }
    match &criteria.max_pages {
        Some(m) => {
            if novel.pages > *m {
                return false;
            }
        },
        None => {},
    }
    match &criteria.min_rating_milli {
        Some(m) => {
            if novel.rating_milli < *m {
                return false;
            }
        },
        None => {},
    }
    if !check_status_allowed(&criteria.allowed_statuses, novel.status) {
        return false;
    }
    if !check_tags_all_present(&novel.tags, &criteria.required_tags) {
        return false;
    }
    if !check_tags_none_present(&novel.tags, &criteria.excluded_tags) {
        return false;
    }
    true
}

/// `c2` is at least as strict as `c1` in every dimension.
pub open spec fn tightens(c2: Criteria, c1: Criteria) -> bool {
    &&& match c1.min_pages {
        Some(m1) => match c2.min_pages {
            Some(m2) => m2 >= m1,
            None => false,
        },
        None => true,
    }
    &&& match c1.max_pages {
        Some(m1) => match c2.max_pages {
            Some(m2) => m2 <= m1,
            None => false,
        },
        None => true,
    }
    &&& match c1.min_rating_milli {
        Some(m1) => match c2.min_rating_milli {
            Some(m2) => m2 >= m1,
            None => false,
        },
        None => true,
    }
    &&& match c1.allowed_statuses {
        Some(a1) => a1@.len() == 0 || match c2.allowed_statuses {
            Some(a2) => a2@.len() > 0 && forall|s: NovelStatus|
                a2@.contains(s) ==> a1@.contains(s),
            None => false,
        },
        None => true,
    }
    &&& match c1.required_tags {
        Some(r1) => forall|i: int|
            0 <= i < r1@.len() ==> list_covers(c2.required_tags, (#[trigger] r1@[i])@),
        None => true,
    }
    &&& match c1.excluded_tags {
        Some(e1) => forall|i: int|
            0 <= i < e1@.len() ==> list_covers(c2.excluded_tags, (#[trigger] e1@[i])@),
        None => true,
    }
}

/// Some tag in the optional list equals `t`, ASCII case-insensitively.
pub open spec fn list_covers(opt: Option<Vec<Vec<u8>>>, t: Seq<u8>) -> bool {
    match opt {
        Some(ts) => exists|j: int|
            0 <= j < ts@.len() && lower_seq((#[trigger] ts@[j])@) == lower_seq(t),
        None => false,
    }
}

/// The hard filter is monotone per dimension: any novel that passes a
/// criteria set also passes every looser one. In particular, raising
/// the minimum rating or tightening any other bound never turns a
/// rejected novel into a pass.
pub proof fn lemma_hard_filter_monotone(n: Novel, c1: Criteria, c2: Criteria)
    requires
        tightens(c2, c1),
        spec_passes_hard_filters(n, c2),
    ensures
        spec_passes_hard_filters(n, c1),
{
    match c1.allowed_statuses {
        Some(a1) => {
            if a1@.len() > 0 {
                match c2.allowed_statuses {
                    Some(a2) => {
                        assert(a2@.contains(n.status));
                    },
                    None => {},
                }
            }
        },
        None => {},
    }
    match c1.required_tags {
        Some(r1) => {
            assert forall|i: int| 0 <= i < r1@.len() implies has_tag_ci(
                n.tags@,
                (#[trigger] r1@[i])@,
            ) by {
                let t = r1@[i]@;
                match c2.required_tags {
                    Some(r2) => {
                        let j = choose|j: int|
                            0 <= j < r2@.len() && lower_seq((#[trigger] r2@[j])@) == lower_seq(t);
                        assert(has_tag_ci(n.tags@, r2@[j]@));
                        let k = choose|k: int|
                            0 <= k < n.tags@.len() && lower_seq((#[trigger] n.tags@[k])@)
                                == lower_seq(r2@[j]@);
                        assert(lower_seq(n.tags@[k]@) == lower_seq(t));
                    },
                    None => {},
                }
            }
        },
        None => {},
    }
    match c1.excluded_tags {
        Some(e1) => {
            assert forall|i: int| 0 <= i < e1@.len() implies !has_tag_ci(
                n.tags@,
                (#[trigger] e1@[i])@,
            ) by {
                let t = e1@[i]@;
                match c2.excluded_tags {
                    Some(e2) => {
                        let j = choose|j: int|
                            0 <= j < e2@.len() && lower_seq((#[trigger] e2@[j])@) == lower_seq(t);
                        if has_tag_ci(n.tags@, t) {
                            let k = choose|k: int|
                                0 <= k < n.tags@.len() && lower_seq((#[trigger] n.tags@[k])@)
                                    == lower_seq(t);
                            assert(has_tag_ci(n.tags@, e2@[j]@));
                        }
                    },
                    None => {},
                }
            }
        },
        None => {},
    }
}

} // verus!
