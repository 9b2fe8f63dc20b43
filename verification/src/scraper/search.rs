//! Catalog search results.
//!
//! The catalog's search response is read as a JSON array of objects,
//! each carrying a numeric `id` and a string `title`; entries missing
//! either are skipped. This concrete schema is this library's choice
//! for the otherwise open search interface.

use vstd::prelude::*;
use crate::json::{arr_elems, get_elems, get_member, num_u64_at, obj_value, read_str_at, read_u64_at, skip_ws, str_at, ws_end};
use crate::models::ParseError;
use crate::scraper::{novel_url, novel_url_bytes};
use crate::text::{ascii_bytes, find_at, sbytes};

verus! {

/// A minimal representation of a novel found in search results.
#[derive(Debug, Clone, PartialEq, Eq)]
pub struct SearchResult {
    /// The catalog fiction id.
    pub id: u64,
    /// Title of the novel.
    pub title: Vec<u8>,
    /// URL of the novel's page.
    pub url: Vec<u8>,
}

/// The id and title of each array element that is an object carrying
/// both, in order.
pub open spec fn entries_of_spans(s: Seq<u8>, spans: Seq<(int, int)>) -> Seq<(u64, Seq<u8>)>
    decreases spans.len(),
{
    if spans.len() == 0 {
        Seq::empty()
    } else {
        let rest = entries_of_spans(s, spans.drop_first());
        match obj_value(s, spans[0].0, sbytes("id"@)) {
            None => rest,
            Some((v0, _)) => match num_u64_at(s, v0) {
                None => rest,
                Some(id) => match obj_value(s, spans[0].0, sbytes("title"@)) {
                    None => rest,
                    Some((t0, _)) => match str_at(s, t0) {
                        None => rest,
                        Some(t) => seq![(id, t)] + rest,
                    },
                },
            },
        }
    }
}

/// The entries of a search payload.
pub open spec fn spec_search_entries(s: Seq<u8>) -> Option<Seq<(u64, Seq<u8>)>> {
    let a = ws_end(s, 0);
    match arr_elems(s, a) {
        None => None,
        Some(spans) => Some(entries_of_spans(s, spans)),
    }
}

/// A result list matches an entry list: same ids and titles, with each
/// URL built canonically from the id.
pub open spec fn results_match(v: Seq<SearchResult>, es: Seq<(u64, Seq<u8>)>) -> bool {
    &&& v.len() == es.len()
    &&& forall|k: int|
        0 <= k < v.len() ==> {
            &&& (#[trigger] v[k]).id == es[k].0
            &&& v[k].title@ == es[k].1
            &&& v[k].url@ == novel_url_bytes(es[k].0)
        }
}

/// Parse a search payload into at most `max_results` results; entries
/// without an id and title are skipped.
pub fn parse_search_results(json: &Vec<u8>, max_results: usize) -> (r: Result<
    Vec<SearchResult>,
    ParseError,
>)
    ensures
        match spec_search_entries(json@) {
            None => r == Err::<Vec<SearchResult>, ParseError>(ParseError::MalformedPayload),
            Some(es) => r matches Ok(v) && v@.len() <= max_results && results_match(
                v@,
                if es.len() <= max_results {
                    es
                } else {
                    es.take(max_results as int)
                },
            ),
        },
{
    proof {
        reveal_strlit("id");
        reveal_strlit("title");
    }
    let id_key = ascii_bytes("id");
    let title_key = ascii_bytes("title");
    let a = skip_ws(json, 0);
    let spans = match get_elems(json, a) {
        None => {
            return Err(ParseError::MalformedPayload);
        },
        Some(v) => v,
    };
    let mut out: Vec<SearchResult> = Vec::new();
    let mut k: usize = 0;
    let ghost sp = crate::json::spans_view(spans@);
    let ghost es = entries_of_spans(json@, sp);
    proof {
        assert(sp.skip(0) =~= sp);
    }
    loop
        invariant
            0 <= k <= spans@.len(),
            sp == crate::json::spans_view(spans@),
            sp.len() == spans@.len(),
            forall|j: int| 0 <= j < spans@.len() ==> (#[trigger] spans@[j]).0 < spans@[j].1
                <= json@.len(),
            es == entries_of_spans(json@, sp),
            spec_search_entries(json@) == Some(es),
            out@.len() <= max_results,
            out@.len() <= es.len(),
            results_match(out@, es.take(out@.len() as int)),
            es.take(out@.len() as int) + entries_of_spans(json@, sp.skip(k as int)) == es,
            id_key@ == sbytes("id"@),
            title_key@ == sbytes("title"@),
        decreases spans@.len() - k,
    {
        if k >= spans.len() || out.len() >= max_results {
            proof {
                if k >= spans@.len() {
                    assert(sp.skip(k as int) =~= Seq::<(int, int)>::empty());
                    assert(es.take(out@.len() as int) + entries_of_spans(
                        json@,
                        sp.skip(k as int),
                    ) =~= es.take(out@.len() as int));
                    assert(es.take(out@.len() as int) =~= es);
                    assert(out@.len() == es.len());
                    if es.len() <= max_results {
                        assert(results_match(out@, es));
                    } else {
                        assert(results_match(out@, es.take(max_results as int)));
                    }
                } else {
                    assert(out@.len() == max_results);
                    assert(es.len() >= max_results);
                    if es.len() <= max_results {
                        assert(es.take(out@.len() as int) =~= es);
                    }
                }
            }
            return Ok(out);
        }
        let span = spans[k];
        proof {
            assert(sp.skip(k as int)[0] == (spans@[k as int].0 as int, spans@[k as int].1 as int));
            assert(sp.skip(k as int).drop_first() =~= sp.skip(k as int + 1));
        }
        let mut found: Option<(u64, Vec<u8>)> = None;
        match get_member(json, span.0, &id_key) {
            None => {},
            Some(vspan) => {
                match read_u64_at(json, vspan.0) {
                    None => {},
                    Some(id) => {
                        match get_member(json, span.0, &title_key) {
                            None => {},
                            Some(tspan) => {
                                match read_str_at(json, tspan.0) {
                                    None => {},
                                    Some(t) => {
                                        found = Some((id, t));
                                    },
                                }
                            },
                        }
                    },
                }
            },
        }
        match found {
            Some(p) => {
                let id = p.0;
                let url = novel_url(id);
                let sr = SearchResult { id, title: p.1, url };
                proof {
                    let entry = (id, str_at(
                        json@,
                        obj_value(json@, sp.skip(k as int)[0].0, sbytes("title"@))->Some_0.0,
                    )->Some_0);
                    assert(entries_of_spans(json@, sp.skip(k as int)) == seq![entry]
                        + entries_of_spans(json@, sp.skip(k as int + 1)));
                    assert(es.take(out@.len() as int) + (seq![entry] + entries_of_spans(
                        json@,
                        sp.skip(k as int + 1),
                    )) =~= (es.take(out@.len() as int) + seq![entry]) + entries_of_spans(
                        json@,
                        sp.skip(k as int + 1),
                    ));
                    assert(es.take(out@.len() as int) + seq![entry] =~= es.take(
                        out@.len() as int + 1,
                    )) by {
                        assert(es.take(out@.len() as int).len() == out@.len());
                        assert(es == es.take(out@.len() as int) + (seq![entry]
                            + entries_of_spans(json@, sp.skip(k as int + 1))));
                        assert(es[out@.len() as int] == entry);
                    }
                }
                out.push(sr);
            },
            None => {},
        }
        k += 1;
    }
}

} // verus!
