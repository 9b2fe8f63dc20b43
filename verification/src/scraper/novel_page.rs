//! Extraction of a full novel record from its page.
//!
//! Most fields come from the single structured `ld+json` block embedded
//! in the page; the publication status and the follower and favorite
//! counters are scanned from the rendered markup; chapter titles come
//! from the script-embedded `window.chapters` list, and the chapter
//! count is the length of that list. Extraction is all-or-nothing: a
//! missing required source fails the whole record with an error naming
//! the field.

use vstd::prelude::*;
use crate::json::{
    arr_elems, get_elems, get_member, num_milli_at, num_u64_at, obj_value, read_milli_at,
    read_str_at, read_u64_at, str_at, ws_end, skip_ws,
};
use crate::models::{Novel, NovelStatus, ParseError};
use crate::scraper::{attr_value, byte_end, check_token, find_byte, has_token, novel_url, read_attr_value};
use crate::text::{
    ascii_bytes, collapse_spec, collapse_ws, digits_of, digits_val, eq_bytes, filter_digits,
    find_at, find_from, lemma_find_at_bounds, lower_seq, parse_u64, sbytes, strip_html_tags,
    strip_spec, subvec, to_lower,
};

verus! {

/// The position of the object inside the page's embedded structured
/// data block, if the page has one.
pub open spec fn ld_obj_pos(s: Seq<u8>) -> Option<int> {
    let pat = sbytes("<script type=\"application/ld+json\">"@);
    match find_at(s, pat, 0) {
        None => None,
        Some(p) => {
            let o = ws_end(s, p + pat.len());
            if o < s.len() && s[o] == 123 {
                Some(o)
            } else {
                None
            }
        },
    }
}

/// Find the object of the page's embedded structured data block.
pub fn extract_ld_json(html: &Vec<u8>) -> (r: Result<usize, ParseError>)
    ensures
        match r {
            Ok(o) => ld_obj_pos(html@) == Some(o as int) && o < html@.len(),
            Err(e) => ld_obj_pos(html@) is None && e == ParseError::MissingEmbeddedData,
        },
{
    proof {
        reveal_strlit("<script type=\"application/ld+json\">");
    }
    let pat = ascii_bytes("<script type=\"application/ld+json\">");
    let n = html.len();
    match find_from(html, &pat, 0) {
        None => Err(ParseError::MissingEmbeddedData),
        Some(p) => {
            assert(p + pat@.len() <= n);
            let o = skip_ws(html, p + pat.len());
            if o < html.len() && html[o] == 123 {
                Ok(o)
            } else {
                Err(ParseError::MissingEmbeddedData)
            }
        },
    }
}

/// A string field of the embedded block.
pub open spec fn ld_string_field(s: Seq<u8>, key: Seq<u8>) -> Option<Seq<u8>> {
    match ld_obj_pos(s) {
        None => None,
        Some(o) => match obj_value(s, o, key) {
            None => None,
            Some((v0, _)) => str_at(s, v0),
        },
    }
}

/// The novel's title.
pub open spec fn spec_title(s: Seq<u8>) -> Option<Seq<u8>> {
    ld_string_field(s, sbytes("name"@))
}

/// The novel's author name, nested in the block's author object.
pub open spec fn spec_author(s: Seq<u8>) -> Option<Seq<u8>> {
    match ld_obj_pos(s) {
        None => None,
        Some(o) => match obj_value(s, o, sbytes("author"@)) {
            None => None,
            Some((v0, _)) => match obj_value(s, v0, sbytes("name"@)) {
                None => None,
                Some((w0, _)) => str_at(s, w0),
            },
        },
    }
}

/// The novel's description with markup stripped to plain text.
pub open spec fn spec_description(s: Seq<u8>) -> Option<Seq<u8>> {
    match ld_string_field(s, sbytes("description"@)) {
        None => None,
        Some(d) => Some(strip_spec(d)),
    }
}

/// The novel's page count.
pub open spec fn spec_pages(s: Seq<u8>) -> Option<u64> {
    match ld_obj_pos(s) {
        None => None,
        Some(o) => match obj_value(s, o, sbytes("numberOfPages"@)) {
            None => None,
            Some((v0, _)) => num_u64_at(s, v0),
        },
    }
}

/// The novel's rating, in thousandths of a star.
pub open spec fn spec_rating_milli(s: Seq<u8>) -> Option<u64> {
    match ld_obj_pos(s) {
        None => None,
        Some(o) => match obj_value(s, o, sbytes("aggregateRating"@)) {
            None => None,
            Some((v0, _)) => match obj_value(s, v0, sbytes("ratingValue"@)) {
                None => None,
                Some((w0, _)) => num_milli_at(s, w0),
            },
        },
    }
}

/// The strings among the array elements with the given spans, in order;
/// non-string elements are skipped.
pub open spec fn strs_of_spans(s: Seq<u8>, spans: Seq<(int, int)>) -> Seq<Seq<u8>>
    decreases spans.len(),
{
    if spans.len() == 0 {
        Seq::empty()
    } else {
        match str_at(s, spans[0].0) {
            Some(t) => seq![t] + strs_of_spans(s, spans.drop_first()),
            None => strs_of_spans(s, spans.drop_first()),
        }
    }
}

/// The novel's tag list.
pub open spec fn spec_tags(s: Seq<u8>) -> Option<Seq<Seq<u8>>> {
    match ld_obj_pos(s) {
        None => None,
        Some(o) => match obj_value(s, o, sbytes("genre"@)) {
            None => None,
            Some((v0, _)) => match arr_elems(s, v0) {
                None => None,
                Some(spans) => Some(strs_of_spans(s, spans)),
            },
        },
    }
}

/// A byte-string list matches a sequence of byte sequences, element by
/// element.
pub open spec fn vecs_match(v: Seq<Vec<u8>>, t: Seq<Seq<u8>>) -> bool {
    v.len() == t.len() && forall|i: int| 0 <= i < v.len() ==> (#[trigger] v[i])@ == t[i]
}

/// The status named by a label's text, ASCII case-insensitively.
pub open spec fn status_of_text(t: Seq<u8>) -> Option<NovelStatus> {
    if lower_seq(t) == sbytes("ongoing"@) {
        Some(NovelStatus::Ongoing)
    } else if lower_seq(t) == sbytes("completed"@) {
        Some(NovelStatus::Completed)
    } else if lower_seq(t) == sbytes("hiatus"@) {
        Some(NovelStatus::Hiatus)
    } else if lower_seq(t) == sbytes("dropped"@) {
        Some(NovelStatus::Dropped)
    } else if lower_seq(t) == sbytes("stub"@) {
        Some(NovelStatus::Stub)
    } else {
        None
    }
}

/// The status read from the first label span whose collapsed text names
/// one, scanning spans from position `i`.
pub open spec fn status_from(s: Seq<u8>, i: int) -> Option<NovelStatus>
    decreases s.len() + 1 - i,
    via status_from_decreases
{
    if i < 0 || i > s.len() {
        None
    } else {
        match find_at(s, sbytes("<span"@), i) {
            None => None,
            Some(p) => {
                let te = byte_end(s, p, 62);
                let next = status_from(s, p + 1);
                match attr_value(s, p, te, sbytes(" class=\""@)) {
                    Some(cls) => if has_token(cls, sbytes("label"@)) {
                        if te < s.len() {
                            let lt = byte_end(s, te + 1, 60);
                            match status_of_text(collapse_spec(s.subrange(te + 1, lt))) {
                                Some(st) => Some(st),
                                None => next,
                            }
                        } else {
                            None
                        }
                    } else {
                        next
                    },
                    None => next,
                }
            },
        }
    }
}

#[via_fn]
proof fn status_from_decreases(s: Seq<u8>, i: int) {
    if 0 <= i <= s.len() {
        lemma_find_at_bounds(s, sbytes("<span"@), i);
    }
}

/// The publication status shown on the page.
pub open spec fn spec_status(s: Seq<u8>) -> Option<NovelStatus> {
    status_from(s, 0)
}

/// Check a collapsed label text for a status name.
pub fn status_of_text_exec(t: &Vec<u8>) -> (r: Option<NovelStatus>)
    ensures
        r == status_of_text(t@),
{
    proof {
        reveal_strlit("ongoing");
        reveal_strlit("completed");
        reveal_strlit("hiatus");
        reveal_strlit("dropped");
        reveal_strlit("stub");
    }
    let low = to_lower(t);
    if eq_bytes(&low, &ascii_bytes("ongoing")) {
        Some(NovelStatus::Ongoing)
    } else if eq_bytes(&low, &ascii_bytes("completed")) {
        Some(NovelStatus::Completed)
    } else if eq_bytes(&low, &ascii_bytes("hiatus")) {
        Some(NovelStatus::Hiatus)
    } else if eq_bytes(&low, &ascii_bytes("dropped")) {
        Some(NovelStatus::Dropped)
    } else if eq_bytes(&low, &ascii_bytes("stub")) {
        Some(NovelStatus::Stub)
    } else {
        None
    }
}

/// Extract the publication status from the page's label markup.
pub fn extract_status(html: &Vec<u8>) -> (r: Result<NovelStatus, ParseError>)
    ensures
        match spec_status(html@) {
            Some(st) => r == Ok::<NovelStatus, ParseError>(st),
            None => r == Err::<NovelStatus, ParseError>(ParseError::MissingStatus),
        },
{
    proof {
        reveal_strlit("<span");
        reveal_strlit(" class=\"");
        reveal_strlit("label");
    }
    let span_pat = ascii_bytes("<span");
    let class_pat = ascii_bytes(" class=\"");
    let label_tok = ascii_bytes("label");
    let n = html.len();
    let mut i: usize = 0;
    loop
        invariant
            0 <= i <= n,
            n == html@.len(),
            span_pat@ == sbytes("<span"@),
            class_pat@ == sbytes(" class=\""@),
            label_tok@ == sbytes("label"@),
            span_pat@.len() >= 1,
            class_pat@.len() >= 1,
            spec_status(html@) == status_from(html@, i as int),
        decreases n + 1 - i,
    {
        match find_from(html, &span_pat, i) {
            None => {
                return Err(ParseError::MissingStatus);
            },
            Some(p) => {
                let te = find_byte(html, p, 62);
                match read_attr_value(html, p, te, &class_pat) {
                    Some(cls) => {
                        if check_token(&cls, &label_tok) {
                            if te >= n {
                                return Err(ParseError::MissingStatus);
                            }
                            let lt = find_byte(html, te + 1, 60);
                            let raw = subvec(html, te + 1, lt);
                            let txt = collapse_ws(&raw);
                            match status_of_text_exec(&txt) {
                                Some(st) => {
                                    return Ok(st);
                                },
                                None => {},
                            }
                        }
                    },
                    None => {},
                }
                i = p + 1;
            },
        }
    }
}

/// The collapsed plain texts of the page's list items, scanning from
/// position `i`.
pub open spec fn li_texts_from(s: Seq<u8>, i: int) -> Seq<Seq<u8>>
    decreases s.len() + 1 - i,
    via li_texts_from_decreases
{
    if i < 0 || i > s.len() {
        Seq::empty()
    } else {
        match find_at(s, sbytes("<li"@), i) {
            None => Seq::empty(),
            Some(p) => {
                let te = byte_end(s, p, 62);
                if te >= s.len() {
                    Seq::empty()
                } else {
                    let end = match find_at(s, sbytes("</li"@), te + 1) {
                        Some(q) => q,
                        None => s.len() as int,
                    };
                    seq![collapse_spec(strip_spec(s.subrange(te + 1, end)))] + li_texts_from(
                        s,
                        end + 1,
                    )
                }
            },
        }
    }
}

#[via_fn]
proof fn li_texts_from_decreases(s: Seq<u8>, i: int) {
    if 0 <= i <= s.len() {
        lemma_find_at_bounds(s, sbytes("<li"@), i);
        match find_at(s, sbytes("<li"@), i) {
            None => {},
            Some(p) => {
                crate::scraper::lemma_byte_end_bounds(s, p, 62);
                let te = byte_end(s, p, 62);
                if te < s.len() {
                    lemma_find_at_bounds(s, sbytes("</li"@), te + 1);
                }
            },
        }
    }
}

/// Sequence view of a list of byte strings.
pub open spec fn vecs_view(v: Seq<Vec<u8>>) -> Seq<Seq<u8>> {
    Seq::new(v.len(), |k: int| v[k]@)
}

/// Collect the collapsed plain texts of the page's list items.
fn li_texts(html: &Vec<u8>) -> (r: Vec<Vec<u8>>)
    ensures
        vecs_view(r@) == li_texts_from(html@, 0),
{
    proof {
        reveal_strlit("<li");
        reveal_strlit("</li");
    }
    let open_pat = ascii_bytes("<li");
    let close_pat = ascii_bytes("</li");
    let n = html.len();
    let mut out: Vec<Vec<u8>> = Vec::new();
    let mut i: usize = 0;
    proof {
        assert(vecs_view(out@) =~= Seq::<Seq<u8>>::empty());
    }
    loop
        invariant
            0 <= i <= n + 1,
            n == html@.len(),
            open_pat@ == sbytes("<li"@),
            close_pat@ == sbytes("</li"@),
            open_pat@.len() >= 1,
            close_pat@.len() >= 1,
            li_texts_from(html@, 0) == vecs_view(out@) + li_texts_from(html@, i as int),
        decreases n + 1 - i,
    {
        if i > n {
            proof {
                assert(vecs_view(out@) + li_texts_from(html@, i as int) =~= vecs_view(out@));
            }
            return out;
        }
        match find_from(html, &open_pat, i) {
            None => {
                proof {
                    assert(vecs_view(out@) + li_texts_from(html@, i as int) =~= vecs_view(out@));
                }
                return out;
            },
            Some(p) => {
                let te = find_byte(html, p, 62);
                if te >= n {
                    proof {
                        assert(vecs_view(out@) + li_texts_from(html@, i as int) =~= vecs_view(
                            out@,
                        ));
                    }
                    return out;
                }
                let end: usize = match find_from(html, &close_pat, te + 1) {
                    Some(q) => q,
                    None => n,
                };
                let raw = subvec(html, te + 1, end);
                let stripped = strip_html_tags(&raw);
                let txt = collapse_ws(&stripped);
                proof {
                    let t = collapse_spec(strip_spec(html@.subrange(te + 1, end as int)));
                    assert(txt@ == t);
                    assert(vecs_view(out@.push(txt)) =~= vecs_view(out@) + seq![t]);
                    assert(vecs_view(out@) + (seq![t] + li_texts_from(html@, end + 1)) =~= (
                    vecs_view(out@) + seq![t]) + li_texts_from(html@, end + 1));
                }
                out.push(txt);
                if end >= n {
                    proof {
                        assert(li_texts_from(html@, end + 1) =~= Seq::<Seq<u8>>::empty());
                        assert(vecs_view(out@) + li_texts_from(html@, end + 1) =~= vecs_view(
                            out@,
                        ));
                    }
                    return out;
                }
                i = end + 1;
            },
        }
    }
}

/// The list item directly after the first one that begins with `label`.
pub open spec fn stat_after(lis: Seq<Seq<u8>>, label: Seq<u8>) -> Option<Seq<u8>>
    decreases lis.len(),
{
    if lis.len() == 0 {
        None
    } else if crate::text::starts_with_spec(lis[0], label) {
        if lis.len() >= 2 {
            Some(lis[1])
        } else {
            None
        }
    } else {
        stat_after(lis.drop_first(), label)
    }
}

/// Find the list item directly after the first one beginning with
/// `label`.
fn stat_lookup(lis: &Vec<Vec<u8>>, label: &Vec<u8>) -> (r: Option<Vec<u8>>)
    ensures
        match r {
            Some(t) => stat_after(vecs_view(lis@), label@) == Some(t@),
            None => stat_after(vecs_view(lis@), label@) is None,
        },
{
    let n = lis.len();
    let mut k: usize = 0;
    proof {
        assert(vecs_view(lis@).skip(0) =~= vecs_view(lis@));
    }
    loop
        invariant
            0 <= k <= n,
            n == lis@.len(),
            stat_after(vecs_view(lis@), label@) == stat_after(
                vecs_view(lis@).skip(k as int),
                label@,
            ),
        decreases n - k,
    {
        if k >= n {
            proof {
                assert(vecs_view(lis@).skip(k as int) =~= Seq::<Seq<u8>>::empty());
            }
            return None;
        }
        proof {
            assert(vecs_view(lis@).skip(k as int)[0] == lis@[k as int]@);
            assert(vecs_view(lis@).skip(k as int).drop_first() =~= vecs_view(lis@).skip(
                k as int + 1,
            ));
        }
        if crate::text::starts_with(&lis[k], label) {
            if k + 1 < n {
                proof {
                    assert(vecs_view(lis@).skip(k as int)[1] == lis@[k as int + 1]@);
                }
                return Some(crate::text::copy_bytes(&lis[k + 1]));
            }
            return None;
        }
        k += 1;
    }
}

/// The number written by a counter text: its digit bytes, with
/// thousands separators dropped.
pub open spec fn stat_number(t: Seq<u8>) -> Option<u64> {
    let ds = digits_of(t);
    if ds.len() >= 1 && digits_val(ds) <= u64::MAX {
        Some(digits_val(ds) as u64)
    } else {
        None
    }
}

/// Parse a counter that may contain thousands separators, such as
/// `6,475`.
pub fn parse_stat_number(t: &Vec<u8>) -> (r: Result<u64, ParseError>)
    ensures
        match stat_number(t@) {
            Some(n) => r == Ok::<u64, ParseError>(n),
            None => r == Err::<u64, ParseError>(ParseError::InvalidNumber),
        },
{
    let ds = filter_digits(t);
    match parse_u64(&ds) {
        Some(n) => Ok(n),
        None => Err(ParseError::InvalidNumber),
    }
}

/// The follower counter of the page.
pub open spec fn spec_followers_text(s: Seq<u8>) -> Option<Seq<u8>> {
    stat_after(li_texts_from(s, 0), sbytes("Followers"@))
}

/// The favorite counter of the page.
pub open spec fn spec_favorites_text(s: Seq<u8>) -> Option<Seq<u8>> {
    stat_after(li_texts_from(s, 0), sbytes("Favorites"@))
}

/// Extract the follower and favorite counts from the page's stats
/// markup.
pub fn extract_stats(html: &Vec<u8>) -> (r: Result<(u64, u64), ParseError>)
    ensures
        match spec_followers_text(html@) {
            None => r == Err::<(u64, u64), ParseError>(ParseError::MissingFollowers),
            Some(ft) => match stat_number(ft) {
                None => r == Err::<(u64, u64), ParseError>(ParseError::InvalidNumber),
                Some(fo) => match spec_favorites_text(html@) {
                    None => r == Err::<(u64, u64), ParseError>(ParseError::MissingFavorites),
                    Some(vt) => match stat_number(vt) {
                        None => r == Err::<(u64, u64), ParseError>(ParseError::InvalidNumber),
                        Some(fa) => r == Ok::<(u64, u64), ParseError>((fo, fa)),
                    },
                },
            },
        },
{
    proof {
        reveal_strlit("Followers");
        reveal_strlit("Favorites");
    }
    let lis = li_texts(html);
    let followers_label = ascii_bytes("Followers");
    let favorites_label = ascii_bytes("Favorites");
    let ft = match stat_lookup(&lis, &followers_label) {
        None => {
            return Err(ParseError::MissingFollowers);
        },
        Some(t) => t,
    };
    let fo = match parse_stat_number(&ft) {
        Err(e) => {
            return Err(e);
        },
        Ok(v) => v,
    };
    let vt = match stat_lookup(&lis, &favorites_label) {
        None => {
            return Err(ParseError::MissingFavorites);
        },
        Some(t) => t,
    };
    let fa = match parse_stat_number(&vt) {
        Err(e) => {
            return Err(e);
        },
        Ok(v) => v,
    };
    Ok((fo, fa))
}

/// The position of the script-embedded chapter array.
pub open spec fn chapters_arr_pos(s: Seq<u8>) -> Option<int> {
    let pat = sbytes("window.chapters"@);
    match find_at(s, pat, 0) {
        None => None,
        Some(p) => {
            let q = ws_end(s, p + pat.len());
            if q < s.len() && s[q] == 61 {
                let a = ws_end(s, q + 1);
                if a < s.len() && s[a] == 91 {
                    Some(a)
                } else {
                    None
                }
            } else {
                None
            }
        },
    }
}

/// The `title` strings of the array elements with the given spans;
/// elements that are not objects with a string title are skipped.
pub open spec fn titles_of_spans(s: Seq<u8>, spans: Seq<(int, int)>) -> Seq<Seq<u8>>
    decreases spans.len(),
{
    if spans.len() == 0 {
        Seq::empty()
    } else {
        let rest = titles_of_spans(s, spans.drop_first());
        match obj_value(s, spans[0].0, sbytes("title"@)) {
            None => rest,
            Some((v0, _)) => match str_at(s, v0) {
                Some(t) => seq![t] + rest,
                None => rest,
            },
        }
    }
}

/// The chapter titles of the page.
pub open spec fn spec_chapter_titles(s: Seq<u8>) -> Option<Seq<Seq<u8>>> {
    match chapters_arr_pos(s) {
        None => None,
        Some(a) => match arr_elems(s, a) {
            None => None,
            Some(spans) => Some(titles_of_spans(s, spans)),
        },
    }
}

/// Extract the chapter titles from the script-embedded chapter list.
pub fn extract_chapter_titles(html: &Vec<u8>) -> (r: Result<Vec<Vec<u8>>, ParseError>)
    ensures
        match spec_chapter_titles(html@) {
            Some(ts) => r matches Ok(v) && vecs_view(v@) == ts,
            None => r == Err::<Vec<Vec<u8>>, ParseError>(ParseError::MissingChapters),
        },
{
    proof {
        reveal_strlit("window.chapters");
        reveal_strlit("title");
    }
    let pat = ascii_bytes("window.chapters");
    let title_key = ascii_bytes("title");
    let n = html.len();
    let p = match find_from(html, &pat, 0) {
        None => {
            return Err(ParseError::MissingChapters);
        },
        Some(p) => p,
    };
    assert(p + pat@.len() <= n);
    let q = skip_ws(html, p + pat.len());
    if !(q < html.len() && html[q] == 61) {
        return Err(ParseError::MissingChapters);
    }
    let a = skip_ws(html, q + 1);
    if !(a < html.len() && html[a] == 91) {
        return Err(ParseError::MissingChapters);
    }
    let spans = match get_elems(html, a) {
        None => {
            return Err(ParseError::MissingChapters);
        },
        Some(v) => v,
    };
    let mut out: Vec<Vec<u8>> = Vec::new();
    let mut k: usize = 0;
    let ghost sp = crate::json::spans_view(spans@);
    proof {
        assert(vecs_view(out@) =~= Seq::<Seq<u8>>::empty());
        assert(sp.skip(0) =~= sp);
        assert(titles_of_spans(html@, sp) =~= vecs_view(out@) + titles_of_spans(html@, sp.skip(0)));
    }
    loop
        invariant
            0 <= k <= spans@.len(),
            sp == crate::json::spans_view(spans@),
            sp.len() == spans@.len(),
            forall|j: int| 0 <= j < spans@.len() ==> (#[trigger] spans@[j]).0 < spans@[j].1
                <= html@.len(),
            titles_of_spans(html@, sp) == vecs_view(out@) + titles_of_spans(
                html@,
                sp.skip(k as int),
            ),
            spec_chapter_titles(html@) == Some(titles_of_spans(html@, sp)),
            title_key@ == sbytes("title"@),
        decreases spans@.len() - k,
    {
        if k >= spans.len() {
            proof {
                assert(sp.skip(k as int) =~= Seq::<(int, int)>::empty());
                assert(vecs_view(out@) + titles_of_spans(html@, sp.skip(k as int)) =~= vecs_view(
                    out@,
                ));
            }
            return Ok(out);
        }
        let span = spans[k];
        proof {
            assert(sp.skip(k as int)[0] == (spans@[k as int].0 as int, spans@[k as int].1 as int));
            assert(sp.skip(k as int).drop_first() =~= sp.skip(k as int + 1));
        }
        match get_member(html, span.0, &title_key) {
            None => {},
            Some(tspan) => {
                match read_str_at(html, tspan.0) {
                    None => {},
                    Some(t) => {
                        proof {
                            let tt = str_at(html@, tspan.0 as int)->Some_0;
                            assert(vecs_view(out@.push(t)) =~= vecs_view(out@) + seq![tt]);
                            assert(vecs_view(out@) + (seq![tt] + titles_of_spans(
                                html@,
                                sp.skip(k as int + 1),
                            )) =~= (vecs_view(out@) + seq![tt]) + titles_of_spans(
                                html@,
                                sp.skip(k as int + 1),
                            ));
                        }
                        out.push(t);
                    },
                }
            },
        }
        k += 1;
    }
}

/// Whether every required source of the record is present and the
/// rating is on the five-star scale.
pub open spec fn novel_extraction_ok(s: Seq<u8>) -> bool {
    &&& ld_obj_pos(s) is Some
    &&& spec_title(s) is Some
    &&& spec_author(s) is Some
    &&& spec_description(s) is Some
    &&& spec_pages(s) is Some
    &&& (spec_rating_milli(s) matches Some(rm) && rm <= 5000)
    &&& spec_tags(s) is Some
    &&& spec_status(s) is Some
    &&& (spec_followers_text(s) matches Some(ft) && stat_number(ft) is Some)
    &&& (spec_favorites_text(s) matches Some(vt) && stat_number(vt) is Some)
    &&& spec_chapter_titles(s) is Some
}

/// The error named for the first missing source, in extraction order.
pub open spec fn spec_novel_error(s: Seq<u8>) -> ParseError {
    if ld_obj_pos(s) is None {
        ParseError::MissingEmbeddedData
    } else if spec_title(s) is None {
        ParseError::MissingTitle
    } else if spec_author(s) is None {
        ParseError::MissingAuthor
    } else if spec_description(s) is None {
        ParseError::MissingDescription
    } else if spec_pages(s) is None {
        ParseError::MissingPages
    } else if !(spec_rating_milli(s) matches Some(rm) && rm <= 5000) {
        ParseError::MissingRating
    } else if spec_tags(s) is None {
        ParseError::MissingTags
    } else if spec_status(s) is None {
        ParseError::MissingStatus
    } else if spec_followers_text(s) is None {
        ParseError::MissingFollowers
    } else if stat_number(spec_followers_text(s)->Some_0) is None {
        ParseError::InvalidNumber
    } else if spec_favorites_text(s) is None {
        ParseError::MissingFavorites
    } else if stat_number(spec_favorites_text(s)->Some_0) is None {
        ParseError::InvalidNumber
    } else {
        ParseError::MissingChapters
    }
}

/// Parse a novel's full record from the raw bytes of its page.
pub fn parse_novel_from_html(html: &Vec<u8>, novel_id: u64) -> (r: Result<Novel, ParseError>)
    ensures
        r is Ok <==> novel_extraction_ok(html@),
        r matches Ok(n) ==> {
            &&& n.id == novel_id
            &&& n.title@ == spec_title(html@)->Some_0
            &&& n.author@ == spec_author(html@)->Some_0
            &&& n.url@ == crate::scraper::novel_url_bytes(novel_id)
            &&& n.description@ == spec_description(html@)->Some_0
            &&& n.pages == spec_pages(html@)->Some_0
            &&& n.rating_milli == spec_rating_milli(html@)->Some_0
            &&& n.status == spec_status(html@)->Some_0
            &&& vecs_match(n.tags@, spec_tags(html@)->Some_0)
            &&& vecs_match(n.chapter_titles@, spec_chapter_titles(html@)->Some_0)
            &&& n.chapter_count == n.chapter_titles@.len()
            &&& n.followers == stat_number(spec_followers_text(html@)->Some_0)->Some_0
            &&& n.favorites == stat_number(spec_favorites_text(html@)->Some_0)->Some_0
            &&& n.wf()
        },
        r matches Err(e) ==> e == spec_novel_error(html@),
{
    proof {
        reveal_strlit("name");
        reveal_strlit("author");
        reveal_strlit("description");
        reveal_strlit("numberOfPages");
        reveal_strlit("aggregateRating");
        reveal_strlit("ratingValue");
        reveal_strlit("genre");
    }
    let o = match extract_ld_json(html) {
        Err(e) => {
            return Err(e);
        },
        Ok(o) => o,
    };
    let title = match get_member(html, o, &ascii_bytes("name")) {
        None => {
            return Err(ParseError::MissingTitle);
        },
        Some(span) => match read_str_at(html, span.0) {
            None => {
                return Err(ParseError::MissingTitle);
            },
            Some(t) => t,
        },
    };
    let author = match get_member(html, o, &ascii_bytes("author")) {
        None => {
            return Err(ParseError::MissingAuthor);
        },
        Some(span) => match get_member(html, span.0, &ascii_bytes("name")) {
            None => {
                return Err(ParseError::MissingAuthor);
            },
            Some(inner) => match read_str_at(html, inner.0) {
                None => {
                    return Err(ParseError::MissingAuthor);
                },
                Some(t) => t,
            },
        },
    };
    let description = match get_member(html, o, &ascii_bytes("description")) {
        None => {
            return Err(ParseError::MissingDescription);
        },
        Some(span) => match read_str_at(html, span.0) {
            None => {
                return Err(ParseError::MissingDescription);
            },
            Some(d) => strip_html_tags(&d),
        },
    };
    let pages = match get_member(html, o, &ascii_bytes("numberOfPages")) {
        None => {
            return Err(ParseError::MissingPages);
        },
        Some(span) => match read_u64_at(html, span.0) {
            None => {
                return Err(ParseError::MissingPages);
            },
            Some(p) => p,
        },
    };
    let rating_milli = match get_member(html, o, &ascii_bytes("aggregateRating")) {
        None => {
            return Err(ParseError::MissingRating);
        },
        Some(span) => match get_member(html, span.0, &ascii_bytes("ratingValue")) {
            None => {
                return Err(ParseError::MissingRating);
            },
            Some(inner) => match read_milli_at(html, inner.0) {
                None => {
                    return Err(ParseError::MissingRating);
                },
                Some(v) => v,
            },
        },
    };
    if rating_milli > 5000 {
        return Err(ParseError::MissingRating);
    }
    let tags = match get_member(html, o, &ascii_bytes("genre")) {
        None => {
            return Err(ParseError::MissingTags);
        },
        Some(span) => match collect_strings(html, span.0) {
            None => {
                return Err(ParseError::MissingTags);
            },
            Some(ts) => ts,
        },
    };
    let status = match extract_status(html) {
        Err(e) => {
            return Err(e);
        },
        Ok(st) => st,
    };
    let stats = match extract_stats(html) {
        Err(e) => {
            return Err(e);
        },
        Ok(p) => p,
    };
    let chapter_titles = match extract_chapter_titles(html) {
        Err(e) => {
            return Err(e);
        },
        Ok(ts) => ts,
    };
    let chapter_count = chapter_titles.len() as u64;
    let url = novel_url(novel_id);
    Ok(
        Novel {
            id: novel_id,
            title,
            author,
            url,
            description,
            pages,
            rating_milli,
            status,
            tags,
            chapter_count,
            chapter_titles,
            followers: stats.0,
            favorites: stats.1,
        },
    )
}

/// Collect the strings of the array starting at `i`, skipping
/// non-string elements.
fn collect_strings(html: &Vec<u8>, i: usize) -> (r: Option<Vec<Vec<u8>>>)
    requires
        i <= html@.len(),
    ensures
        match r {
            Some(v) => arr_elems(html@, i as int) is Some && vecs_match(
                v@,
                strs_of_spans(html@, arr_elems(html@, i as int)->Some_0),
            ),
            None => arr_elems(html@, i as int) is None,
        },
{
    let spans = match get_elems(html, i) {
        None => {
            return None;
        },
        Some(v) => v,
    };
    let mut out: Vec<Vec<u8>> = Vec::new();
    let mut k: usize = 0;
    let ghost sp = crate::json::spans_view(spans@);
    proof {
        assert(vecs_view(out@) =~= Seq::<Seq<u8>>::empty());
        assert(sp.skip(0) =~= sp);
    }
    loop
        invariant
            0 <= k <= spans@.len(),
            sp == crate::json::spans_view(spans@),
            sp.len() == spans@.len(),
            forall|j: int| 0 <= j < spans@.len() ==> (#[trigger] spans@[j]).0 < spans@[j].1
                <= html@.len(),
            arr_elems(html@, i as int) == Some(sp),
            strs_of_spans(html@, sp) == vecs_view(out@) + strs_of_spans(html@, sp.skip(k as int)),
        decreases spans@.len() - k,
    {
        if k >= spans.len() {
            proof {
                assert(sp.skip(k as int) =~= Seq::<(int, int)>::empty());
                assert(vecs_view(out@) + strs_of_spans(html@, sp.skip(k as int)) =~= vecs_view(
                    out@,
                ));
            }
            proof {
                assert(vecs_match(out@, vecs_view(out@)));
            }
            return Some(out);
        }
        let span = spans[k];
        proof {
            assert(sp.skip(k as int)[0] == (spans@[k as int].0 as int, spans@[k as int].1 as int));
            assert(sp.skip(k as int).drop_first() =~= sp.skip(k as int + 1));
        }
        match read_str_at(html, span.0) {
            None => {},
            Some(t) => {
                proof {
                    let tt = str_at(html@, span.0 as int)->Some_0;
                    assert(vecs_view(out@.push(t)) =~= vecs_view(out@) + seq![tt]);
                    assert(vecs_view(out@) + (seq![tt] + strs_of_spans(html@, sp.skip(k as int + 1)))
                        =~= (vecs_view(out@) + seq![tt]) + strs_of_spans(
                        html@,
                        sp.skip(k as int + 1),
                    ));
                }
                out.push(t);
            },
        }
        k += 1;
    }
}

/// The ids carried by the related-novels payload: one for each array
/// element that is an object with a numeric `id`, in order.
pub open spec fn ids_of_spans(s: Seq<u8>, spans: Seq<(int, int)>) -> Seq<u64>
    decreases spans.len(),
{
    if spans.len() == 0 {
        Seq::empty()
    } else {
        let rest = ids_of_spans(s, spans.drop_first());
        match obj_value(s, spans[0].0, sbytes("id"@)) {
            None => rest,
            Some((v0, _)) => match num_u64_at(s, v0) {
                Some(n) => seq![n] + rest,
                None => rest,
            },
        }
    }
}

/// The id list of a related-novels payload.
pub open spec fn spec_also_liked(s: Seq<u8>) -> Option<Seq<u64>> {
    let a = ws_end(s, 0);
    match arr_elems(s, a) {
        None => None,
        Some(spans) => Some(ids_of_spans(s, spans)),
    }
}

/// Parse the related-novels payload into a list of novel ids; entries
/// without an id are skipped rather than failing the batch.
pub fn parse_also_liked_from_json(json: &Vec<u8>) -> (r: Result<Vec<u64>, ParseError>)
    ensures
        match spec_also_liked(json@) {
            Some(ids) => r matches Ok(v) && v@ == ids,
            None => r == Err::<Vec<u64>, ParseError>(ParseError::MalformedPayload),
        },
{
    proof {
        reveal_strlit("id");
    }
    let id_key = ascii_bytes("id");
    let a = skip_ws(json, 0);
    let spans = match get_elems(json, a) {
        None => {
            return Err(ParseError::MalformedPayload);
        },
        Some(v) => v,
    };
    let mut out: Vec<u64> = Vec::new();
    let mut k: usize = 0;
    let ghost sp = crate::json::spans_view(spans@);
    proof {
        assert(out@ =~= Seq::<u64>::empty());
        assert(sp.skip(0) =~= sp);
    }
    loop
        invariant
            0 <= k <= spans@.len(),
            sp == crate::json::spans_view(spans@),
            sp.len() == spans@.len(),
            forall|j: int| 0 <= j < spans@.len() ==> (#[trigger] spans@[j]).0 < spans@[j].1
                <= json@.len(),
            ids_of_spans(json@, sp) == out@ + ids_of_spans(json@, sp.skip(k as int)),
            spec_also_liked(json@) == Some(ids_of_spans(json@, sp)),
            id_key@ == sbytes("id"@),
        decreases spans@.len() - k,
    {
        if k >= spans.len() {
            proof {
                assert(sp.skip(k as int) =~= Seq::<(int, int)>::empty());
                assert(out@ + ids_of_spans(json@, sp.skip(k as int)) =~= out@);
            }
            return Ok(out);
        }
        let span = spans[k];
        proof {
            assert(sp.skip(k as int)[0] == (spans@[k as int].0 as int, spans@[k as int].1 as int));
            assert(sp.skip(k as int).drop_first() =~= sp.skip(k as int + 1));
        }
        match get_member(json, span.0, &id_key) {
            None => {},
            Some(vspan) => {
                match read_u64_at(json, vspan.0) {
                    None => {},
                    Some(n) => {
                        proof {
                            assert(out@ + (seq![n] + ids_of_spans(json@, sp.skip(k as int + 1)))
                                =~= (out@ + seq![n]) + ids_of_spans(json@, sp.skip(k as int + 1)));
                        }
                        out.push(n);
                    },
                }
            },
        }
        k += 1;
    }
}

} // verus!
