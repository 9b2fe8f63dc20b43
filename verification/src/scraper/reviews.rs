//! Review extraction from a novel page.
//!
//! Each review block is extracted independently: a review missing its
//! author, rating, text or date is silently skipped, never failing the
//! page. The list is capped at a caller-supplied maximum count.

use vstd::prelude::*;
use crate::json::frac_milli;
use crate::models::{ParseError, Review};
use crate::scraper::{attr_value, byte_end, find_byte, read_attr_value};
use crate::text::{
    ascii_bytes, collapse_spec, collapse_ws, digits_val, ends_with, ends_with_spec, find_at,
    find_from, lemma_find_at_bounds, match_at, sbytes, strip_html_tags, strip_spec, subvec,
};

verus! {

/// The author name inside a review block `[a, b)`: the collapsed text
/// of the first anchor after the review-meta marker.
pub open spec fn review_author(s: Seq<u8>, a: int, b: int) -> Option<Seq<u8>> {
    match find_at(s, sbytes("class=\"review-meta\""@), a) {
        None => None,
        Some(m) => if m >= b {
            None
        } else {
            match find_at(s, sbytes("<a"@), m) {
                None => None,
                Some(x) => if x >= b {
                    None
                } else {
                    let te = byte_end(s, x, 62);
                    if te >= s.len() {
                        None
                    } else {
                        let lt = byte_end(s, te + 1, 60);
                        Some(collapse_spec(s.subrange(te + 1, lt)))
                    }
                },
            }
        },
    }
}

/// Extract a review's author name from the block `[a, b)`.
pub fn extract_review_author(html: &Vec<u8>, a: usize, b: usize) -> (r: Option<Vec<u8>>)
    requires
        a <= html@.len(),
        b <= html@.len(),
    ensures
        match r {
            Some(t) => review_author(html@, a as int, b as int) == Some(t@),
            None => review_author(html@, a as int, b as int) is None,
        },
{
    proof {
        reveal_strlit("class=\"review-meta\"");
        reveal_strlit("<a");
    }
    let meta_pat = ascii_bytes("class=\"review-meta\"");
    let anchor_pat = ascii_bytes("<a");
    let m = match find_from(html, &meta_pat, a) {
        None => {
            return None;
        },
        Some(m) => m,
    };
    if m >= b {
        return None;
    }
    let x = match find_from(html, &anchor_pat, m) {
        None => {
            return None;
        },
        Some(x) => x,
    };
    if x >= b {
        return None;
    }
    let te = find_byte(html, x, 62);
    if te >= html.len() {
        return None;
    }
    let lt = find_byte(html, te + 1, 60);
    let raw = subvec(html, te + 1, lt);
    Some(collapse_ws(&raw))
}

/// The posted date inside a review block `[a, b)`: the `datetime`
/// attribute of the first `time` element.
pub open spec fn review_date(s: Seq<u8>, a: int, b: int) -> Option<Seq<u8>> {
    match find_at(s, sbytes("<time"@), a) {
        None => None,
        Some(t) => if t >= b {
            None
        } else {
            let te = byte_end(s, t, 62);
            attr_value(s, t, te, sbytes(" datetime=\""@))
        },
    }
}

/// Extract a review's posted date from the block `[a, b)`.
pub fn extract_review_date(html: &Vec<u8>, a: usize, b: usize) -> (r: Option<Vec<u8>>)
    requires
        a <= html@.len(),
        b <= html@.len(),
    ensures
        match r {
            Some(t) => review_date(html@, a as int, b as int) == Some(t@),
            None => review_date(html@, a as int, b as int) is None,
        },
{
    proof {
        reveal_strlit("<time");
        reveal_strlit(" datetime=\"");
    }
    let time_pat = ascii_bytes("<time");
    let dt_pat = ascii_bytes(" datetime=\"");
    let t = match find_from(html, &time_pat, a) {
        None => {
            return None;
        },
        Some(t) => t,
    };
    if t >= b {
        return None;
    }
    let te = find_byte(html, t, 62);
    read_attr_value(html, t, te, &dt_pat)
}

/// The star rating written by an `aria-label` value such as `4.5 stars`
/// or `1 star`, in thousandths.
pub open spec fn star_milli(label: Seq<u8>) -> Option<u64> {
    if ends_with_spec(label, sbytes(" stars"@)) {
        star_num(label.take(label.len() - 6))
    } else if ends_with_spec(label, sbytes(" star"@)) {
        star_num(label.take(label.len() - 5))
    } else {
        None
    }
}

/// A whole or fractional star count, in thousandths.
pub open spec fn star_num(x: Seq<u8>) -> Option<u64> {
    let d = crate::json::digits_end(x, 0);
    if d == 0 {
        None
    } else {
        let whole = digits_val(x.take(d));
        if d == x.len() {
            if whole * 1000 <= u64::MAX {
                Some((whole * 1000) as u64)
            } else {
                None
            }
        } else if x[d] == 46 {
            let f = crate::json::digits_end(x, d + 1);
            if f == x.len() && f > d + 1 {
                if whole * 1000 + frac_milli(x.subrange(d + 1, f)) <= u64::MAX {
                    Some((whole * 1000 + frac_milli(x.subrange(d + 1, f))) as u64)
                } else {
                    None
                }
            } else {
                None
            }
        } else {
            None
        }
    }
}

/// Read a star count from the digits of `x`.
fn read_star_num(x: &Vec<u8>) -> (r: Option<u64>)
    ensures
        r == star_num(x@),
{
    let d = crate::json::skip_digits(x, 0);
    if d == 0 {
        return None;
    }
    proof {
        crate::json::lemma_digits_end_bounds(x@, 0);
    }
    let whole: u64 = match crate::text::parse_u64(&subvec(x, 0, d)) {
        Some(n) => n,
        None => {
            proof {
                let w = digits_val(x@.take(d as int));
                assert(x@.subrange(0, d as int) =~= x@.take(d as int));
                assert(w * 1000 >= w) by (nonlinear_arith);
                assert(w * 1000 + frac_milli(
                    x@.subrange(d as int + 1, crate::json::digits_end(x@, d as int + 1)),
                ) >= w) by (nonlinear_arith);
            }
            return None;
        },
    };
    proof {
        assert(x@.subrange(0, d as int) =~= x@.take(d as int));
    }
    if d == x.len() {
        if whole > u64::MAX / 1000 {
            proof {
                assert(whole * 1000 > u64::MAX) by (nonlinear_arith)
                    requires
                        whole > u64::MAX / 1000,
                {}
            }
            return None;
        }
        proof {
            assert(whole * 1000 <= u64::MAX) by (nonlinear_arith)
                requires
                    whole <= u64::MAX / 1000,
            {}
        }
        return Some(whole * 1000);
    }
    if x[d] != 46 {
        return None;
    }
    let f = crate::json::skip_digits(x, d + 1);
    if !(f == x.len() && f > d + 1) {
        return None;
    }
    proof {
        crate::json::lemma_digits_end_bounds(x@, d as int + 1);
    }
    let take_end: usize = if f - d > 4 {
        d + 4
    } else {
        f
    };
    let fd = subvec(x, d + 1, take_end);
    proof {
        let full = x@.subrange(d as int + 1, f as int);
        if f - d > 4 {
            assert(fd@ =~= full.take(3));
        } else {
            assert(fd@ =~= full);
            if full.len() >= 3 {
                assert(full.take(3) =~= full);
            }
        }
        assert(crate::text::all_digits(fd@)) by {
            assert(forall|k: int|
                0 <= k < fd@.len() ==> fd@[k] == #[trigger] full[k] && crate::text::is_digit(
                    full[k],
                ));
        }
        if fd@.len() == 1 {
            crate::json::lemma_one_digit_val(fd@);
        } else if fd@.len() == 2 {
            crate::json::lemma_two_digit_val(fd@);
        } else {
            crate::json::lemma_small_digits_val(fd@);
        }
    }
    let fv: u64 = match crate::text::parse_u64(&fd) {
        Some(n) => n,
        None => {
            proof {
                assert(false);
            }
            0
        },
    };
    let frac: u64 = if fd.len() >= 3 {
        fv
    } else if fd.len() == 2 {
        fv * 10
    } else {
        fv * 100
    };
    proof {
        assert(frac == frac_milli(x@.subrange(d as int + 1, f as int)));
        assert(frac <= 999);
    }
    if whole > (u64::MAX - frac) / 1000 {
        proof {
            let w = whole as nat;
            assert(w * 1000 + frac > u64::MAX) by (nonlinear_arith)
                requires
                    w > ((u64::MAX - frac) / 1000) as nat,
                    frac <= 999,
            {}
        }
        return None;
    }
    proof {
        assert(whole * 1000 + frac <= u64::MAX) by (nonlinear_arith)
            requires
                whole <= (u64::MAX - frac) / 1000,
                frac <= 999,
        {}
    }
    Some(whole * 1000 + frac)
}

/// The star rating found among the `aria-label` values from position
/// `i` on, before `b`.
pub open spec fn rating_from(s: Seq<u8>, i: int, b: int) -> Option<u64>
    decreases s.len() + 1 - i,
    via rating_from_decreases
{
    if i < 0 || i > s.len() {
        None
    } else {
        match find_at(s, sbytes(" aria-label=\""@), i) {
            None => None,
            Some(p) => if p >= b {
                None
            } else {
                let v0 = p + sbytes(" aria-label=\""@).len();
                let q = byte_end(s, v0, 34);
                match star_milli(s.subrange(v0, q)) {
                    Some(r) => Some(r),
                    None => rating_from(s, p + 1, b),
                }
            },
        }
    }
}

#[via_fn]
proof fn rating_from_decreases(s: Seq<u8>, i: int, b: int) {
    if 0 <= i <= s.len() {
        lemma_find_at_bounds(s, sbytes(" aria-label=\""@), i);
    }
}

/// The overall star rating inside a review block `[a, b)`: the first
/// star-shaped `aria-label` after the overall-score marker.
pub open spec fn review_rating(s: Seq<u8>, a: int, b: int) -> Option<u64> {
    match find_at(s, sbytes("class=\"overall-score-container\""@), a) {
        None => None,
        Some(c) => if c >= b {
            None
        } else {
            rating_from(s, c, b)
        },
    }
}

/// Extract a review's star rating, in thousandths, from the block
/// `[a, b)`.
pub fn extract_review_rating(html: &Vec<u8>, a: usize, b: usize) -> (r: Option<u64>)
    requires
        a <= html@.len(),
        b <= html@.len(),
    ensures
        r == review_rating(html@, a as int, b as int),
{
    proof {
        reveal_strlit("class=\"overall-score-container\"");
        reveal_strlit(" aria-label=\"");
    }
    let marker = ascii_bytes("class=\"overall-score-container\"");
    let aria_pat = ascii_bytes(" aria-label=\"");
    let c = match find_from(html, &marker, a) {
        None => {
            return None;
        },
        Some(c) => c,
    };
    if c >= b {
        return None;
    }
    let n = html.len();
    let mut i: usize = c;
    loop
        invariant
            0 <= i <= n,
            n == html@.len(),
            aria_pat@ == sbytes(" aria-label=\""@),
            aria_pat@.len() >= 1,
            review_rating(html@, a as int, b as int) == rating_from(html@, i as int, b as int),
        decreases n + 1 - i,
    {
        let p = match find_from(html, &aria_pat, i) {
            None => {
                return None;
            },
            Some(p) => p,
        };
        if p >= b {
            return None;
        }
        assert(p + aria_pat@.len() <= n);
        let v0 = p + aria_pat.len();
        let q = find_byte(html, v0, 34);
        let label = subvec(html, v0, q);
        match read_star_num_label(&label) {
            Some(r) => {
                return Some(r);
            },
            None => {},
        }
        i = p + 1;
    }
}

/// Read the star rating of an `aria-label` value.
fn read_star_num_label(label: &Vec<u8>) -> (r: Option<u64>)
    ensures
        r == star_milli(label@),
{
    proof {
        reveal_strlit(" stars");
        reveal_strlit(" star");
    }
    let stars_pat = ascii_bytes(" stars");
    let star_pat = ascii_bytes(" star");
    if ends_with(label, &stars_pat) {
        let x = subvec(label, 0, label.len() - 6);
        proof {
            assert(x@ =~= label@.take(label@.len() - 6));
        }
        read_star_num(&x)
    } else if ends_with(label, &star_pat) {
        let x = subvec(label, 0, label.len() - 5);
        proof {
            assert(x@ =~= label@.take(label@.len() - 5));
        }
        read_star_num(&x)
    } else {
        None
    }
}

/// The position of the `<` of the `</div` that closes the element whose
/// content starts at `i`, with `depth` elements still open.
pub open spec fn div_close(s: Seq<u8>, i: int, depth: int) -> Option<int>
    decreases s.len() - i,
{
    if i < 0 || i >= s.len() {
        None
    } else if match_at(s, sbytes("</div"@), i) {
        if depth == 0 {
            Some(i)
        } else {
            div_close(s, i + 1, depth - 1)
        }
    } else if match_at(s, sbytes("<div"@), i) {
        div_close(s, i + 1, depth + 1)
    } else {
        div_close(s, i + 1, depth)
    }
}

/// Find the `</div` that closes the element whose content starts at
/// `i`.
fn find_div_close(html: &Vec<u8>, i: usize) -> (r: Option<usize>)
    requires
        i <= html@.len(),
    ensures
        match r {
            Some(c) => div_close(html@, i as int, 0) == Some(c as int) && i <= c <= html@.len(),
            None => div_close(html@, i as int, 0) is None,
        },
{
    proof {
        reveal_strlit("</div");
        reveal_strlit("<div");
    }
    let close_pat = ascii_bytes("</div");
    let open_pat = ascii_bytes("<div");
    let n = html.len();
    let mut j: usize = i;
    let mut depth: usize = 0;
    loop
        invariant
            i <= j <= n,
            n == html@.len(),
            close_pat@ == sbytes("</div"@),
            open_pat@ == sbytes("<div"@),
            depth <= j - i,
            div_close(html@, i as int, 0) == div_close(html@, j as int, depth as int),
        decreases n - j,
    {
        if j >= n {
            return None;
        }
        let is_close = if close_pat.len() <= n - j {
            crate::text::bytes_match_at(html, &close_pat, j)
        } else {
            false
        };
        if is_close {
            if depth == 0 {
                return Some(j);
            }
            depth -= 1;
            j += 1;
            continue;
        }
        let is_open = if open_pat.len() <= n - j {
            crate::text::bytes_match_at(html, &open_pat, j)
        } else {
            false
        };
        if is_open {
            depth += 1;
        }
        j += 1;
    }
}

/// The plain text inside a review block `[a, b)`: the content of the
/// review-inner element, markup stripped and whitespace collapsed.
pub open spec fn review_text(s: Seq<u8>, a: int, b: int) -> Option<Seq<u8>> {
    match find_at(s, sbytes("class=\"review-inner\""@), a) {
        None => None,
        Some(ri) => if ri >= b {
            None
        } else {
            let te = byte_end(s, ri, 62);
            if te >= s.len() {
                None
            } else {
                match div_close(s, te + 1, 0) {
                    None => None,
                    Some(c) => Some(collapse_spec(strip_spec(s.subrange(te + 1, c)))),
                }
            }
        },
    }
}

/// Extract a review's plain text from the block `[a, b)`.
pub fn extract_review_text(html: &Vec<u8>, a: usize, b: usize) -> (r: Option<Vec<u8>>)
    requires
        a <= html@.len(),
        b <= html@.len(),
    ensures
        match r {
            Some(t) => review_text(html@, a as int, b as int) == Some(t@),
            None => review_text(html@, a as int, b as int) is None,
        },
{
    proof {
        reveal_strlit("class=\"review-inner\"");
    }
    let marker = ascii_bytes("class=\"review-inner\"");
    let ri = match find_from(html, &marker, a) {
        None => {
            return None;
        },
        Some(ri) => ri,
    };
    if ri >= b {
        return None;
    }
    let te = find_byte(html, ri, 62);
    if te >= html.len() {
        return None;
    }
    let c = match find_div_close(html, te + 1) {
        None => {
            return None;
        },
        Some(c) => c,
    };
    let raw = subvec(html, te + 1, c);
    let stripped = strip_html_tags(&raw);
    Some(collapse_ws(&stripped))
}

/// All four fields of the review in block `[a, b)`, or nothing if any
/// of them is missing.
pub open spec fn review_fields(s: Seq<u8>, a: int, b: int) -> Option<(Seq<u8>, u64, Seq<u8>, Seq<u8>)> {
    match review_author(s, a, b) {
        None => None,
        Some(author) => match review_rating(s, a, b) {
            None => None,
            Some(rating) => match review_text(s, a, b) {
                None => None,
                Some(text) => match review_date(s, a, b) {
                    None => None,
                    Some(date) => Some((author, rating, text, date)),
                },
            },
        },
    }
}

/// The reviews extracted from the blocks at or after position `i`, at
/// most `max` of them; blocks missing a field are skipped and do not
/// count against the cap.
pub open spec fn reviews_from(s: Seq<u8>, i: int, max: nat) -> Seq<(Seq<u8>, u64, Seq<u8>, Seq<u8>)>
    decreases s.len() + 1 - i,
    via reviews_from_decreases
{
    if max == 0 || i < 0 || i > s.len() {
        Seq::empty()
    } else {
        match find_at(s, sbytes("<div class=\"review\">"@), i) {
            None => Seq::empty(),
            Some(a) => {
                let b = match find_at(s, sbytes("<div class=\"review\">"@), a + 1) {
                    Some(nb) => nb,
                    None => s.len() as int,
                };
                match review_fields(s, a, b) {
                    Some(f) => seq![f] + reviews_from(s, b, (max - 1) as nat),
                    None => reviews_from(s, b, max),
                }
            },
        }
    }
}

#[via_fn]
proof fn reviews_from_decreases(s: Seq<u8>, i: int, max: nat) {
    reveal_strlit("<div class=\"review\">");
    if 0 <= i <= s.len() {
        lemma_find_at_bounds(s, sbytes("<div class=\"review\">"@), i);
        match find_at(s, sbytes("<div class=\"review\">"@), i) {
            None => {},
            Some(a) => {
                lemma_find_at_bounds(s, sbytes("<div class=\"review\">"@), a + 1);
            },
        }
    }
}

/// Tuple view of a review list.
pub open spec fn reviews_view(v: Seq<Review>) -> Seq<(Seq<u8>, u64, Seq<u8>, Seq<u8>)> {
    Seq::new(v.len(), |k: int| (v[k].author@, v[k].rating_milli, v[k].text@, v[k].posted_date@))
}

/// Parse the reviews embedded in a novel page, at most `max_reviews` of
/// them. A page without review markup yields an empty list; a review
/// missing any field is skipped, never an error.
pub fn parse_reviews_from_html(html: &Vec<u8>, max_reviews: usize) -> (r: Result<
    Vec<Review>,
    ParseError,
>)
    ensures
        r matches Ok(v) && reviews_view(v@) == reviews_from(html@, 0, max_reviews as nat)
            && v@.len() <= max_reviews,
{
    proof {
        reveal_strlit("<div class=\"review\">");
    }
    let marker = ascii_bytes("<div class=\"review\">");
    let n = html.len();
    let mut out: Vec<Review> = Vec::new();
    let mut i: usize = 0;
    proof {
        assert(reviews_view(out@) =~= Seq::<(Seq<u8>, u64, Seq<u8>, Seq<u8>)>::empty());
        assert(reviews_from(html@, 0, max_reviews as nat) == reviews_view(out@) + reviews_from(
            html@,
            i as int,
            (max_reviews - out@.len()) as nat,
        ));
    }
    loop
        invariant
            0 <= i <= n,
            n == html@.len(),
            marker@ == sbytes("<div class=\"review\">"@),
            marker@.len() >= 1,
            out@.len() <= max_reviews,
            reviews_from(html@, 0, max_reviews as nat) == reviews_view(out@) + reviews_from(
                html@,
                i as int,
                (max_reviews - out@.len()) as nat,
            ),
        decreases n + 1 - i,
    {
        if out.len() >= max_reviews {
            proof {
                assert(reviews_view(out@) + reviews_from(
                    html@,
                    i as int,
                    (max_reviews - out@.len()) as nat,
                ) =~= reviews_view(out@));
            }
            return Ok(out);
        }
        let a = match find_from(html, &marker, i) {
            None => {
                proof {
                    assert(reviews_view(out@) + reviews_from(
                        html@,
                        i as int,
                        (max_reviews - out@.len()) as nat,
                    ) =~= reviews_view(out@));
                }
                return Ok(out);
            },
            Some(a) => a,
        };
        let b: usize = match find_from(html, &marker, a + 1) {
            Some(nb) => nb,
            None => n,
        };
        let author = extract_review_author(html, a, b);
        let rating = extract_review_rating(html, a, b);
        let text = extract_review_text(html, a, b);
        let date = extract_review_date(html, a, b);
        match (author, rating, text, date) {
            (Some(author), Some(rating), Some(text), Some(date)) => {
                let rv = Review { author, rating_milli: rating, text, posted_date: date };
                proof {
                    let f = review_fields(html@, a as int, b as int)->Some_0;
                    assert(reviews_view(out@.push(rv)) =~= reviews_view(out@) + seq![f]);
                    assert(reviews_view(out@) + (seq![f] + reviews_from(
                        html@,
                        b as int,
                        (max_reviews - out@.len() - 1) as nat,
                    )) =~= (reviews_view(out@) + seq![f]) + reviews_from(
                        html@,
                        b as int,
                        (max_reviews - out@.len() - 1) as nat,
                    ));
                }
                out.push(rv);
            },
            _ => {},
        }
        i = b;
        if i >= n {
            proof {
                assert(reviews_from(html@, i as int, (max_reviews - out@.len()) as nat)
                    =~= Seq::<(Seq<u8>, u64, Seq<u8>, Seq<u8>)>::empty());
                assert(reviews_view(out@) + reviews_from(
                    html@,
                    i as int,
                    (max_reviews - out@.len()) as nat,
                ) =~= reviews_view(out@));
            }
            return Ok(out);
        }
    }
}

} // verus!
