//! Extraction of domain records from fetched page content.
//!
//! The submodules map raw page bytes into novels, reviews and search
//! results; this root holds the markup-scanning helpers they share.
//! Fetching itself is left to the caller: every function here takes the
//! already-fetched bytes.

pub mod novel_page;
pub mod reviews;
pub mod search;

use vstd::prelude::*;
use crate::text::{ascii_bytes, dec_spec, match_at, sbytes, u64_to_dec};

verus! {

/// The first position at or after `i` holding the byte `b`, or the end.
pub open spec fn byte_end(s: Seq<u8>, i: int, b: u8) -> int
    decreases s.len() - i,
{
    if i < 0 || i >= s.len() {
        s.len() as int
    } else if s[i] == b {
        i
    } else {
        byte_end(s, i + 1, b)
    }
}

pub proof fn lemma_byte_end_bounds(s: Seq<u8>, i: int, b: u8)
    requires
        0 <= i <= s.len(),
    ensures
        i <= byte_end(s, i, b) <= s.len(),
    decreases s.len() - i,
{
    if i < s.len() && s[i] != b {
        lemma_byte_end_bounds(s, i + 1, b);
    }
}

/// Advance to the next occurrence of byte `b`, or the end.
pub fn find_byte(s: &Vec<u8>, i: usize, b: u8) -> (r: usize)
    requires
        i <= s@.len(),
    ensures
        r == byte_end(s@, i as int, b),
        i <= r <= s@.len(),
{
    let mut j: usize = i;
    while j < s.len()
        invariant
            i <= j <= s@.len(),
            byte_end(s@, i as int, b) == byte_end(s@, j as int, b),
        decreases s@.len() - j,
    {
        if s[j] == b {
            return j;
        }
        j += 1;
    }
    j
}

/// The value of the first attribute written `pat` (such as ` class="`)
/// inside the tag span `[ts, te)`: the bytes up to the closing quote.
pub open spec fn attr_value(s: Seq<u8>, ts: int, te: int, pat: Seq<u8>) -> Option<Seq<u8>> {
    match crate::text::find_at(s, pat, ts) {
        None => None,
        Some(p) => if p + pat.len() >= te {
            None
        } else {
            let v0 = p + pat.len();
            let q = byte_end(s, v0, 34);
            if q >= te {
                None
            } else {
                Some(s.subrange(v0, q))
            }
        },
    }
}

/// Read the first attribute written `pat` inside the tag span
/// `[ts, te)`.
pub fn read_attr_value(s: &Vec<u8>, ts: usize, te: usize, pat: &Vec<u8>) -> (r: Option<Vec<u8>>)
    requires
        ts <= s@.len(),
        te <= s@.len(),
        pat@.len() >= 1,
    ensures
        match r {
            Some(v) => attr_value(s@, ts as int, te as int, pat@) == Some(v@),
            None => attr_value(s@, ts as int, te as int, pat@) is None,
        },
{
    let n = s.len();
    match crate::text::find_from(s, pat, ts) {
        None => None,
        Some(p) => {
            assert(p + pat@.len() <= n);
            if p + pat.len() >= te {
                return None;
            }
            let v0 = p + pat.len();
            let q = find_byte(s, v0, 34);
            if q >= te {
                return None;
            }
            Some(crate::text::subvec(s, v0, q))
        },
    }
}

/// The first space-separated token boundary at or after `i` in `v`.
pub open spec fn space_end(v: Seq<u8>, i: int) -> int
    decreases v.len() - i,
{
    byte_end(v, i, 32)
}

/// Whether one of the space-separated tokens of `v`, from position `i`
/// on, equals `tok`.
pub open spec fn has_token_from(v: Seq<u8>, i: int, tok: Seq<u8>) -> bool
    decreases v.len() + 1 - i,
    via has_token_from_decreases
{
    if i < 0 || i > v.len() {
        false
    } else {
        let e = space_end(v, i);
        if v.subrange(i, e) == tok {
            true
        } else if e >= v.len() {
            false
        } else {
            has_token_from(v, e + 1, tok)
        }
    }
}

#[via_fn]
proof fn has_token_from_decreases(v: Seq<u8>, i: int, tok: Seq<u8>) {
    if 0 <= i <= v.len() {
        lemma_byte_end_bounds(v, i, 32);
    }
}

/// Whether one of the space-separated tokens of `v` equals `tok`.
pub open spec fn has_token(v: Seq<u8>, tok: Seq<u8>) -> bool {
    has_token_from(v, 0, tok)
}

/// Check whether `v`, split on spaces, contains the token `tok`.
pub fn check_token(v: &Vec<u8>, tok: &Vec<u8>) -> (r: bool)
    ensures
        r == has_token(v@, tok@),
{
    let mut i: usize = 0;
    loop
        invariant
            0 <= i <= v@.len(),
            has_token(v@, tok@) == has_token_from(v@, i as int, tok@),
        decreases v@.len() + 1 - i,
    {
        let e = find_byte(v, i, 32);
        let seg = crate::text::subvec(v, i, e);
        if crate::text::eq_bytes(&seg, tok) {
            return true;
        }
        if e >= v.len() {
            return false;
        }
        i = e + 1;
    }
}

/// The canonical URL of a novel page.
pub open spec fn novel_url_bytes(id: u64) -> Seq<u8> {
    sbytes("https://www.royalroad.com/fiction/"@) + dec_spec(id as nat)
}

/// Build the canonical URL of a novel page.
pub fn novel_url(novel_id: u64) -> (r: Vec<u8>)
    ensures
        r@ == novel_url_bytes(novel_id),
{
    proof {
        reveal_strlit("https://www.royalroad.com/fiction/");
    }
    let mut r = ascii_bytes("https://www.royalroad.com/fiction/");
    let digits = u64_to_dec(novel_id);
    crate::text::push_all(&mut r, &digits);
    r
}

/// The URL of the related-novels payload for a novel.
pub open spec fn similar_url_bytes(id: u64) -> Seq<u8> {
    sbytes("https://www.royalroad.com/fictions/similar?fictionId="@) + dec_spec(id as nat)
}

/// Build the URL of the related-novels payload for a novel.
pub fn similar_url(novel_id: u64) -> (r: Vec<u8>)
    ensures
        r@ == similar_url_bytes(novel_id),
{
    proof {
        reveal_strlit("https://www.royalroad.com/fictions/similar?fictionId=");
    }
    let mut r = ascii_bytes("https://www.royalroad.com/fictions/similar?fictionId=");
    let digits = u64_to_dec(novel_id);
    crate::text::push_all(&mut r, &digits);
    r
}

} // verus!
