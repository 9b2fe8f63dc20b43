//! A position-based reader for the structured data payloads embedded in
//! fetched pages: object member lookup, array element spans, strings
//! with the common escapes, and fixed-point numbers.
//!
//! The grammar covered is the subset these payloads use: objects,
//! arrays, strings without `\u` escapes, numbers without exponents, and
//! the three literals. Nothing is built into a tree; every function
//! works on byte positions in the original buffer.

use vstd::prelude::*;
use crate::text::{all_digits, digits_val, is_digit, is_ws};

verus! {

/// The first position at or after `i` holding a non-whitespace byte.
pub open spec fn ws_end(s: Seq<u8>, i: int) -> int
    decreases s.len() - i,
{
    if i < 0 || i >= s.len() {
        s.len() as int
    } else if is_ws(s[i]) {
        ws_end(s, i + 1)
    } else {
        i
    }
}

pub proof fn lemma_ws_end_bounds(s: Seq<u8>, i: int)
    requires
        0 <= i <= s.len(),
    ensures
        i <= ws_end(s, i) <= s.len(),
        ws_end(s, i) < s.len() ==> !is_ws(s[ws_end(s, i)]),
    decreases s.len() - i,
{
    if i < s.len() && is_ws(s[i]) {
        lemma_ws_end_bounds(s, i + 1);
    }
}

/// Advance past whitespace.
pub fn skip_ws(s: &Vec<u8>, i: usize) -> (r: usize)
    requires
        i <= s@.len(),
    ensures
        r == ws_end(s@, i as int),
        i <= r <= s@.len(),
{
    let mut j: usize = i;
    while j < s.len()
        invariant
            i <= j <= s@.len(),
            ws_end(s@, i as int) == ws_end(s@, j as int),
        decreases s@.len() - j,
    {
        let b = s[j];
        if !(b == 32 || b == 9 || b == 10 || b == 13) {
            return j;
        }
        j += 1;
    }
    j
}

/// The character written by a backslash escape, if it is one we accept.
pub open spec fn escape_char(c: u8) -> Option<u8> {
    if c == 34 {
        Some(34u8)
    } else if c == 92 {
        Some(92u8)
    } else if c == 47 {
        Some(47u8)
    } else if c == 98 {
        Some(8u8)
    } else if c == 102 {
        Some(12u8)
    } else if c == 110 {
        Some(10u8)
    } else if c == 114 {
        Some(13u8)
    } else if c == 116 {
        Some(9u8)
    } else {
        None
    }
}

/// The unescaped content of a string whose opening quote stands just
/// before `i`, and the position after its closing quote.
pub open spec fn str_content(s: Seq<u8>, i: int) -> Option<(Seq<u8>, int)>
    decreases s.len() - i,
{
    if i < 0 || i >= s.len() {
        None
    } else if s[i] == 34 {
        Some((Seq::empty(), i + 1))
    } else if s[i] == 92 {
        if i + 1 >= s.len() {
            None
        } else {
            match escape_char(s[i + 1]) {
                None => None,
                Some(c) => match str_content(s, i + 2) {
                    None => None,
                    Some((rest, end)) => Some((seq![c] + rest, end)),
                },
            }
        }
    } else if s[i] < 32 {
        None
    } else {
        match str_content(s, i + 1) {
            None => None,
            Some((rest, end)) => Some((seq![s[i]] + rest, end)),
        }
    }
}

proof fn lemma_str_content_bounds(s: Seq<u8>, i: int)
    requires
        0 <= i,
    ensures
        match str_content(s, i) {
            Some((t, e)) => i < e <= s.len(),
            None => true,
        },
    decreases s.len() - i,
{
    if 0 <= i < s.len() {
        if s[i] == 34 {
        } else if s[i] == 92 {
            if i + 1 < s.len() {
                lemma_str_content_bounds(s, i + 2);
            }
        } else if s[i] >= 32 {
            lemma_str_content_bounds(s, i + 1);
        }
    }
}

/// Read the rest of a string from position `i` (just after the opening
/// quote): its unescaped bytes and the position after the closing quote.
pub fn read_str_content(s: &Vec<u8>, i: usize) -> (r: Option<(Vec<u8>, usize)>)
    requires
        i <= s@.len(),
    ensures
        match r {
            Some((t, e)) => str_content(s@, i as int) == Some((t@, e as int)) && i < e <= s@.len(),
            None => str_content(s@, i as int) is None,
        },
{
    let mut out: Vec<u8> = Vec::new();
    let mut j: usize = i;
    loop
        invariant
            i <= j <= s@.len(),
            str_content(s@, i as int) == (match str_content(s@, j as int) {
                Some((t, e)) => Some((out@ + t, e)),
                None => None::<(Seq<u8>, int)>,
            }),
        decreases s@.len() - j,
    {
        if j >= s.len() {
            return None;
        }
        let b = s[j];
        if b == 34 {
            proof {
                assert(out@ + Seq::<u8>::empty() =~= out@);
            }
            return Some((out, j + 1));
        } else if b == 92 {
            if j + 1 >= s.len() {
                return None;
            }
            let c = s[j + 1];
            let ec: Option<u8> = if c == 34 {
                Some(34)
            } else if c == 92 {
                Some(92)
            } else if c == 47 {
                Some(47)
            } else if c == 98 {
                Some(8)
            } else if c == 102 {
                Some(12)
            } else if c == 110 {
                Some(10)
            } else if c == 114 {
                Some(13)
            } else if c == 116 {
                Some(9)
            } else {
                None
            };
            match ec {
                None => {
                    return None;
                },
                Some(ch) => {
                    proof {
                        if str_content(s@, j + 2) is Some {
                            let t = str_content(s@, j + 2)->Some_0.0;
                            assert(out@ + (seq![ch] + t) =~= (out@ + seq![ch]) + t);
                        }
                    }
                    out.push(ch);
                    j += 2;
                },
            }
        } else if b < 32 {
            return None;
        } else {
            proof {
                if str_content(s@, j + 1) is Some {
                    let t = str_content(s@, j + 1)->Some_0.0;
                    assert(out@ + (seq![b] + t) =~= (out@ + seq![b]) + t);
                }
            }
            out.push(b);
            j += 1;
        }
    }
}

/// The first position at or after `i` holding a non-digit byte.
pub open spec fn digits_end(s: Seq<u8>, i: int) -> int
    decreases s.len() - i,
{
    if i < 0 || i >= s.len() {
        s.len() as int
    } else if is_digit(s[i]) {
        digits_end(s, i + 1)
    } else {
        i
    }
}

pub proof fn lemma_digits_end_bounds(s: Seq<u8>, i: int)
    requires
        0 <= i <= s.len(),
    ensures
        i <= digits_end(s, i) <= s.len(),
        all_digits(s.subrange(i, digits_end(s, i))),
    decreases s.len() - i,
{
    if i < s.len() && is_digit(s[i]) {
        lemma_digits_end_bounds(s, i + 1);
        assert forall|k: int| 0 <= k < digits_end(s, i) - i implies is_digit(
            #[trigger] s.subrange(i, digits_end(s, i))[k],
        ) by {
            if k > 0 {
                assert(s.subrange(i + 1, digits_end(s, i + 1))[k - 1] == s.subrange(
                    i,
                    digits_end(s, i),
                )[k]);
            }
        }
    }
}

/// Advance past decimal digits.
pub fn skip_digits(s: &Vec<u8>, i: usize) -> (r: usize)
    requires
        i <= s@.len(),
    ensures
        r == digits_end(s@, i as int),
        i <= r <= s@.len(),
{
    let mut j: usize = i;
    while j < s.len()
        invariant
            i <= j <= s@.len(),
            digits_end(s@, i as int) == digits_end(s@, j as int),
        decreases s@.len() - j,
    {
        let b = s[j];
        if b < 48 || b > 57 {
            return j;
        }
        j += 1;
    }
    j
}

/// A byte that ends a bare scalar token: a separator, a bracket, or
/// whitespace.
pub open spec fn is_delim(b: u8) -> bool {
    b == 44 || b == 125 || b == 93 || is_ws(b)
}

/// The end of the bare scalar token starting at `i`.
pub open spec fn scalar_end(s: Seq<u8>, i: int) -> Option<int>
    decreases s.len() - i,
{
    if i < 0 || i >= s.len() {
        Some(i)
    } else if is_delim(s[i]) {
        Some(i)
    } else {
        scalar_end(s, i + 1)
    }
}

proof fn lemma_scalar_end_bounds(s: Seq<u8>, i: int)
    requires
        0 <= i <= s.len(),
    ensures
        match scalar_end(s, i) {
            Some(e) => i <= e <= s.len(),
            None => true,
        },
    decreases s.len() - i,
{
    if i < s.len() && !is_delim(s[i]) {
        lemma_scalar_end_bounds(s, i + 1);
    }
}

/// The position just past the value that starts at `i`, found by
/// bracket counting; strings are skipped atomically with their escapes.
/// `depth` counts open brackets, `in_str` and `esc` track string state.
pub open spec fn skip_value_from(s: Seq<u8>, i: int, depth: int, in_str: bool, esc: bool) -> Option<
    int,
>
    decreases s.len() - i,
{
    if i < 0 || i >= s.len() {
        None
    } else if in_str {
        if esc {
            skip_value_from(s, i + 1, depth, true, false)
        } else if s[i] == 92 {
            skip_value_from(s, i + 1, depth, true, true)
        } else if s[i] == 34 {
            if depth == 0 {
                Some(i + 1)
            } else {
                skip_value_from(s, i + 1, depth, false, false)
            }
        } else {
            skip_value_from(s, i + 1, depth, true, false)
        }
    } else if s[i] == 123 || s[i] == 91 {
        skip_value_from(s, i + 1, depth + 1, false, false)
    } else if s[i] == 125 || s[i] == 93 {
        if depth <= 0 {
            None
        } else if depth == 1 {
            Some(i + 1)
        } else {
            skip_value_from(s, i + 1, depth - 1, false, false)
        }
    } else if s[i] == 34 {
        skip_value_from(s, i + 1, depth, true, false)
    } else if depth > 0 {
        skip_value_from(s, i + 1, depth, false, false)
    } else {
        match scalar_end(s, i) {
            Some(e) => if e > i {
                Some(e)
            } else {
                None
            },
            None => None,
        }
    }
}

/// The position just past the value starting at `i`.
pub open spec fn value_end(s: Seq<u8>, i: int) -> Option<int> {
    skip_value_from(s, i, 0, false, false)
}

proof fn lemma_skip_value_bounds(s: Seq<u8>, i: int, depth: int, in_str: bool, esc: bool)
    requires
        0 <= i <= s.len(),
    ensures
        match skip_value_from(s, i, depth, in_str, esc) {
            Some(e) => i <= e <= s.len(),
            None => true,
        },
    decreases s.len() - i,
{
    if i < s.len() {
        lemma_skip_value_bounds(s, i + 1, depth + 1, false, false);
        lemma_skip_value_bounds(s, i + 1, depth - 1, false, false);
        lemma_skip_value_bounds(s, i + 1, depth, false, false);
        lemma_skip_value_bounds(s, i + 1, depth, true, false);
        lemma_skip_value_bounds(s, i + 1, depth, true, true);
        lemma_scalar_end_bounds(s, i);
    }
}

/// Find the position just past the value starting at `i`.
pub fn find_value_end(s: &Vec<u8>, i: usize) -> (r: Option<usize>)
    requires
        i <= s@.len(),
    ensures
        match r {
            Some(e) => value_end(s@, i as int) == Some(e as int) && i < e <= s@.len(),
            None => value_end(s@, i as int) is None,
        },
{
    let mut j: usize = i;
    let mut depth: usize = 0;
    let mut in_str: bool = false;
    let mut esc: bool = false;
    loop
        invariant
            i <= j <= s@.len(),
            depth <= j - i,
            (depth == 0 && !in_str) ==> j == i,
            !in_str ==> !esc,
            value_end(s@, i as int) == skip_value_from(
                s@,
                j as int,
                depth as int,
                in_str,
                esc,
            ),
        decreases s@.len() - j,
    {
        if j >= s.len() {
            return None;
        }
        let b = s[j];
        if in_str {
            if esc {
                esc = false;
            } else if b == 92 {
                esc = true;
            } else if b == 34 {
                if depth == 0 {
                    return Some(j + 1);
                }
                in_str = false;
            }
            j += 1;
        } else if b == 123 || b == 91 {
            depth += 1;
            j += 1;
        } else if b == 125 || b == 93 {
            if depth == 0 {
                return None;
            }
            if depth == 1 {
                return Some(j + 1);
            }
            depth -= 1;
            j += 1;
        } else if b == 34 {
            in_str = true;
            j += 1;
        } else if depth > 0 {
            j += 1;
        } else {
            let e = skip_scalar(s, j);
            if e == j {
                // a bare delimiter is not a value
                return None;
            }
            return Some(e);
        }
    }
}

/// Advance to the end of a bare scalar token.
fn skip_scalar(s: &Vec<u8>, i: usize) -> (r: usize)
    requires
        i <= s@.len(),
    ensures
        scalar_end(s@, i as int) == Some(r as int),
        i <= r <= s@.len(),
{
    let mut j: usize = i;
    while j < s.len()
        invariant
            i <= j <= s@.len(),
            scalar_end(s@, i as int) == scalar_end(s@, j as int),
        decreases s@.len() - j,
    {
        let b = s[j];
        if b == 44 || b == 125 || b == 93 || b == 32 || b == 9 || b == 10 || b == 13 {
            return j;
        }
        j += 1;
    }
    j
}


/// An unsigned integer token at `i`: digits only, ending at a
/// delimiter or the end of the buffer, fitting in a `u64`.
pub open spec fn num_u64_at(s: Seq<u8>, i: int) -> Option<u64> {
    let d = digits_end(s, i);
    if 0 <= i && d > i && (d >= s.len() || is_delim(s[d])) && digits_val(s.subrange(i, d))
        <= u64::MAX {
        Some(digits_val(s.subrange(i, d)) as u64)
    } else {
        None
    }
}

/// Read an unsigned integer token.
pub fn read_u64_at(s: &Vec<u8>, i: usize) -> (r: Option<u64>)
    requires
        i <= s@.len(),
    ensures
        r == num_u64_at(s@, i as int),
{
    let d = skip_digits(s, i);
    if d == i {
        return None;
    }
    if d < s.len() {
        let b = s[d];
        if !(b == 44 || b == 125 || b == 93 || b == 32 || b == 9 || b == 10 || b == 13) {
            return None;
        }
    }
    proof {
        lemma_digits_end_bounds(s@, i as int);
    }
    let digits = crate::text::subvec(s, i, d);
    match crate::text::parse_u64(&digits) {
        Some(n) => Some(n),
        None => None,
    }
}

/// The value of up to three leading fractional digit bytes, read in
/// thousandths; digits beyond the third are dropped.
pub open spec fn frac_milli(fd: Seq<u8>) -> nat {
    if fd.len() >= 3 {
        digits_val(fd.take(3))
    } else if fd.len() == 2 {
        digits_val(fd) * 10
    } else if fd.len() == 1 {
        digits_val(fd) * 100
    } else {
        0
    }
}

/// A non-negative decimal number token at `i`, read in thousandths.
pub open spec fn num_milli_at(s: Seq<u8>, i: int) -> Option<u64> {
    let d = digits_end(s, i);
    if !(0 <= i && d > i) {
        None
    } else {
        let whole = digits_val(s.subrange(i, d));
        if d < s.len() && s[d] == 46 {
            let f = digits_end(s, d + 1);
            if f == d + 1 {
                None
            } else if f < s.len() && !is_delim(s[f]) {
                None
            } else if whole * 1000 + frac_milli(s.subrange(d + 1, f)) <= u64::MAX {
                Some((whole * 1000 + frac_milli(s.subrange(d + 1, f))) as u64)
            } else {
                None
            }
        } else if d < s.len() && !is_delim(s[d]) {
            None
        } else if whole * 1000 <= u64::MAX {
            Some((whole * 1000) as u64)
        } else {
            None
        }
    }
}

pub proof fn lemma_small_digits_val(fd: Seq<u8>)
    requires
        all_digits(fd),
        fd.len() <= 3,
    ensures
        digits_val(fd) <= 999,
{
    if fd.len() == 1 {
        lemma_one_digit_val(fd);
    } else if fd.len() == 2 {
        lemma_two_digit_val(fd);
    } else if fd.len() == 3 {
        lemma_two_digit_val(fd.drop_last());
    }
}

pub proof fn lemma_one_digit_val(fd: Seq<u8>)
    requires
        all_digits(fd),
        fd.len() == 1,
    ensures
        digits_val(fd) <= 9,
{
    assert(digits_val(fd.drop_last()) == 0);
}

pub proof fn lemma_two_digit_val(fd: Seq<u8>)
    requires
        all_digits(fd),
        fd.len() == 2,
    ensures
        digits_val(fd) <= 99,
{
    lemma_one_digit_val(fd.drop_last());
}

/// Read a non-negative decimal number token, in thousandths.
pub fn read_milli_at(s: &Vec<u8>, i: usize) -> (r: Option<u64>)
    requires
        i <= s@.len(),
    ensures
        r == num_milli_at(s@, i as int),
{
    let d = skip_digits(s, i);
    if d == i {
        return None;
    }
    proof {
        lemma_digits_end_bounds(s@, i as int);
    }
    let whole: u64 = match crate::text::parse_u64(&crate::text::subvec(s, i, d)) {
        Some(n) => n,
        None => {
            proof {
                let w = digits_val(s@.subrange(i as int, d as int));
                assert(w * 1000 >= w) by (nonlinear_arith);
                assert(w * 1000 + frac_milli(
                    s@.subrange(d as int + 1, digits_end(s@, d as int + 1)),
                ) >= w) by (nonlinear_arith);
            }
            return None;
        },
    };
    if d < s.len() && s[d] == 46 {
        let f = skip_digits(s, d + 1);
        if f == d + 1 {
            return None;
        }
        if f < s.len() {
            let b = s[f];
            if !(b == 44 || b == 125 || b == 93 || b == 32 || b == 9 || b == 10 || b == 13) {
                return None;
            }
        }
        proof {
            lemma_digits_end_bounds(s@, d as int + 1);
        }
        let take_end: usize = if f - d > 4 {
            d + 4
        } else {
            f
        };
        let fd = crate::text::subvec(s, d + 1, take_end);
        proof {
            let full = s@.subrange(d as int + 1, f as int);
            if f - d > 4 {
                assert(fd@ =~= full.take(3));
            } else {
                assert(fd@ =~= full);
                if full.len() >= 3 {
                    assert(full.take(3) =~= full);
                }
            }
            assert(all_digits(fd@)) by {
                assert(forall|k: int|
                    0 <= k < fd@.len() ==> fd@[k] == #[trigger] full[k] && is_digit(full[k]));
            }
            if fd@.len() == 1 {
                lemma_one_digit_val(fd@);
            } else if fd@.len() == 2 {
                lemma_two_digit_val(fd@);
            } else {
                lemma_small_digits_val(fd@);
            }
        }
        let fv: u64 = match crate::text::parse_u64(&fd) {
            Some(n) => n,
            None => {
                proof {
                    assert(false);
                }
                0
            },
        };
        let frac: u64 = if fd.len() >= 3 {
            fv
        } else if fd.len() == 2 {
            fv * 10
        } else {
            fv * 100
        };
        proof {
            assert(frac == frac_milli(s@.subrange(d as int + 1, f as int)));
            assert(frac <= 999);
        }
        if whole > (u64::MAX - frac) / 1000 {
            proof {
                let w = whole as nat;
                assert(w * 1000 + frac > u64::MAX) by (nonlinear_arith)
                    requires
                        w > ((u64::MAX - frac) / 1000) as nat,
                        frac <= 999,
                {}
            }
            return None;
        }
        proof {
            assert(whole * 1000 + frac <= u64::MAX) by (nonlinear_arith)
                requires
                    whole <= (u64::MAX - frac) / 1000,
                    frac <= 999,
            {}
        }
        Some(whole * 1000 + frac)
    } else {
        if d < s.len() {
            let b = s[d];
            if !(b == 44 || b == 125 || b == 93 || b == 32 || b == 9 || b == 10 || b == 13) {
                return None;
            }
        }
        if whole > u64::MAX / 1000 {
            proof {
                assert(whole * 1000 > u64::MAX) by (nonlinear_arith)
                    requires
                        whole > u64::MAX / 1000,
                {}
            }
            return None;
        }
        proof {
            assert(whole * 1000 <= u64::MAX) by (nonlinear_arith)
                requires
                    whole <= u64::MAX / 1000,
            {}
        }
        Some(whole * 1000)
    }
}

/// The unescaped content of the string whose opening quote stands at
/// `i`.
pub open spec fn str_at(s: Seq<u8>, i: int) -> Option<Seq<u8>> {
    if 0 <= i < s.len() && s[i] == 34 {
        match str_content(s, i + 1) {
            Some((t, _)) => Some(t),
            None => None,
        }
    } else {
        None
    }
}

/// Read the string whose opening quote stands at `i`.
pub fn read_str_at(s: &Vec<u8>, i: usize) -> (r: Option<Vec<u8>>)
    requires
        i <= s@.len(),
    ensures
        match r {
            Some(t) => str_at(s@, i as int) == Some(t@),
            None => str_at(s@, i as int) is None,
        },
{
    if i >= s.len() || s[i] != 34 {
        return None;
    }
    match read_str_content(s, i + 1) {
        Some((t, _)) => Some(t),
        None => None,
    }
}

/// The span of the value of the first member with the given key,
/// scanning members from position `i`.
pub open spec fn member_value(s: Seq<u8>, i: int, key: Seq<u8>) -> Option<(int, int)>
    decreases s.len() + 1 - i,
    via member_value_decreases
{
    if i < 0 || i > s.len() {
        None
    } else {
        let j = ws_end(s, i);
        if j >= s.len() {
            None
        } else if s[j] == 125 {
            None
        } else if s[j] != 34 {
            None
        } else {
            match str_content(s, j + 1) {
                None => None,
                Some((k, ak)) => {
                    let c = ws_end(s, ak);
                    if c >= s.len() || s[c] != 58 {
                        None
                    } else {
                        let v0 = ws_end(s, c + 1);
                        match value_end(s, v0) {
                            None => None,
                            Some(ve) => if k == key {
                                Some((v0, ve))
                            } else {
                                let dd = ws_end(s, ve);
                                if dd < s.len() && s[dd] == 44 {
                                    member_value(s, dd + 1, key)
                                } else {
                                    None
                                }
                            },
                        }
                    }
                },
            }
        }
    }
}

#[via_fn]
proof fn member_value_decreases(s: Seq<u8>, i: int, key: Seq<u8>) {
    if 0 <= i <= s.len() {
        lemma_ws_end_bounds(s, i);
        let j = ws_end(s, i);
        if j < s.len() && s[j] == 34 {
            lemma_str_content_bounds(s, j + 1);
            match str_content(s, j + 1) {
                None => {},
                Some((k, ak)) => {
                    lemma_ws_end_bounds(s, ak);
                    let c = ws_end(s, ak);
                    if c < s.len() {
                        lemma_ws_end_bounds(s, c + 1);
                        let v0 = ws_end(s, c + 1);
                        lemma_skip_value_bounds(s, v0, 0, false, false);
                        match value_end(s, v0) {
                            None => {},
                            Some(ve) => {
                                lemma_ws_end_bounds(s, ve);
                            },
                        }
                    }
                },
            }
        }
    }
}

/// The span of the value of the first member with the given key in the
/// object starting at `i`.
pub open spec fn obj_value(s: Seq<u8>, i: int, key: Seq<u8>) -> Option<(int, int)> {
    if 0 <= i < s.len() && s[i] == 123 {
        member_value(s, i + 1, key)
    } else {
        None
    }
}

/// Look up a member value span in the object starting at `i`.
pub fn get_member(s: &Vec<u8>, i: usize, key: &Vec<u8>) -> (r: Option<(usize, usize)>)
    requires
        i <= s@.len(),
    ensures
        match r {
            Some(span) => obj_value(s@, i as int, key@) == Some((span.0 as int, span.1 as int))
                && i < span.0 && span.0 < span.1 <= s@.len(),
            None => obj_value(s@, i as int, key@) is None,
        },
{
    if i >= s.len() || s[i] != 123 {
        return None;
    }
    let mut pos: usize = i + 1;
    loop
        invariant
            i < pos <= s@.len(),
            obj_value(s@, i as int, key@) == member_value(s@, pos as int, key@),
        decreases s@.len() + 1 - pos,
    {
        if pos > s.len() {
            return None;
        }
        let j = skip_ws(s, pos);
        if j >= s.len() {
            return None;
        }
        if s[j] == 125 {
            return None;
        }
        if s[j] != 34 {
            return None;
        }
        let kak = match read_str_content(s, j + 1) {
            None => {
                return None;
            },
            Some(p) => p,
        };
        let k = kak.0;
        let ak = kak.1;
        let c = skip_ws(s, ak);
        if c >= s.len() {
            return None;
        }
        if s[c] != 58 {
            return None;
        }
        let v0 = skip_ws(s, c + 1);
        let ve = match find_value_end(s, v0) {
            None => {
                return None;
            },
            Some(e) => e,
        };
        if crate::text::eq_bytes(&k, key) {
            return Some((v0, ve));
        }
        let dd = skip_ws(s, ve);
        if dd < s.len() && s[dd] == 44 {
            pos = dd + 1;
        } else {
            return None;
        }
    }
}

/// The spans of the elements of an array, scanning from position `i`
/// (just inside the opening bracket).
pub open spec fn elems_from(s: Seq<u8>, i: int) -> Option<Seq<(int, int)>>
    decreases s.len() + 1 - i,
    via elems_from_decreases
{
    if i < 0 || i > s.len() {
        None
    } else {
        let j = ws_end(s, i);
        if j >= s.len() {
            None
        } else if s[j] == 93 {
            Some(Seq::empty())
        } else {
            match value_end(s, j) {
                None => None,
                Some(e) => {
                    let dd = ws_end(s, e);
                    if dd < s.len() && s[dd] == 44 {
                        match elems_from(s, dd + 1) {
                            None => None,
                            Some(rest) => Some(seq![(j, e)] + rest),
                        }
                    } else if dd < s.len() && s[dd] == 93 {
                        Some(seq![(j, e)])
                    } else {
                        None
                    }
                },
            }
        }
    }
}

#[via_fn]
proof fn elems_from_decreases(s: Seq<u8>, i: int) {
    if 0 <= i <= s.len() {
        lemma_ws_end_bounds(s, i);
        let j = ws_end(s, i);
        if j < s.len() {
            lemma_skip_value_bounds(s, j, 0, false, false);
            match value_end(s, j) {
                None => {},
                Some(e) => {
                    lemma_ws_end_bounds(s, e);
                },
            }
        }
    }
}

/// The element spans of the array starting at `i`.
pub open spec fn arr_elems(s: Seq<u8>, i: int) -> Option<Seq<(int, int)>> {
    if 0 <= i < s.len() && s[i] == 91 {
        elems_from(s, i + 1)
    } else {
        None
    }
}

/// Integer views of the collected spans.
pub open spec fn spans_view(v: Seq<(usize, usize)>) -> Seq<(int, int)> {
    Seq::new(v.len(), |k: int| (v[k].0 as int, v[k].1 as int))
}

/// Collect the element spans of the array starting at `i`.
pub fn get_elems(s: &Vec<u8>, i: usize) -> (r: Option<Vec<(usize, usize)>>)
    requires
        i <= s@.len(),
    ensures
        match r {
            Some(v) => arr_elems(s@, i as int) == Some(spans_view(v@)) && forall|k: int|
                0 <= k < v@.len() ==> (#[trigger] v@[k]).0 < v@[k].1 <= s@.len(),
            None => arr_elems(s@, i as int) is None,
        },
{
    if i >= s.len() || s[i] != 91 {
        return None;
    }
    let mut out: Vec<(usize, usize)> = Vec::new();
    let mut pos: usize = i + 1;
    proof {
        assert(spans_view(out@) =~= Seq::<(int, int)>::empty());
    }
    loop
        invariant
            i < pos <= s@.len() + 1,
            arr_elems(s@, i as int) == (match elems_from(s@, pos as int) {
                Some(rest) => Some(spans_view(out@) + rest),
                None => None::<Seq<(int, int)>>,
            }),
            forall|k: int| 0 <= k < out@.len() ==> (#[trigger] out@[k]).0 < out@[k].1 <= s@.len(),
        decreases s@.len() + 1 - pos,
    {
        if pos > s.len() {
            return None;
        }
        let j = skip_ws(s, pos);
        if j >= s.len() {
            return None;
        }
        if s[j] == 93 {
            proof {
                assert(spans_view(out@) + Seq::<(int, int)>::empty() =~= spans_view(out@));
            }
            return Some(out);
        }
        let e = match find_value_end(s, j) {
            None => {
                return None;
            },
            Some(e) => e,
        };
        let dd = skip_ws(s, e);
        if dd < s.len() {
            let b = s[dd];
            if b == 44 {
                proof {
                    if elems_from(s@, dd + 1) is Some {
                        let rest = elems_from(s@, dd + 1)->Some_0;
                        assert(spans_view(out@.push((j, e))) + rest =~= spans_view(out@) + (seq![
                            (j as int, e as int),
                        ] + rest));
                    }
                }
                out.push((j, e));
                pos = dd + 1;
            } else if b == 93 {
                proof {
                    assert(spans_view(out@.push((j, e))) =~= spans_view(out@) + seq![
                        (j as int, e as int),
                    ]);
                }
                out.push((j, e));
                return Some(out);
            } else {
                return None;
            }
        } else {
            return None;
        }
    }
}


/// The members of an object, scanning from position `i` (just inside
/// the opening brace): each key with its value span, in order.
pub open spec fn members_from(s: Seq<u8>, i: int) -> Option<Seq<(Seq<u8>, (int, int))>>
    decreases s.len() + 1 - i,
    via members_from_decreases
{
    if i < 0 || i > s.len() {
        None
    } else {
        let j = ws_end(s, i);
        if j >= s.len() {
            None
        } else if s[j] == 125 {
            Some(Seq::empty())
        } else if s[j] != 34 {
            None
        } else {
            match str_content(s, j + 1) {
                None => None,
                Some((k, ak)) => {
                    let c = ws_end(s, ak);
                    if c >= s.len() || s[c] != 58 {
                        None
                    } else {
                        let v0 = ws_end(s, c + 1);
                        match value_end(s, v0) {
                            None => None,
                            Some(ve) => {
                                let dd = ws_end(s, ve);
                                if dd < s.len() && s[dd] == 44 {
                                    match members_from(s, dd + 1) {
                                        None => None,
                                        Some(rest) => Some(seq![(k, (v0, ve))] + rest),
                                    }
                                } else if dd < s.len() && s[dd] == 125 {
                                    Some(seq![(k, (v0, ve))])
                                } else {
                                    None
                                }
                            },
                        }
                    }
                },
            }
        }
    }
}

#[via_fn]
proof fn members_from_decreases(s: Seq<u8>, i: int) {
    if 0 <= i <= s.len() {
        lemma_ws_end_bounds(s, i);
        let j = ws_end(s, i);
        if j < s.len() && s[j] == 34 {
            lemma_str_content_bounds(s, j + 1);
            match str_content(s, j + 1) {
                None => {},
                Some((k, ak)) => {
                    lemma_ws_end_bounds(s, ak);
                    let c = ws_end(s, ak);
                    if c < s.len() {
                        lemma_ws_end_bounds(s, c + 1);
                        let v0 = ws_end(s, c + 1);
                        lemma_skip_value_bounds(s, v0, 0, false, false);
                        match value_end(s, v0) {
                            None => {},
                            Some(ve) => {
                                lemma_ws_end_bounds(s, ve);
                            },
                        }
                    }
                },
            }
        }
    }
}

/// The member list of the object starting at `i`.
pub open spec fn obj_members(s: Seq<u8>, i: int) -> Option<Seq<(Seq<u8>, (int, int))>> {
    if 0 <= i < s.len() && s[i] == 123 {
        members_from(s, i + 1)
    } else {
        None
    }
}

/// View of collected members with integer spans.
pub open spec fn members_view(v: Seq<(Vec<u8>, (usize, usize))>) -> Seq<(Seq<u8>, (int, int))> {
    Seq::new(v.len(), |k: int| (v[k].0@, (v[k].1.0 as int, v[k].1.1 as int)))
}

/// Collect the members of the object starting at `i`.
pub fn get_members(s: &Vec<u8>, i: usize) -> (r: Option<Vec<(Vec<u8>, (usize, usize))>>)
    requires
        i <= s@.len(),
    ensures
        match r {
            Some(v) => obj_members(s@, i as int) == Some(members_view(v@)) && forall|k: int|
                0 <= k < v@.len() ==> (#[trigger] v@[k]).1.0 < v@[k].1.1 <= s@.len(),
            None => obj_members(s@, i as int) is None,
        },
{
    if i >= s.len() || s[i] != 123 {
        return None;
    }
    let mut out: Vec<(Vec<u8>, (usize, usize))> = Vec::new();
    let mut pos: usize = i + 1;
    proof {
        assert(members_view(out@) =~= Seq::<(Seq<u8>, (int, int))>::empty());
    }
    loop
        invariant
            i < pos <= s@.len() + 1,
            obj_members(s@, i as int) == (match members_from(s@, pos as int) {
                Some(rest) => Some(members_view(out@) + rest),
                None => None::<Seq<(Seq<u8>, (int, int))>>,
            }),
            forall|k: int| 0 <= k < out@.len() ==> (#[trigger] out@[k]).1.0 < out@[k].1.1
                <= s@.len(),
        decreases s@.len() + 1 - pos,
    {
        if pos > s.len() {
            return None;
        }
        let j = skip_ws(s, pos);
        if j >= s.len() {
            return None;
        }
        if s[j] == 125 {
            proof {
                assert(members_view(out@) + Seq::<(Seq<u8>, (int, int))>::empty() =~= members_view(
                    out@,
                ));
            }
            return Some(out);
        }
        if s[j] != 34 {
            return None;
        }
        let kak = match read_str_content(s, j + 1) {
            None => {
                return None;
            },
            Some(p) => p,
        };
        let k = kak.0;
        let ak = kak.1;
        let c = skip_ws(s, ak);
        if c >= s.len() {
            return None;
        }
        if s[c] != 58 {
            return None;
        }
        let v0 = skip_ws(s, c + 1);
        let ve = match find_value_end(s, v0) {
            None => {
                return None;
            },
            Some(e) => e,
        };
        let dd = skip_ws(s, ve);
        if dd < s.len() && s[dd] == 44 {
            proof {
                let kk = str_content(s@, j + 1)->Some_0.0;
                if members_from(s@, dd + 1) is Some {
                    let rest = members_from(s@, dd + 1)->Some_0;
                    assert(members_view(out@.push((k, (v0, ve)))) + rest =~= members_view(out@)
                        + (seq![(kk, (v0 as int, ve as int))] + rest));
                }
            }
            out.push((k, (v0, ve)));
            pos = dd + 1;
        } else if dd < s.len() && s[dd] == 125 {
            proof {
                let kk = str_content(s@, j + 1)->Some_0.0;
                assert(members_view(out@.push((k, (v0, ve)))) =~= members_view(out@) + seq![
                    (kk, (v0 as int, ve as int)),
                ]);
            }
            out.push((k, (v0, ve)));
            return Some(out);
        } else {
            return None;
        }
    }
}

} // verus!
