//! Byte-level text utilities shared by the extraction and scoring code.
//!
//! All fetched content is handled as raw bytes (`Vec<u8>`), so that UTF-8
//! payloads pass through untouched while the logic itself only ever reasons
//! about plain byte values.

use vstd::prelude::*;

verus! {

/// The bytes of an ASCII string, character by character.
pub open spec fn sbytes(s: Seq<char>) -> Seq<u8> {
    Seq::new(s.len(), |i: int| s[i] as u8)
}

/// Turn an ASCII string literal into its byte vector.
pub fn ascii_bytes(s: &str) -> (r: Vec<u8>)
    requires
        vstd::string::is_ascii(s),
    ensures
        r@ == sbytes(s@),
{
    proof {
        vstd::string::is_ascii_spec_bytes(s);
    }
    let r = s.as_bytes_vec();
    proof {
        assert(r@ =~= sbytes(s@));
    }
    r
}

/// `pat` occurs in `s` starting at position `i`.
pub open spec fn match_at(s: Seq<u8>, pat: Seq<u8>, i: int) -> bool {
    0 <= i && i + pat.len() <= s.len() && s.subrange(i, i + pat.len() as int) == pat
}

/// The first position at or after `from` where `pat` occurs in `s`.
pub open spec fn find_at(s: Seq<u8>, pat: Seq<u8>, from: int) -> Option<int>
    decreases s.len() - from,
{
    if from < 0 {
        None
    } else if from + pat.len() > s.len() {
        None
    } else if pat.len() == 0 {
        Some(from)
    } else if match_at(s, pat, from) {
        Some(from)
    } else {
        find_at(s, pat, from + 1)
    }
}

/// Compare `pat` against the bytes of `s` starting at `i`.
pub fn bytes_match_at(s: &Vec<u8>, pat: &Vec<u8>, i: usize) -> (b: bool)
    requires
        i + pat@.len() <= s@.len(),
    ensures
        b == match_at(s@, pat@, i as int),
{
    let n = s.len();
    let mut j: usize = 0;
    while j < pat.len()
        invariant
            0 <= j <= pat@.len(),
            n == s@.len(),
            i + pat@.len() <= s@.len(),
            forall|k: int| 0 <= k < j ==> s@[i + k] == pat@[k],
        decreases pat@.len() - j,
    {
        assert(i + j < n);
        if s[i + j] != pat[j] {
            proof {
                assert(s@.subrange(i as int, i + pat@.len() as int)[j as int] != pat@[j as int]);
            }
            return false;
        }
        j += 1;
    }
    proof {
        assert(s@.subrange(i as int, i + pat@.len() as int) =~= pat@);
    }
    true
}

/// Find the first occurrence of `pat` in `s` at or after `from`.
pub fn find_from(s: &Vec<u8>, pat: &Vec<u8>, from: usize) -> (r: Option<usize>)
    requires
        pat@.len() >= 1,
    ensures
        match r {
            Some(i) => find_at(s@, pat@, from as int) == Some(i as int)
                && from <= i && match_at(s@, pat@, i as int),
            None => find_at(s@, pat@, from as int) is None,
        },
{
    let n = s.len();
    let mut i: usize = from;
    loop
        invariant
            from <= i,
            n == s@.len(),
            pat@.len() >= 1,
            find_at(s@, pat@, from as int) == find_at(s@, pat@, i as int),
        decreases n + 1 - i,
    {
        if i >= n || pat.len() > n - i {
            return None;
        }
        assert(i + pat@.len() <= s@.len());
        if bytes_match_at(s, pat, i) {
            return Some(i);
        }
        assert(find_at(s@, pat@, i as int) == find_at(s@, pat@, i + 1));
        i += 1;
    }
}

/// Lower-case a single byte, ASCII-only.
pub open spec fn lower_byte(b: u8) -> u8 {
    if 65 <= b && b <= 90 {
        (b + 32) as u8
    } else {
        b
    }
}

/// Lower-case a byte sequence, ASCII-only.
pub open spec fn lower_seq(s: Seq<u8>) -> Seq<u8> {
    Seq::new(s.len(), |i: int| lower_byte(s[i]))
}

/// ASCII lower-casing of a byte string.
pub fn to_lower(v: &Vec<u8>) -> (r: Vec<u8>)
    ensures
        r@ == lower_seq(v@),
{
    let mut r: Vec<u8> = Vec::new();
    let mut i: usize = 0;
    while i < v.len()
        invariant
            0 <= i <= v@.len(),
            r@.len() == i,
            forall|k: int| 0 <= k < i ==> r@[k] == lower_byte(v@[k]),
        decreases v@.len() - i,
    {
        let b = v[i];
        if 65 <= b && b <= 90 {
            r.push(b + 32);
        } else {
            r.push(b);
        }
        i += 1;
    }
    proof {
        assert(r@ =~= lower_seq(v@));
    }
    r
}

/// Whether two byte strings hold the same bytes.
pub fn eq_bytes(a: &Vec<u8>, b: &Vec<u8>) -> (r: bool)
    ensures
        r == (a@ == b@),
{
    if a.len() != b.len() {
        return false;
    }
    if bytes_match_at(a, b, 0) {
        proof {
            assert(a@.subrange(0, b@.len() as int) =~= a@);
        }
        true
    } else {
        proof {
            assert(a@.subrange(0, b@.len() as int) =~= a@);
        }
        false
    }
}

/// `s` begins with `pat`.
pub open spec fn starts_with_spec(s: Seq<u8>, pat: Seq<u8>) -> bool {
    match_at(s, pat, 0)
}

pub fn starts_with(s: &Vec<u8>, pat: &Vec<u8>) -> (r: bool)
    ensures
        r == starts_with_spec(s@, pat@),
{
    if pat.len() > s.len() {
        return false;
    }
    bytes_match_at(s, pat, 0)
}

/// `s` ends with `pat`.
pub open spec fn ends_with_spec(s: Seq<u8>, pat: Seq<u8>) -> bool {
    match_at(s, pat, s.len() - pat.len())
}

pub fn ends_with(s: &Vec<u8>, pat: &Vec<u8>) -> (r: bool)
    ensures
        r == ends_with_spec(s@, pat@),
{
    if pat.len() > s.len() {
        return false;
    }
    bytes_match_at(s, pat, s.len() - pat.len())
}

/// Copy of the byte range `[a, b)` of `v`.
pub fn subvec(v: &Vec<u8>, a: usize, b: usize) -> (r: Vec<u8>)
    requires
        a <= b <= v@.len(),
    ensures
        r@ == v@.subrange(a as int, b as int),
{
    let mut r: Vec<u8> = Vec::new();
    let mut i: usize = a;
    while i < b
        invariant
            a <= i <= b <= v@.len(),
            r@.len() == i - a,
            forall|k: int| 0 <= k < i - a ==> r@[k] == v@[a + k],
        decreases b - i,
    {
        r.push(v[i]);
        i += 1;
    }
    proof {
        assert(r@ =~= v@.subrange(a as int, b as int));
    }
    r
}

/// Append all of `src` to `dst`.
pub fn push_all(dst: &mut Vec<u8>, src: &Vec<u8>)
    ensures
        final(dst)@ == old(dst)@ + src@,
{
    let mut i: usize = 0;
    while i < src.len()
        invariant
            0 <= i <= src@.len(),
            dst@.len() == old(dst)@.len() + i,
            forall|k: int| 0 <= k < old(dst)@.len() ==> dst@[k] == old(dst)@[k],
            forall|k: int| 0 <= k < i ==> dst@[old(dst)@.len() + k] == src@[k],
        decreases src@.len() - i,
    {
        dst.push(src[i]);
        i += 1;
    }
    proof {
        assert(dst@ =~= old(dst)@ + src@);
    }
}

/// A decimal digit byte.
pub open spec fn is_digit(b: u8) -> bool {
    48 <= b && b <= 57
}

pub open spec fn all_digits(s: Seq<u8>) -> bool {
    forall|i: int| 0 <= i < s.len() ==> is_digit(#[trigger] s[i])
}

/// The number written by a sequence of decimal digit bytes.
pub open spec fn digits_val(s: Seq<u8>) -> nat
    decreases s.len(),
{
    if s.len() == 0 {
        0
    } else {
        digits_val(s.drop_last()) * 10 + (s.last() - 48) as nat
    }
}

/// A digit prefix never writes a larger number than the whole.
pub proof fn lemma_digits_val_take_le(s: Seq<u8>, i: int)
    requires
        0 <= i <= s.len(),
        all_digits(s),
    ensures
        digits_val(s.take(i)) <= digits_val(s),
    decreases s.len() - i,
{
    if i < s.len() {
        lemma_digits_val_take_le(s, i + 1);
        assert(s.take(i + 1).drop_last() =~= s.take(i));
        assert(digits_val(s.take(i + 1)) == digits_val(s.take(i)) * 10 + (s.take(i + 1).last()
            - 48) as nat);
    } else {
        assert(s.take(i) =~= s);
    }
}

/// Parse an unsigned decimal number; `None` on empty input, a non-digit
/// byte, or a value that does not fit in a `u64`.
pub fn parse_u64(v: &Vec<u8>) -> (r: Option<u64>)
    ensures
        match r {
            Some(n) => v@.len() >= 1 && all_digits(v@) && n == digits_val(v@),
            None => v@.len() == 0 || !all_digits(v@) || digits_val(v@) > u64::MAX,
        },
{
    if v.len() == 0 {
        return None;
    }
    let mut acc: u64 = 0;
    let mut i: usize = 0;
    while i < v.len()
        invariant
            0 <= i <= v@.len(),
            all_digits(v@.take(i as int)),
            acc == digits_val(v@.take(i as int)),
        decreases v@.len() - i,
    {
        let b = v[i];
        if b < 48 || b > 57 {
            assert(!is_digit(v@[i as int]));
            return None;
        }
        let d: u64 = (b - 48) as u64;
        if acc > (u64::MAX - d) / 10 {
            proof {
                assert(v@.take(i + 1).drop_last() =~= v@.take(i as int));
                assert(digits_val(v@.take(i + 1)) == acc * 10 + d);
                assert(acc * 10 + d > u64::MAX) by (nonlinear_arith)
                    requires
                        acc > (u64::MAX - d) / 10,
                        d <= 9,
                {}
                if all_digits(v@) {
                    lemma_digits_val_take_le(v@, i + 1);
                }
            }
            return None;
        }
        proof {
            assert(acc * 10 + d <= u64::MAX) by (nonlinear_arith)
                requires
                    acc <= (u64::MAX - d) / 10,
                    d <= 9,
            {}
            assert(v@.take(i + 1).drop_last() =~= v@.take(i as int));
        }
        acc = acc * 10 + d;
        i += 1;
    }
    proof {
        assert(v@.take(v@.len() as int) =~= v@);
    }
    Some(acc)
}

/// The decimal digit bytes of `n`.
pub open spec fn dec_spec(n: nat) -> Seq<u8>
    decreases n,
{
    if n < 10 {
        seq![(48 + n) as u8]
    } else {
        dec_spec(n / 10).push((48 + n % 10) as u8)
    }
}

/// `dec_spec` writes exactly the number it was given, in digits.
proof fn lemma_dec_spec_val(n: nat)
    ensures
        dec_spec(n).len() >= 1,
        all_digits(dec_spec(n)),
        digits_val(dec_spec(n)) == n,
    decreases n,
{
    if n < 10 {
        assert(dec_spec(n) =~= seq![(48 + n) as u8]);
        assert(digits_val(dec_spec(n)) == digits_val(dec_spec(n).drop_last()) * 10 + (dec_spec(
            n,
        ).last() - 48) as nat);
        assert(dec_spec(n).drop_last() =~= Seq::<u8>::empty());
    } else {
        lemma_dec_spec_val(n / 10);
        assert(dec_spec(n).drop_last() =~= dec_spec(n / 10));
        assert(n / 10 * 10 + n % 10 == n) by (nonlinear_arith)
            requires
                n >= 10,
        {}
    }
}

/// Write `n` in decimal digits.
pub fn u64_to_dec(n: u64) -> (r: Vec<u8>)
    ensures
        r@ == dec_spec(n as nat),
        all_digits(r@),
        digits_val(r@) == n,
    decreases n,
{
    proof {
        lemma_dec_spec_val(n as nat);
    }
    if n < 10 {
        let mut r: Vec<u8> = Vec::new();
        r.push(48 + (n as u8));
        proof {
            assert(r@ =~= dec_spec(n as nat));
        }
        r
    } else {
        let mut r = u64_to_dec(n / 10);
        r.push(48 + ((n % 10) as u8));
        r
    }
}

/// An ASCII whitespace byte as produced by the markup we scan.
pub open spec fn is_ws(b: u8) -> bool {
    b == 32 || b == 9 || b == 10 || b == 13
}

pub fn byte_is_ws(b: u8) -> (r: bool)
    ensures
        r == is_ws(b),
{
    b == 32 || b == 9 || b == 10 || b == 13
}

/// Whitespace collapsing: runs of whitespace become one space, leading
/// and trailing whitespace disappears. `st` is 0 before the first word,
/// 1 inside a word, 2 between words.
pub open spec fn collapse_from(s: Seq<u8>, i: int, st: int) -> Seq<u8>
    decreases s.len() - i,
{
    if i < 0 || i >= s.len() {
        Seq::empty()
    } else if is_ws(s[i]) {
        collapse_from(s, i + 1, if st == 0 { 0int } else { 2int })
    } else if st == 2 {
        seq![32u8, s[i]] + collapse_from(s, i + 1, 1)
    } else {
        seq![s[i]] + collapse_from(s, i + 1, 1)
    }
}

pub open spec fn collapse_spec(s: Seq<u8>) -> Seq<u8> {
    collapse_from(s, 0, 0)
}

/// Collapse whitespace runs to single spaces and trim the ends.
pub fn collapse_ws(v: &Vec<u8>) -> (r: Vec<u8>)
    ensures
        r@ == collapse_spec(v@),
{
    let mut out: Vec<u8> = Vec::new();
    let mut i: usize = 0;
    let mut st: u8 = 0;
    while i < v.len()
        invariant
            0 <= i <= v@.len(),
            st == 0 || st == 1 || st == 2,
            collapse_spec(v@) == out@ + collapse_from(v@, i as int, st as int),
        decreases v@.len() - i,
    {
        let b = v[i];
        if byte_is_ws(b) {
            st = if st == 0 { 0 } else { 2 };
        } else if st == 2 {
            proof {
                assert(out@ + (seq![32u8, b] + collapse_from(v@, i + 1, 1)) =~= (out@ + seq![
                    32u8,
                    b,
                ]) + collapse_from(v@, i + 1, 1));
            }
            out.push(32);
            out.push(b);
            st = 1;
        } else {
            proof {
                assert(out@ + (seq![b] + collapse_from(v@, i + 1, 1)) =~= (out@ + seq![b])
                    + collapse_from(v@, i + 1, 1));
            }
            out.push(b);
            st = 1;
        }
        i += 1;
    }
    proof {
        assert(out@ + collapse_from(v@, i as int, st as int) =~= out@);
    }
    out
}

/// Markup stripping: everything from a `<` to the next `>` disappears,
/// the rest stays.
pub open spec fn strip_from(s: Seq<u8>, i: int, inside: bool) -> Seq<u8>
    decreases s.len() - i,
{
    if i < 0 || i >= s.len() {
        Seq::empty()
    } else if inside {
        strip_from(s, i + 1, s[i] != 62)
    } else if s[i] == 60 {
        strip_from(s, i + 1, true)
    } else {
        seq![s[i]] + strip_from(s, i + 1, false)
    }
}

pub open spec fn strip_spec(s: Seq<u8>) -> Seq<u8> {
    strip_from(s, 0, false)
}

/// Strip markup tags from a byte string, keeping only the text between them.
pub fn strip_html_tags(v: &Vec<u8>) -> (r: Vec<u8>)
    ensures
        r@ == strip_spec(v@),
{
    let mut out: Vec<u8> = Vec::new();
    let mut i: usize = 0;
    let mut inside: bool = false;
    while i < v.len()
        invariant
            0 <= i <= v@.len(),
            strip_spec(v@) == out@ + strip_from(v@, i as int, inside),
        decreases v@.len() - i,
    {
        let b = v[i];
        if inside {
            inside = b != 62;
        } else if b == 60 {
            inside = true;
        } else {
            proof {
                assert(out@ + (seq![b] + strip_from(v@, i + 1, false)) =~= (out@ + seq![b])
                    + strip_from(v@, i + 1, false));
            }
            out.push(b);
        }
        i += 1;
    }
    proof {
        assert(out@ + strip_from(v@, i as int, inside) =~= out@);
    }
    out
}

/// Keep only the decimal digit bytes of `s`.
pub open spec fn digits_of(s: Seq<u8>) -> Seq<u8> {
    s.filter(|b: u8| is_digit(b))
}

/// Extract the digit bytes of `v`, dropping separators such as commas.
pub fn filter_digits(v: &Vec<u8>) -> (r: Vec<u8>)
    ensures
        r@ == digits_of(v@),
{
    let mut out: Vec<u8> = Vec::new();
    let mut i: usize = 0;
    while i < v.len()
        invariant
            0 <= i <= v@.len(),
            out@ == v@.take(i as int).filter(|b: u8| is_digit(b)),
        decreases v@.len() - i,
    {
        let b = v[i];
        proof {
            assert(v@.take(i + 1).drop_last() =~= v@.take(i as int));
            reveal_with_fuel(Seq::filter, 2);
        }
        if b >= 48 && b <= 57 {
            out.push(b);
        }
        i += 1;
    }
    proof {
        assert(v@.take(v@.len() as int) =~= v@);
    }
    out
}


/// Where a pattern is found, it is found within bounds, at or after the
/// start of the search.
pub proof fn lemma_find_at_bounds(s: Seq<u8>, pat: Seq<u8>, from: int)
    ensures
        match find_at(s, pat, from) {
            Some(p) => 0 <= from <= p && p + pat.len() <= s.len(),
            None => true,
        },
    decreases s.len() - from,
{
    if from >= 0 && from + pat.len() <= s.len() && pat.len() != 0 && !match_at(s, pat, from) {
        lemma_find_at_bounds(s, pat, from + 1);
    }
}

/// Copy a byte string.
pub fn copy_bytes(v: &Vec<u8>) -> (r: Vec<u8>)
    ensures
        r@ == v@,
{
    let mut r: Vec<u8> = Vec::new();
    let mut i: usize = 0;
    while i < v.len()
        invariant
            0 <= i <= v@.len(),
            r@ == v@.take(i as int),
        decreases v@.len() - i,
    {
        proof {
            assert(v@.take(i + 1) =~= v@.take(i as int).push(v@[i as int]));
        }
        r.push(v[i]);
        i += 1;
    }
    proof {
        assert(v@.take(v@.len() as int) =~= v@);
    }
    r
}

} // verus!
