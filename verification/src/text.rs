//! Byte-level text utilities shared by the output parsers.
//!
//! All scanning works over a byte sequence with explicit `[i, end)` windows,
//! so a parser can walk one region of a larger buffer without copying.
//! Numbers are read as plain decimal digits; fractional latencies are read
//! as fixed-point thousandths (so `12.345` becomes `12345`), truncating any
//! digits beyond the third fractional place.

use vstd::prelude::*;

verus! {

/// Blank bytes: space, tab, carriage return, line feed.
pub open spec fn is_space(b: u8) -> bool {
    b == 32 || b == 9 || b == 13 || b == 10
}

/// ASCII decimal digit.
pub open spec fn is_digit(b: u8) -> bool {
    48 <= b && b <= 57
}

/// Every byte of `s` in `[i, end)` is a decimal digit.
pub open spec fn all_digits(s: Seq<u8>, i: int, end: int) -> bool {
    forall|k: int| i <= k < end && 0 <= k < s.len() ==> is_digit(s[k])
}

/// The first index in `[i, end)` holding a blank byte, or `end`.
pub open spec fn skip_ws(s: Seq<u8>, i: int, end: int) -> int
    decreases end - i,
{
    if 0 <= i && i < end && end <= s.len() {
        if is_space(s[i]) {
            skip_ws(s, i + 1, end)
        } else {
            i
        }
    } else {
        end
    }
}

/// The first index in `[i, end)` holding byte `b`, or `end`.
pub open spec fn find_at(s: Seq<u8>, i: int, end: int, b: u8) -> int
    decreases end - i,
{
    if 0 <= i && i < end && end <= s.len() {
        if s[i] == b {
            i
        } else {
            find_at(s, i + 1, end, b)
        }
    } else {
        end
    }
}

/// The first index in `[i, end)` holding a blank byte, or `end`: where the
/// token that starts at `i` stops.
pub open spec fn token_end(s: Seq<u8>, i: int, end: int) -> int
    decreases end - i,
{
    if 0 <= i && i < end && end <= s.len() {
        if is_space(s[i]) {
            i
        } else {
            token_end(s, i + 1, end)
        }
    } else {
        end
    }
}

/// `skip_ws` lands inside the window, on a non-blank byte unless the window
/// ran out, and skips only blank bytes.
pub proof fn lemma_skip_ws_props(s: Seq<u8>, i: int, end: int)
    requires
        0 <= i <= end <= s.len(),
    ensures
        i <= skip_ws(s, i, end) <= end,
        skip_ws(s, i, end) < end ==> !is_space(s[skip_ws(s, i, end)]),
        forall|k: int| i <= k < skip_ws(s, i, end) ==> is_space(s[k]),
    decreases end - i,
{
    if i < end && is_space(s[i]) {
        lemma_skip_ws_props(s, i + 1, end);
    }
}

/// `find_at` lands inside the window, on `b` unless the window ran out, and
/// passes no earlier `b`.
pub proof fn lemma_find_at_props(s: Seq<u8>, i: int, end: int, b: u8)
    requires
        0 <= i <= end <= s.len(),
    ensures
        i <= find_at(s, i, end, b) <= end,
        find_at(s, i, end, b) < end ==> s[find_at(s, i, end, b)] == b,
        forall|k: int| i <= k < find_at(s, i, end, b) ==> s[k] != b,
    decreases end - i,
{
    if i < end && s[i] != b {
        lemma_find_at_props(s, i + 1, end, b);
    }
}

/// `token_end` lands inside the window, on a blank byte unless the window
/// ran out, and passes no earlier blank byte.
pub proof fn lemma_token_end_props(s: Seq<u8>, i: int, end: int)
    requires
        0 <= i <= end <= s.len(),
    ensures
        i <= token_end(s, i, end) <= end,
        token_end(s, i, end) < end ==> is_space(s[token_end(s, i, end)]),
        forall|k: int| i <= k < token_end(s, i, end) ==> !is_space(s[k]),
    decreases end - i,
{
    if i < end && !is_space(s[i]) {
        lemma_token_end_props(s, i + 1, end);
    }
}

/// The bytes of `pat` appear in `s` starting at `i`.
pub open spec fn match_at(s: Seq<u8>, i: int, pat: Seq<u8>) -> bool {
    0 <= i && i + pat.len() <= s.len() && (forall|k: int|
        0 <= k < pat.len() ==> s[i + k] == pat[k])
}

/// The bytes of `pat` appear somewhere in `s` within `[lo, hi)`.
pub open spec fn contains_in(s: Seq<u8>, lo: int, hi: int, pat: Seq<u8>) -> bool {
    exists|j: int| lo <= j && j + pat.len() <= hi && match_at(s, j, pat)
}

/// The decimal value of the digits of `s` in `[i, end)`, most significant
/// first; 0 for an empty window.
pub open spec fn digits_val(s: Seq<u8>, i: int, end: int) -> int
    decreases end - i,
{
    if 0 <= i && i < end && end <= s.len() {
        digits_val(s, i, end - 1) * 10 + (s[end - 1] - 48)
    } else {
        0
    }
}

/// A digit window's value is never negative.
pub proof fn lemma_digits_val_nonneg(s: Seq<u8>, i: int, end: int)
    requires
        0 <= i <= end <= s.len(),
        all_digits(s, i, end),
    ensures
        digits_val(s, i, end) >= 0,
    decreases end - i,
{
    if i < end {
        lemma_digits_val_nonneg(s, i, end - 1);
    }
}

/// Extending a digit window to the right never shrinks its value.
pub proof fn lemma_digits_val_mono(s: Seq<u8>, i: int, j: int, end: int)
    requires
        0 <= i <= j <= end <= s.len(),
        all_digits(s, i, end),
    ensures
        digits_val(s, i, j) <= digits_val(s, i, end),
    decreases end - j,
{
    if j < end {
        lemma_digits_val_mono(s, i, j, end - 1);
        lemma_digits_val_nonneg(s, i, end - 1);
    }
}

/// Whether the bytes of two slices are equal.
pub fn bytes_eq(a: &[u8], b: &[u8]) -> (r: bool)
    ensures
        r == (a@ == b@),
{
    if a.len() != b.len() {
        return false;
    }
    let n = a.len();
    let mut i: usize = 0;
    while i < n
        invariant
            n == a@.len() == b@.len(),
            0 <= i <= n,
            forall|k: int| 0 <= k < i ==> a@[k] == b@[k],
        decreases n - i,
    {
        if a[i] != b[i] {
            return false;
        }
        i += 1;
    }
    proof {
        assert(a@ =~= b@);
    }
    true
}

/// Whether byte `b` is blank, as `is_space` says.
pub fn space_at(s: &[u8], i: usize) -> (r: bool)
    requires
        i < s@.len(),
    ensures
        r == is_space(s@[i as int]),
{
    let b = s[i];
    b == 32 || b == 9 || b == 13 || b == 10
}

/// Walks past blank bytes; returns `skip_ws` of the window.
pub fn skip_spaces(s: &[u8], i: usize, end: usize) -> (r: usize)
    requires
        i <= end <= s@.len(),
    ensures
        r == skip_ws(s@, i as int, end as int),
        i <= r <= end,
{
    let mut j = i;
    while j < end && space_at(s, j)
        invariant
            i <= j <= end <= s@.len(),
            skip_ws(s@, i as int, end as int) == skip_ws(s@, j as int, end as int),
        decreases end - j,
    {
        j += 1;
    }
    j
}

/// Finds the next occurrence of `b`; returns `find_at` of the window.
pub fn find_byte(s: &[u8], i: usize, end: usize, b: u8) -> (r: usize)
    requires
        i <= end <= s@.len(),
    ensures
        r == find_at(s@, i as int, end as int, b),
        i <= r <= end,
{
    let mut j = i;
    while j < end && s[j] != b
        invariant
            i <= j <= end <= s@.len(),
            find_at(s@, i as int, end as int, b) == find_at(s@, j as int, end as int, b),
        decreases end - j,
    {
        j += 1;
    }
    j
}

/// Walks to the end of the token that starts at `i`; returns `token_end`.
pub fn token_stop(s: &[u8], i: usize, end: usize) -> (r: usize)
    requires
        i <= end <= s@.len(),
    ensures
        r == token_end(s@, i as int, end as int),
        i <= r <= end,
{
    let mut j = i;
    while j < end && !space_at(s, j)
        invariant
            i <= j <= end <= s@.len(),
            token_end(s@, i as int, end as int) == token_end(s@, j as int, end as int),
        decreases end - j,
    {
        j += 1;
    }
    j
}

/// Whether `pat` appears at position `i` of `s`.
pub fn bytes_match_at(s: &[u8], i: usize, pat: &[u8]) -> (r: bool)
    requires
        i <= s@.len(),
    ensures
        r == match_at(s@, i as int, pat@),
{
    let slen = s.len();
    if pat.len() > slen - i {
        return false;
    }
    let n = pat.len();
    let mut k: usize = 0;
    while k < n
        invariant
            n == pat@.len(),
            slen == s@.len(),
            i + n <= slen,
            0 <= k <= n,
            forall|m: int| 0 <= m < k ==> s@[i + m] == pat@[m],
        decreases n - k,
    {
        if s[i + k] != pat[k] {
            return false;
        }
        k += 1;
    }
    true
}

/// Whether `pat` appears anywhere in `s` within `[lo, hi)`.
pub fn contains_bytes(s: &[u8], lo: usize, hi: usize, pat: &[u8]) -> (r: bool)
    requires
        lo <= hi <= s@.len(),
    ensures
        r == contains_in(s@, lo as int, hi as int, pat@),
{
    let mut j = lo;
    loop
        invariant
            lo <= j <= hi <= s@.len(),
            forall|m: int| lo <= m < j ==> !(m + pat@.len() <= hi && match_at(s@, m, pat@)),
        decreases hi - j,
    {
        if pat.len() > hi - j {
            return false;
        }
        if bytes_match_at(s, j, pat) {
            return true;
        }
        j += 1;
    }
}

/// Reads the digits of `[i, end)` as a decimal number, refusing the window
/// when it is empty, holds a non-digit, or exceeds `cap`.
pub fn parse_int_capped(s: &[u8], i: usize, end: usize, cap: u64) -> (r: Option<u64>)
    requires
        i <= end <= s@.len(),
    ensures
        match r {
            Some(v) => i < end && all_digits(s@, i as int, end as int) && v == digits_val(
                s@,
                i as int,
                end as int,
            ) && v <= cap,
            None => !(i < end && all_digits(s@, i as int, end as int) && digits_val(
                s@,
                i as int,
                end as int,
            ) <= cap),
        },
{
    if i >= end {
        return None;
    }
    let mut val: u64 = 0;
    let mut j = i;
    while j < end
        invariant
            i <= j <= end <= s@.len(),
            all_digits(s@, i as int, j as int),
            val == digits_val(s@, i as int, j as int),
            val <= cap,
        decreases end - j,
    {
        let b = s[j];
        if b < 48 || b > 57 {
            return None;
        }
        let nv: u128 = (val as u128) * 10 + ((b - 48) as u128);
        if nv > cap as u128 {
            proof {
                if all_digits(s@, i as int, end as int) {
                    lemma_digits_val_mono(s@, i as int, j + 1, end as int);
                }
            }
            return None;
        }
        val = nv as u64;
        j += 1;
    }
    Some(val)
}

/// The `k`-th fractional digit of the window `[d, end)`, or 0 past its end.
pub open spec fn frac_digit(s: Seq<u8>, d: int, end: int, k: int) -> int {
    if d + k < end && 0 <= d + k < s.len() {
        s[d + k] - 48
    } else {
        0
    }
}

/// The fractional window read as thousandths: the first three digits,
/// shorter windows padded with zeros, longer ones truncated.
pub open spec fn frac_scaled(s: Seq<u8>, d: int, end: int) -> int {
    100 * frac_digit(s, d, end, 0) + 10 * frac_digit(s, d, end, 1) + frac_digit(s, d, end, 2)
}

/// The window `[i, end)` read as a fixed-point number of thousandths:
/// a non-empty run of digits, optionally followed by one dot and more
/// digits. `12.345` gives 12345, `7` gives 7000, `3.1` gives 3100; digits
/// beyond the third fractional place are dropped.
pub open spec fn spec_parse_fixed(s: Seq<u8>, i: int, end: int) -> Option<int> {
    let dot = find_at(s, i, end, 46);
    if i < dot && all_digits(s, i, dot) && all_digits(s, dot + 1, end) && digits_val(s, i, dot)
        <= (u64::MAX - 999) / 1000 {
        Some(digits_val(s, i, dot) * 1000 + frac_scaled(s, dot + 1, end))
    } else {
        None
    }
}

/// Reads the window `[i, end)` as fixed-point thousandths, as
/// `spec_parse_fixed` describes.
pub fn parse_fixed(s: &[u8], i: usize, end: usize) -> (r: Option<u64>)
    requires
        i <= end <= s@.len(),
    ensures
        match r {
            Some(v) => spec_parse_fixed(s@, i as int, end as int) == Some(v as int),
            None => spec_parse_fixed(s@, i as int, end as int) is None,
        },
{
    let dot = find_byte(s, i, end, 46);
    let cap: u64 = (u64::MAX - 999) / 1000;
    let whole = match parse_int_capped(s, i, dot, cap) {
        Some(v) => v,
        None => {
            return None;
        },
    };
    // check the fractional digits and collect the first three
    let fstart = if dot < end {
        dot + 1
    } else {
        end
    };
    proof {
        if dot >= end {
            assert(all_digits(s@, dot + 1, end as int));
        }
    }
    let mut k = fstart;
    let mut frac: u64 = 0;
    let mut scale: u64 = 100;
    while k < end
        invariant
            fstart <= k <= end <= s@.len(),
            i <= dot <= end,
            i < dot,
            dot as int == find_at(s@, i as int, end as int, 46),
            fstart as int == (if dot < end {
                dot + 1
            } else {
                end as int
            }),
            all_digits(s@, i as int, dot as int),
            whole == digits_val(s@, i as int, dot as int),
            whole <= (u64::MAX - 999) / 1000,
            all_digits(s@, fstart as int, k as int),
            frac == 100 * frac_digit(s@, fstart as int, end as int, 0) + 10 * frac_digit(
                s@,
                fstart as int,
                end as int,
                1,
            ) + frac_digit(s@, fstart as int, end as int, 2) - (if k - fstart == 0 {
                100 * frac_digit(s@, fstart as int, end as int, 0) + 10 * frac_digit(
                    s@,
                    fstart as int,
                    end as int,
                    1,
                ) + frac_digit(s@, fstart as int, end as int, 2)
            } else if k - fstart == 1 {
                10 * frac_digit(s@, fstart as int, end as int, 1) + frac_digit(
                    s@,
                    fstart as int,
                    end as int,
                    2,
                )
            } else if k - fstart == 2 {
                frac_digit(s@, fstart as int, end as int, 2)
            } else {
                0
            }),
            frac <= 999,
        decreases end - k,
    {
        let b = s[k];
        if b < 48 || b > 57 {
            return None;
        }
        if k - fstart < 3 {
            let d = (b - 48) as u64;
            if k - fstart == 0 {
                frac = frac + 100 * d;
            } else if k - fstart == 1 {
                frac = frac + 10 * d;
            } else {
                frac = frac + d;
            }
        }
        k += 1;
    }
    proof {
        assert(frac == frac_scaled(s@, fstart as int, end as int));
        if dot >= end {
            assert(frac_scaled(s@, dot + 1, end as int) == frac_scaled(
                s@,
                fstart as int,
                end as int,
            ));
        }
        assert(whole <= (u64::MAX - 999) / 1000);
        assert(whole * 1000 + frac <= u64::MAX) by {
            assert(whole * 1000 <= ((u64::MAX - 999) / 1000) * 1000);
        };
    }
    Some(whole * 1000 + frac)
}

/// Copies the window `[i, end)` of `s` into a fresh vector.
pub fn copy_range(s: &[u8], i: usize, end: usize) -> (r: Vec<u8>)
    requires
        i <= end <= s@.len(),
    ensures
        r@ == s@.subrange(i as int, end as int),
{
    let mut out: Vec<u8> = Vec::new();
    let mut j = i;
    while j < end
        invariant
            i <= j <= end <= s@.len(),
            out@ == s@.subrange(i as int, j as int),
        decreases end - j,
    {
        out.push(s[j]);
        proof {
            assert(out@ =~= s@.subrange(i as int, j + 1));
        }
        j += 1;
    }
    out
}

} // verus!
