//! Dotted-quad address text, as the traceroute engine accepts it.
//!
//! A usable target is four decimal octets joined by dots, each between 0
//! and 255, written without leading zeros (`10.0.0.1`, not `010.0.0.1`).

use vstd::prelude::*;

use crate::text::{all_digits, digits_val, find_at, find_byte, parse_int_capped};

verus! {

/// The window `[i, end)` is one octet: one to three digits, no leading
/// zero unless it is the single digit `0`, value at most 255.
pub open spec fn spec_octet_ok(s: Seq<u8>, i: int, end: int) -> bool {
    &&& 1 <= end - i <= 3
    &&& all_digits(s, i, end)
    &&& digits_val(s, i, end) <= 255
    &&& (end - i > 1 ==> (0 <= i < s.len() && s[i] != 48))
}

/// The whole of `s` is dotted-quad address text.
pub open spec fn spec_ipv4_text(s: Seq<u8>) -> bool {
    let n = s.len() as int;
    let d1 = find_at(s, 0, n, 46);
    let d2 = find_at(s, d1 + 1, n, 46);
    let d3 = find_at(s, d2 + 1, n, 46);
    let d4 = find_at(s, d3 + 1, n, 46);
    &&& d1 < n
    &&& d2 < n
    &&& d3 < n
    &&& d4 == n
    &&& spec_octet_ok(s, 0, d1)
    &&& spec_octet_ok(s, d1 + 1, d2)
    &&& spec_octet_ok(s, d2 + 1, d3)
    &&& spec_octet_ok(s, d3 + 1, n)
}

/// Checks one octet window, as `spec_octet_ok` says.
fn octet_ok(s: &[u8], i: usize, end: usize) -> (r: bool)
    requires
        i <= end <= s@.len(),
    ensures
        r == spec_octet_ok(s@, i as int, end as int),
{
    if end - i < 1 || end - i > 3 {
        return false;
    }
    match parse_int_capped(s, i, end, 255) {
        Some(_) => {
            if end - i > 1 && s[i] == 48 {
                false
            } else {
                true
            }
        },
        None => false,
    }
}

/// Whether `s` is dotted-quad address text, as `spec_ipv4_text` says.
pub fn is_ipv4_text(s: &[u8]) -> (r: bool)
    ensures
        r == spec_ipv4_text(s@),
{
    let n = s.len();
    let d1 = find_byte(s, 0, n, 46);
    if d1 == n {
        return false;
    }
    let d2 = find_byte(s, d1 + 1, n, 46);
    if d2 == n {
        return false;
    }
    let d3 = find_byte(s, d2 + 1, n, 46);
    if d3 == n {
        return false;
    }
    let d4 = find_byte(s, d3 + 1, n, 46);
    if d4 != n {
        return false;
    }
    octet_ok(s, 0, d1) && octet_ok(s, d1 + 1, d2) && octet_ok(s, d2 + 1, d3) && octet_ok(
        s,
        d3 + 1,
        n,
    )
}

} // verus!
