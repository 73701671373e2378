//! Capability probes run by the first-run setup.
//!
//! Each probe reports whether a diagnostic section can be offered on this
//! build. They are constants today; the setup flow treats them as answers
//! from the host.

use vstd::prelude::*;

use crate::text::{is_space, skip_spaces, skip_ws, space_at};

verus! {

/// The end of the window `[i, end)` once trailing blank bytes are
/// dropped; `i` when nothing is left.
pub open spec fn trim_end(s: Seq<u8>, i: int, end: int) -> int
    decreases end - i,
{
    if 0 <= i && i < end && end <= s.len() {
        if is_space(s[end - 1]) {
            trim_end(s, i, end - 1)
        } else {
            end
        }
    } else {
        i
    }
}

/// The reply accepts the licence terms: after dropping leading and
/// trailing blanks, exactly the word `yes` in any letter case.
pub open spec fn spec_accepts_eula(s: Seq<u8>) -> bool {
    let a = skip_ws(s, 0, s.len() as int);
    let e = trim_end(s, a, s.len() as int);
    &&& e - a == 3
    &&& 0 <= a
    &&& e <= s.len()
    &&& (s[a] == 121 || s[a] == 89)
    &&& (s[a + 1] == 101 || s[a + 1] == 69)
    &&& (s[a + 2] == 115 || s[a + 2] == 83)
}

/// Whether the typed reply accepts the licence terms, as
/// `spec_accepts_eula` says.
pub fn accepts_eula(input: &[u8]) -> (r: bool)
    ensures
        r == spec_accepts_eula(input@),
{
    let n = input.len();
    let a = skip_spaces(input, 0, n);
    let mut e = n;
    while e > a && space_at(input, e - 1)
        invariant
            a <= e <= n,
            n == input@.len(),
            trim_end(input@, a as int, n as int) == trim_end(input@, a as int, e as int),
        decreases e,
    {
        e -= 1;
    }
    if e - a != 3 {
        return false;
    }
    let b0 = input[a];
    let b1 = input[a + 1];
    let b2 = input[a + 2];
    (b0 == 121 || b0 == 89) && (b1 == 101 || b1 == 69) && (b2 == 115 || b2 == 83)
}

/// Whether echo probing is available on this build.
pub fn check_icmp_support() -> (r: bool)
    ensures
        r == true,
{
    true
}

/// Whether traceroute is available on this build.
pub fn check_trace_support() -> (r: bool)
    ensures
        r == true,
{
    true
}

/// Whether name resolution is available on this build.
pub fn check_dns_support() -> (r: bool)
    ensures
        r == true,
{
    true
}

/// Whether web probing is available on this build.
pub fn check_http_support() -> (r: bool)
    ensures
        r == true,
{
    true
}

/// Renders a capability answer for the setup transcript.
pub fn yes_no(value: bool) -> (r: &'static str)
    ensures
        value ==> r@ == "OK"@,
        !value ==> r@ == "Unavailable"@,
{
    if value {
        "OK"
    } else {
        "Unavailable"
    }
}

} // verus!
