//! Parser for the external ping utility's textual summary.
//!
//! The text is scanned line by line for two shapes: a summary line holding
//! `packets transmitted`, whose first two comma-separated fields begin with
//! the transmitted and received counts, and a statistics line holding
//! `min/avg/max`, whose slash-separated fields after the `=` sign are the
//! minimum, mean and maximum round trips in milliseconds. A missing line
//! leaves its fields at their defaults (4 sent, 0 received, zero
//! latencies) rather than failing, so an all-zero answer means "parse
//! uncertain" as much as "total loss". A received count above the
//! transmitted count is capped at it, keeping the measurement invariant.

use vstd::prelude::*;
use vstd::string::StringSliceAdditionalSpecFns;

use crate::ping::{spec_loss_bp, PingResult};
use crate::text::{
    all_digits,
    contains_in,
    digits_val,
    find_at,
    find_byte,
    lemma_find_at_props,
    skip_ws,
    skip_spaces,
    spec_parse_fixed,
    parse_fixed,
    parse_int_capped,
    token_end,
    token_stop,
    contains_bytes,
};

verus! {

/// The bytes that mark the summary line.
pub open spec fn pkt_marker() -> Seq<u8> {
    "packets transmitted".spec_bytes()
}

/// The bytes that mark the statistics line.
pub open spec fn stats_marker() -> Seq<u8> {
    "min/avg/max".spec_bytes()
}

/// The fields gathered while scanning, at their defaults until their line
/// appears; a later matching line overwrites an earlier one.
#[derive(Debug, Clone, Copy, PartialEq, Eq, Structural)]
pub struct PingAcc {
    /// Transmitted count; defaults to the fixed probe count.
    pub sent: u32,
    /// Received count as written, not yet capped; defaults to 0.
    pub received: u32,
    /// Minimum round trip in microseconds; defaults to 0.
    pub min_us: u64,
    /// Mean round trip in microseconds; defaults to 0.
    pub avg_us: u64,
    /// Maximum round trip in microseconds; defaults to 0.
    pub max_us: u64,
}

/// The accumulator before any line was seen.
pub open spec fn init_acc() -> PingAcc {
    PingAcc { sent: 4, received: 0, min_us: 0, avg_us: 0, max_us: 0 }
}

/// The first blank-separated token of the window `[lo, hi)`, read as a
/// decimal number; `default` when the token is missing, not all digits,
/// or over `cap`.
pub open spec fn leading_int(s: Seq<u8>, lo: int, hi: int, cap: int, default: int) -> int {
    let a = skip_ws(s, lo, hi);
    let b = token_end(s, a, hi);
    if a < b && all_digits(s, a, b) && digits_val(s, a, b) <= cap {
        digits_val(s, a, b)
    } else {
        default
    }
}

/// The counts of a summary line: the leading number of the text before
/// the first comma (default 4), and of the text between the first and
/// second commas (default 0, also when there is no comma at all).
pub open spec fn counts_update(s: Seq<u8>, lo: int, hi: int, acc: PingAcc) -> PingAcc {
    let c1 = find_at(s, lo, hi, 44);
    let sent = leading_int(s, lo, c1, u32::MAX as int, 4);
    let received = if c1 < hi {
        let c2 = find_at(s, c1 + 1, hi, 44);
        leading_int(s, c1 + 1, c2, u32::MAX as int, 0)
    } else {
        0
    };
    PingAcc {
        sent: sent as u32,
        received: received as u32,
        min_us: acc.min_us,
        avg_us: acc.avg_us,
        max_us: acc.max_us,
    }
}

/// One statistics field: the first blank-separated token of the window,
/// read as fixed-point thousandths of a millisecond; 0 when unreadable.
pub open spec fn stat_field(s: Seq<u8>, lo: int, hi: int) -> int {
    let a = skip_ws(s, lo, hi);
    let b = token_end(s, a, hi);
    match spec_parse_fixed(s, a, b) {
        Some(v) => v,
        None => 0,
    }
}

/// The latencies of a statistics line: the text between the first `=`
/// and any second `=` (or the end), split on `/`; the first three fields
/// are minimum, mean and maximum. Missing fields stay 0; without any `=`
/// the line changes nothing.
pub open spec fn stats_update(s: Seq<u8>, lo: int, hi: int, acc: PingAcc) -> PingAcc {
    let eq = find_at(s, lo, hi, 61);
    if eq < hi {
        let e2 = find_at(s, eq + 1, hi, 61);
        let s1 = find_at(s, eq + 1, e2, 47);
        let mn = stat_field(s, eq + 1, s1);
        if s1 < e2 {
            let s2 = find_at(s, s1 + 1, e2, 47);
            let av = stat_field(s, s1 + 1, s2);
            if s2 < e2 {
                let s3 = find_at(s, s2 + 1, e2, 47);
                let mx = stat_field(s, s2 + 1, s3);
                PingAcc {
                    sent: acc.sent,
                    received: acc.received,
                    min_us: mn as u64,
                    avg_us: av as u64,
                    max_us: mx as u64,
                }
            } else {
                PingAcc {
                    sent: acc.sent,
                    received: acc.received,
                    min_us: mn as u64,
                    avg_us: av as u64,
                    max_us: 0,
                }
            }
        } else {
            PingAcc {
                sent: acc.sent,
                received: acc.received,
                min_us: mn as u64,
                avg_us: 0,
                max_us: 0,
            }
        }
    } else {
        acc
    }
}

/// What one line contributes: counts when it holds the summary marker,
/// latencies when it holds the statistics marker, otherwise nothing.
pub open spec fn apply_ping_line(s: Seq<u8>, lo: int, hi: int, acc: PingAcc) -> PingAcc {
    let acc1 = if contains_in(s, lo, hi, pkt_marker()) {
        counts_update(s, lo, hi, acc)
    } else {
        acc
    };
    if contains_in(s, lo, hi, stats_marker()) {
        stats_update(s, lo, hi, acc1)
    } else {
        acc1
    }
}

/// The whole text folded line by line from `pos`, lines split on the
/// line-feed byte.
pub open spec fn spec_parse_ping(s: Seq<u8>, pos: int, acc: PingAcc) -> PingAcc
    decreases s.len() - pos,
    when 0 <= pos <= s.len()
    via spec_parse_ping_decreases
{
    let e = find_at(s, pos, s.len() as int, 10);
    let acc2 = apply_ping_line(s, pos, e, acc);
    if e >= s.len() {
        acc2
    } else {
        spec_parse_ping(s, e + 1, acc2)
    }
}

#[via_fn]
proof fn spec_parse_ping_decreases(s: Seq<u8>, pos: int, acc: PingAcc) {
    lemma_find_at_props(s, pos, s.len() as int, 10);
}

/// Reads the first blank-separated token of `[lo, hi)` as a decimal
/// count, as `leading_int` says.
fn leading_int_x(s: &[u8], lo: usize, hi: usize, default: u32) -> (r: u32)
    requires
        lo <= hi <= s@.len(),
    ensures
        r as int == leading_int(s@, lo as int, hi as int, u32::MAX as int, default as int),
{
    let a = skip_spaces(s, lo, hi);
    let b = token_stop(s, a, hi);
    match parse_int_capped(s, a, b, u32::MAX as u64) {
        Some(v) => v as u32,
        None => default,
    }
}

/// Applies a summary line, as `counts_update` says.
fn counts_update_x(s: &[u8], lo: usize, hi: usize, acc: PingAcc) -> (r: PingAcc)
    requires
        lo <= hi <= s@.len(),
    ensures
        r == counts_update(s@, lo as int, hi as int, acc),
{
    let c1 = find_byte(s, lo, hi, 44);
    let sent = leading_int_x(s, lo, c1, 4);
    let received = if c1 < hi {
        let c2 = find_byte(s, c1 + 1, hi, 44);
        leading_int_x(s, c1 + 1, c2, 0)
    } else {
        0
    };
    PingAcc { sent, received, min_us: acc.min_us, avg_us: acc.avg_us, max_us: acc.max_us }
}

/// Reads one statistics field, as `stat_field` says.
fn stat_field_x(s: &[u8], lo: usize, hi: usize) -> (r: u64)
    requires
        lo <= hi <= s@.len(),
    ensures
        r as int == stat_field(s@, lo as int, hi as int),
{
    let a = skip_spaces(s, lo, hi);
    let b = token_stop(s, a, hi);
    match parse_fixed(s, a, b) {
        Some(v) => v,
        None => 0,
    }
}

/// Applies a statistics line, as `stats_update` says.
fn stats_update_x(s: &[u8], lo: usize, hi: usize, acc: PingAcc) -> (r: PingAcc)
    requires
        lo <= hi <= s@.len(),
    ensures
        r == stats_update(s@, lo as int, hi as int, acc),
{
    let eq = find_byte(s, lo, hi, 61);
    if eq < hi {
        let e2 = find_byte(s, eq + 1, hi, 61);
        let s1 = find_byte(s, eq + 1, e2, 47);
        let mn = stat_field_x(s, eq + 1, s1);
        if s1 < e2 {
            let s2 = find_byte(s, s1 + 1, e2, 47);
            let av = stat_field_x(s, s1 + 1, s2);
            if s2 < e2 {
                let s3 = find_byte(s, s2 + 1, e2, 47);
                let mx = stat_field_x(s, s2 + 1, s3);
                PingAcc {
                    sent: acc.sent,
                    received: acc.received,
                    min_us: mn,
                    avg_us: av,
                    max_us: mx,
                }
            } else {
                PingAcc {
                    sent: acc.sent,
                    received: acc.received,
                    min_us: mn,
                    avg_us: av,
                    max_us: 0,
                }
            }
        } else {
            PingAcc { sent: acc.sent, received: acc.received, min_us: mn, avg_us: 0, max_us: 0 }
        }
    } else {
        acc
    }
}

/// Applies one line, as `apply_ping_line` says.
fn apply_ping_line_x(s: &[u8], lo: usize, hi: usize, acc: PingAcc) -> (r: PingAcc)
    requires
        lo <= hi <= s@.len(),
    ensures
        r == apply_ping_line(s@, lo as int, hi as int, acc),
{
    let mut a = acc;
    if contains_bytes(s, lo, hi, "packets transmitted".as_bytes()) {
        a = counts_update_x(s, lo, hi, a);
    }
    if contains_bytes(s, lo, hi, "min/avg/max".as_bytes()) {
        a = stats_update_x(s, lo, hi, a);
    }
    a
}

/// Parses the ping utility's whole standard output into a measurement, as
/// the line-by-line fold `spec_parse_ping` says, then caps the received
/// count at the transmitted count and computes the exact loss ratio.
pub fn parse_ping_output(out: &[u8]) -> (r: PingResult)
    ensures
        ({
            let acc = spec_parse_ping(out@, 0, init_acc());
            let received = if acc.received > acc.sent {
                acc.sent
            } else {
                acc.received
            };
            &&& r.sent == acc.sent
            &&& r.received == received
            &&& r.received <= r.sent
            &&& r.loss_bp == spec_loss_bp(r.sent as int, r.received as int)
            &&& r.min_us == acc.min_us
            &&& r.avg_us == acc.avg_us
            &&& r.max_us == acc.max_us
        }),
{
    let n = out.len();
    let mut acc = PingAcc { sent: 4, received: 0, min_us: 0, avg_us: 0, max_us: 0 };
    let mut pos: usize = 0;
    let mut finished = false;
    while !finished
        invariant
            0 <= pos <= n,
            n == out@.len(),
            !finished ==> spec_parse_ping(out@, 0, init_acc()) == spec_parse_ping(
                out@,
                pos as int,
                acc,
            ),
            finished ==> spec_parse_ping(out@, 0, init_acc()) == acc,
        decreases n - pos + (if finished {
            0int
        } else {
            1int
        }),
    {
        let e = find_byte(out, pos, n, 10);
        acc = apply_ping_line_x(out, pos, e, acc);
        if e >= n {
            finished = true;
        } else {
            pos = e + 1;
        }
    }
    let sent = acc.sent;
    let received = if acc.received > sent {
        sent
    } else {
        acc.received
    };
    let lost = (sent - received) as u64;
    let loss_bp: u32 = if sent > 0 {
        proof {
            vstd::arithmetic::mul::lemma_mul_inequality(lost as int, sent as int, 10000);
            vstd::arithmetic::div_mod::lemma_div_is_ordered(
                lost as int * 10000,
                sent as int * 10000,
                sent as int,
            );
            vstd::arithmetic::div_mod::lemma_div_multiples_vanish(10000, sent as int);
        }
        ((lost * 10000) / (sent as u64)) as u32
    } else {
        0
    };
    PingResult {
        sent,
        received,
        loss_bp,
        min_us: acc.min_us,
        avg_us: acc.avg_us,
        max_us: acc.max_us,
    }
}

} // verus!
