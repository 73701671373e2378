//! Parser for the external traceroute utility's per-hop lines.
//!
//! Lines beginning with the program's own banner token are skipped. Every
//! other line with at least two blank-separated tokens whose first token
//! is a hop number becomes one hop: the second token is the responder
//! address, and each later numeric token marked with `ms` — either fused
//! to it (`1.234ms`) or as the following token (`1.234 ms`) — is one
//! round-trip sample in milliseconds, held as fixed-point microseconds.
//! Lines whose first token is not a number are skipped, not an error.

use vstd::prelude::*;
use vstd::string::StringSliceAdditionalSpecFns;

use crate::text::{
    all_digits,
    bytes_match_at,
    copy_range,
    digits_val,
    find_at,
    find_byte,
    lemma_find_at_props,
    lemma_skip_ws_props,
    lemma_token_end_props,
    match_at,
    parse_fixed,
    parse_int_capped,
    skip_spaces,
    skip_ws,
    spec_parse_fixed,
    token_end,
    token_stop,
};
use crate::trace::{TraceHop, TraceResult};

verus! {

/// The bytes of the banner token that opens the utility's header line.
pub open spec fn banner_marker() -> Seq<u8> {
    "traceroute".spec_bytes()
}

/// A hop as the text describes it: the view of one `TraceHop`.
pub struct HopModel {
    /// 1-based hop number, as printed.
    pub hop: u32,
    /// Responder address text.
    pub ip: Seq<u8>,
    /// Round-trip samples in microseconds, in printed order.
    pub times_us: Seq<u64>,
}

/// The view of a parsed hop.
pub open spec fn hop_view(h: TraceHop) -> HopModel {
    HopModel { hop: h.hop, ip: h.ip@, times_us: h.times_us@ }
}

/// The round-trip samples among the tokens of `[i, end)`: a token reading
/// as a fixed-point number counts when it carries a fused `ms` suffix or
/// is followed by a lone `ms` token; everything else is passed over.
pub open spec fn spec_hop_times(s: Seq<u8>, i: int, end: int) -> Seq<u64>
    decreases end - i,
    when 0 <= i <= end <= s.len()
    via spec_hop_times_decreases
{
    let a = skip_ws(s, i, end);
    if a >= end {
        Seq::empty()
    } else {
        let b = token_end(s, a, end);
        if b - a == 2 && s[a] == 109 && s[a + 1] == 115 {
            // a lone `ms` token on its own contributes nothing
            spec_hop_times(s, b, end)
        } else if b - a > 2 && s[b - 2] == 109 && s[b - 1] == 115 {
            match spec_parse_fixed(s, a, b - 2) {
                Some(v) => seq![v as u64] + spec_hop_times(s, b, end),
                None => spec_hop_times(s, b, end),
            }
        } else {
            let a2 = skip_ws(s, b, end);
            let b2 = token_end(s, a2, end);
            if a2 < end && b2 - a2 == 2 && s[a2] == 109 && s[a2 + 1] == 115 {
                match spec_parse_fixed(s, a, b) {
                    Some(v) => seq![v as u64] + spec_hop_times(s, b2, end),
                    None => spec_hop_times(s, b2, end),
                }
            } else {
                spec_hop_times(s, b, end)
            }
        }
    }
}

#[via_fn]
proof fn spec_hop_times_decreases(s: Seq<u8>, i: int, end: int) {
    lemma_skip_ws_props(s, i, end);
    let a = skip_ws(s, i, end);
    if a < end {
        lemma_token_end_props(s, a, end);
        let b = token_end(s, a, end);
        lemma_skip_ws_props(s, b, end);
        let a2 = skip_ws(s, b, end);
        lemma_token_end_props(s, a2, end);
    }
}

/// What one line yields: nothing for the banner line, for a line of fewer
/// than two tokens, or when the first token is not a hop number; else the
/// hop number, the second token as the responder, and the `ms`-marked
/// samples after it.
pub open spec fn spec_hop_line(s: Seq<u8>, lo: int, hi: int) -> Option<HopModel> {
    if match_at(s, lo, banner_marker()) {
        None
    } else {
        let a0 = skip_ws(s, lo, hi);
        if a0 >= hi {
            None
        } else {
            let b0 = token_end(s, a0, hi);
            let a1 = skip_ws(s, b0, hi);
            if a1 >= hi {
                None
            } else {
                let b1 = token_end(s, a1, hi);
                if a0 < b0 && all_digits(s, a0, b0) && digits_val(s, a0, b0) <= u32::MAX {
                    Some(
                        HopModel {
                            hop: digits_val(s, a0, b0) as u32,
                            ip: s.subrange(a1, b1),
                            times_us: spec_hop_times(s, b1, hi),
                        },
                    )
                } else {
                    None
                }
            }
        }
    }
}

/// The whole text folded line by line from `pos`, lines split on the
/// line-feed byte, keeping every line that yields a hop, in order.
pub open spec fn spec_parse_trace(s: Seq<u8>, pos: int) -> Seq<HopModel>
    decreases s.len() - pos,
    when 0 <= pos <= s.len()
    via spec_parse_trace_decreases
{
    let e = find_at(s, pos, s.len() as int, 10);
    let rest = if e >= s.len() {
        Seq::<HopModel>::empty()
    } else {
        spec_parse_trace(s, e + 1)
    };
    match spec_hop_line(s, pos, e) {
        Some(h) => seq![h] + rest,
        None => rest,
    }
}

#[via_fn]
proof fn spec_parse_trace_decreases(s: Seq<u8>, pos: int) {
    lemma_find_at_props(s, pos, s.len() as int, 10);
}

/// Collects the `ms`-marked samples of `[i, end)`, as `spec_hop_times`
/// says.
fn hop_times_x(s: &[u8], start: usize, end: usize) -> (r: Vec<u64>)
    requires
        start <= end <= s@.len(),
    ensures
        r@ == spec_hop_times(s@, start as int, end as int),
{
    let mut times: Vec<u64> = Vec::new();
    let mut i = start;
    let mut done = false;
    while !done
        invariant
            start <= i <= end <= s@.len(),
            !done ==> spec_hop_times(s@, start as int, end as int) == times@ + spec_hop_times(
                s@,
                i as int,
                end as int,
            ),
            done ==> spec_hop_times(s@, start as int, end as int) == times@,
        decreases end - i + (if done {
            0int
        } else {
            1int
        }),
    {
        let ghost i0 = i as int;
        let ghost send = end as int;
        let ghost times0 = times@;
        let a = skip_spaces(s, i, end);
        if a >= end {
            proof {
                assert(spec_hop_times(s@, i0, send) =~= Seq::<u64>::empty());
                assert(times0 + Seq::<u64>::empty() =~= times0);
            }
            done = true;
        } else {
            let b = token_stop(s, a, end);
            proof {
                lemma_skip_ws_props(s@, i0, send);
                lemma_token_end_props(s@, a as int, send);
            }
            if b - a == 2 && s[a] == 109 && s[a + 1] == 115 {
                i = b;
            } else if b - a > 2 && s[b - 2] == 109 && s[b - 1] == 115 {
                match parse_fixed(s, a, b - 2) {
                    Some(v) => {
                        times.push(v);
                        proof {
                            assert(times@ =~= times0 + seq![v]);
                            assert(times0 + (seq![v] + spec_hop_times(s@, b as int, send)) =~= (
                            times0 + seq![v]) + spec_hop_times(s@, b as int, send));
                        }
                        i = b;
                    },
                    None => {
                        i = b;
                    },
                }
            } else {
                let a2 = skip_spaces(s, b, end);
                let mut next_ms = false;
                let mut b2 = a2;
                if a2 < end {
                    b2 = token_stop(s, a2, end);
                    if b2 - a2 == 2 && s[a2] == 109 && s[a2 + 1] == 115 {
                        next_ms = true;
                    }
                }
                if next_ms {
                    match parse_fixed(s, a, b) {
                        Some(v) => {
                            times.push(v);
                            proof {
                                assert(times@ =~= times0 + seq![v]);
                                assert(times0 + (seq![v] + spec_hop_times(s@, b2 as int, send))
                                    =~= (times0 + seq![v]) + spec_hop_times(
                                    s@,
                                    b2 as int,
                                    send,
                                ));
                            }
                        },
                        None => {
                        },
                    }
                    i = b2;
                } else {
                    i = b;
                }
            }
        }
    }
    times
}

/// Reads one line as a hop, as `spec_hop_line` says.
fn parse_hop_line_x(s: &[u8], lo: usize, hi: usize) -> (r: Option<TraceHop>)
    requires
        lo <= hi <= s@.len(),
    ensures
        match r {
            Some(h) => spec_hop_line(s@, lo as int, hi as int) == Some(hop_view(h)) && h.host@
                == h.ip@,
            None => spec_hop_line(s@, lo as int, hi as int) is None,
        },
{
    if bytes_match_at(s, lo, "traceroute".as_bytes()) {
        return None;
    }
    let a0 = skip_spaces(s, lo, hi);
    if a0 >= hi {
        return None;
    }
    let b0 = token_stop(s, a0, hi);
    let a1 = skip_spaces(s, b0, hi);
    if a1 >= hi {
        return None;
    }
    let b1 = token_stop(s, a1, hi);
    match parse_int_capped(s, a0, b0, u32::MAX as u64) {
        Some(v) => {
            let ip = copy_range(s, a1, b1);
            let host = copy_range(s, a1, b1);
            let times = hop_times_x(s, b1, hi);
            Some(TraceHop { hop: v as u32, host, ip, times_us: times })
        },
        None => None,
    }
}

/// Parses the traceroute utility's whole standard output into an ordered
/// hop list, as the line-by-line fold `spec_parse_trace` says. Each hop's
/// `host` repeats its `ip`, since numeric output resolves no names.
pub fn parse_traceroute(out: &[u8]) -> (r: TraceResult)
    ensures
        r.hops@.map_values(|h: TraceHop| hop_view(h)) == spec_parse_trace(out@, 0),
        forall|i: int| 0 <= i < r.hops@.len() ==> (#[trigger] r.hops@[i]).host@ == r.hops@[i].ip@,
{
    let n = out.len();
    let mut hops: Vec<TraceHop> = Vec::new();
    let mut pos: usize = 0;
    let mut finished = false;
    while !finished
        invariant
            0 <= pos <= n,
            n == out@.len(),
            !finished ==> spec_parse_trace(out@, 0) == hops@.map_values(
                |h: TraceHop| hop_view(h),
            ) + spec_parse_trace(out@, pos as int),
            finished ==> spec_parse_trace(out@, 0) == hops@.map_values(
                |h: TraceHop| hop_view(h),
            ),
            forall|i: int| 0 <= i < hops@.len() ==> (#[trigger] hops@[i]).host@ == hops@[i].ip@,
        decreases n - pos + (if finished {
            0int
        } else {
            1int
        }),
    {
        let ghost pos0 = pos as int;
        let ghost hops0 = hops@;
        let e = find_byte(out, pos, n, 10);
        match parse_hop_line_x(out, pos, e) {
            Some(h) => {
                hops.push(h);
                proof {
                    assert(hops@.map_values(|x: TraceHop| hop_view(x)) =~= hops0.map_values(
                        |x: TraceHop| hop_view(x),
                    ) + seq![hop_view(h)]);
                }
            },
            None => {
            },
        }
        proof {
            let f = |x: TraceHop| hop_view(x);
            let rest = if e >= n {
                Seq::<HopModel>::empty()
            } else {
                spec_parse_trace(out@, e + 1)
            };
            assert(spec_parse_trace(out@, pos0) == (match spec_hop_line(out@, pos0, e as int) {
                Some(hm) => seq![hm] + rest,
                None => rest,
            }));
            if spec_hop_line(out@, pos0, e as int) is Some {
                let hm = spec_hop_line(out@, pos0, e as int)->Some_0;
                assert(hops0.map_values(f) + (seq![hm] + rest) =~= (hops0.map_values(f) + seq![
                    hm,
                ]) + rest);
            }
            if e >= n {
                assert(hops@.map_values(f) + Seq::<HopModel>::empty() =~= hops@.map_values(f));
            }
        }
        if e >= n {
            finished = true;
        } else {
            pos = e + 1;
        }
    }
    TraceResult { hops }
}

} // verus!
