//! Echo probing: the measurement type, the exact statistics, the raw-run
//! bookkeeping, and the orchestrator's fallback decision.
//!
//! Latencies are whole microseconds, so the external text's millisecond
//! values with three decimal places are held exactly. Packet loss is in
//! hundredths of a percent, which is exact for the fixed probe count.
//! The average is the arithmetic mean truncated to whole microseconds.

use vstd::arithmetic::div_mod::{lemma_div_is_ordered, lemma_div_multiples_vanish};
use vstd::arithmetic::mul::lemma_mul_inequality;
use vstd::prelude::*;

use crate::errors::ProbeError;

verus! {

/// Number of echo requests sent in one ping run.
pub const PING_PROBE_COUNT: u32 = 4;

/// Pause between consecutive echo requests, in milliseconds.
pub const PING_INTERVAL_MS: u64 = 500;

/// Outcome of one ping run, whichever strategy produced it.
#[derive(Debug, Clone, Copy, PartialEq, Eq, Structural)]
pub struct PingResult {
    /// Echo requests sent.
    pub sent: u32,
    /// Replies received; never more than `sent`.
    pub received: u32,
    /// Packet loss in hundredths of a percent: 0 means no loss, 10000 means
    /// total loss.
    pub loss_bp: u32,
    /// Fastest round trip in microseconds; 0 when nothing was received.
    pub min_us: u64,
    /// Mean round trip in microseconds, truncated; 0 when nothing was
    /// received.
    pub avg_us: u64,
    /// Slowest round trip in microseconds; 0 when nothing was received.
    pub max_us: u64,
}

/// Sum of the recorded round-trip times.
pub open spec fn seq_sum(s: Seq<u64>) -> int
    decreases s.len(),
{
    if s.len() == 0 {
        0
    } else {
        seq_sum(s.drop_last()) + s.last()
    }
}

/// Smallest recorded round-trip time; 0 for an empty record.
pub open spec fn seq_min(s: Seq<u64>) -> u64
    decreases s.len(),
{
    if s.len() == 0 {
        0
    } else if s.len() == 1 {
        s[0]
    } else {
        let m = seq_min(s.drop_last());
        if s.last() < m {
            s.last()
        } else {
            m
        }
    }
}

/// Largest recorded round-trip time; 0 for an empty record.
pub open spec fn seq_max(s: Seq<u64>) -> u64
    decreases s.len(),
{
    if s.len() == 0 {
        0
    } else if s.len() == 1 {
        s[0]
    } else {
        let m = seq_max(s.drop_last());
        if s.last() > m {
            s.last()
        } else {
            m
        }
    }
}

/// Loss ratio in hundredths of a percent, truncated; 0 when nothing was
/// sent.
pub open spec fn spec_loss_bp(sent: int, received: int) -> int {
    if sent > 0 {
        (sent - received) * 10000 / sent
    } else {
        0
    }
}

/// The measurement `m` is exactly what the recorded times `times` yield:
/// counts, loss ratio, and extremes and truncated mean of the times.
pub open spec fn stats_ok(m: PingResult, times: Seq<u64>) -> bool {
    &&& m.received == times.len()
    &&& m.received <= m.sent
    &&& m.loss_bp == spec_loss_bp(m.sent as int, m.received as int)
    &&& (times.len() == 0 ==> m.min_us == 0 && m.avg_us == 0 && m.max_us == 0)
    &&& (times.len() > 0 ==> m.min_us == seq_min(times) && m.max_us == seq_max(times)
        && m.avg_us == seq_sum(times) / (times.len() as int))
}

/// Every time is at least the minimum and at most the maximum, so the sum
/// sits between `len * min` and `len * max`.
proof fn lemma_sum_bounds(s: Seq<u64>)
    requires
        s.len() > 0,
    ensures
        (s.len() as int) * (seq_min(s) as int) <= seq_sum(s),
        seq_sum(s) <= (s.len() as int) * (seq_max(s) as int),
    decreases s.len(),
{
    if s.len() == 1 {
        assert(s.drop_last().len() == 0);
        assert(seq_sum(s.drop_last()) == 0);
        assert(seq_sum(s) == s[0]);
        assert(seq_min(s) == s[0]);
        assert(seq_max(s) == s[0]);
    } else {
        let s0 = s.drop_last();
        lemma_sum_bounds(s0);
        let n = s.len() as int;
        let n0 = s0.len() as int;
        let mn = seq_min(s) as int;
        let mn0 = seq_min(s0) as int;
        let mx = seq_max(s) as int;
        let mx0 = seq_max(s0) as int;
        let last = s.last() as int;
        assert(n * mn <= seq_sum(s) && seq_sum(s) <= n * mx) by (nonlinear_arith)
            requires
                n == n0 + 1,
                n0 >= 1,
                n0 * mn0 <= seq_sum(s0),
                seq_sum(s0) <= n0 * mx0,
                seq_sum(s) == seq_sum(s0) + last,
                mn <= mn0,
                mn <= last,
                mx0 <= mx,
                last <= mx;
    }
}

/// The truncated mean of a non-empty record sits between its extremes.
proof fn lemma_avg_bounds(s: Seq<u64>)
    requires
        s.len() > 0,
    ensures
        seq_min(s) as int <= seq_sum(s) / (s.len() as int),
        seq_sum(s) / (s.len() as int) <= seq_max(s) as int,
{
    let n = s.len() as int;
    lemma_sum_bounds(s);
    lemma_div_is_ordered(n * (seq_min(s) as int), seq_sum(s), n);
    lemma_div_is_ordered(seq_sum(s), n * (seq_max(s) as int), n);
    lemma_div_multiples_vanish(seq_min(s) as int, n);
    lemma_div_multiples_vanish(seq_max(s) as int, n);
}

/// Folds the recorded round-trip times into a measurement: exact loss
/// ratio, and extremes and truncated mean over the received times only.
/// With no reply at all, every latency field is 0 rather than undefined.
pub fn calculate_stats(sent: u32, received: u32, times: &Vec<u64>) -> (r: PingResult)
    requires
        1 <= sent,
        received <= sent,
        times@.len() == received as nat,
    ensures
        r.sent == sent,
        r.received == received,
        stats_ok(r, times@),
        r.min_us <= r.avg_us && r.avg_us <= r.max_us,
{
    let lost = (sent - received) as u64;
    proof {
        lemma_mul_inequality(lost as int, sent as int, 10000);
        lemma_div_is_ordered(lost as int * 10000, sent as int * 10000, sent as int);
        lemma_div_multiples_vanish(10000, sent as int);
    }
    let loss_bp = ((lost * 10000) / (sent as u64)) as u32;
    let n = times.len();
    if n == 0 {
        return PingResult { sent, received, loss_bp, min_us: 0, avg_us: 0, max_us: 0 };
    }
    let mut mn = times[0];
    let mut mx = times[0];
    let mut sum: u128 = times[0] as u128;
    let mut i: usize = 1;
    proof {
        let first = times@.subrange(0, 1);
        assert(first.len() == 1);
        assert(first[0] == times@[0]);
        assert(first.last() == times@[0]);
        assert(first.drop_last() =~= times@.subrange(0, 0));
        assert(times@.subrange(0, 0).len() == 0);
        assert(seq_sum(times@.subrange(0, 0)) == 0);
        assert(seq_sum(first) == times@[0]);
        assert(seq_min(first) == times@[0]);
        assert(seq_max(first) == times@[0]);
    }
    while i < n
        invariant
            1 <= i <= n,
            n == times@.len(),
            mn == seq_min(times@.subrange(0, i as int)),
            mx == seq_max(times@.subrange(0, i as int)),
            sum == seq_sum(times@.subrange(0, i as int)),
            sum <= (i as int) * (u64::MAX as int),
        decreases n - i,
    {
        let t = times[i];
        proof {
            let pre = times@.subrange(0, i as int);
            let post = times@.subrange(0, i + 1);
            assert(post.drop_last() =~= pre);
            assert(post.last() == times@[i as int]);
        }
        if t < mn {
            mn = t;
        }
        if t > mx {
            mx = t;
        }
        sum = sum + t as u128;
        i += 1;
    }
    proof {
        assert(times@.subrange(0, n as int) =~= times@);
        lemma_avg_bounds(times@);
        lemma_sum_bounds(times@);
    }
    let avg = (sum / (n as u128)) as u64;
    PingResult { sent, received, loss_bp, min_us: mn, avg_us: avg, max_us: mx }
}

/// Bookkeeping for one raw echo run: a fixed session identifier, how many
/// requests went out, and the round-trip time of every reply that came
/// back. The caller performs the sends and waits; this records them.
#[derive(Debug)]
pub struct RawPingRun {
    /// The random session identifier chosen for this run, fixed across its
    /// probes and never shared beyond it.
    pub ident: u16,
    /// Echo requests handed out so far, at most `PING_PROBE_COUNT`.
    pub attempted: u32,
    /// Round-trip times of the correlated replies, in microseconds, in
    /// arrival order; unanswered requests leave no entry.
    pub times_us: Vec<u64>,
}

impl RawPingRun {
    /// Requests never outrun the fixed count, and every reply belongs to a
    /// request.
    pub open spec fn wf(self) -> bool {
        self.attempted <= PING_PROBE_COUNT && self.times_us@.len() <= self.attempted
    }

    /// Starts a run under the caller's randomly chosen session identifier.
    pub fn new(ident: u16) -> (r: Self)
        ensures
            r.wf(),
            r.ident == ident,
            r.attempted == 0,
            r.times_us@ == Seq::<u64>::empty(),
    {
        RawPingRun { ident, attempted: 0, times_us: Vec::new() }
    }

    /// The sequence number the next echo request must carry: they count up
    /// from 0.
    pub fn next_sequence(&self) -> (r: u16)
        requires
            self.wf(),
            self.attempted < PING_PROBE_COUNT,
        ensures
            r == self.attempted,
    {
        self.attempted as u16
    }

    /// Whether every request of the run has been attempted.
    pub fn is_done(&self) -> (r: bool)
        ensures
            r == (self.attempted == PING_PROBE_COUNT),
    {
        self.attempted == PING_PROBE_COUNT
    }

    /// Records a correlated reply and its round-trip time.
    pub fn record_reply(&mut self, elapsed_us: u64)
        requires
            old(self).wf(),
            old(self).attempted < PING_PROBE_COUNT,
        ensures
            final(self).wf(),
            final(self).ident == old(self).ident,
            final(self).attempted == old(self).attempted + 1,
            final(self).times_us@ == old(self).times_us@.push(elapsed_us),
    {
        self.attempted = self.attempted + 1;
        self.times_us.push(elapsed_us);
    }

    /// Records a request that got no reply: counted, not timed.
    pub fn record_lost(&mut self)
        requires
            old(self).wf(),
            old(self).attempted < PING_PROBE_COUNT,
        ensures
            final(self).wf(),
            final(self).ident == old(self).ident,
            final(self).attempted == old(self).attempted + 1,
            final(self).times_us@ == old(self).times_us@,
    {
        self.attempted = self.attempted + 1;
    }

    /// Folds a completed run into its measurement.
    pub fn finish(&self) -> (r: PingResult)
        requires
            self.wf(),
            self.attempted == PING_PROBE_COUNT,
        ensures
            r.sent == PING_PROBE_COUNT,
            r.received == self.times_us@.len(),
            stats_ok(r, self.times_us@),
            r.min_us <= r.avg_us && r.avg_us <= r.max_us,
    {
        calculate_stats(PING_PROBE_COUNT, self.times_us.len() as u32, &self.times_us)
    }
}

/// What the orchestrator does after the raw attempt: keep its measurement,
/// switch to the fallback, or surface the failure.
#[derive(Debug, Clone, Copy, PartialEq, Eq, Structural)]
pub enum PingDecision {
    /// The raw run succeeded; its measurement stands.
    Accept(PingResult),
    /// The raw capability was refused for lack of privilege; run the
    /// external-command fallback.
    RunFallback,
    /// Any other raw failure; surfaced unchanged, no fallback.
    Fail(ProbeError),
}

/// The one transition the ping orchestrator makes after the raw attempt.
pub open spec fn spec_after_raw(outcome: Result<PingResult, ProbeError>) -> PingDecision {
    match outcome {
        Ok(m) => PingDecision::Accept(m),
        Err(e) => if e == ProbeError::PermissionDenied {
            PingDecision::RunFallback
        } else {
            PingDecision::Fail(e)
        },
    }
}

/// Decides the orchestrator's next step from the raw attempt's outcome:
/// only a permission-classified failure is recovered, by fallback; every
/// other failure is terminal.
pub fn after_raw_attempt(outcome: Result<PingResult, ProbeError>) -> (d: PingDecision)
    ensures
        d == spec_after_raw(outcome),
{
    match outcome {
        Ok(m) => PingDecision::Accept(m),
        Err(e) => {
            if e == ProbeError::PermissionDenied {
                PingDecision::RunFallback
            } else {
                PingDecision::Fail(e)
            }
        },
    }
}

/// A permission-classified raw failure always selects the fallback path:
/// it is never surfaced to the caller as an error.
pub proof fn lemma_permission_failure_selects_fallback(outcome: Result<PingResult, ProbeError>)
    requires
        outcome == Result::<PingResult, ProbeError>::Err(ProbeError::PermissionDenied),
    ensures
        spec_after_raw(outcome) == PingDecision::RunFallback,
        !(spec_after_raw(outcome) is Fail),
{
}

/// A full run reports the fixed probe count, no more replies than
/// requests, and the exact loss ratio in hundredths of a percent.
pub proof fn lemma_ping_loss_exact(m: PingResult, times: Seq<u64>)
    requires
        stats_ok(m, times),
        m.sent == PING_PROBE_COUNT,
    ensures
        0 <= m.received <= m.sent,
        m.sent == 4,
        m.loss_bp == (m.sent - m.received) * 10000 / (m.sent as int),
{
}

/// With no reply at all, every latency field is zero.
pub proof fn lemma_no_reply_zeroes(m: PingResult, times: Seq<u64>)
    requires
        stats_ok(m, times),
        m.received == 0,
    ensures
        m.min_us == 0,
        m.avg_us == 0,
        m.max_us == 0,
{
}

/// Two measurements over the same probe count and the same recorded times
/// are identical: a run's outcome depends only on what was recorded, so
/// re-running a scenario with equal recordings reproduces the measurement.
pub proof fn lemma_stats_deterministic(m1: PingResult, m2: PingResult, times: Seq<u64>)
    requires
        stats_ok(m1, times),
        stats_ok(m2, times),
        m1.sent == m2.sent,
    ensures
        m1 == m2,
{
}

/// With at least one reply, the mean is the truncated arithmetic mean of
/// the recorded times and sits between the extremes.
pub proof fn lemma_latency_ordering(m: PingResult, times: Seq<u64>)
    requires
        stats_ok(m, times),
        m.received > 0,
    ensures
        m.min_us <= m.avg_us <= m.max_us,
        m.avg_us == seq_sum(times) / (times.len() as int),
{
    lemma_avg_bounds(times);
}

} // verus!
