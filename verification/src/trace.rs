//! TTL-stepped traceroute: the hop data model and the probing engine.
//!
//! The engine owns every decision of the raw UDP strategy — which TTL to
//! probe next, what a reply or a silence means, and when the run is over —
//! while the caller owns the sockets: it sends one datagram per hop, waits
//! out the timeout, and hands back the responder and the elapsed time.

use vstd::prelude::*;

use crate::addr::{is_ipv4_text, spec_ipv4_text};
use crate::errors::ProbeError;
use crate::text::{bytes_eq, copy_range};

verus! {

/// Hop ceiling: a traceroute never probes beyond this TTL.
pub const MAX_HOPS: u32 = 30;

/// How long the caller waits for any reply to one hop's probe, in
/// milliseconds.
pub const HOP_TIMEOUT_MS: u64 = 2000;

/// Base destination port; hop `ttl` probes port `TRACE_BASE_PORT + ttl`.
pub const TRACE_BASE_PORT: u16 = 33434;

/// The address text recorded for a hop that never answered.
pub open spec fn sentinel() -> Seq<u8> {
    seq![42u8]
}

/// A fresh vector holding the no-response sentinel text, `*`.
pub fn sentinel_bytes() -> (r: Vec<u8>)
    ensures
        r@ == sentinel(),
{
    let mut v: Vec<u8> = Vec::new();
    v.push(42u8);
    proof {
        assert(v@ =~= sentinel());
    }
    v
}

/// One probed hop of the path.
#[derive(Debug, Clone)]
pub struct TraceHop {
    /// 1-based position of the hop along the path.
    pub hop: u32,
    /// Same text as `ip`; kept because numeric output resolves no names.
    pub host: Vec<u8>,
    /// Responder address text, or the `*` sentinel for no response.
    pub ip: Vec<u8>,
    /// Round-trip times for this hop in microseconds: the raw strategy
    /// yields exactly one entry, the external command may yield several.
    pub times_us: Vec<u64>,
}

/// An ordered path of probed hops.
#[derive(Debug, Clone)]
pub struct TraceResult {
    /// Hops in probing order, hop indices counting up from 1.
    pub hops: Vec<TraceHop>,
}

/// Where a raw traceroute run stands.
#[derive(Debug, Clone, Copy, PartialEq, Eq, Structural)]
pub enum TraceStatus {
    /// More hops remain to be probed.
    Probing,
    /// The destination itself answered; the run is complete.
    ReachedDestination,
    /// The hop ceiling was probed without the destination answering.
    HopLimit,
    /// The very first hop stayed silent, so replies are being filtered;
    /// the run was abandoned with nothing recorded.
    PrivilegeBlocked,
}

/// One raw UDP traceroute run: the destination, the hops recorded so far,
/// and where the run stands. Callers drive it one hop at a time with
/// `next_ttl` and `record_hop`, preserving `wf`.
#[derive(Debug)]
pub struct UdpTraceRun {
    /// Destination address text, a valid dotted quad.
    pub dest: Vec<u8>,
    /// Hops recorded so far, in probing order.
    pub hops: Vec<TraceHop>,
    /// Where the run stands.
    pub status: TraceStatus,
}

impl UdpTraceRun {
    /// The engine's invariant: hop indices count up from 1 under the
    /// ceiling, every hop carries exactly one time, only the last hop may
    /// be the destination, and the status matches the recorded hops.
    pub open spec fn wf(self) -> bool {
        &&& self.hops@.len() <= MAX_HOPS
        &&& (forall|i: int|
            0 <= i < self.hops@.len() ==> (#[trigger] self.hops@[i]).hop == i + 1)
        &&& (forall|i: int|
            0 <= i < self.hops@.len() ==> (#[trigger] self.hops@[i]).times_us@.len() == 1)
        &&& (forall|i: int|
            0 <= i < self.hops@.len() ==> (#[trigger] self.hops@[i]).host@ == self.hops@[i].ip@)
        &&& (forall|i: int|
            0 <= i < self.hops@.len() - 1 ==> (#[trigger] self.hops@[i]).ip@ != self.dest@)
        &&& (self.status is Probing ==> self.hops@.len() < MAX_HOPS && (self.hops@.len() > 0
            ==> self.hops@.last().ip@ != self.dest@))
        &&& (self.status is ReachedDestination ==> self.hops@.len() >= 1
            && self.hops@.last().ip@ == self.dest@)
        &&& (self.status is HopLimit ==> self.hops@.len() == MAX_HOPS
            && self.hops@.last().ip@ != self.dest@)
        &&& (self.status is PrivilegeBlocked ==> self.hops@.len() == 0)
    }

    /// Starts a run toward `dest`, refusing anything but dotted-quad text:
    /// this strategy probes IPv4 only.
    pub fn new(dest: Vec<u8>) -> (r: Result<Self, ProbeError>)
        ensures
            match r {
                Ok(run) => spec_ipv4_text(dest@) && run.wf() && run.status is Probing
                    && run.dest@ == dest@ && run.hops@.len() == 0,
                Err(e) => e == ProbeError::InvalidTarget && !spec_ipv4_text(dest@),
            },
    {
        if is_ipv4_text(dest.as_slice()) {
            Ok(UdpTraceRun { dest, hops: Vec::new(), status: TraceStatus::Probing })
        } else {
            Err(ProbeError::InvalidTarget)
        }
    }

    /// The TTL the caller must probe next, or nothing once the run is
    /// over: TTLs count up from 1, one probe each, never past the ceiling.
    pub fn next_ttl(&self) -> (r: Option<u32>)
        requires
            self.wf(),
        ensures
            self.status is Probing ==> r == Some((self.hops@.len() + 1) as u32),
            !(self.status is Probing) ==> r is None,
    {
        match self.status {
            TraceStatus::Probing => Some(self.hops.len() as u32 + 1),
            _ => None,
        }
    }

    /// The destination port for the probe at `ttl`.
    pub fn probe_port(ttl: u32) -> (r: u16)
        requires
            1 <= ttl <= MAX_HOPS,
        ensures
            r == TRACE_BASE_PORT + ttl,
    {
        TRACE_BASE_PORT + (ttl as u16)
    }

    /// Records what one hop's probe brought back: the responder's address
    /// text, or nothing for a timeout. A silent first hop abandons the run
    /// as privilege-blocked with nothing recorded; otherwise the hop is
    /// appended with the elapsed time (the full wait, on a timeout), and
    /// the run ends when the destination itself answered or the ceiling
    /// was reached.
    pub fn record_hop(&mut self, responder: Option<Vec<u8>>, elapsed_us: u64)
        requires
            old(self).wf(),
            old(self).status is Probing,
        ensures
            final(self).wf(),
            final(self).dest@ == old(self).dest@,
            (responder is None && old(self).hops@.len() == 0) ==> (final(self).status
                is PrivilegeBlocked && final(self).hops@.len() == 0),
            !(responder is None && old(self).hops@.len() == 0) ==> {
                let ip_text = match responder {
                    Some(a) => a@,
                    None => sentinel(),
                };
                let reached = ip_text == old(self).dest@;
                &&& final(self).hops@.len() == old(self).hops@.len() + 1
                &&& final(self).hops@.subrange(0, old(self).hops@.len() as int) == old(
                    self,
                ).hops@
                &&& final(self).hops@.last().hop == old(self).hops@.len() + 1
                &&& final(self).hops@.last().ip@ == ip_text
                &&& final(self).hops@.last().host@ == ip_text
                &&& final(self).hops@.last().times_us@ == seq![elapsed_us]
                &&& (final(self).status is ReachedDestination <==> reached)
                &&& (final(self).status is HopLimit <==> !reached && old(self).hops@.len() + 1
                    == MAX_HOPS)
                &&& (final(self).status is Probing <==> !reached && old(self).hops@.len() + 1
                    < MAX_HOPS)
            },
    {
        let is_none = responder.is_none();
        if is_none && self.hops.len() == 0 {
            self.status = TraceStatus::PrivilegeBlocked;
            return ;
        }
        let ip: Vec<u8> = match responder {
            Some(a) => a,
            None => sentinel_bytes(),
        };
        let host = copy_range(ip.as_slice(), 0, ip.len());
        proof {
            assert(host@ =~= ip@);
        }
        let reached = bytes_eq(ip.as_slice(), self.dest.as_slice());
        let hop_index = self.hops.len() as u32 + 1;
        let mut times: Vec<u64> = Vec::new();
        times.push(elapsed_us);
        proof {
            assert(times@ =~= seq![elapsed_us]);
        }
        let ghost old_hops = self.hops@;
        self.hops.push(TraceHop { hop: hop_index, host, ip, times_us: times });
        proof {
            assert(self.hops@.subrange(0, old_hops.len() as int) =~= old_hops);
        }
        if reached {
            self.status = TraceStatus::ReachedDestination;
        } else if self.hops.len() == MAX_HOPS as usize {
            self.status = TraceStatus::HopLimit;
        } else {
            self.status = TraceStatus::Probing;
        }
    }

    /// Whether the run is over, one way or another.
    pub fn is_done(&self) -> (r: bool)
        ensures
            r == !(self.status is Probing),
    {
        match self.status {
            TraceStatus::Probing => false,
            _ => true,
        }
    }

    /// Folds a finished run into its outcome: the recorded path when the
    /// destination answered or the ceiling was reached, the privilege
    /// error when the first hop was silent.
    pub fn finish(self) -> (r: Result<TraceResult, ProbeError>)
        requires
            self.wf(),
            !(self.status is Probing),
        ensures
            self.status is PrivilegeBlocked ==> r == Err::<TraceResult, ProbeError>(
                ProbeError::PrivilegeRequired,
            ),
            !(self.status is PrivilegeBlocked) ==> (r matches Ok(t) && t.hops@ == self.hops@),
    {
        match self.status {
            TraceStatus::PrivilegeBlocked => Err(ProbeError::PrivilegeRequired),
            _ => Ok(TraceResult { hops: self.hops }),
        }
    }
}

/// Which traceroute strategy a run uses.
#[derive(Debug, Clone, Copy, PartialEq, Eq, Structural)]
pub enum TraceStrategy {
    /// The system traceroute utility is present: run it and parse its
    /// output.
    External,
    /// No utility is present: run the raw UDP engine.
    RawUdp,
}

/// The single selection the traceroute orchestrator makes, once, before
/// probing: the external utility whenever one is present at a well-known
/// path, else the raw UDP engine. There is no cross-fallback afterwards.
pub fn select_trace_strategy(external_present: bool) -> (r: TraceStrategy)
    ensures
        external_present ==> r == TraceStrategy::External,
        !external_present ==> r == TraceStrategy::RawUdp,
{
    if external_present {
        TraceStrategy::External
    } else {
        TraceStrategy::RawUdp
    }
}

/// Hop indices of a well-formed run count 1, 2, 3, ... — strictly
/// increasing from 1 — and the path never exceeds the hop ceiling.
pub proof fn lemma_hop_indices(run: UdpTraceRun)
    requires
        run.wf(),
    ensures
        run.hops@.len() <= MAX_HOPS,
        forall|i: int| 0 <= i < run.hops@.len() ==> (#[trigger] run.hops@[i]).hop == i + 1,
        forall|i: int, j: int|
            0 <= i < j < run.hops@.len() ==> run.hops@[i].hop < run.hops@[j].hop,
{
    assert forall|i: int, j: int| 0 <= i < j < run.hops@.len() implies run.hops@[i].hop
        < run.hops@[j].hop by {
        assert(run.hops@[i].hop == i + 1);
        assert(run.hops@[j].hop == j + 1);
    }
}

/// A run that reached its destination stopped exactly there: the final
/// hop's responder is the destination and no earlier hop's is. Once the
/// run is over, `next_ttl` hands out nothing, so no hop beyond the final
/// one is ever probed.
pub proof fn lemma_stops_at_destination(run: UdpTraceRun)
    requires
        run.wf(),
        run.status is ReachedDestination,
    ensures
        run.hops@.len() >= 1,
        run.hops@.last().ip@ == run.dest@,
        forall|i: int|
            0 <= i < run.hops@.len() - 1 ==> (#[trigger] run.hops@[i]).ip@ != run.dest@,
{
}

/// A run abandoned because its very first hop was silent records no hops
/// at all: never a partial multi-hop path.
pub proof fn lemma_privilege_blocked_is_empty(run: UdpTraceRun)
    requires
        run.wf(),
        run.status is PrivilegeBlocked,
    ensures
        run.hops@.len() == 0,
{
}

} // verus!
