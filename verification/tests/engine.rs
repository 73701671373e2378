//! Tests for the probe engines and the orchestrator decisions.

use staxping::{
    after_raw_attempt, calculate_stats, select_trace_strategy, PingDecision, ProbeError,
    RawPingRun, TraceStrategy, UdpTraceRun, MAX_HOPS,
};

#[test]
fn stats_exact_values() {
    let m = calculate_stats(4, 3, &vec![1000, 4000, 2000]);
    assert_eq!(m.sent, 4);
    assert_eq!(m.received, 3);
    assert_eq!(m.loss_bp, 2500);
    assert_eq!(m.min_us, 1000);
    assert_eq!(m.avg_us, 2333);
    assert_eq!(m.max_us, 4000);
}

#[test]
fn stats_no_reply_is_all_zero() {
    let m = calculate_stats(4, 0, &Vec::new());
    assert_eq!(m.received, 0);
    assert_eq!(m.loss_bp, 10000);
    assert_eq!(m.min_us, 0);
    assert_eq!(m.avg_us, 0);
    assert_eq!(m.max_us, 0);
}

#[test]
fn stats_single_reply_collapses() {
    let m = calculate_stats(4, 1, &vec![777]);
    assert_eq!(m.loss_bp, 7500);
    assert_eq!(m.min_us, 777);
    assert_eq!(m.avg_us, 777);
    assert_eq!(m.max_us, 777);
}

#[test]
fn stats_mean_is_truncated_and_ordered() {
    let m = calculate_stats(2, 2, &vec![1, 2]);
    assert_eq!(m.avg_us, 1);
    assert!(m.min_us <= m.avg_us && m.avg_us <= m.max_us);
}

#[test]
fn raw_ping_run_records_and_finishes() {
    let mut run = RawPingRun::new(0xBEEF);
    assert_eq!(run.next_sequence(), 0);
    run.record_reply(1000);
    assert_eq!(run.next_sequence(), 1);
    run.record_lost();
    assert_eq!(run.next_sequence(), 2);
    run.record_reply(3000);
    run.record_lost();
    assert!(run.is_done());
    let m = run.finish();
    assert_eq!(m.sent, 4);
    assert_eq!(m.received, 2);
    assert_eq!(m.loss_bp, 5000);
    assert_eq!(m.min_us, 1000);
    assert_eq!(m.avg_us, 2000);
    assert_eq!(m.max_us, 3000);
}

#[test]
fn raw_ping_run_all_lost() {
    let mut run = RawPingRun::new(7);
    for _ in 0..4 {
        run.record_lost();
    }
    let m = run.finish();
    assert_eq!(m.received, 0);
    assert_eq!(m.loss_bp, 10000);
    assert_eq!(m.min_us, 0);
    assert_eq!(m.avg_us, 0);
    assert_eq!(m.max_us, 0);
}

#[test]
fn orchestrator_accepts_raw_success() {
    let m = calculate_stats(4, 0, &Vec::new());
    assert_eq!(after_raw_attempt(Ok(m)), PingDecision::Accept(m));
}

#[test]
fn orchestrator_falls_back_on_permission_failure() {
    let d = after_raw_attempt(Err(ProbeError::PermissionDenied));
    assert_eq!(d, PingDecision::RunFallback);
}

#[test]
fn orchestrator_surfaces_other_failures() {
    let d = after_raw_attempt(Err(ProbeError::SocketFailure));
    assert_eq!(d, PingDecision::Fail(ProbeError::SocketFailure));
    let d = after_raw_attempt(Err(ProbeError::InvalidTarget));
    assert_eq!(d, PingDecision::Fail(ProbeError::InvalidTarget));
}

#[test]
fn trace_run_stops_at_destination() {
    let mut run = UdpTraceRun::new(b"10.0.0.3".to_vec()).unwrap();
    assert_eq!(run.next_ttl(), Some(1));
    run.record_hop(Some(b"10.0.0.1".to_vec()), 1500);
    assert_eq!(run.next_ttl(), Some(2));
    run.record_hop(None, 2_000_000);
    assert_eq!(run.next_ttl(), Some(3));
    run.record_hop(Some(b"10.0.0.3".to_vec()), 3500);
    assert_eq!(run.next_ttl(), None);
    assert!(run.is_done());
    let res = run.finish().unwrap();
    assert_eq!(res.hops.len(), 3);
    assert_eq!(res.hops[0].hop, 1);
    assert_eq!(res.hops[1].hop, 2);
    assert_eq!(res.hops[2].hop, 3);
    assert_eq!(res.hops[1].ip, b"*".to_vec());
    assert_eq!(res.hops[1].times_us, vec![2_000_000]);
    assert_eq!(res.hops[2].ip, b"10.0.0.3".to_vec());
    for h in &res.hops {
        assert_eq!(h.times_us.len(), 1);
        assert_eq!(h.host, h.ip);
    }
}

#[test]
fn trace_run_silent_first_hop_is_privilege_blocked() {
    let mut run = UdpTraceRun::new(b"10.0.0.3".to_vec()).unwrap();
    run.record_hop(None, 2_000_000);
    assert!(run.is_done());
    assert_eq!(run.next_ttl(), None);
    match run.finish() {
        Err(ProbeError::PrivilegeRequired) => {}
        other => panic!("expected the privilege error, got {:?}", other),
    }
}

#[test]
fn trace_run_reaches_hop_ceiling() {
    let mut run = UdpTraceRun::new(b"10.0.0.3".to_vec()).unwrap();
    for ttl in 1..=MAX_HOPS {
        assert_eq!(run.next_ttl(), Some(ttl));
        run.record_hop(Some(b"10.0.0.1".to_vec()), 100);
    }
    assert!(run.is_done());
    let res = run.finish().unwrap();
    assert_eq!(res.hops.len(), MAX_HOPS as usize);
    for (k, h) in res.hops.iter().enumerate() {
        assert_eq!(h.hop as usize, k + 1);
    }
}

#[test]
fn trace_run_rejects_bad_target() {
    match UdpTraceRun::new(b"not-an-address".to_vec()) {
        Err(ProbeError::InvalidTarget) => {}
        other => panic!("expected the invalid-target error, got {:?}", other),
    }
}

#[test]
fn trace_run_same_events_same_structure() {
    let mut a = UdpTraceRun::new(b"10.0.0.2".to_vec()).unwrap();
    let mut b = UdpTraceRun::new(b"10.0.0.2".to_vec()).unwrap();
    a.record_hop(Some(b"10.0.0.1".to_vec()), 900);
    b.record_hop(Some(b"10.0.0.1".to_vec()), 1100);
    a.record_hop(Some(b"10.0.0.2".to_vec()), 1800);
    b.record_hop(Some(b"10.0.0.2".to_vec()), 2200);
    let ra = a.finish().unwrap();
    let rb = b.finish().unwrap();
    assert_eq!(ra.hops.len(), rb.hops.len());
    for (x, y) in ra.hops.iter().zip(rb.hops.iter()) {
        assert_eq!(x.hop, y.hop);
        assert_eq!(x.ip, y.ip);
        assert_eq!(x.times_us.len(), y.times_us.len());
    }
}

#[test]
fn probe_port_offsets_from_base() {
    assert_eq!(UdpTraceRun::probe_port(1), 33435);
    assert_eq!(UdpTraceRun::probe_port(30), 33464);
}

#[test]
fn strategy_prefers_external_utility() {
    assert_eq!(select_trace_strategy(true), TraceStrategy::External);
    assert_eq!(select_trace_strategy(false), TraceStrategy::RawUdp);
}
