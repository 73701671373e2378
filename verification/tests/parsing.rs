//! Tests for the external-command output parsers.

use staxping::{parse_ping_output, parse_traceroute};

#[test]
fn ping_summary_and_stats_lines() {
    let text = b"4 packets transmitted, 4 received, 0% packet loss\nrtt min/avg/max/mdev = 12.345/14.567/16.789/0.123 ms\n";
    let m = parse_ping_output(text);
    assert_eq!(m.sent, 4);
    assert_eq!(m.received, 4);
    assert_eq!(m.loss_bp, 0);
    assert_eq!(m.min_us, 12345);
    assert_eq!(m.avg_us, 14567);
    assert_eq!(m.max_us, 16789);
}

#[test]
fn ping_empty_output_defaults() {
    let m = parse_ping_output(b"");
    assert_eq!(m.sent, 4);
    assert_eq!(m.received, 0);
    assert_eq!(m.loss_bp, 10000);
    assert_eq!(m.min_us, 0);
    assert_eq!(m.avg_us, 0);
    assert_eq!(m.max_us, 0);
}

#[test]
fn ping_partial_loss() {
    let text = b"4 packets transmitted, 1 received, 75% packet loss\nrtt min/avg/max/mdev = 3.000/3.000/3.000/0.000 ms";
    let m = parse_ping_output(text);
    assert_eq!(m.sent, 4);
    assert_eq!(m.received, 1);
    assert_eq!(m.loss_bp, 7500);
    assert_eq!(m.min_us, 3000);
}

#[test]
fn ping_three_field_stats_line() {
    let text = b"8 packets transmitted, 8 received, 0% packet loss\nround-trip min/avg/max = 1.0/2.5/3.75 ms";
    let m = parse_ping_output(text);
    assert_eq!(m.sent, 8);
    assert_eq!(m.received, 8);
    assert_eq!(m.loss_bp, 0);
    assert_eq!(m.min_us, 1000);
    assert_eq!(m.avg_us, 2500);
    assert_eq!(m.max_us, 3750);
}

#[test]
fn ping_received_capped_at_sent() {
    let text = b"4 packets transmitted, 9 received, 0% packet loss";
    let m = parse_ping_output(text);
    assert_eq!(m.sent, 4);
    assert_eq!(m.received, 4);
    assert_eq!(m.loss_bp, 0);
}

#[test]
fn ping_zero_sent_has_zero_loss() {
    let text = b"0 packets transmitted, 0 received, 0% packet loss";
    let m = parse_ping_output(text);
    assert_eq!(m.sent, 0);
    assert_eq!(m.received, 0);
    assert_eq!(m.loss_bp, 0);
}

#[test]
fn ping_missing_stats_line_leaves_zero_latencies() {
    let text = b"4 packets transmitted, 2 received, 50% packet loss";
    let m = parse_ping_output(text);
    assert_eq!(m.sent, 4);
    assert_eq!(m.received, 2);
    assert_eq!(m.loss_bp, 5000);
    assert_eq!(m.min_us, 0);
    assert_eq!(m.avg_us, 0);
    assert_eq!(m.max_us, 0);
}

#[test]
fn ping_parse_is_structurally_idempotent() {
    let text = b"4 packets transmitted, 3 received, 25% packet loss\nrtt min/avg/max/mdev = 1.1/2.2/3.3/0.1 ms";
    let a = parse_ping_output(text);
    let b = parse_ping_output(text);
    assert_eq!(a, b);
}

#[test]
fn trace_single_hop_line() {
    let t = parse_traceroute(b"1  192.168.1.1  1.234 ms  1.567 ms  1.890 ms");
    assert_eq!(t.hops.len(), 1);
    assert_eq!(t.hops[0].hop, 1);
    assert_eq!(t.hops[0].ip, b"192.168.1.1".to_vec());
    assert_eq!(t.hops[0].host, b"192.168.1.1".to_vec());
    assert_eq!(t.hops[0].times_us, vec![1234, 1567, 1890]);
}

#[test]
fn trace_banner_line_is_skipped() {
    let text = b"traceroute to 8.8.8.8 (8.8.8.8), 30 hops max, 60 byte packets\n 1  10.0.0.1  0.5 ms\n 2  8.8.8.8  9.25 ms\n";
    let t = parse_traceroute(text);
    assert_eq!(t.hops.len(), 2);
    assert_eq!(t.hops[0].hop, 1);
    assert_eq!(t.hops[0].ip, b"10.0.0.1".to_vec());
    assert_eq!(t.hops[0].times_us, vec![500]);
    assert_eq!(t.hops[1].hop, 2);
    assert_eq!(t.hops[1].ip, b"8.8.8.8".to_vec());
    assert_eq!(t.hops[1].times_us, vec![9250]);
}

#[test]
fn trace_fused_ms_suffix() {
    let t = parse_traceroute(b" 2  10.0.0.1  3.25ms");
    assert_eq!(t.hops.len(), 1);
    assert_eq!(t.hops[0].times_us, vec![3250]);
}

#[test]
fn trace_non_hop_lines_are_skipped() {
    let text = b"no route to host\n 1  10.0.0.1  0.5 ms\nabc def 1.0 ms\n";
    let t = parse_traceroute(text);
    assert_eq!(t.hops.len(), 1);
    assert_eq!(t.hops[0].hop, 1);
}

#[test]
fn trace_silent_hop_keeps_star_and_no_times() {
    let t = parse_traceroute(b" 3  *");
    assert_eq!(t.hops.len(), 1);
    assert_eq!(t.hops[0].hop, 3);
    assert_eq!(t.hops[0].ip, b"*".to_vec());
    assert_eq!(t.hops[0].times_us, Vec::<u64>::new());
}

#[test]
fn trace_bare_number_without_ms_is_not_a_sample() {
    let t = parse_traceroute(b" 4  10.0.0.9  17 2.5 ms");
    assert_eq!(t.hops.len(), 1);
    assert_eq!(t.hops[0].times_us, vec![2500]);
}

#[test]
fn trace_parse_is_structurally_idempotent() {
    let text = b"traceroute to x\n 1  10.0.0.1  0.5 ms\n 2  *\n";
    let a = parse_traceroute(text);
    let b = parse_traceroute(text);
    assert_eq!(a.hops.len(), b.hops.len());
    for (x, y) in a.hops.iter().zip(b.hops.iter()) {
        assert_eq!(x.hop, y.hop);
        assert_eq!(x.ip, y.ip);
        assert_eq!(x.host, y.host);
        assert_eq!(x.times_us, y.times_us);
    }
}
