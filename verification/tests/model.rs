//! Tests for the shared value types and the first-run helpers.

use staxping::{
    accepts_eula, check_dns_support, check_http_support, check_icmp_support,
    check_trace_support, is_ipv4_text, probe_url, yes_no, Config, ProbeError,
};

#[test]
fn ipv4_text_accepts_dotted_quads() {
    assert!(is_ipv4_text(b"192.168.1.1"));
    assert!(is_ipv4_text(b"0.0.0.0"));
    assert!(is_ipv4_text(b"255.255.255.255"));
    assert!(is_ipv4_text(b"8.8.8.8"));
}

#[test]
fn ipv4_text_rejects_everything_else() {
    assert!(!is_ipv4_text(b""));
    assert!(!is_ipv4_text(b"256.1.1.1"));
    assert!(!is_ipv4_text(b"01.2.3.4"));
    assert!(!is_ipv4_text(b"1.2.3"));
    assert!(!is_ipv4_text(b"1.2.3.4.5"));
    assert!(!is_ipv4_text(b"a.b.c.d"));
    assert!(!is_ipv4_text(b"1.2.3."));
    assert!(!is_ipv4_text(b"*"));
}

#[test]
fn probe_url_keeps_existing_scheme() {
    assert_eq!(probe_url("http://example.com"), "http://example.com");
    assert_eq!(probe_url("https://example.com/x"), "https://example.com/x");
}

#[test]
fn probe_url_defaults_to_secure_scheme() {
    assert_eq!(probe_url("example.com"), "https://example.com");
    assert_eq!(probe_url(""), "https://");
}

#[test]
fn config_default_needs_first_run() {
    let c = Config::default();
    assert!(!c.eula);
    assert_eq!(c.os, "unknown");
    assert!(c.needs_first_run());
}

#[test]
fn config_after_first_run_is_complete() {
    let c = Config::new_after_first_run("linux", true, true, true, true);
    assert!(c.eula);
    assert_eq!(c.os, "linux");
    assert!(c.supports_icmp && c.supports_trace && c.supports_dns && c.supports_http);
    assert!(!c.needs_first_run());
}

#[test]
fn config_missing_capability_needs_first_run() {
    let c = Config::new_after_first_run("linux", false, true, true, true);
    assert!(c.needs_first_run());
    let c = Config::new_after_first_run("unknown", true, true, true, true);
    assert!(c.needs_first_run());
    let c = Config::new_after_first_run("linux", true, false, true, true);
    assert!(!c.needs_first_run());
}

#[test]
fn eula_reply_is_trimmed_and_case_folded() {
    assert!(accepts_eula(b"yes"));
    assert!(accepts_eula(b"  YES \n"));
    assert!(accepts_eula(b"Yes"));
    assert!(!accepts_eula(b"no"));
    assert!(!accepts_eula(b"yess"));
    assert!(!accepts_eula(b""));
}

#[test]
fn capability_probes_report_available() {
    assert!(check_icmp_support());
    assert!(check_trace_support());
    assert!(check_dns_support());
    assert!(check_http_support());
    assert_eq!(yes_no(true), "OK");
    assert_eq!(yes_no(false), "Unavailable");
}

#[test]
fn error_messages_name_their_cause() {
    assert_eq!(ProbeError::InvalidTarget.message(), "invalid target address");
    assert_eq!(ProbeError::PermissionDenied.message(), "raw socket permission denied");
    assert_eq!(ProbeError::SocketFailure.message(), "socket operation failed");
    assert_eq!(
        ProbeError::PrivilegeRequired.message(),
        "traceroute requires elevated privileges"
    );
    assert_eq!(ProbeError::ParseFailure.message(), "could not parse diagnostic output");
}
