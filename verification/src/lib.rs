//! Network-reachability probe engine.
//!
//! Measures round-trip latency (echo probing) and per-hop path latency
//! (TTL-stepped traceroute), degrading from privileged raw-socket operation
//! to parsing the output of external diagnostic commands when the process
//! lacks the capability to open raw sockets. This crate holds the engine:
//! the probe state machines, the statistics, and the parsers that normalize
//! external-command text into the shared data model. The I/O itself (sockets,
//! subprocesses) lives with the caller, which feeds plain values in and out.

pub mod addr;
pub mod config;
pub mod dns;
pub mod errors;
pub mod http;
pub mod ping;
pub mod ping_parse;
pub mod setup;
pub mod text;
pub mod trace;
pub mod trace_parse;

pub use addr::is_ipv4_text;
pub use config::Config;
pub use dns::DnsResult;
pub use errors::ProbeError;
pub use http::HttpResult;
pub use http::probe_url;
pub use ping::PingDecision;
pub use ping::PingResult;
pub use ping::RawPingRun;
pub use ping::after_raw_attempt;
pub use ping::calculate_stats;
pub use ping::PING_INTERVAL_MS;
pub use ping::PING_PROBE_COUNT;
pub use ping_parse::parse_ping_output;
pub use setup::accepts_eula;
pub use setup::check_dns_support;
pub use setup::check_http_support;
pub use setup::check_icmp_support;
pub use setup::check_trace_support;
pub use setup::yes_no;
pub use trace::select_trace_strategy;
pub use trace::TraceHop;
pub use trace::TraceResult;
pub use trace::TraceStatus;
pub use trace::TraceStrategy;
pub use trace::UdpTraceRun;
pub use trace::HOP_TIMEOUT_MS;
pub use trace::MAX_HOPS;
pub use trace::TRACE_BASE_PORT;
pub use trace_parse::parse_traceroute;

