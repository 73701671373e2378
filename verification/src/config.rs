//! Persisted capability record, created once by the first-run setup.
//!
//! Reading and writing the file, and its serialized form, belong to the
//! caller; this module holds the record itself and the rules that decide
//! when the first-run setup must happen.

use vstd::prelude::*;

verus! {

/// What the first-run setup learned about the host.
#[derive(Debug, Clone)]
pub struct Config {
    /// Whether the licence terms were accepted.
    pub eula: bool,
    /// The operating-system name detected at setup time.
    pub os: String,
    /// Whether echo probing is available.
    pub supports_icmp: bool,
    /// Whether traceroute is available.
    pub supports_trace: bool,
    /// Whether name resolution is available.
    pub supports_dns: bool,
    /// Whether web probing is available.
    pub supports_http: bool,
}

impl Config {
    /// The first-run setup is owed whenever the terms are unaccepted, the
    /// host was never identified, or a required capability is missing.
    pub open spec fn spec_needs_first_run(self) -> bool {
        !self.eula || self.os@ == "unknown"@ || !self.supports_icmp || !self.supports_dns
            || !self.supports_http
    }

    /// Determines if first-run logic is needed.
    pub fn needs_first_run(&self) -> (r: bool)
        ensures
            r == self.spec_needs_first_run(),
    {
        let unknown: String = String::from_str("unknown");
        !self.eula || self.os == unknown || !self.supports_icmp || !self.supports_dns
            || !self.supports_http
    }

    /// Creates the record the first-run setup persists: terms accepted, and
    /// every capability exactly as probed.
    pub fn new_after_first_run(os: &str, icmp: bool, trace: bool, dns: bool, http: bool) -> (r:
        Self)
        ensures
            r.eula == true,
            r.os@ == os@,
            r.supports_icmp == icmp,
            r.supports_trace == trace,
            r.supports_dns == dns,
            r.supports_http == http,
    {
        Config {
            eula: true,
            os: String::from_str(os),
            supports_icmp: icmp,
            supports_trace: trace,
            supports_dns: dns,
            supports_http: http,
        }
    }
}

impl Default for Config {
    /// A blank record: nothing accepted, nothing known.
    fn default() -> (r: Self)
        ensures
            r.eula == false,
            r.os@ == "unknown"@,
            r.supports_icmp == false,
            r.supports_trace == false,
            r.supports_dns == false,
            r.supports_http == false,
    {
        Config {
            eula: false,
            os: String::from_str("unknown"),
            supports_icmp: false,
            supports_trace: false,
            supports_dns: false,
            supports_http: false,
        }
    }
}

} // verus!
