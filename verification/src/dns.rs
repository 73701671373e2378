//! The shape of a name-resolution answer.
//!
//! Resolution itself is a collaborator outside this crate; callers hand the
//! engine one already-resolved address string.

use vstd::prelude::*;

verus! {

/// Addresses found for a name, and how long the lookup took.
#[derive(Debug, Clone)]
pub struct DnsResult {
    /// IPv4 addresses, in dotted-quad text.
    pub ipv4: Vec<String>,
    /// IPv6 addresses, in their usual text form.
    pub ipv6: Vec<String>,
    /// Lookup latency in whole milliseconds.
    pub lookup_ms: u128,
}

} // verus!
