//! The typed error shared by every probe strategy.

use vstd::prelude::*;

verus! {

/// Why a probe could not produce a measurement.
///
/// Classification is structural: the variant is chosen at the point the
/// failure is observed, never by scanning a formatted message.
#[derive(Clone, Copy, Debug, PartialEq, Eq, Structural)]
pub enum ProbeError {
    /// The target address string is not a usable address.
    InvalidTarget,
    /// The raw echo capability was refused for lack of privilege; the ping
    /// orchestrator recovers from this one variant by running the fallback.
    PermissionDenied,
    /// Any other socket setup, send or receive failure; surfaced as-is.
    SocketFailure,
    /// The very first traceroute hop stayed silent, so replies are being
    /// filtered and the whole traceroute is abandoned.
    PrivilegeRequired,
    /// External-command text could not be understood at all.
    ParseFailure,
}

impl ProbeError {
    /// A human-readable explanation, for the presentation layer.
    pub fn message(&self) -> (r: &'static str)
        ensures
            *self is InvalidTarget ==> r@ == "invalid target address"@,
            *self is PermissionDenied ==> r@ == "raw socket permission denied"@,
            *self is SocketFailure ==> r@ == "socket operation failed"@,
            *self is PrivilegeRequired ==> r@ == "traceroute requires elevated privileges"@,
            *self is ParseFailure ==> r@ == "could not parse diagnostic output"@,
    {
        match self {
            ProbeError::InvalidTarget => "invalid target address",
            ProbeError::PermissionDenied => "raw socket permission denied",
            ProbeError::SocketFailure => "socket operation failed",
            ProbeError::PrivilegeRequired => "traceroute requires elevated privileges",
            ProbeError::ParseFailure => "could not parse diagnostic output",
        }
    }
}

} // verus!
