//! The ways in which talking to the router can fail.
use vstd::prelude::*;

verus! {

/// One distinct kind for each failure of the router session.
#[derive(Debug, Clone, Copy, PartialEq, Eq, Structural)]
pub enum TrafficError {
    /// The HTTP exchange itself failed (network, TLS, malformed response).
    Transport,
    /// The login response carried no usable `Set-Cookie` header.
    NoCookie,
    /// The cookie does not start with the session key.
    NoSessionId,
    /// The session identifier is not an unsigned 64-bit number.
    InvalidSessionId,
    /// The overview page has no `WanStatistics = {` marker.
    NoWanStatistics,
    /// The statistics object is never closed.
    NoClosingBrace,
    /// The statistics object lacks a field, or a field is not a number.
    InvalidWanStatistics,
    /// The metrics store answered with a status outside 2xx.
    MetricsStatus,
}

} // verus!
