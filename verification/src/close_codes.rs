//! The WebSocket close codes with which the relay ends a tunnel.

use vstd::prelude::*;

verus! {

/// The tunnel expired.
pub const TUNNEL_EXPIRED: u16 = 4000;

/// The tunnel was removed.
pub const TUNNEL_EVICTED: u16 = 4001;

/// The auth token failed.
pub const AUTH_FAILED: u16 = 4002;

/// The server is at capacity.
pub const CAPACITY_FULL: u16 = 4003;

/// Whether a client that is closed with this code should stay away.
pub fn is_permanent(code: u16) -> (permanent: bool)
    ensures
        permanent <==> code == TUNNEL_EXPIRED || code == TUNNEL_EVICTED || code == AUTH_FAILED
            || code == CAPACITY_FULL,
{
    matches!(code, TUNNEL_EXPIRED | TUNNEL_EVICTED | AUTH_FAILED | CAPACITY_FULL)
}

} // verus!
