//! Network addresses as plain values.

use vstd::prelude::*;

verus! {

/// The address of a peer: an IP address and a port. An IPv4 address is
/// held in the low 32 bits of `ip`, with `flowinfo` and `scope_id` zero.
#[derive(Debug, Clone, Copy, PartialEq, Eq, Hash, Structural)]
pub struct PeerAddr {
    /// Whether this is an IPv6 address.
    pub v6: bool,
    /// The bits of the IP address.
    pub ip: u128,
    /// The port.
    pub port: u16,
    /// The flow information of an IPv6 address.
    pub flowinfo: u32,
    /// The scope of an IPv6 address.
    pub scope_id: u32,
}

impl PeerAddr {
    /// The IPv4 address `a.b.c.d` with a port.
    pub fn v4(a: u8, b: u8, c: u8, d: u8, port: u16) -> (r: PeerAddr)
        ensures
            r == (PeerAddr {
                v6: false,
                ip: ((a as u128) << 24) | ((b as u128) << 16) | ((c as u128) << 8) | (d as u128),
                port,
                flowinfo: 0,
                scope_id: 0,
            }),
    {
        PeerAddr {
            v6: false,
            ip: ((a as u128) << 24) | ((b as u128) << 16) | ((c as u128) << 8) | (d as u128),
            port,
            flowinfo: 0,
            scope_id: 0,
        }
    }
}

} // verus!
