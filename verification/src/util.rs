//! Small shared value types: the client's peer identity and a plain
//! socket-address model.

use vstd::prelude::*;

verus! {

/// The client's twenty-byte peer identity.
#[derive(Clone, Copy, Debug)]
pub struct PeerId(pub [u8; 20]);

/// A peer's reachable address: an IPv4 or IPv6 address with a port.
#[derive(Clone, Copy, Debug)]
pub enum SocketAddr {
    V4(u32, u16),
    V6(u128, u16),
}

impl SocketAddr {
    /// The port of the address.
    pub open spec fn spec_port(self) -> u16 {
        match self {
            SocketAddr::V4(_, port) => port,
            SocketAddr::V6(_, port) => port,
        }
    }

    /// The port of the address.
    pub fn port(&self) -> (r: u16)
        ensures
            r == self.spec_port(),
    {
        match self {
            SocketAddr::V4(_, port) => *port,
            SocketAddr::V6(_, port) => *port,
        }
    }

    /// The IPv4 address as one number, or zero for an IPv6 address —
    /// the tracker wire format carries four address bytes, and zero
    /// asks the tracker to use the datagram's source address.
    pub open spec fn spec_ip4(self) -> u32 {
        match self {
            SocketAddr::V4(ip, _) => ip,
            SocketAddr::V6(_, _) => 0,
        }
    }

    /// The IPv4 address as one number (see [`Self::spec_ip4`]).
    pub fn ip4(&self) -> (r: u32)
        ensures
            r == self.spec_ip4(),
    {
        match self {
            SocketAddr::V4(ip, _) => *ip,
            SocketAddr::V6(_, _) => 0,
        }
    }
}

} // verus!
