//! Socket addresses as plain values.

use vstd::prelude::*;

verus! {

/// The address of a UDP endpoint: an IP address, held as an integer, and a port.
///
/// Two IPv6 endpoints also differ by their flow information and scope.
#[derive(Clone, Copy, Debug, PartialEq, Eq, Structural)]
#[allow(inconsistent_fields)]
pub enum SocketAddr {
    V4 { ip: u32, port: u16 },
    V6 { ip: u128, port: u16, flowinfo: u32, scope_id: u32 },
}

/// An address as a tuple of integers, which orders as addresses do: IPv4 before IPv6, then by
/// IP address, port, flow information and scope.
pub type AddrKey = (u8, u128, u16, u32, u32);

impl SocketAddr {
    /// The key of this address.
    pub open spec fn spec_key(self) -> AddrKey {
        match self {
            SocketAddr::V4 { ip, port } => (4, ip as u128, port, 0, 0),
            SocketAddr::V6 { ip, port, flowinfo, scope_id } => (6, ip, port, flowinfo, scope_id),
        }
    }

    /// The key of this address.
    pub fn key(&self) -> (key: AddrKey)
        ensures
            key == self.spec_key(),
    {
        match *self {
            SocketAddr::V4 { ip, port } => (4, ip as u128, port, 0, 0),
            SocketAddr::V6 { ip, port, flowinfo, scope_id } => (6, ip, port, flowinfo, scope_id),
        }
    }
}

/// Two addresses have the same key only where they are the same address.
pub proof fn keys_tell_addresses_apart(a: SocketAddr, b: SocketAddr)
    ensures
        a.spec_key() == b.spec_key() <==> a == b,
{
}

/// Keys order addresses: IPv4 before IPv6, then by IP address, then by port, then by flow
/// information and scope.
pub proof fn keys_are_made_of_the_parts(ip4: u32, ip6: u128, port: u16, flowinfo: u32, scope: u32)
    ensures
        ({
            let v4 = SocketAddr::V4 { ip: ip4, port };
            let v6 = SocketAddr::V6 { ip: ip6, port, flowinfo, scope_id: scope };
            &&& v4.spec_key().0 < v6.spec_key().0
            &&& v4.spec_key().1 == ip4 && v4.spec_key().2 == port
            &&& v6.spec_key().1 == ip6 && v6.spec_key().2 == port
            &&& v6.spec_key().3 == flowinfo && v6.spec_key().4 == scope
        }),
{
}

} // verus!
