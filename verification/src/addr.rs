//! Network addresses as plain values.

use vstd::prelude::*;

verus! {

/// An IP address, held as the number that its octets spell in network order.
#[derive(Clone, Copy, Debug, PartialEq, Eq, Structural, Hash)]
pub enum IpAddr {
    V4(u32),
    V6(u128),
}

/// An IPv4 address and a port.
#[derive(Clone, Copy, Debug, PartialEq, Eq, Structural, Hash)]
pub struct SocketAddrV4 {
    pub ip: u32,
    pub port: u16,
}

/// An IPv6 address and a port, with the flow label and the scope that a socket
/// address of that family carries.
#[derive(Clone, Copy, Debug, PartialEq, Eq, Structural, Hash)]
pub struct SocketAddrV6 {
    pub ip: u128,
    pub port: u16,
    pub flowinfo: u32,
    pub scope_id: u32,
}

/// A place to connect to: an IP address and a port.
#[derive(Clone, Copy, Debug, PartialEq, Eq, Structural, Hash)]
pub enum SocketAddr {
    V4(SocketAddrV4),
    V6(SocketAddrV6),
}

impl SocketAddr {
    /// The IP address.
    pub open spec fn spec_ip(self) -> IpAddr {
        match self {
            SocketAddr::V4(a) => IpAddr::V4(a.ip),
            SocketAddr::V6(a) => IpAddr::V6(a.ip),
        }
    }

    /// The port.
    pub open spec fn spec_port(self) -> u16 {
        match self {
            SocketAddr::V4(a) => a.port,
            SocketAddr::V6(a) => a.port,
        }
    }

    /// The same address with another port, and nothing else changed.
    pub open spec fn with_port(self, port: u16) -> SocketAddr {
        match self {
            SocketAddr::V4(a) => SocketAddr::V4(SocketAddrV4 { port, ..a }),
            SocketAddr::V6(a) => SocketAddr::V6(SocketAddrV6 { port, ..a }),
        }
    }

    /// An address with no flow label and no scope.
    pub fn new(ip: IpAddr, port: u16) -> (addr: SocketAddr)
        ensures
            addr == (match ip {
                IpAddr::V4(ip) => SocketAddr::V4(SocketAddrV4 { ip, port }),
                IpAddr::V6(ip) => SocketAddr::V6(
                    SocketAddrV6 { ip, port, flowinfo: 0, scope_id: 0 },
                ),
            }),
    {
        match ip {
            IpAddr::V4(ip) => SocketAddr::V4(SocketAddrV4 { ip, port }),
            IpAddr::V6(ip) => SocketAddr::V6(SocketAddrV6 { ip, port, flowinfo: 0, scope_id: 0 }),
        }
    }

    /// The IP address, without port, flow label and scope.
    pub fn ip(&self) -> (ip: IpAddr)
        ensures
            self matches SocketAddr::V4(a) ==> ip == IpAddr::V4(a.ip),
            self matches SocketAddr::V6(a) ==> ip == IpAddr::V6(a.ip),
            ip == self.spec_ip(),
    {
        match self {
            SocketAddr::V4(a) => IpAddr::V4(a.ip),
            SocketAddr::V6(a) => IpAddr::V6(a.ip),
        }
    }

    /// The port.
    pub fn port(&self) -> (port: u16)
        ensures
            self matches SocketAddr::V4(a) ==> port == a.port,
            self matches SocketAddr::V6(a) ==> port == a.port,
            port == self.spec_port(),
    {
        match self {
            SocketAddr::V4(a) => a.port,
            SocketAddr::V6(a) => a.port,
        }
    }

    /// Changes the port and nothing else.
    pub fn set_port(&mut self, port: u16)
        ensures
            *final(self) == old(self).with_port(port),
            *old(self) matches SocketAddr::V4(a) ==> *final(self) == SocketAddr::V4(
                SocketAddrV4 { ip: a.ip, port },
            ),
            *old(self) matches SocketAddr::V6(a) ==> *final(self) == SocketAddr::V6(
                SocketAddrV6 { ip: a.ip, port, flowinfo: a.flowinfo, scope_id: a.scope_id },
            ),
    {
        *self = match *self {
            SocketAddr::V4(a) => SocketAddr::V4(SocketAddrV4 { port, ..a }),
            SocketAddr::V6(a) => SocketAddr::V6(SocketAddrV6 { port, ..a }),
        };
    }
}

/// The IP addresses of a list of socket addresses. Order, repetition and ports
/// leave no trace in it.
pub open spec fn ips_of(addrs: Seq<SocketAddr>) -> Set<IpAddr> {
    addrs.map_values(|a: SocketAddr| a.spec_ip()).to_set()
}

} // verus!
