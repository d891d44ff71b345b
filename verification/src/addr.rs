use vstd::prelude::*;

verus! {

/// An IP address, as carried in a packet header or given as a trace destination.
#[derive(Clone, Copy, Debug, PartialEq, Eq, Structural)]
pub enum IpAddr {
    /// An IPv4 address, octets in network order.
    Ipv4Addr(u8, u8, u8, u8),
    /// An IPv6 address, groups in network order.
    Ipv6Addr(u16, u16, u16, u16, u16, u16, u16, u16),
}

} // verus!
