//! Network addresses as plain values.

use vstd::prelude::*;

verus! {

/// An IP address, held as the big-endian integer of its bytes.
#[derive(Clone, Copy, Debug, PartialEq, Eq, Hash, Structural)]
pub enum IpAddress {
    /// An IPv4 address: `a.b.c.d` is `a * 2^24 + b * 2^16 + c * 2^8 + d`.
    V4(u32),
    /// An IPv6 address: its sixteen bytes, the first one the most significant.
    V6(u128),
}

/// An IP address together with a port.
#[derive(Clone, Copy, Debug, PartialEq, Eq, Hash, Structural)]
pub struct SocketAddress {
    pub ip: IpAddress,
    pub port: u16,
}

/// The integer that stands for the IPv4 address `a.b.c.d`.
pub open spec fn v4_value(a: u8, b: u8, c: u8, d: u8) -> int {
    a * 0x100_0000 + b * 0x1_0000 + c * 0x100 + d
}

impl IpAddress {
    /// The IPv4 address `a.b.c.d`.
    pub fn from_octets(a: u8, b: u8, c: u8, d: u8) -> (ip: IpAddress)
        ensures
            ip == IpAddress::V4(v4_value(a, b, c, d) as u32),
            v4_value(a, b, c, d) <= u32::MAX,
    {
        let high: u32 = a as u32 * 0x100_0000 + b as u32 * 0x1_0000;
        let low: u32 = c as u32 * 0x100 + d as u32;
        IpAddress::V4(high + low)
    }

    /// The IPv4 address `0.0.0.0`, which stands for every local interface.
    pub fn unspecified() -> (ip: IpAddress)
        ensures
            ip == IpAddress::V4(0),
    {
        IpAddress::V4(0)
    }
}

impl SocketAddress {
    /// The address of `port` at `ip`.
    pub fn new(ip: IpAddress, port: u16) -> (address: SocketAddress)
        ensures
            address == (SocketAddress { ip, port }),
    {
        SocketAddress { ip, port }
    }
}

} // verus!
