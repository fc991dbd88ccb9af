//! Network addresses.

use vstd::prelude::*;

verus! {

/// An IP address, as the number that its bytes spell.
#[derive(Debug, Clone, Copy, PartialEq, Eq, Structural)]
pub enum IpAddr {
    V4(u32),
    V6(u128),
}

/// An IP address and a port.
#[derive(Debug, Clone, Copy, PartialEq, Eq, Structural)]
pub struct SocketAddr {
    pub ip: IpAddr,
    pub port: u16,
}

impl IpAddr {
    /// Whether the address reaches only this machine: `127.0.0.0/8` or `::1`.
    pub open spec fn loopback(self) -> bool {
        match self {
            IpAddr::V4(a) => a / 0x100_0000 == 127,
            IpAddr::V6(a) => a == 1,
        }
    }

    /// Whether the address reaches only this machine.
    pub fn is_loopback(&self) -> (r: bool)
        ensures
            r == self.loopback(),
    {
        match self {
            IpAddr::V4(a) => *a / 0x100_0000 == 127,
            IpAddr::V6(a) => *a == 1,
        }
    }
}

} // verus!
