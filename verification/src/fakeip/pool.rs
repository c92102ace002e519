//! The addresses that a directory gives out.
use vstd::prelude::*;

verus! {

/// A range of IPv4 addresses, from its network address to its broadcast address.
#[derive(Clone, Copy, Debug, PartialEq, Eq, Structural)]
pub struct Ipv4Pool {
    /// The first address, which is not given out.
    pub network: u32,
    /// The last address, which is not given out.
    pub broadcast: u32,
}

impl Ipv4Pool {
    /// Whether an address lies in the range.
    pub open spec fn spans(self, address: u32) -> bool {
        self.network <= address <= self.broadcast
    }

    /// Whether an address lies in the range and is neither its first nor its last.
    pub open spec fn usable(self, address: u32) -> bool {
        self.network < address < self.broadcast
    }

    /// Whether an address lies in the range.
    pub fn contains(&self, address: u32) -> (inside: bool)
        ensures
            inside == self.spans(address),
    {
        self.network <= address && address <= self.broadcast
    }

    /// Whether an address lies in the range and is neither its first nor its last.
    pub fn is_usable(&self, address: u32) -> (usable: bool)
        ensures
            usable == self.usable(address),
    {
        self.network < address && address < self.broadcast
    }
}

}
