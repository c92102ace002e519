//! TCP flags.
use vstd::prelude::*;

verus! {

/// TCP flags used by the carrier packet encoder.
#[derive(Clone, Copy, Debug, PartialEq, Eq, Structural)]
pub struct TcpFlags(pub u8);

impl TcpFlags {
    /// The FIN bit.
    pub const FIN: u8 = 0x01;

    /// The SYN bit.
    pub const SYN: u8 = 0x02;

    /// The RST bit.
    pub const RST: u8 = 0x04;

    /// The PSH bit.
    pub const PSH: u8 = 0x08;

    /// The ACK bit.
    pub const ACK: u8 = 0x10;

    /// Whether every flag of `other` is set.
    pub open spec fn has(self, other: TcpFlags) -> bool {
        self.0 & other.0 == other.0
    }

    /// No flag at all.
    pub fn empty() -> (flags: Self)
        ensures
            flags.0 == 0,
    {
        TcpFlags(0)
    }

    /// The flag bits.
    pub fn bits(self) -> (bits: u8)
        ensures
            bits == self.0,
    {
        self.0
    }

    /// Whether every flag of `other` is set.
    pub fn contains(self, other: Self) -> (set: bool)
        ensures
            set == self.has(other),
    {
        self.0 & other.0 == other.0
    }

    /// Whether the SYN flag is set.
    pub fn is_syn(self) -> (set: bool)
        ensures
            set == self.has(TcpFlags(TcpFlags::SYN)),
    {
        self.contains(TcpFlags(TcpFlags::SYN))
    }

    /// Whether the ACK flag is set.
    pub fn is_ack(self) -> (set: bool)
        ensures
            set == self.has(TcpFlags(TcpFlags::ACK)),
    {
        self.contains(TcpFlags(TcpFlags::ACK))
    }

    /// Whether the RST flag is set.
    pub fn is_rst(self) -> (set: bool)
        ensures
            set == self.has(TcpFlags(TcpFlags::RST)),
    {
        self.contains(TcpFlags(TcpFlags::RST))
    }
}

impl core::ops::BitOr for TcpFlags {
    type Output = TcpFlags;

    fn bitor(self, rhs: TcpFlags) -> (flags: TcpFlags) {
        TcpFlags(self.0 | rhs.0)
    }
}

impl vstd::std_specs::ops::BitOrSpecImpl for TcpFlags {
    open spec fn obeys_bitor_spec() -> bool {
        true
    }

    open spec fn bitor_req(self, rhs: TcpFlags) -> bool {
        true
    }

    open spec fn bitor_spec(self, rhs: TcpFlags) -> TcpFlags {
        TcpFlags(self.0 | rhs.0)
    }
}

impl core::ops::BitOrAssign for TcpFlags {
    fn bitor_assign(&mut self, rhs: TcpFlags)
        ensures
            *final(self) == TcpFlags(old(self).0 | rhs.0),
    {
        self.0 = self.0 | rhs.0;
    }
}

/// The flag combinations that the carrier sends, by their bits.
pub proof fn lemma_carrier_flags()
    ensures
        TcpFlags::SYN | TcpFlags::ACK == 0x12,
        TcpFlags::ACK | TcpFlags::PSH == 0x18,
        TcpFlags(0x02).has(TcpFlags(TcpFlags::SYN)),
        TcpFlags(0x12).has(TcpFlags(TcpFlags::SYN)),
        !TcpFlags(0x18).has(TcpFlags(TcpFlags::SYN)),
{
    assert(2u8 | 0x10u8 == 0x12u8 && 0x10u8 | 8u8 == 0x18u8 && 0x02u8 & 2u8 == 2u8 && 0x12u8 & 2u8 == 2u8 && 0x18u8
        & 2u8 == 0u8) by (bit_vector);
}

}
