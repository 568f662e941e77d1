//! The two networks an address can belong to.

use vstd::prelude::*;

verus! {

/// The network an address is issued for.
#[derive(Copy, Clone, Debug, PartialEq, Eq, Structural)]
pub enum Network {
    Mainnet,
    Preprod,
}

impl Network {
    /// The human-readable prefix of this network's addresses.
    pub open spec fn hrp_text(self) -> Seq<char> {
        match self {
            Network::Mainnet => "addr"@,
            Network::Preprod => "addr_test"@,
        }
    }

    /// The network tag carried in the low four bits of an address header.
    pub open spec fn id_value(self) -> u8 {
        match self {
            Network::Mainnet => 1,
            Network::Preprod => 0,
        }
    }

    pub fn bech32_hrp(&self) -> (hrp: &'static str)
        ensures
            hrp@ == self.hrp_text(),
    {
        match self {
            Network::Mainnet => "addr",
            Network::Preprod => "addr_test",
        }
    }

    pub fn network_id(&self) -> (id: u8)
        ensures
            id == self.id_value(),
            id <= 1,
    {
        match self {
            Network::Mainnet => 1,
            Network::Preprod => 0,
        }
    }
}

} // verus!
