use vstd::prelude::*;
use crate::address::Address;
use crate::bytes::decimal_text;
use crate::bytes::parse_u64;
use crate::bytes::parsed_u64;
use crate::bytes::u64_to_decimal;
use crate::errors::EvmError;

verus! {

/// The wrapped coin's contract on Ethereum.
pub const WRAPPED_ETH: [u8; 20] = [
    0xc0, 0x2a, 0xaa, 0x39, 0xb2, 0x23, 0xfe, 0x8d, 0x0a, 0x0e, 0x5c, 0x4f, 0x27, 0xea, 0xd9, 0x08, 0x3c, 0x75, 0x6c, 0xc2,
];

/// The wrapped coin's contract on Sepolia.
pub const WRAPPED_SEPOLIA: [u8; 20] = [
    0xff, 0xf9, 0x97, 0x67, 0x82, 0xd4, 0x6c, 0xc0, 0x56, 0x30, 0xd1, 0xf6, 0xeb, 0xab, 0x18, 0xb2, 0x32, 0x4d, 0x6b, 0x14,
];

/// The wrapped coin's contract on Arbitrum.
pub const WRAPPED_ARBITRUM: [u8; 20] = [
    0x82, 0xaf, 0x49, 0x44, 0x7d, 0x8a, 0x07, 0xe3, 0xbd, 0x95, 0xbd, 0x0d, 0x56, 0xf3, 0x52, 0x41, 0x52, 0x3f, 0xba, 0xb1,
];

/// A supported chain, identified on the wire by its decimal chain id.
#[derive(Debug, Clone, Copy, PartialEq, Eq, Hash, Structural)]
pub enum EvmNetwork {
    Eth,
    Arbitrum,
    Sepolia,
}

impl EvmNetwork {
    /// The chain id of this network.
    pub open spec fn spec_chain_id(self) -> u64 {
        match self {
            EvmNetwork::Eth => 1,
            EvmNetwork::Arbitrum => 42161,
            EvmNetwork::Sepolia => 11155111,
        }
    }

    /// The address that stands for the chain's native coin.
    pub open spec fn spec_native_token_address(self) -> Address {
        Address { bytes: vstd::array::spec_array_fill_for_copy_type::<u8, 20>(0xeeu8) }
    }

    /// The address that stands for the chain's native coin: twenty bytes
    /// `0xee`, on every chain.
    pub fn native_token_address(self) -> (a: Address)
        ensures
            a == self.spec_native_token_address(),
    {
        Address { bytes: [0xeeu8; 20] }
    }

    /// The contract of the wrapped native coin on this chain.
    pub open spec fn spec_wrapped_address(self) -> Address {
        match self {
            EvmNetwork::Eth => Address { bytes: WRAPPED_ETH },
            EvmNetwork::Arbitrum => Address { bytes: WRAPPED_ARBITRUM },
            EvmNetwork::Sepolia => Address { bytes: WRAPPED_SEPOLIA },
        }
    }

    /// The network of a chain id.
    pub open spec fn of_chain_id(id: u64) -> Result<EvmNetwork, EvmError> {
        if id == 1 {
            Ok(EvmNetwork::Eth)
        } else if id == 42161 {
            Ok(EvmNetwork::Arbitrum)
        } else if id == 11155111 {
            Ok(EvmNetwork::Sepolia)
        } else {
            Err(EvmError::UnsupportedNetwork(id))
        }
    }

    /// The network of a chain id.
    pub fn from_chain_id(id: u64) -> (r: Result<EvmNetwork, EvmError>)
        ensures
            r == EvmNetwork::of_chain_id(id),
    {
        if id == 1 {
            Ok(EvmNetwork::Eth)
        } else if id == 42161 {
            Ok(EvmNetwork::Arbitrum)
        } else if id == 11155111 {
            Ok(EvmNetwork::Sepolia)
        } else {
            Err(EvmError::UnsupportedNetwork(id))
        }
    }

    /// The network that a text names by its chain id in decimal.
    pub open spec fn parsed(text: Seq<char>) -> Result<EvmNetwork, EvmError> {
        match parsed_u64(text) {
            Some(id) => EvmNetwork::of_chain_id(id),
            None => Err(EvmError::InvalidNetworkId),
        }
    }

    /// The network that a path segment names by its chain id in decimal.
    pub fn parse(text: &str) -> (r: Result<EvmNetwork, EvmError>)
        ensures
            r == EvmNetwork::parsed(text@),
    {
        match parse_u64(text) {
            Some(id) => EvmNetwork::from_chain_id(id),
            None => Err(EvmError::InvalidNetworkId),
        }
    }

    /// The chain id in decimal, as it stands in a path.
    pub fn to_decimal_string(self) -> (s: String)
        ensures
            s@ == decimal_text(self.spec_chain_id() as nat),
    {
        u64_to_decimal(self.chain_id())
    }

    pub fn chain_id(self) -> (id: u64)
        ensures
            id == self.spec_chain_id(),
    {
        match self {
            EvmNetwork::Eth => 1,
            EvmNetwork::Arbitrum => 42161,
            EvmNetwork::Sepolia => 11155111,
        }
    }
}

/// The contract of the wrapped native coin on `network`.
pub fn get_wrapped_address(network: &EvmNetwork) -> (a: Address)
    ensures
        a == network.spec_wrapped_address(),
{
    match network {
        EvmNetwork::Eth => Address { bytes: WRAPPED_ETH },
        EvmNetwork::Arbitrum => Address { bytes: WRAPPED_ARBITRUM },
        EvmNetwork::Sepolia => Address { bytes: WRAPPED_SEPOLIA },
    }
}

impl TryFrom<u64> for EvmNetwork {
    type Error = EvmError;

    fn try_from(id: u64) -> (r: Result<EvmNetwork, EvmError>) {
        EvmNetwork::from_chain_id(id)
    }
}

impl vstd::std_specs::convert::TryFromSpecImpl<u64> for EvmNetwork {
    open spec fn obeys_try_from_spec() -> bool {
        true
    }

    open spec fn try_from_spec(id: u64) -> Result<EvmNetwork, EvmError> {
        EvmNetwork::of_chain_id(id)
    }
}

/// A chain id names the network whose chain id it is, and no other.
pub proof fn lemma_chain_id_round_trip(network: EvmNetwork, id: u64)
    ensures
        EvmNetwork::of_chain_id(network.spec_chain_id()) == Ok::<EvmNetwork, EvmError>(network),
        EvmNetwork::of_chain_id(id) matches Ok(n) ==> n.spec_chain_id() == id,
{
}

} // verus!
