use vstd::prelude::*;
use vstd::string::StringExecFns;
use crate::address::Address;
use crate::bytes::decimal_text;
use crate::bytes::u64_to_decimal;
use crate::network::EvmNetwork;

verus! {

/// Why the session registry refused a request.
#[derive(Debug, Clone, Copy, PartialEq, Eq, Structural)]
pub enum SubscriptionError {
    /// No session exists for the key.
    NoSession,
    /// The session already has as many clients as can be counted.
    TooManyClients,
    /// The session has no client that could leave.
    NoClients,
}

/// Why a log of the wrapped coin's contract could not be read.
#[derive(Debug, Clone, Copy, PartialEq, Eq, Structural)]
pub enum ParseWeb3LogsError {
    /// The log has no first topic.
    Topic0IsNone,
    /// The first topic is neither the deposit nor the withdrawal signature.
    UnexpectedHashSignature,
}

impl ParseWeb3LogsError {
    /// The error in words.
    pub open spec fn text(self) -> Seq<char> {
        match self {
            ParseWeb3LogsError::Topic0IsNone => "log.topic0() is none"@,
            ParseWeb3LogsError::UnexpectedHashSignature => "event HASH_SIGNATURE is not expected"@,
        }
    }

    /// The error in words.
    pub fn message(&self) -> (s: String)
        ensures
            s@ == self.text(),
    {
        match self {
            ParseWeb3LogsError::Topic0IsNone => String::from_str("log.topic0() is none"),
            ParseWeb3LogsError::UnexpectedHashSignature => String::from_str(
                "event HASH_SIGNATURE is not expected",
            ),
        }
    }
}

/// Why a chain id names no network.
#[derive(Debug, Clone, Copy, PartialEq, Eq, Structural)]
pub enum EvmError {
    /// No supported network has this chain id.
    UnsupportedNetwork(u64),
    /// The text is not a chain id.
    InvalidNetworkId,
}

impl EvmError {
    /// The error in words.
    pub open spec fn text(self) -> Seq<char> {
        match self {
            EvmError::UnsupportedNetwork(id) => "Network with id "@ + decimal_text(id as nat)
                + " is not supported"@,
            EvmError::InvalidNetworkId => "Network id should be integer"@,
        }
    }

    /// The error in words.
    pub fn message(&self) -> (s: String)
        ensures
            s@ == self.text(),
    {
        match self {
            EvmError::UnsupportedNetwork(id) => {
                let mut s = String::from_str("Network with id ");
                s.append(u64_to_decimal(*id).as_str());
                s.append(" is not supported");
                s
            },
            EvmError::InvalidNetworkId => String::from_str("Network id should be integer"),
        }
    }
}

/// Why the configuration of the wrapped coins could not be read.
#[derive(Debug, Clone)]
pub enum NetworkConfigError {
    /// An entry is not of the form `<chain_id>:<address>`.
    InvalidWethNetworkFormat,
    /// The chain id of an entry names no supported network.
    InvalidChainId(String),
    /// The address of the entry for the network is no address.
    InvalidAddress(EvmNetwork),
}

impl NetworkConfigError {
    /// The error in words.
    pub open spec fn text(self) -> Seq<char> {
        match self {
            NetworkConfigError::InvalidWethNetworkFormat => "Invalid WETH network format, should be <chain_id>:<address>"@,
            NetworkConfigError::InvalidChainId(id) => "Invalid chain_id: "@ + id@,
            NetworkConfigError::InvalidAddress(network) => "Invalid address of WETH contract for chain: "@
                + decimal_text(network.spec_chain_id() as nat),
        }
    }

    /// The error in words.
    pub fn message(&self) -> (s: String)
        ensures
            s@ == self.text(),
    {
        match self {
            NetworkConfigError::InvalidWethNetworkFormat => String::from_str(
                "Invalid WETH network format, should be <chain_id>:<address>",
            ),
            NetworkConfigError::InvalidChainId(id) => {
                let mut s = String::from_str("Invalid chain_id: ");
                s.append(id.as_str());
                s
            },
            NetworkConfigError::InvalidAddress(network) => {
                let mut s = String::from_str("Invalid address of WETH contract for chain: ");
                s.append(u64_to_decimal(network.chain_id()).as_str());
                s
            },
        }
    }
}

/// Why a watcher could not tell the balances after an event.
#[derive(Debug, Clone)]
pub enum WatcherError {
    /// The balances of the owner could not be read on the network; the text
    /// says why.
    GettingBalance(Address, EvmNetwork, String),
    /// A log for the owner on the network could not be read; the text says
    /// why.
    ParseLog(EvmNetwork, Address, String),
}

impl WatcherError {
    /// The error in words.
    pub open spec fn text(self) -> Seq<char> {
        match self {
            WatcherError::GettingBalance(owner, network, detail) => "unable to get balance for owner "@
                + owner.wire_text() + " in network "@ + decimal_text(
                network.spec_chain_id() as nat,
            ) + ": "@ + detail@,
            WatcherError::ParseLog(network, owner, detail) => "Parse log error for network: "@
                + decimal_text(network.spec_chain_id() as nat) + ", owner: "@ + owner.wire_text()
                + ": "@ + detail@,
        }
    }

    /// The error in words.
    pub fn message(&self) -> (s: String)
        ensures
            s@ == self.text(),
    {
        match self {
            WatcherError::GettingBalance(owner, network, detail) => {
                let mut s = String::from_str("unable to get balance for owner ");
                s.append(owner.to_hex_string().as_str());
                s.append(" in network ");
                s.append(u64_to_decimal(network.chain_id()).as_str());
                s.append(": ");
                s.append(detail.as_str());
                s
            },
            WatcherError::ParseLog(network, owner, detail) => {
                let mut s = String::from_str("Parse log error for network: ");
                s.append(u64_to_decimal(network.chain_id()).as_str());
                s.append(", owner: ");
                s.append(owner.to_hex_string().as_str());
                s.append(": ");
                s.append(detail.as_str());
                s
            },
        }
    }
}

/// A failure to load a token list.
#[derive(Debug, Clone)]
pub enum FetcherError {
    /// The list at the URL could not be fetched or read; the second text says
    /// why.
    UnableToLoadList(String, String),
}

impl FetcherError {
    /// The URL of the list that failed to load.
    pub open spec fn url_text(self) -> Seq<char> {
        match self {
            FetcherError::UnableToLoadList(url, _) => url@,
        }
    }

    /// Why it failed.
    pub open spec fn reason_text(self) -> Seq<char> {
        match self {
            FetcherError::UnableToLoadList(_, reason) => reason@,
        }
    }
}

/// A failure of the batched balance read.
#[derive(Debug, Clone)]
pub enum ServiceError {
    /// The aggregate call failed as a whole, or one of its sub-calls did; the
    /// text says which.
    BalancesMultiCallError(String),
}

impl ServiceError {
    /// The text that the error carries.
    pub open spec fn text(self) -> Seq<char> {
        match self {
            ServiceError::BalancesMultiCallError(detail) => detail@,
        }
    }

    /// The text that the error carries.
    pub fn message(&self) -> (s: String)
        ensures
            s@ == self.text(),
    {
        match self {
            ServiceError::BalancesMultiCallError(detail) => detail.clone(),
        }
    }
}

/// What is reported when the sub-call for `token`, at `index` of the batch,
/// came back with `success == false` and `len` bytes of return data.
pub open spec fn subcall_failed_text(token: Address, index: nat, len: nat) -> Seq<char> {
    "multicall3 subcall failed: token="@ + token.wire_text() + ", index="@ + decimal_text(index)
        + ", return_data_len="@ + decimal_text(len)
}

/// What is reported when the batch came back without a response at `index`.
pub open spec fn missing_response_text(index: nat) -> Seq<char> {
    "multicall3: missing response at index="@ + decimal_text(index)
}

/// The error for a sub-call that failed.
pub fn subcall_failed(token: &Address, index: usize, len: usize) -> (e: ServiceError)
    ensures
        e.text() == subcall_failed_text(*token, index as nat, len as nat),
{
    let mut s = String::from_str("multicall3 subcall failed: token=");
    s.append(token.to_hex_string().as_str());
    s.append(", index=");
    s.append(u64_to_decimal(index as u64).as_str());
    s.append(", return_data_len=");
    s.append(u64_to_decimal(len as u64).as_str());
    ServiceError::BalancesMultiCallError(s)
}

/// The error for a response that the batch lacks.
pub fn missing_response(index: usize) -> (e: ServiceError)
    ensures
        e.text() == missing_response_text(index as nat),
{
    let mut s = String::from_str("multicall3: missing response at index=");
    s.append(u64_to_decimal(index as u64).as_str());
    ServiceError::BalancesMultiCallError(s)
}

} // verus!
