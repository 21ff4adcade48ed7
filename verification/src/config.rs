use vstd::prelude::*;
use vstd::string::StringExecFns;
use crate::address::Address;
use crate::address::parsed_address;
use crate::api::DEFAULT_MAX_WATCHED_TOKENS_LIMIT;
use crate::bytes::parse_u64;
use crate::bytes::parsed_u64;
use crate::network::EvmNetwork;

verus! {

/// How many events a session's broadcast channel holds.
pub const BROADCAST_CHANNEL_CAPACITY: usize = 256;

/// The default interval between two snapshots, in seconds.
pub const DEFAULT_SNAPSHOT_INTERVAL_SECS: u64 = 60;

/// A source of tokens for a network.
#[derive(Debug, Clone)]
pub struct TokenList {
    pub priority: u8,
    pub enabled_by_default: bool,
    pub source: String,
}

/// What the service is started with.
#[derive(Debug, Clone)]
pub struct Args {
    pub bind: String,
    pub arbitrum_rpc: String,
    pub eth_rpc: String,
    pub eth_ws_rpc: String,
    pub multicall_address: String,
    pub token_list_path: String,
    pub snapshot_interval: u64,
    pub max_watched_tokens_limit: u64,
    pub allowed_origins: String,
}

/// Whether a variable of the given name stands among the first `upto`.
pub open spec fn is_set_before(vars: Seq<(String, String)>, name: Seq<char>, upto: int) -> bool {
    exists|i: int| 0 <= i < upto && (#[trigger] vars[i]).0@ == name
}

/// The place of the first variable of the given name.
pub open spec fn first_index(vars: Seq<(String, String)>, name: Seq<char>) -> int {
    choose|i: int|
        0 <= i < vars.len() && (#[trigger] vars[i]).0@ == name && !is_set_before(vars, name, i)
}

/// The value of a variable of the environment: that of the first variable of
/// that name, if there is one.
pub open spec fn env_value(vars: Seq<(String, String)>, name: Seq<char>) -> Option<Seq<char>> {
    if is_set_before(vars, name, vars.len() as int) {
        Some(vars[first_index(vars, name)].1@)
    } else {
        None
    }
}

/// The text that a variable gives, or the default where it is not set.
pub open spec fn text_setting(
    vars: Seq<(String, String)>,
    name: Seq<char>,
    default: Seq<char>,
) -> Seq<char> {
    match env_value(vars, name) {
        Some(value) => value,
        None => default,
    }
}

/// The number that a variable gives, or the default where it is not set;
/// nothing where it is set to what is no number.
pub open spec fn number_setting(vars: Seq<(String, String)>, name: Seq<char>, default: u64) -> Option<
    u64,
> {
    match env_value(vars, name) {
        Some(value) => parsed_u64(value),
        None => Some(default),
    }
}

fn lookup<'a>(vars: &'a Vec<(String, String)>, name: &str) -> (r: Option<&'a String>)
    ensures
        match r {
            Some(value) => env_value(vars@, name@) == Some(value@),
            None => env_value(vars@, name@) is None,
        },
{
    let wanted = String::from_str(name);
    let mut i: usize = 0;
    while i < vars.len()
        invariant
            i <= vars@.len(),
            wanted@ == name@,
            !is_set_before(vars@, name@, i as int),
        decreases vars@.len() - i,
    {
        if vars[i].0 == wanted {
            proof {
                assert(vars@[i as int].0@ == name@);
                assert(is_set_before(vars@, name@, vars@.len() as int));
                let k = first_index(vars@, name@);
                if k < i {
                    assert(is_set_before(vars@, name@, i as int));
                }
                if i < k {
                    assert(is_set_before(vars@, name@, k));
                }
            }
            return Some(&vars[i].1);
        }
        proof {
            if is_set_before(vars@, name@, i + 1) {
                let k = choose|k: int| 0 <= k < i + 1 && (#[trigger] vars@[k]).0@ == name@;
                if k < i {
                    assert(is_set_before(vars@, name@, i as int));
                }
            }
        }
        i += 1;
    }
    None
}

fn text_or(vars: &Vec<(String, String)>, name: &str, default: &str) -> (r: String)
    ensures
        r@ == text_setting(vars@, name@, default@),
{
    match lookup(vars, name) {
        Some(value) => value.clone(),
        None => String::from_str(default),
    }
}

fn number_or(vars: &Vec<(String, String)>, name: &str, default: u64) -> (r: Option<u64>)
    ensures
        r == number_setting(vars@, name@, default),
{
    match lookup(vars, name) {
        Some(value) => parse_u64(value.as_str()),
        None => Some(default),
    }
}

impl Args {
    /// Reads the settings from the variables of the environment, given as
    /// pairs of name and value. A variable that is not set has its default.
    /// Nothing is returned where a number is set to what is no number.
    pub fn from_env(vars: &Vec<(String, String)>) -> (r: Option<Args>)
        ensures
            match r {
                Some(args) => {
                    &&& args.bind@ == text_setting(vars@, "HTTP_BIND"@, "0.0.0.0:8080"@)
                    &&& args.arbitrum_rpc@ == text_setting(vars@, "ARBITRUM_RPC"@, ""@)
                    &&& args.eth_rpc@ == text_setting(vars@, "ETH_RPC"@, ""@)
                    &&& args.eth_ws_rpc@ == text_setting(vars@, "ETH_WS_RPC"@, ""@)
                    &&& args.multicall_address@ == text_setting(vars@, "MULTICALL_ADDRESS"@, ""@)
                    &&& args.token_list_path@ == text_setting(
                        vars@,
                        "TOKEN_LIST_PATH"@,
                        "configs/tokens_list.json"@,
                    )
                    &&& args.allowed_origins@ == text_setting(vars@, "ALLOWED_ORIGINS"@, ""@)
                    &&& number_setting(vars@, "SNAPSHOT_INTERVAL"@, DEFAULT_SNAPSHOT_INTERVAL_SECS)
                        == Some(args.snapshot_interval)
                    &&& number_setting(
                        vars@,
                        "MAX_WATCHED_TOKENS_LIMIT"@,
                        DEFAULT_MAX_WATCHED_TOKENS_LIMIT as u64,
                    ) == Some(args.max_watched_tokens_limit)
                },
                None => number_setting(vars@, "SNAPSHOT_INTERVAL"@, DEFAULT_SNAPSHOT_INTERVAL_SECS)
                    is None || number_setting(
                    vars@,
                    "MAX_WATCHED_TOKENS_LIMIT"@,
                    DEFAULT_MAX_WATCHED_TOKENS_LIMIT as u64,
                ) is None,
            },
    {
        let snapshot_interval = match number_or(
            vars,
            "SNAPSHOT_INTERVAL",
            DEFAULT_SNAPSHOT_INTERVAL_SECS,
        ) {
            Some(n) => n,
            None => {
                return None;
            },
        };
        let max_watched_tokens_limit = match number_or(
            vars,
            "MAX_WATCHED_TOKENS_LIMIT",
            DEFAULT_MAX_WATCHED_TOKENS_LIMIT as u64,
        ) {
            Some(n) => n,
            None => {
                return None;
            },
        };
        Some(
            Args {
                bind: text_or(vars, "HTTP_BIND", "0.0.0.0:8080"),
                arbitrum_rpc: text_or(vars, "ARBITRUM_RPC", ""),
                eth_rpc: text_or(vars, "ETH_RPC", ""),
                eth_ws_rpc: text_or(vars, "ETH_WS_RPC", ""),
                multicall_address: text_or(vars, "MULTICALL_ADDRESS", ""),
                token_list_path: text_or(vars, "TOKEN_LIST_PATH", "configs/tokens_list.json"),
                snapshot_interval,
                max_watched_tokens_limit,
                allowed_origins: text_or(vars, "ALLOWED_ORIGINS", ""),
            },
        )
    }
}

/// The token lists configured for one network.
#[derive(Debug)]
pub struct NetworkTokenLists {
    pub network: EvmNetwork,
    pub lists: Vec<TokenList>,
}

/// The service's view of the networks: how to reach each, through which
/// aggregate contract balances are read, and where the tokens are listed.
#[derive(Debug)]
pub struct NetworkConfig {
    pub eth_rpc: String,
    pub arbitrum_rpc: String,
    pub eth_ws_rpc: String,
    pub multicall_address: Address,
    pub max_watched_tokens_limit: u64,
    pub token_list: Vec<NetworkTokenLists>,
}

/// The RPC URL that the settings give for a network; none where the setting
/// is empty, and none for a network that has no setting.
pub open spec fn configured_rpc(config: NetworkConfig, network: EvmNetwork) -> Option<Seq<char>> {
    match network {
        EvmNetwork::Eth => if config.eth_rpc@.len() == 0 {
            None
        } else {
            Some(config.eth_rpc@)
        },
        EvmNetwork::Arbitrum => if config.arbitrum_rpc@.len() == 0 {
            None
        } else {
            Some(config.arbitrum_rpc@)
        },
        EvmNetwork::Sepolia => None,
    }
}

impl NetworkConfig {
    /// The configuration for the given settings and token lists. A multicall
    /// address that is no address counts as the zero address.
    pub fn init(args: &Args, token_list: Vec<NetworkTokenLists>) -> (c: NetworkConfig)
        ensures
            c.eth_rpc@ == args.eth_rpc@,
            c.arbitrum_rpc@ == args.arbitrum_rpc@,
            c.eth_ws_rpc@ == args.eth_ws_rpc@,
            c.max_watched_tokens_limit == args.max_watched_tokens_limit,
            c.token_list@ == token_list@,
            match parsed_address(args.multicall_address@) {
                Some(bytes) => c.multicall_address.bytes@ == bytes,
                None => forall|i: int| 0 <= i < 20 ==> c.multicall_address.bytes@[i] == 0,
            },
    {
        let multicall_address = match Address::parse(args.multicall_address.as_str()) {
            Some(a) => a,
            None => Address::zero(),
        };
        NetworkConfig {
            eth_rpc: args.eth_rpc.clone(),
            arbitrum_rpc: args.arbitrum_rpc.clone(),
            eth_ws_rpc: args.eth_ws_rpc.clone(),
            multicall_address,
            max_watched_tokens_limit: args.max_watched_tokens_limit,
            token_list,
        }
    }

    /// The RPC URL of a network, if one is configured.
    pub fn rpc_url(&self, network: EvmNetwork) -> (r: Option<&String>)
        ensures
            match r {
                Some(url) => configured_rpc(*self, network) == Some(url@),
                None => configured_rpc(*self, network) is None,
            },
    {
        match network {
            EvmNetwork::Eth => if self.eth_rpc.as_str().unicode_len() == 0 {
                None
            } else {
                Some(&self.eth_rpc)
            },
            EvmNetwork::Arbitrum => if self.arbitrum_rpc.as_str().unicode_len() == 0 {
                None
            } else {
                Some(&self.arbitrum_rpc)
            },
            EvmNetwork::Sepolia => None,
        }
    }

    /// The token lists of a network: those of the first entry for it.
    pub fn token_list(&self, network: EvmNetwork) -> (r: Option<&Vec<TokenList>>)
        ensures
            match r {
                Some(lists) => exists|i: int|
                    0 <= i < self.token_list@.len() && (#[trigger] self.token_list@[i]).network
                        == network && self.token_list@[i].lists == *lists && forall|k: int|
                        0 <= k < i ==> (#[trigger] self.token_list@[k]).network != network,
                None => forall|i: int|
                    0 <= i < self.token_list@.len() ==> (#[trigger] self.token_list@[i]).network
                        != network,
            },
    {
        let mut i: usize = 0;
        while i < self.token_list.len()
            invariant
                i <= self.token_list@.len(),
                forall|k: int| 0 <= k < i ==> (#[trigger] self.token_list@[k]).network != network,
            decreases self.token_list@.len() - i,
        {
            if self.token_list[i].network == network {
                return Some(&self.token_list[i].lists);
            }
            i += 1;
        }
        None
    }
}

} // verus!
