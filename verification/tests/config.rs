use balance_watcher::address::Address;
use balance_watcher::config::{
    Args, NetworkConfig, NetworkTokenLists, TokenList, BROADCAST_CHANNEL_CAPACITY,
    DEFAULT_SNAPSHOT_INTERVAL_SECS,
};
use balance_watcher::errors::NetworkConfigError;
use balance_watcher::network::EvmNetwork;

fn vars(pairs: &[(&str, &str)]) -> Vec<(String, String)> {
    pairs.iter().map(|(k, v)| (k.to_string(), v.to_string())).collect()
}

fn list(source: &str) -> TokenList {
    TokenList { priority: 1, enabled_by_default: true, source: source.to_string() }
}

#[test]
fn constants_of_the_service() {
    assert_eq!(BROADCAST_CHANNEL_CAPACITY, 256);
    assert_eq!(DEFAULT_SNAPSHOT_INTERVAL_SECS, 60);
}

#[test]
fn settings_have_their_defaults() {
    let args = Args::from_env(&vars(&[])).unwrap();
    assert_eq!(args.bind, "0.0.0.0:8080");
    assert_eq!(args.arbitrum_rpc, "");
    assert_eq!(args.eth_rpc, "");
    assert_eq!(args.eth_ws_rpc, "");
    assert_eq!(args.multicall_address, "");
    assert_eq!(args.token_list_path, "configs/tokens_list.json");
    assert_eq!(args.snapshot_interval, 60);
    assert_eq!(args.max_watched_tokens_limit, 10000);
    assert_eq!(args.allowed_origins, "");
}

#[test]
fn settings_are_read_from_the_environment() {
    let args = Args::from_env(&vars(&[
        ("PATH", "/bin"),
        ("HTTP_BIND", "127.0.0.1:9000"),
        ("ETH_RPC", "http://eth"),
        ("SNAPSHOT_INTERVAL", "1"),
        ("MAX_WATCHED_TOKENS_LIMIT", "25"),
        ("ALLOWED_ORIGINS", "https://a,https://b"),
        ("HTTP_BIND", "ignored"),
    ]))
    .unwrap();
    assert_eq!(args.bind, "127.0.0.1:9000");
    assert_eq!(args.eth_rpc, "http://eth");
    assert_eq!(args.arbitrum_rpc, "");
    assert_eq!(args.snapshot_interval, 1);
    assert_eq!(args.max_watched_tokens_limit, 25);
    assert_eq!(args.allowed_origins, "https://a,https://b");
}

#[test]
fn a_number_that_is_none_is_refused() {
    assert!(Args::from_env(&vars(&[("SNAPSHOT_INTERVAL", "soon")])).is_none());
    assert!(Args::from_env(&vars(&[("MAX_WATCHED_TOKENS_LIMIT", "-1")])).is_none());
    assert!(Args::from_env(&vars(&[("SNAPSHOT_INTERVAL", "")])).is_none());
}

#[test]
fn network_config_from_settings() {
    let args = Args::from_env(&vars(&[
        ("ETH_RPC", "http://eth"),
        ("ETH_WS_RPC", "ws://eth"),
        ("MULTICALL_ADDRESS", "0xcA11bde05977b3631167028862bE2a173976CA11"),
    ]))
    .unwrap();
    let lists = vec![
        NetworkTokenLists { network: EvmNetwork::Eth, lists: vec![list("http://a")] },
        NetworkTokenLists { network: EvmNetwork::Arbitrum, lists: vec![] },
        NetworkTokenLists { network: EvmNetwork::Eth, lists: vec![list("http://b")] },
    ];
    let config = NetworkConfig::init(&args, lists);
    assert_eq!(config.rpc_url(EvmNetwork::Eth), Some(&"http://eth".to_string()));
    assert_eq!(config.rpc_url(EvmNetwork::Arbitrum), None);
    assert_eq!(config.rpc_url(EvmNetwork::Sepolia), None);
    assert_eq!(config.eth_ws_rpc, "ws://eth");
    assert_eq!(config.max_watched_tokens_limit, 10000);
    assert_eq!(
        config.multicall_address.to_hex_string(),
        "0xca11bde05977b3631167028862be2a173976ca11"
    );
    assert_eq!(config.token_list(EvmNetwork::Eth).unwrap()[0].source, "http://a");
    assert_eq!(config.token_list(EvmNetwork::Arbitrum).unwrap().len(), 0);
    assert!(config.token_list(EvmNetwork::Sepolia).is_none());
}

#[test]
fn a_multicall_address_that_is_none_counts_as_zero() {
    let args = Args::from_env(&vars(&[("MULTICALL_ADDRESS", "nothing")])).unwrap();
    let config = NetworkConfig::init(&args, vec![]);
    assert_eq!(config.multicall_address, Address::zero());
    let config = NetworkConfig::init(&Args::from_env(&vars(&[])).unwrap(), vec![]);
    assert_eq!(config.multicall_address, Address::zero());
}

#[test]
fn config_errors_in_words() {
    assert_eq!(
        NetworkConfigError::InvalidWethNetworkFormat.message(),
        "Invalid WETH network format, should be <chain_id>:<address>"
    );
    assert_eq!(
        NetworkConfigError::InvalidChainId("x1".to_string()).message(),
        "Invalid chain_id: x1"
    );
    assert_eq!(
        NetworkConfigError::InvalidAddress(EvmNetwork::Eth).message(),
        "Invalid address of WETH contract for chain: 1"
    );
}
