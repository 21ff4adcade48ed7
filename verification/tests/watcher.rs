use balance_watcher::address::Address;
use balance_watcher::address_set::AddressSet;
use balance_watcher::balance::Balance;
use balance_watcher::balance_map::BalanceMap;
use balance_watcher::balances::{erc20_call_order, get_balances, BalanceCallCtx, CallResult};
use balance_watcher::errors::{ServiceError, WatcherError};
use balance_watcher::events::{BalanceEvent, SubscriptionKey};
use balance_watcher::logs::{
    LogRecord, DEPOSIT_SIGNATURE_HASH, TRANSFER_SIGNATURE_HASH, WITHDRAWAL_SIGNATURE_HASH,
};
use balance_watcher::network::EvmNetwork;
use balance_watcher::sse::{to_sse, SseBody};
use balance_watcher::subscription_manager::SubscriptionManager;
use balance_watcher::watcher::{
    balance_update, fetch_balances_and_broadcast, transfer_event_broadcast,
    update_balances_and_take_diff, wrapped_event_broadcast, Watcher, WatcherContext,
};

fn addr(n: u8) -> Address {
    let mut bytes = [0u8; 20];
    bytes[19] = n;
    Address { bytes }
}

fn bal(v: u128) -> Balance {
    let mut bytes = [0u8; 32];
    bytes[16..].copy_from_slice(&v.to_be_bytes());
    Balance { bytes }
}

fn ok(v: u128) -> CallResult {
    CallResult { success: true, return_data: bal(v).bytes.to_vec() }
}

fn map(entries: &[(Address, u128)]) -> BalanceMap {
    let mut m = BalanceMap::new();
    for (a, v) in entries {
        m.insert(*a, bal(*v));
    }
    m
}

fn sorted(m: &BalanceMap) -> Vec<(Address, Balance)> {
    let mut pairs = m.pairs();
    pairs.sort_by_key(|p| p.0.bytes);
    pairs
}

fn native() -> Address {
    EvmNetwork::Eth.native_token_address()
}

fn owner() -> Address {
    addr(0x77)
}

fn weth() -> Address {
    addr(0xee)
}

fn key() -> SubscriptionKey {
    SubscriptionKey { owner: owner(), network: EvmNetwork::Eth }
}

fn watcher() -> Watcher {
    Watcher::new(WatcherContext {
        owner: owner(),
        network: EvmNetwork::Eth,
        multicall3: addr(0xca),
        weth_address: weth(),
    })
}

fn call_ctx() -> BalanceCallCtx {
    watcher().balance_call_ctx()
}

fn wire(event: &BalanceEvent) -> Vec<(String, String)> {
    match to_sse(event).body {
        SseBody::Balances(mut list) => {
            list.sort();
            list
        }
        SseBody::Error { .. } => panic!("a balance update was expected"),
    }
}

fn updated(event: Option<BalanceEvent>) -> Vec<(Address, Balance)> {
    match event {
        Some(BalanceEvent::BalanceUpdate(m)) => sorted(&m),
        other => panic!("a balance update was expected, not {:?}", other),
    }
}

fn topic_of(a: Address) -> [u8; 32] {
    let mut t = [0u8; 32];
    t[12..].copy_from_slice(&a.bytes);
    t
}

#[test]
fn diff_inserts_what_is_new() {
    let mut snapshot = BalanceMap::new();
    let diff = update_balances_and_take_diff(&mut snapshot, &map(&[(addr(1), 5), (addr(2), 0)]));
    assert_eq!(sorted(&diff), vec![(addr(1), bal(5)), (addr(2), bal(0))]);
    assert_eq!(sorted(&snapshot), vec![(addr(1), bal(5)), (addr(2), bal(0))]);
}

#[test]
fn diff_overwrites_what_differs_and_skips_what_is_equal() {
    let mut snapshot = map(&[(addr(1), 5), (addr(2), 6), (addr(3), 7)]);
    let diff = update_balances_and_take_diff(&mut snapshot, &map(&[(addr(1), 5), (addr(2), 9)]));
    assert_eq!(sorted(&diff), vec![(addr(2), bal(9))]);
    assert_eq!(
        sorted(&snapshot),
        vec![(addr(1), bal(5)), (addr(2), bal(9)), (addr(3), bal(7))]
    );
}

#[test]
fn diff_takes_a_lower_balance() {
    let mut snapshot = map(&[(addr(1), 50)]);
    let diff = update_balances_and_take_diff(&mut snapshot, &map(&[(addr(1), 3)]));
    assert_eq!(sorted(&diff), vec![(addr(1), bal(3))]);
    assert_eq!(snapshot.get(&addr(1)), Some(bal(3)));
}

#[test]
fn diff_of_nothing_is_empty() {
    let mut snapshot = map(&[(addr(1), 5)]);
    let diff = update_balances_and_take_diff(&mut snapshot, &BalanceMap::new());
    assert!(diff.is_empty());
    assert_eq!(sorted(&snapshot), vec![(addr(1), bal(5))]);
}

#[test]
fn diff_of_the_same_balances_is_empty() {
    let mut snapshot = map(&[(addr(1), 5), (addr(2), 6)]);
    let diff = update_balances_and_take_diff(&mut snapshot, &map(&[(addr(2), 6), (addr(1), 5)]));
    assert!(diff.is_empty());
}

#[test]
fn merge_order_does_not_matter_for_reads_that_agree() {
    let first = map(&[(addr(1), 5), (addr(2), 6)]);
    let second = map(&[(addr(2), 6), (addr(3), 8)]);
    let mut one = map(&[(addr(1), 1)]);
    update_balances_and_take_diff(&mut one, &first);
    update_balances_and_take_diff(&mut one, &second);
    let mut other = map(&[(addr(1), 1)]);
    update_balances_and_take_diff(&mut other, &second);
    update_balances_and_take_diff(&mut other, &first);
    assert_eq!(sorted(&one), sorted(&other));
}

#[test]
fn empty_diff_is_no_event() {
    assert!(balance_update(BalanceMap::new()).is_none());
    assert_eq!(updated(balance_update(map(&[(addr(1), 2)]))), vec![(addr(1), bal(2))]);
}

#[test]
fn fresh_session_one_client_one_tick() {
    let mut manager = SubscriptionManager::new();
    let tokens = vec![addr(0xa), addr(0xb), native()];
    manager.create_or_update(key(), AddressSet::from_vec(&tokens), 0);
    assert_eq!(manager.subscribe(&key()), Ok(true));

    let watched = manager.get_subscription(&key()).unwrap().tokens.to_vec();
    let erc20 = erc20_call_order(&watched, &native());
    assert_eq!(erc20, vec![addr(0xa), addr(0xb)]);
    let read = get_balances(&call_ctx(), &erc20, &vec![ok(100), ok(0), ok(7)]).unwrap();
    let event = fetch_balances_and_broadcast(&mut manager, &key(), Ok(read)).unwrap();

    let message = to_sse(&event);
    assert_eq!(message.event, "balance_update");
    assert_eq!(
        wire(&event),
        vec![
            ("0x000000000000000000000000000000000000000a".to_string(), "100".to_string()),
            ("0x000000000000000000000000000000000000000b".to_string(), "0".to_string()),
            ("0xeeeeeeeeeeeeeeeeeeeeeeeeeeeeeeeeeeeeeeee".to_string(), "7".to_string()),
        ]
    );
}

#[test]
fn transfer_log_drives_delta() {
    let mut manager = SubscriptionManager::new();
    manager.create_or_update(key(), AddressSet::from_vec(&vec![addr(0xa), addr(0xb)]), 0);
    manager.merge_balances(&key(), &map(&[(addr(0xa), 100), (addr(0xb), 0), (native(), 7)]));

    let log = LogRecord {
        address: addr(0xa),
        block_number: Some(42),
        topics: vec![TRANSFER_SIGNATURE_HASH, topic_of(owner()), topic_of(addr(0x55))],
        data: bal(20).bytes.to_vec(),
    };
    let request = watcher().parse_transfer_event_and_get_balance(&log).unwrap();
    assert_eq!(request.tokens, vec![addr(0xa), native()]);
    assert_eq!(request.block, Some(42));

    let erc20 = erc20_call_order(&request.tokens, &native());
    let read = get_balances(&call_ctx(), &erc20, &vec![ok(120), ok(7)]).unwrap();
    let event = transfer_event_broadcast(&mut manager, &key(), Some(Ok(read))).unwrap();
    assert_eq!(
        wire(&event),
        vec![("0x000000000000000000000000000000000000000a".to_string(), "120".to_string())]
    );
    let snapshot = &manager.get_subscription(&key()).unwrap().balances_snapshot;
    assert_eq!(snapshot.get(&addr(0xa)), Some(bal(120)));
    assert_eq!(snapshot.get(&native()), Some(bal(7)));
}

#[test]
fn wrap_deposit() {
    let mut manager = SubscriptionManager::new();
    manager.create_or_update(key(), AddressSet::from_vec(&vec![weth()]), 0);
    manager.merge_balances(&key(), &map(&[(weth(), 0), (native(), 1000)]));

    let log = LogRecord {
        address: weth(),
        block_number: Some(9),
        topics: vec![DEPOSIT_SIGNATURE_HASH, topic_of(owner())],
        data: bal(1000).bytes.to_vec(),
    };
    let request = watcher().parse_weth_logs_and_fetch_balance(&log).unwrap().unwrap();
    assert_eq!(request.tokens, vec![weth(), native()]);
    assert_eq!(request.block, Some(9));

    let erc20 = erc20_call_order(&request.tokens, &native());
    let read = get_balances(&call_ctx(), &erc20, &vec![ok(1000), ok(0)]).unwrap();
    let event = wrapped_event_broadcast(&mut manager, &key(), Some(Ok(read))).unwrap();
    assert_eq!(
        wire(&event),
        vec![
            ("0x00000000000000000000000000000000000000ee".to_string(), "1000".to_string()),
            ("0xeeeeeeeeeeeeeeeeeeeeeeeeeeeeeeeeeeeeeeee".to_string(), "0".to_string()),
        ]
    );
}

#[test]
fn unchanged_read_sends_nothing() {
    let mut manager = SubscriptionManager::new();
    manager.create_or_update(key(), AddressSet::new(), 0);
    assert!(fetch_balances_and_broadcast(&mut manager, &key(), Ok(map(&[(native(), 7)])))
        .is_some());
    assert!(fetch_balances_and_broadcast(&mut manager, &key(), Ok(map(&[(native(), 7)])))
        .is_none());
    assert!(fetch_balances_and_broadcast(&mut manager, &key(), Ok(BalanceMap::new())).is_none());
}

#[test]
fn session_without_tokens_snapshots_native_only() {
    let mut manager = SubscriptionManager::new();
    manager.create_or_update(key(), AddressSet::new(), 0);
    let watched = manager.get_subscription(&key()).unwrap().tokens.to_vec();
    let erc20 = erc20_call_order(&watched, &native());
    assert!(erc20.is_empty());
    let read = get_balances(&call_ctx(), &erc20, &vec![ok(7)]).unwrap();
    let event = fetch_balances_and_broadcast(&mut manager, &key(), Ok(read));
    assert_eq!(updated(event), vec![(native(), bal(7))]);
    let snapshot = &manager.get_subscription(&key()).unwrap().balances_snapshot;
    assert_eq!(snapshot.pairs(), vec![(native(), bal(7))]);
}

#[test]
fn read_for_a_session_that_is_gone_sends_nothing() {
    let mut manager = SubscriptionManager::new();
    assert!(fetch_balances_and_broadcast(&mut manager, &key(), Ok(map(&[(native(), 7)])))
        .is_none());
    assert!(manager.get_subscription(&key()).is_none());
}

#[test]
fn failed_snapshot_read_is_reported_and_keeps_the_snapshot() {
    let mut manager = SubscriptionManager::new();
    manager.create_or_update(key(), AddressSet::new(), 0);
    manager.merge_balances(&key(), &map(&[(native(), 7)]));
    let failure = watcher()
        .get_tokens_balance_failed(&ServiceError::BalancesMultiCallError("down".to_string()));
    match fetch_balances_and_broadcast(&mut manager, &key(), Err(failure)) {
        Some(BalanceEvent::Error { code, message }) => {
            assert_eq!(code, 500);
            assert_eq!(message, "Error when make multicall3 request");
        }
        other => panic!("an error event was expected, not {:?}", other),
    }
    let snapshot = &manager.get_subscription(&key()).unwrap().balances_snapshot;
    assert_eq!(snapshot.get(&native()), Some(bal(7)));
}

#[test]
fn failed_wrapped_read_is_reported_in_its_own_words() {
    let mut manager = SubscriptionManager::new();
    manager.create_or_update(key(), AddressSet::new(), 0);
    let failure = watcher()
        .get_tokens_balance_failed(&ServiceError::BalancesMultiCallError("down".to_string()));
    match wrapped_event_broadcast(&mut manager, &key(), Some(Err(failure))) {
        Some(BalanceEvent::Error { code, message }) => {
            assert_eq!(code, 500);
            assert_eq!(
                message,
                "unable to get balance for owner 0x0000000000000000000000000000000000000077 in network 1: down"
            );
        }
        other => panic!("an error event was expected, not {:?}", other),
    }
}

#[test]
fn failed_transfer_read_is_reported_in_its_own_words() {
    let mut manager = SubscriptionManager::new();
    manager.create_or_update(key(), AddressSet::new(), 0);
    manager.merge_balances(&key(), &map(&[(native(), 7)]));
    let failure = watcher()
        .get_tokens_balance_failed(&ServiceError::BalancesMultiCallError("down".to_string()));
    match transfer_event_broadcast(&mut manager, &key(), Some(Err(failure))) {
        Some(BalanceEvent::Error { code, message }) => {
            assert_eq!(code, 500);
            assert_eq!(
                message,
                "unable to get balance for owner 0x0000000000000000000000000000000000000077 in network 1: down"
            );
        }
        other => panic!("an error event was expected, not {:?}", other),
    }
    let snapshot = &manager.get_subscription(&key()).unwrap().balances_snapshot;
    assert_eq!(snapshot.pairs(), vec![(native(), bal(7))]);
}

#[test]
fn undecodable_transfer_log_is_dropped() {
    let mut manager = SubscriptionManager::new();
    manager.create_or_update(key(), AddressSet::new(), 0);
    manager.merge_balances(&key(), &map(&[(native(), 7)]));
    let log = LogRecord {
        address: addr(0xa),
        block_number: Some(42),
        topics: vec![TRANSFER_SIGNATURE_HASH, topic_of(owner())],
        data: vec![],
    };
    let request = watcher().parse_transfer_event_and_get_balance(&log);
    assert!(request.is_none());
    assert!(transfer_event_broadcast(&mut manager, &key(), None).is_none());
    let snapshot = &manager.get_subscription(&key()).unwrap().balances_snapshot;
    assert_eq!(snapshot.pairs(), vec![(native(), bal(7))]);
}

#[test]
fn unreadable_wrapped_log_is_dropped() {
    let mut manager = SubscriptionManager::new();
    manager.create_or_update(key(), AddressSet::new(), 0);
    manager.merge_balances(&key(), &map(&[(native(), 7)]));
    assert!(wrapped_event_broadcast(&mut manager, &key(), None).is_none());
    let snapshot = &manager.get_subscription(&key()).unwrap().balances_snapshot;
    assert_eq!(snapshot.pairs(), vec![(native(), bal(7))]);
}

#[test]
fn transfer_log_without_block_is_not_read() {
    let log = LogRecord {
        address: addr(0xa),
        block_number: None,
        topics: vec![TRANSFER_SIGNATURE_HASH, topic_of(owner()), topic_of(addr(0x55))],
        data: bal(20).bytes.to_vec(),
    };
    assert!(watcher().parse_transfer_event_and_get_balance(&log).is_none());
}

#[test]
fn withdrawal_log_is_read_at_its_block() {
    let log = LogRecord {
        address: weth(),
        block_number: Some(11),
        topics: vec![WITHDRAWAL_SIGNATURE_HASH, topic_of(owner())],
        data: bal(5).bytes.to_vec(),
    };
    let request = watcher().parse_weth_logs_and_fetch_balance(&log).unwrap().unwrap();
    assert_eq!(request.tokens, vec![weth(), native()]);
    assert_eq!(request.block, Some(11));
}

#[test]
fn undecodable_wrapped_log_asks_for_no_read() {
    let log = LogRecord {
        address: weth(),
        block_number: Some(11),
        topics: vec![DEPOSIT_SIGNATURE_HASH, topic_of(owner())],
        data: vec![],
    };
    assert!(watcher().parse_weth_logs_and_fetch_balance(&log).unwrap().is_none());
    let log = LogRecord {
        address: weth(),
        block_number: Some(11),
        topics: vec![WITHDRAWAL_SIGNATURE_HASH],
        data: bal(5).bytes.to_vec(),
    };
    assert!(watcher().parse_weth_logs_and_fetch_balance(&log).unwrap().is_none());
}

#[test]
fn wrapped_log_without_block_is_read_at_the_latest_block() {
    let log = LogRecord {
        address: weth(),
        block_number: None,
        topics: vec![DEPOSIT_SIGNATURE_HASH, topic_of(owner())],
        data: bal(5).bytes.to_vec(),
    };
    let request = watcher().parse_weth_logs_and_fetch_balance(&log).unwrap().unwrap();
    assert_eq!(request.tokens, vec![weth(), native()]);
    assert_eq!(request.block, None);
}

#[test]
fn wrapped_log_of_another_event_is_an_error() {
    let log = LogRecord {
        address: weth(),
        block_number: Some(11),
        topics: vec![TRANSFER_SIGNATURE_HASH, topic_of(owner()), topic_of(owner())],
        data: bal(5).bytes.to_vec(),
    };
    match watcher().parse_weth_logs_and_fetch_balance(&log) {
        Err(WatcherError::ParseLog(network, who, detail)) => {
            assert_eq!(network, EvmNetwork::Eth);
            assert_eq!(who, owner());
            assert_eq!(detail, "event HASH_SIGNATURE is not expected");
        }
        other => panic!("a parse error was expected, not {:?}", other),
    }
}

#[test]
fn watcher_error_in_words() {
    assert_eq!(
        WatcherError::ParseLog(EvmNetwork::Arbitrum, addr(1), "log.topic0() is none".to_string())
            .message(),
        "Parse log error for network: 42161, owner: 0x0000000000000000000000000000000000000001: log.topic0() is none"
    );
}

#[test]
fn filters_of_the_listeners() {
    let w = watcher();
    let outgoing = w.transfer_filter(true);
    assert_eq!(outgoing.address, None);
    assert_eq!(outgoing.event_signatures, vec![TRANSFER_SIGNATURE_HASH]);
    assert_eq!(outgoing.topic1, Some(owner()));
    assert_eq!(outgoing.topic2, None);
    let incoming = w.transfer_filter(false);
    assert_eq!(incoming.event_signatures, vec![TRANSFER_SIGNATURE_HASH]);
    assert_eq!(incoming.topic1, None);
    assert_eq!(incoming.topic2, Some(owner()));
    let wrapped = w.wrapped_events_filter();
    assert_eq!(wrapped.address, Some(weth()));
    assert_eq!(
        wrapped.event_signatures,
        vec![DEPOSIT_SIGNATURE_HASH, WITHDRAWAL_SIGNATURE_HASH]
    );
    assert_eq!(wrapped.topic1, Some(owner()));
    assert_eq!(wrapped.topic2, None);
}

#[test]
fn watcher_key_and_context() {
    let w = watcher();
    assert_eq!(w.key(), key());
    let c = w.balance_call_ctx();
    assert_eq!(c.owner, owner());
    assert_eq!(c.network, EvmNetwork::Eth);
    assert_eq!(c.multicall3, addr(0xca));
}
