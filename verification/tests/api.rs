use balance_watcher::address::Address;
use balance_watcher::address_set::AddressSet;
use balance_watcher::api::{
    check_create_request, check_update_request, create_session, find_session, get_balances,
    get_token_balance, update_session, DEFAULT_MAX_WATCHED_TOKENS_LIMIT,
};
use balance_watcher::app_error::{fetch_failed_message, subscription_failed, AppError, StreamError};
use balance_watcher::balance::Balance;
use balance_watcher::balance_map::BalanceMap;
use balance_watcher::errors::{FetcherError, ServiceError, SubscriptionError};
use balance_watcher::events::SubscriptionKey;
use balance_watcher::network::EvmNetwork;
use balance_watcher::subscription_manager::SubscriptionManager;

fn addr(n: u8) -> Address {
    let mut bytes = [0u8; 20];
    bytes[19] = n;
    Address { bytes }
}

fn bal(v: u128) -> Balance {
    let mut bytes = [0u8; 32];
    bytes[16..].copy_from_slice(&v.to_be_bytes());
    Balance { bytes }
}

fn key() -> SubscriptionKey {
    SubscriptionKey { owner: addr(0x77), network: EvmNetwork::Eth }
}

fn set(ns: &[u8]) -> AddressSet {
    AddressSet::from_vec(&ns.iter().map(|n| addr(*n)).collect())
}

fn watched(manager: &SubscriptionManager) -> Vec<Address> {
    let mut tokens = manager.get_subscription(&key()).unwrap().tokens.to_vec();
    tokens.sort_by_key(|a| a.bytes);
    tokens
}

fn unreachable_list() -> FetcherError {
    FetcherError::UnableToLoadList("http://lists/a".to_string(), "timeout".to_string())
}

fn refusal(r: Result<(), AppError>) -> AppError {
    match r {
        Err(e) => e,
        Ok(()) => panic!("the request should have been refused"),
    }
}

#[test]
fn default_token_limit() {
    assert_eq!(DEFAULT_MAX_WATCHED_TOKENS_LIMIT, 10000);
}

#[test]
fn create_needs_a_token_list() {
    assert!(check_create_request(&vec!["a".to_string()]).is_ok());
    let e = refusal(check_create_request(&vec![]));
    assert_eq!(e.status_code(), 400);
    assert_eq!(e.message(), "tokens_lists_urls should not be empty");
}

#[test]
fn update_needs_a_list_or_a_token() {
    assert!(check_update_request(&vec!["a".to_string()], &vec![]).is_ok());
    assert!(check_update_request(&vec![], &vec![addr(1)]).is_ok());
    let e = refusal(check_update_request(&vec![], &vec![]));
    assert_eq!(e.status_code(), 400);
    assert_eq!(e.message(), "tokens_lists_urls && custom_tokens are empty");
}

#[test]
fn create_watches_list_and_custom_tokens() {
    let mut manager = SubscriptionManager::new();
    assert!(create_session(&mut manager, key(), Ok(set(&[1, 2])), &vec![addr(2), addr(3)], 3, 0)
        .is_ok());
    assert_eq!(watched(&manager), vec![addr(1), addr(2), addr(3)]);
}

#[test]
fn create_refuses_more_tokens_than_the_limit() {
    let mut manager = SubscriptionManager::new();
    let e = refusal(create_session(
        &mut manager,
        key(),
        Ok(set(&[1, 2])),
        &vec![addr(3), addr(4)],
        3,
        0,
    ));
    assert!(matches!(e, AppError::TokenLimitExceeded));
    assert_eq!(e.status_code(), 400);
    assert_eq!(e.message(), "Token limit exceeded");
    assert!(manager.get_subscription(&key()).is_none());
}

#[test]
fn create_refuses_a_list_that_failed_to_load() {
    let mut manager = SubscriptionManager::new();
    let e = refusal(create_session(&mut manager, key(), Err(unreachable_list()), &vec![], 10, 0));
    assert!(matches!(e, AppError::BadRequest(_)));
    assert_eq!(e.status_code(), 400);
    assert_eq!(e.message(), "unable to load token list http://lists/a: timeout");
    assert_eq!(fetch_failed_message(&unreachable_list()), e.message());
    assert!(manager.get_subscription(&key()).is_none());
}

#[test]
fn create_on_an_existing_session_adds_to_it() {
    let mut manager = SubscriptionManager::new();
    create_session(&mut manager, key(), Ok(set(&[1])), &vec![], 10, 0).unwrap();
    create_session(&mut manager, key(), Ok(set(&[2])), &vec![addr(3)], 10, 1).unwrap();
    assert_eq!(watched(&manager), vec![addr(1), addr(2), addr(3)]);
}

#[test]
fn update_without_session_is_not_found() {
    let mut manager = SubscriptionManager::new();
    let e = refusal(update_session(&mut manager, key(), Ok(set(&[1])), &vec![], 10, 0));
    assert!(matches!(e, AppError::NoSession(EvmNetwork::Eth, _)));
    assert_eq!(e.status_code(), 404);
    assert_eq!(
        e.message(),
        "No session with network(1) and owner(0x0000000000000000000000000000000000000077)"
    );
    assert_eq!(refusal(find_session(&manager, &key())).status_code(), 404);
    assert!(manager.get_subscription(&key()).is_none());
}

#[test]
fn update_extends_the_watched_set() {
    let mut manager = SubscriptionManager::new();
    manager.create_or_update(key(), set(&[1, 2]), 0);
    assert!(find_session(&manager, &key()).is_ok());
    assert!(update_session(&mut manager, key(), Ok(set(&[2, 3])), &vec![addr(4)], 4, 1).is_ok());
    assert_eq!(watched(&manager), vec![addr(1), addr(2), addr(3), addr(4)]);
}

#[test]
fn update_counts_only_new_tokens_against_the_limit() {
    let mut manager = SubscriptionManager::new();
    manager.create_or_update(key(), set(&[1, 2, 3]), 0);
    assert!(update_session(&mut manager, key(), Ok(set(&[1, 2])), &vec![addr(3)], 3, 1).is_ok());
    let e = refusal(update_session(&mut manager, key(), Ok(set(&[1])), &vec![addr(4)], 3, 1));
    assert!(matches!(e, AppError::TokenLimitExceeded));
    assert_eq!(watched(&manager), vec![addr(1), addr(2), addr(3)]);
}

#[test]
fn update_refuses_a_list_that_failed_to_load() {
    let mut manager = SubscriptionManager::new();
    manager.create_or_update(key(), set(&[1]), 0);
    let e = refusal(update_session(
        &mut manager,
        key(),
        Err(unreachable_list()),
        &vec![addr(2)],
        10,
        0,
    ));
    assert!(matches!(e, AppError::BadRequest(_)));
    assert_eq!(watched(&manager), vec![addr(1)]);
}

#[test]
fn stream_needs_both_providers() {
    let mut manager = SubscriptionManager::new();
    manager.create_or_update(key(), set(&[1]), 0);
    let e = get_balances(&mut manager, &key(), false, true).unwrap_err();
    assert_eq!(e.code, 404);
    assert_eq!(e.message, "No provider for network 1");
    let e = get_balances(&mut manager, &key(), true, false).unwrap_err();
    assert_eq!(e.code, 404);
    assert_eq!(e.message, "No ws provider for network 1");
    assert!(get_balances(&mut manager, &key(), true, true).unwrap().is_first);
}

#[test]
fn stream_without_session_is_not_found() {
    let mut manager = SubscriptionManager::new();
    let e = get_balances(&mut manager, &key(), true, true).unwrap_err();
    assert_eq!(e.code, 404);
    assert_eq!(e.status(), 404);
}

#[test]
fn stream_primes_the_second_client() {
    let mut manager = SubscriptionManager::new();
    manager.create_or_update(key(), set(&[1]), 0);
    let first = get_balances(&mut manager, &key(), true, true).unwrap();
    assert!(first.is_first && first.primer.is_none());
    let mut read = BalanceMap::new();
    read.insert(addr(1), bal(3));
    manager.merge_balances(&key(), &read);
    let second = get_balances(&mut manager, &key(), true, true).unwrap();
    assert!(!second.is_first && second.primer.is_some());
}

#[test]
fn refusals_of_the_registry_as_stream_errors() {
    assert_eq!(subscription_failed(SubscriptionError::NoSession).code, 404);
    assert_eq!(subscription_failed(SubscriptionError::TooManyClients).code, 500);
    assert_eq!(subscription_failed(SubscriptionError::TooManyClients).message, "too many clients");
    assert_eq!(subscription_failed(SubscriptionError::NoClients).code, 500);
}

#[test]
fn stream_error_status_falls_back_to_500() {
    assert_eq!(StreamError { code: 404, message: String::new() }.status(), 404);
    assert_eq!(StreamError { code: 999, message: String::new() }.status(), 999);
    assert_eq!(StreamError { code: 99, message: String::new() }.status(), 500);
    assert_eq!(StreamError { code: 1000, message: String::new() }.status(), 500);
    assert_eq!(StreamError { code: 0, message: String::new() }.status(), 500);
}

#[test]
fn error_bodies() {
    let body = AppError::Internal("boom".to_string()).error_body();
    assert_eq!((body.code, body.message.as_str()), (500, "boom"));
    let body = AppError::BadRequest("bad".to_string()).error_body();
    assert_eq!((body.code, body.message.as_str()), (400, "bad"));
    let body = AppError::ProviderIsNotDefined(EvmNetwork::Arbitrum).error_body();
    assert_eq!(
        (body.code, body.message.as_str()),
        (404, "Provider is not defined for network 42161")
    );
    let body = AppError::WethAddressIsNotDefined(EvmNetwork::Sepolia).error_body();
    assert_eq!(
        (body.code, body.message.as_str()),
        (500, "WETH address is not defined for network: 11155111")
    );
    let body = AppError::TokenLimitExceeded.error_body();
    assert_eq!((body.code, body.message.as_str()), (400, "Token limit exceeded"));
}

#[test]
fn one_balance_in_decimal() {
    let mut read = BalanceMap::new();
    read.insert(addr(1), bal(18_446_744_073_709_551_616));
    read.insert(addr(2), bal(0));
    let response = get_token_balance(EvmNetwork::Eth, &addr(1), Some(Ok(read.clone()))).unwrap();
    assert_eq!(response.balance, "18446744073709551616");
    let response = get_token_balance(EvmNetwork::Eth, &addr(2), Some(Ok(read))).unwrap();
    assert_eq!(response.balance, "0");
}

#[test]
fn one_balance_without_provider_is_not_found() {
    let e = get_token_balance(EvmNetwork::Arbitrum, &addr(1), None).unwrap_err();
    assert!(matches!(e, AppError::ProviderIsNotDefined(EvmNetwork::Arbitrum)));
    assert_eq!(e.status_code(), 404);
    assert_eq!(e.message(), "Provider is not defined for network 42161");
}

#[test]
fn one_balance_whose_read_failed_is_a_fault() {
    let failure = ServiceError::BalancesMultiCallError("connection refused".to_string());
    let e = get_token_balance(EvmNetwork::Eth, &addr(1), Some(Err(failure))).unwrap_err();
    assert!(matches!(e, AppError::Internal(_)));
    assert_eq!(e.status_code(), 500);
    assert_eq!(e.message(), "connection refused");
}

#[test]
fn one_balance_that_was_not_read_is_a_fault() {
    let mut read = BalanceMap::new();
    read.insert(addr(2), bal(5));
    let e = get_token_balance(EvmNetwork::Eth, &addr(1), Some(Ok(read))).unwrap_err();
    assert_eq!(e.status_code(), 500);
    assert_eq!(e.message(), "the balance could not be read");
    let e = get_token_balance(EvmNetwork::Eth, &addr(1), Some(Ok(BalanceMap::new()))).unwrap_err();
    assert_eq!(e.status_code(), 500);
}

#[test]
fn token_from_a_path() {
    let token =
        balance_watcher::api::token_address("0xC02aaA39b223FE8D0A0e5C4F27eAD9083C756Cc2").unwrap();
    assert_eq!(token.to_hex_string(), "0xc02aaa39b223fe8d0a0e5c4f27ead9083c756cc2");
    let e = balance_watcher::api::token_address("0x1").unwrap_err();
    assert_eq!((e.status_code(), e.message().as_str()), (400, "token is no address"));
}

#[test]
fn session_key_from_a_path() {
    let k = balance_watcher::api::session_key(
        "42161",
        "0xC02aaA39b223FE8D0A0e5C4F27eAD9083C756Cc2",
    )
    .unwrap();
    assert_eq!(k.network, EvmNetwork::Arbitrum);
    assert_eq!(k.owner.to_hex_string(), "0xc02aaa39b223fe8d0a0e5c4f27ead9083c756cc2");
    let lower = balance_watcher::api::session_key(
        "42161",
        "0xc02aaa39b223fe8d0a0e5c4f27ead9083c756cc2",
    )
    .unwrap();
    assert_eq!(k, lower);
}

#[test]
fn session_key_of_an_unknown_chain_is_not_found() {
    let e = balance_watcher::api::session_key("5", "0xc02aaa39b223fe8d0a0e5c4f27ead9083c756cc2")
        .unwrap_err();
    assert_eq!((e.code, e.message.as_str()), (404, "Network with id 5 is not supported"));
    let e = balance_watcher::api::session_key("x", "0xc02aaa39b223fe8d0a0e5c4f27ead9083c756cc2")
        .unwrap_err();
    assert_eq!((e.code, e.message.as_str()), (404, "Network id should be integer"));
}

#[test]
fn session_key_of_a_bad_owner_is_a_bad_request() {
    let e = balance_watcher::api::session_key("1", "0x12").unwrap_err();
    assert_eq!((e.code, e.message.as_str()), (400, "owner is no address"));
}
