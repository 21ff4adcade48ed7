use balance_watcher::address::Address;
use balance_watcher::balance::Balance;
use balance_watcher::balance_map::BalanceMap;
use balance_watcher::events::{BalanceEvent, SubscriptionKey};
use balance_watcher::network::EvmNetwork;
use balance_watcher::sse::{
    on_received, to_sse, wire_balances, CleanupGuard, Received, SseBody, SseStep,
};

fn addr(n: u8) -> Address {
    let mut bytes = [0u8; 20];
    bytes[19] = n;
    Address { bytes }
}

fn bal(v: u128) -> Balance {
    let mut bytes = [0u8; 32];
    bytes[16..].copy_from_slice(&v.to_be_bytes());
    Balance { bytes }
}

#[test]
fn balances_go_out_as_hex_and_decimal() {
    let pairs = vec![(addr(0xab), bal(18_446_744_073_709_551_616)), (addr(1), bal(0))];
    assert_eq!(
        wire_balances(&pairs),
        vec![
            (
                "0x00000000000000000000000000000000000000ab".to_string(),
                "18446744073709551616".to_string()
            ),
            ("0x0000000000000000000000000000000000000001".to_string(), "0".to_string()),
        ]
    );
    assert_eq!(wire_balances(&vec![]), vec![]);
}

#[test]
fn balance_update_goes_out_under_its_name() {
    let mut balances = BalanceMap::new();
    balances.insert(addr(2), bal(5));
    let message = to_sse(&BalanceEvent::BalanceUpdate(balances));
    assert_eq!(message.event, "balance_update");
    match message.body {
        SseBody::Balances(list) => assert_eq!(
            list,
            vec![("0x0000000000000000000000000000000000000002".to_string(), "5".to_string())]
        ),
        SseBody::Error { .. } => panic!("balances were expected"),
    }
}

#[test]
fn error_goes_out_under_its_name() {
    let message = to_sse(&BalanceEvent::Error { code: 500, message: "broken".to_string() });
    assert_eq!(message.event, "error");
    match message.body {
        SseBody::Error { code, message } => {
            assert_eq!(code, 500);
            assert_eq!(message, "broken");
        }
        SseBody::Balances(_) => panic!("an error was expected"),
    }
}

#[test]
fn lagging_receiver_stays_open() {
    assert!(matches!(on_received(&Received::Lagged(300)), SseStep::Skip));
    assert!(matches!(on_received(&Received::Closed), SseStep::End));
    let event = Received::Event(BalanceEvent::Error { code: 500, message: "x".to_string() });
    match on_received(&event) {
        SseStep::Send(message) => assert_eq!(message.event, "error"),
        _ => panic!("the event should be sent"),
    }
}

#[test]
fn cleanup_fires_once() {
    let key = SubscriptionKey { owner: addr(1), network: EvmNetwork::Sepolia };
    let mut guard = CleanupGuard::new(key);
    assert!(!guard.cleaned_up);
    assert_eq!(guard.release(), Some(key));
    assert!(guard.cleaned_up);
    assert_eq!(guard.release(), None);
    assert_eq!(guard.release(), None);
    assert_eq!(guard.key, key);
}
