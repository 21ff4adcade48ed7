use balance_watcher::address::Address;
use balance_watcher::errors::ParseWeb3LogsError;
use balance_watcher::logs::{
    log_decodes, parse_transfer_log, parse_weth_logs, same_word, LogRecord, WethEvents,
    DEPOSIT_SIGNATURE_HASH, TRANSFER_SIGNATURE_HASH, WITHDRAWAL_SIGNATURE_HASH,
};

fn addr(n: u8) -> Address {
    let mut bytes = [0u8; 20];
    bytes[19] = n;
    Address { bytes }
}

fn log(topics: Vec<[u8; 32]>, data: Vec<u8>, block: Option<u64>) -> LogRecord {
    LogRecord { address: addr(0xa), block_number: block, topics, data }
}

#[test]
fn signature_hashes_are_the_keccak_of_the_signatures() {
    assert_eq!(
        alloy::primitives::keccak256("Transfer(address,address,uint256)".as_bytes()).0,
        TRANSFER_SIGNATURE_HASH
    );
    assert_eq!(
        alloy::primitives::keccak256("Deposit(address,uint256)".as_bytes()).0,
        DEPOSIT_SIGNATURE_HASH
    );
    assert_eq!(
        alloy::primitives::keccak256("Withdrawal(address,uint256)".as_bytes()).0,
        WITHDRAWAL_SIGNATURE_HASH
    );
}

#[test]
fn words_are_compared_bytewise() {
    assert!(same_word(&[7; 32], &[7; 32]));
    let mut other = [7u8; 32];
    other[31] = 8;
    assert!(!same_word(&[7; 32], &other));
}

#[test]
fn deposit_log_is_read() {
    let l = log(vec![DEPOSIT_SIGNATURE_HASH, [1; 32]], vec![0; 32], Some(5));
    assert_eq!(parse_weth_logs(&l), Ok(Some(WethEvents::Deposit(Some(5)))));
    let l = log(vec![DEPOSIT_SIGNATURE_HASH, [1; 32]], vec![0; 32], None);
    assert_eq!(parse_weth_logs(&l), Ok(Some(WethEvents::Deposit(None))));
}

#[test]
fn withdrawal_log_is_read() {
    let l = log(vec![WITHDRAWAL_SIGNATURE_HASH, [1; 32]], vec![0; 64], Some(6));
    assert_eq!(parse_weth_logs(&l), Ok(Some(WethEvents::Withdrawal(Some(6)))));
}

#[test]
fn log_without_topics_is_an_error() {
    let l = log(vec![], vec![0; 32], Some(5));
    assert_eq!(parse_weth_logs(&l), Err(ParseWeb3LogsError::Topic0IsNone));
}

#[test]
fn log_of_another_signature_is_an_error() {
    let l = log(vec![TRANSFER_SIGNATURE_HASH, [1; 32], [2; 32]], vec![0; 32], Some(5));
    assert_eq!(parse_weth_logs(&l), Err(ParseWeb3LogsError::UnexpectedHashSignature));
    let l = log(vec![[0; 32]], vec![0; 32], Some(5));
    assert_eq!(parse_weth_logs(&l), Err(ParseWeb3LogsError::UnexpectedHashSignature));
}

#[test]
fn deposit_log_that_does_not_decode_yields_nothing() {
    let short_data = log(vec![DEPOSIT_SIGNATURE_HASH, [1; 32]], vec![0; 31], Some(5));
    assert_eq!(parse_weth_logs(&short_data), Ok(None));
    let one_topic = log(vec![DEPOSIT_SIGNATURE_HASH], vec![0; 32], Some(5));
    assert_eq!(parse_weth_logs(&one_topic), Ok(None));
    let three_topics =
        log(vec![WITHDRAWAL_SIGNATURE_HASH, [1; 32], [2; 32]], vec![0; 32], Some(5));
    assert_eq!(parse_weth_logs(&three_topics), Ok(None));
}

#[test]
fn transfer_log_is_read() {
    let l = log(vec![TRANSFER_SIGNATURE_HASH, [1; 32], [2; 32]], vec![0; 32], Some(8));
    assert_eq!(parse_transfer_log(&l), Some((addr(0xa), 8)));
}

#[test]
fn transfer_log_that_does_not_decode_is_not_read() {
    let no_block = log(vec![TRANSFER_SIGNATURE_HASH, [1; 32], [2; 32]], vec![0; 32], None);
    assert_eq!(parse_transfer_log(&no_block), None);
    let two_topics = log(vec![TRANSFER_SIGNATURE_HASH, [1; 32]], vec![0; 32], Some(8));
    assert_eq!(parse_transfer_log(&two_topics), None);
    let four_topics =
        log(vec![TRANSFER_SIGNATURE_HASH, [1; 32], [2; 32], [3; 32]], vec![0; 32], Some(8));
    assert_eq!(parse_transfer_log(&four_topics), None);
    let no_data = log(vec![TRANSFER_SIGNATURE_HASH, [1; 32], [2; 32]], vec![], Some(8));
    assert_eq!(parse_transfer_log(&no_data), None);
    let other = log(vec![DEPOSIT_SIGNATURE_HASH, [1; 32], [2; 32]], vec![0; 32], Some(8));
    assert_eq!(parse_transfer_log(&other), None);
}

#[test]
fn a_log_decodes_by_topics_signature_and_data() {
    let l = log(vec![DEPOSIT_SIGNATURE_HASH, [1; 32]], vec![0; 32], None);
    assert!(log_decodes(&l, &DEPOSIT_SIGNATURE_HASH, 2));
    assert!(!log_decodes(&l, &DEPOSIT_SIGNATURE_HASH, 3));
    assert!(!log_decodes(&l, &WITHDRAWAL_SIGNATURE_HASH, 2));
    assert!(!log_decodes(&log(vec![], vec![0; 32], None), &DEPOSIT_SIGNATURE_HASH, 0));
}

#[test]
fn parse_errors_in_words() {
    assert_eq!(ParseWeb3LogsError::Topic0IsNone.message(), "log.topic0() is none");
    assert_eq!(
        ParseWeb3LogsError::UnexpectedHashSignature.message(),
        "event HASH_SIGNATURE is not expected"
    );
}
