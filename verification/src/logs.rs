use vstd::prelude::*;
use crate::address::Address;
use crate::errors::ParseWeb3LogsError;

verus! {

/// The first topic of `Transfer(address,address,uint256)`.
pub const TRANSFER_SIGNATURE_HASH: [u8; 32] = [
    0xdd, 0xf2, 0x52, 0xad, 0x1b, 0xe2, 0xc8, 0x9b, 0x69, 0xc2, 0xb0, 0x68, 0xfc, 0x37, 0x8d, 0xaa,
    0x95, 0x2b, 0xa7, 0xf1, 0x63, 0xc4, 0xa1, 0x16, 0x28, 0xf5, 0x5a, 0x4d, 0xf5, 0x23, 0xb3, 0xef,
];

/// The first topic of `Deposit(address,uint256)`.
pub const DEPOSIT_SIGNATURE_HASH: [u8; 32] = [
    0xe1, 0xff, 0xfc, 0xc4, 0x92, 0x3d, 0x04, 0xb5, 0x59, 0xf4, 0xd2, 0x9a, 0x8b, 0xfc, 0x6c, 0xda,
    0x04, 0xeb, 0x5b, 0x0d, 0x3c, 0x46, 0x07, 0x51, 0xc2, 0x40, 0x2c, 0x5c, 0x5c, 0xc9, 0x10, 0x9c,
];

/// The first topic of `Withdrawal(address,uint256)`.
pub const WITHDRAWAL_SIGNATURE_HASH: [u8; 32] = [
    0x7f, 0xcf, 0x53, 0x2c, 0x15, 0xf0, 0xa6, 0xdb, 0x0b, 0xd6, 0xd0, 0xe0, 0x38, 0xbe, 0xa7, 0x1d,
    0x30, 0xd8, 0x08, 0xc7, 0xd9, 0x8c, 0xb3, 0xbf, 0x72, 0x68, 0xa9, 0x5b, 0xf5, 0x08, 0x1b, 0x65,
];

/// One log record of the chain, as the subscription delivers it.
#[derive(Debug)]
pub struct LogRecord {
    /// The contract that emitted the log.
    pub address: Address,
    /// The height of the block that holds it, where known.
    pub block_number: Option<u64>,
    /// Its topics, the event's signature first.
    pub topics: Vec<[u8; 32]>,
    /// Its data: the event's parameters that are not topics.
    pub data: Vec<u8>,
}

/// What a log of the wrapped coin's contract tells: coins were wrapped or
/// unwrapped, in the block of the given height.
#[derive(Debug, Clone, Copy, PartialEq, Eq, Structural)]
pub enum WethEvents {
    Deposit(Option<u64>),
    Withdrawal(Option<u64>),
}

/// Whether two words are the same.
pub fn same_word(a: &[u8; 32], b: &[u8; 32]) -> (r: bool)
    ensures
        r == (a@ == b@),
{
    let mut i: usize = 0;
    while i < 32
        invariant
            i <= 32,
            forall|k: int| 0 <= k < i ==> a[k] == b[k],
        decreases 32 - i,
    {
        if a[i] != b[i] {
            return false;
        }
        i += 1;
    }
    assert(a@ =~= b@);
    true
}

/// Whether a log decodes as an event of the given signature that has
/// `topics` topics in all and one 256-bit number as its data: it has exactly
/// that many topics, the first is the signature, and the data holds a full
/// word.
pub open spec fn decodes_as(log: LogRecord, signature: [u8; 32], topics: nat) -> bool {
    &&& log.topics@.len() == topics
    &&& topics > 0
    &&& log.topics@[0]@ == signature@
    &&& log.data@.len() >= 32
}

/// Whether a log decodes as an event of the given signature.
pub fn log_decodes(log: &LogRecord, signature: &[u8; 32], topics: usize) -> (r: bool)
    ensures
        r == decodes_as(*log, *signature, topics as nat),
{
    topics > 0 && log.topics.len() == topics && same_word(&log.topics[0], signature)
        && log.data.len() >= 32
}

/// What `parse_weth_logs` makes of a log.
pub open spec fn parsed_weth_log(log: LogRecord) -> Result<Option<WethEvents>, ParseWeb3LogsError> {
    if log.topics@.len() == 0 {
        Err(ParseWeb3LogsError::Topic0IsNone)
    } else if log.topics@[0]@ == DEPOSIT_SIGNATURE_HASH@ {
        if decodes_as(log, DEPOSIT_SIGNATURE_HASH, 2) {
            Ok(Some(WethEvents::Deposit(log.block_number)))
        } else {
            Ok(None)
        }
    } else if log.topics@[0]@ == WITHDRAWAL_SIGNATURE_HASH@ {
        if decodes_as(log, WITHDRAWAL_SIGNATURE_HASH, 2) {
            Ok(Some(WethEvents::Withdrawal(log.block_number)))
        } else {
            Ok(None)
        }
    } else {
        Err(ParseWeb3LogsError::UnexpectedHashSignature)
    }
}

/// Reads a log of the wrapped coin's contract. A log without topics, or with
/// a first topic that is neither the deposit nor the withdrawal signature, is
/// an error. A log that carries one of the two signatures but does not decode
/// as that event yields nothing.
pub fn parse_weth_logs(log: &LogRecord) -> (r: Result<Option<WethEvents>, ParseWeb3LogsError>)
    ensures
        r == parsed_weth_log(*log),
{
    if log.topics.len() == 0 {
        return Err(ParseWeb3LogsError::Topic0IsNone);
    }
    let block_number = log.block_number;
    if same_word(&log.topics[0], &DEPOSIT_SIGNATURE_HASH) {
        if log_decodes(log, &DEPOSIT_SIGNATURE_HASH, 2) {
            return Ok(Some(WethEvents::Deposit(block_number)));
        }
        return Ok(None);
    }
    if same_word(&log.topics[0], &WITHDRAWAL_SIGNATURE_HASH) {
        if log_decodes(log, &WITHDRAWAL_SIGNATURE_HASH, 2) {
            return Ok(Some(WethEvents::Withdrawal(block_number)));
        }
        return Ok(None);
    }
    Err(ParseWeb3LogsError::UnexpectedHashSignature)
}

/// The token whose balance a transfer log touches and the height at which to
/// read it: the log's contract and block, if the block is known and the log
/// decodes as a transfer.
pub open spec fn parsed_transfer_log(log: LogRecord) -> Option<(Address, u64)> {
    match log.block_number {
        Some(block) => if decodes_as(log, TRANSFER_SIGNATURE_HASH, 3) {
            Some((log.address, block))
        } else {
            None
        },
        None => None,
    }
}

/// Reads a transfer log.
pub fn parse_transfer_log(log: &LogRecord) -> (r: Option<(Address, u64)>)
    ensures
        r == parsed_transfer_log(*log),
{
    match log.block_number {
        Some(block) => {
            if log_decodes(log, &TRANSFER_SIGNATURE_HASH, 3) {
                Some((log.address, block))
            } else {
                None
            }
        },
        None => None,
    }
}

} // verus!
