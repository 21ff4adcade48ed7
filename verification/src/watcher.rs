use vstd::prelude::*;
use vstd::string::StringExecFns;
use crate::address::Address;
use crate::balance::Balance;
use crate::balance_map::BalanceMap;
use crate::balance_map::distinct_keys;
use crate::balance_map::has_key;
use crate::balance_map::lemma_pairs_map_entry;
use crate::balance_map::pairs_map;
use crate::balances::BalanceCallCtx;
use crate::errors::ServiceError;
use crate::errors::WatcherError;
use crate::events::BalanceEvent;
use crate::events::BalanceEventView;
use crate::events::SubscriptionKey;
use crate::events::sent;
use crate::logs::DEPOSIT_SIGNATURE_HASH;
use crate::logs::LogRecord;
use crate::logs::TRANSFER_SIGNATURE_HASH;
use crate::logs::WITHDRAWAL_SIGNATURE_HASH;
use crate::logs::WethEvents;
use crate::logs::parse_transfer_log;
use crate::logs::parse_weth_logs;
use crate::logs::parsed_transfer_log;
use crate::logs::parsed_weth_log;
use crate::network::EvmNetwork;
use crate::subscription_manager::SessionView;
use crate::subscription_manager::SubscriptionManager;
use crate::subscription_manager::registry_valid;

verus! {

/// The snapshot after `fresh` has been folded into it: every address of
/// `fresh` has its fresh balance, every other address keeps its own.
pub open spec fn merged(snapshot: Map<Address, nat>, fresh: Map<Address, nat>) -> Map<
    Address,
    nat,
> {
    snapshot.union_prefer_right(fresh)
}

/// Whether folding `fresh` into `snapshot` changes what is known of `a`: `a`
/// is read, and it is new to the snapshot or its balance differs.
pub open spec fn is_changed(
    snapshot: Map<Address, nat>,
    fresh: Map<Address, nat>,
    a: Address,
) -> bool {
    fresh.contains_key(a) && (!snapshot.contains_key(a) || snapshot[a] != fresh[a])
}

/// The balances that folding `fresh` into `snapshot` changes, with their new
/// values.
pub open spec fn changed(snapshot: Map<Address, nat>, fresh: Map<Address, nat>) -> Map<
    Address,
    nat,
> {
    Map::new(|a: Address| is_changed(snapshot, fresh, a), |a: Address| fresh[a])
}

/// Whether `a` is the address of one of the first `upto` pairs.
pub open spec fn has_key_before(pairs: Seq<(Address, Balance)>, upto: int, a: Address) -> bool {
    exists|j: int| 0 <= j < upto && (#[trigger] pairs[j]).0 == a
}

/// Folds freshly read balances into the snapshot and returns those that
/// changed. An address that the snapshot lacks is inserted and counts as
/// changed; one whose balance differs is overwritten and counts as changed;
/// one whose balance is the same does not. Nothing is ever removed, and a
/// lower balance is taken like any other.
pub fn update_balances_and_take_diff(snapshot: &mut BalanceMap, new_balances: &BalanceMap) -> (diff:
    BalanceMap)
    ensures
        final(snapshot)@ == merged(old(snapshot)@, new_balances@),
        diff@ == changed(old(snapshot)@, new_balances@),
{
    let mut diff = BalanceMap::new();
    let items = new_balances.pairs();
    let ghost before = snapshot@;
    let ghost fresh = new_balances@;
    let mut i: usize = 0;
    while i < items.len()
        invariant
            i <= items.len(),
            distinct_keys(items@),
            pairs_map(items@) == fresh,
            before == old(snapshot)@,
            forall|x: Address|
                #![trigger snapshot@.contains_key(x)]
                #![trigger has_key_before(items@, i as int, x)]
                snapshot@.contains_key(x) <==> before.contains_key(x) || has_key_before(
                    items@,
                    i as int,
                    x,
                ),
            forall|x: Address| #[trigger]
                has_key_before(items@, i as int, x) ==> snapshot@[x] == fresh[x],
            forall|x: Address|
                !(#[trigger] has_key_before(items@, i as int, x)) && before.contains_key(x)
                    ==> snapshot@[x] == before[x],
            forall|x: Address|
                #![trigger diff@.contains_key(x)]
                #![trigger has_key_before(items@, i as int, x)]
                diff@.contains_key(x) <==> has_key_before(items@, i as int, x) && is_changed(
                    before,
                    fresh,
                    x,
                ),
            forall|x: Address| #[trigger] diff@.contains_key(x) ==> diff@[x] == fresh[x],
        decreases items.len() - i,
    {
        let (address, balance) = items[i];
        let ghost snap_prev = snapshot@;
        let ghost diff_prev = diff@;
        proof {
            lemma_pairs_map_entry(items@, i as int);
            assert(!has_key_before(items@, i as int, address)) by {
                if has_key_before(items@, i as int, address) {
                    let j = choose|j: int| 0 <= j < i && (#[trigger] items@[j]).0 == address;
                    assert(items@[j].0 != items@[i as int].0);
                }
            }
            assert(has_key_before(items@, i + 1, address)) by {
                assert(items@[i as int].0 == address);
            }
            assert forall|x: Address|
                has_key_before(items@, i + 1, x) <==> has_key_before(items@, i as int, x) || x
                    == address by {
                if has_key_before(items@, i + 1, x) {
                    let j = choose|j: int| 0 <= j < i + 1 && (#[trigger] items@[j]).0 == x;
                    if j < i {
                        assert(has_key_before(items@, i as int, x));
                    }
                }
                if has_key_before(items@, i as int, x) {
                    let j = choose|j: int| 0 <= j < i && (#[trigger] items@[j]).0 == x;
                    assert(items@[j].0 == x);
                }
            }
        }
        let same = match snapshot.get(&address) {
            Some(current) => current == balance,
            None => false,
        };
        if !same {
            diff.insert(address, balance);
            snapshot.insert(address, balance);
        }
        proof {
            assert(fresh[address] == balance@);
            assert(same <==> !is_changed(before, fresh, address));
            assert forall|x: Address|
                snapshot@.contains_key(x) <==> before.contains_key(x) || has_key_before(
                    items@,
                    i + 1,
                    x,
                ) by {
                assert(has_key_before(items@, i + 1, x) <==> has_key_before(items@, i as int, x)
                    || x == address);
                assert(snap_prev.contains_key(x) <==> before.contains_key(x) || has_key_before(
                    items@,
                    i as int,
                    x,
                ));
                if x != address {
                    assert(snapshot@.contains_key(x) <==> snap_prev.contains_key(x));
                }
            }
            assert forall|x: Address| has_key_before(items@, i + 1, x) implies snapshot@[x]
                == fresh[x] by {
                if x != address {
                    assert(has_key_before(items@, i as int, x));
                    assert(snapshot@[x] == snap_prev[x]);
                }
            }
            assert forall|x: Address|
                !has_key_before(items@, i + 1, x) && before.contains_key(x) implies snapshot@[x]
                == before[x] by {
                assert(x != address);
                assert(!has_key_before(items@, i as int, x));
                assert(snapshot@[x] == snap_prev[x]);
            }
            assert forall|x: Address|
                diff@.contains_key(x) <==> has_key_before(items@, i + 1, x) && is_changed(
                    before,
                    fresh,
                    x,
                ) by {
                assert(has_key_before(items@, i + 1, x) <==> has_key_before(items@, i as int, x)
                    || x == address);
                assert(diff_prev.contains_key(x) <==> has_key_before(items@, i as int, x)
                    && is_changed(before, fresh, x));
                if x != address {
                    assert(diff@.contains_key(x) <==> diff_prev.contains_key(x));
                } else {
                    assert(diff@.contains_key(x) <==> !same);
                }
            }
            assert forall|x: Address| diff@.contains_key(x) implies diff@[x] == fresh[x] by {
                if x != address {
                    assert(diff_prev.contains_key(x));
                    assert(diff@[x] == diff_prev[x]);
                }
            }
        }
        i += 1;
    }
    proof {
        assert forall|x: Address| has_key_before(items@, i as int, x) <==> fresh.contains_key(
            x,
        ) by {
            if has_key_before(items@, i as int, x) {
                let j = choose|j: int| 0 <= j < i && (#[trigger] items@[j]).0 == x;
                assert(has_key(items@, x));
            }
            if has_key(items@, x) {
                let j = choose|j: int| 0 <= j < items@.len() && (#[trigger] items@[j]).0 == x;
                assert(items@[j].0 == x);
            }
        }
        assert(snapshot@ =~= merged(before, fresh));
        assert(diff@ =~= changed(before, fresh));
    }
    diff
}

/// A balance update always holds a change: where folding `fresh` into
/// `snapshot` changes anything, some address that was read is new to the
/// snapshot or has another balance than before.
pub proof fn lemma_update_has_a_change(snapshot: Map<Address, nat>, fresh: Map<Address, nat>)
    requires
        changed(snapshot, fresh) != Map::<Address, nat>::empty(),
    ensures
        exists|a: Address|
            #![trigger fresh.contains_key(a)]
            fresh.contains_key(a) && (!snapshot.contains_key(a) || snapshot[a] != fresh[a]),
{
    if forall|a: Address| !changed(snapshot, fresh).contains_key(a) {
        assert(changed(snapshot, fresh) =~= Map::<Address, nat>::empty());
    } else {
        let a = choose|a: Address| changed(snapshot, fresh).contains_key(a);
        assert(fresh.contains_key(a));
    }
}

/// Folding is the same whichever of two reads comes first, where they do not
/// disagree: the snapshot then holds what either read.
pub proof fn lemma_merge_commutes(
    snapshot: Map<Address, nat>,
    first: Map<Address, nat>,
    second: Map<Address, nat>,
)
    requires
        forall|a: Address|
            first.contains_key(a) && second.contains_key(a) ==> first[a] == second[a],
    ensures
        merged(merged(snapshot, first), second) == merged(merged(snapshot, second), first),
{
    assert(merged(merged(snapshot, first), second) =~= merged(merged(snapshot, second), first));
}

/// What there is to send after a fold: the changed balances, or nothing if
/// none changed.
pub open spec fn update_for(diff: Map<Address, nat>) -> Option<BalanceEventView> {
    if diff == Map::<Address, nat>::empty() {
        None
    } else {
        Some(BalanceEventView::BalanceUpdate(diff))
    }
}

/// The event for a set of changed balances; none for an empty set.
pub fn balance_update(diff: BalanceMap) -> (event: Option<BalanceEvent>)
    ensures
        sent(event) == update_for(diff@),
{
    if diff.is_empty() {
        None
    } else {
        let event = Some(BalanceEvent::BalanceUpdate(diff));
        assert(sent(event) == update_for(diff@));
        event
    }
}

/// The error event with code 500 and the given text.
pub open spec fn failure_event(text: Seq<char>) -> Option<BalanceEventView> {
    Some(BalanceEventView::Error { code: 500, message: text })
}

/// What a watcher is to read after an event: which balances, and as of which
/// block; no block means the latest.
#[derive(Debug)]
pub struct ReadRequest {
    pub tokens: Vec<Address>,
    pub block: Option<u64>,
}

/// Which logs a listener asks for.
#[derive(Debug)]
pub struct LogFilter {
    /// The contract that emits them; any contract if none is given.
    pub address: Option<Address>,
    /// The event signatures, any of which the first topic may be.
    pub event_signatures: Vec<[u8; 32]>,
    /// The address that the second topic must be, if any.
    pub topic1: Option<Address>,
    /// The address that the third topic must be, if any.
    pub topic2: Option<Address>,
}

/// What a watcher needs to know of its session.
#[derive(Debug, Clone, Copy)]
pub struct WatcherContext {
    pub owner: Address,
    pub network: EvmNetwork,
    pub multicall3: Address,
    pub weth_address: Address,
}

/// The workers of one session: they read balances at intervals and after the
/// owner's transfers, deposits and withdrawals, fold them into the session's
/// snapshot and report what changed.
#[derive(Debug, Clone, Copy)]
pub struct Watcher {
    pub ctx: WatcherContext,
}

/// The block at which to read after a deposit or a withdrawal: the block of
/// the log, where it is known.
pub open spec fn weth_read_block(event: WethEvents) -> Option<u64> {
    match event {
        WethEvents::Deposit(block) => block,
        WethEvents::Withdrawal(block) => block,
    }
}

impl Watcher {
    pub fn new(ctx: WatcherContext) -> (w: Watcher)
        ensures
            w.ctx == ctx,
    {
        Watcher { ctx }
    }

    /// The key of the watched session.
    pub fn key(&self) -> (k: SubscriptionKey)
        ensures
            k == (SubscriptionKey { owner: self.ctx.owner, network: self.ctx.network }),
    {
        SubscriptionKey { owner: self.ctx.owner, network: self.ctx.network }
    }

    /// What the balance reader needs to know.
    pub fn balance_call_ctx(&self) -> (c: BalanceCallCtx)
        ensures
            c == (BalanceCallCtx {
                owner: self.ctx.owner,
                network: self.ctx.network,
                multicall3: self.ctx.multicall3,
            }),
    {
        BalanceCallCtx {
            owner: self.ctx.owner,
            network: self.ctx.network,
            multicall3: self.ctx.multicall3,
        }
    }

    /// The filter for transfers that the owner sends (`outgoing`) or
    /// receives: the transfer signature, and the owner as second or as third
    /// topic.
    pub fn transfer_filter(&self, outgoing: bool) -> (f: LogFilter)
        ensures
            f.address is None,
            f.event_signatures@.len() == 1,
            f.event_signatures@[0]@ == TRANSFER_SIGNATURE_HASH@,
            f.topic1 == (if outgoing {
                Some(self.ctx.owner)
            } else {
                None
            }),
            f.topic2 == (if outgoing {
                None
            } else {
                Some(self.ctx.owner)
            }),
    {
        let mut event_signatures: Vec<[u8; 32]> = Vec::new();
        event_signatures.push(TRANSFER_SIGNATURE_HASH);
        if outgoing {
            LogFilter { address: None, event_signatures, topic1: Some(self.ctx.owner), topic2: None }
        } else {
            LogFilter { address: None, event_signatures, topic1: None, topic2: Some(self.ctx.owner) }
        }
    }

    /// The filter for the owner's deposits and withdrawals: logs of the
    /// wrapped coin's contract with one of the two signatures and the owner as
    /// second topic.
    pub fn wrapped_events_filter(&self) -> (f: LogFilter)
        ensures
            f.address == Some(self.ctx.weth_address),
            f.event_signatures@.len() == 2,
            f.event_signatures@[0]@ == DEPOSIT_SIGNATURE_HASH@,
            f.event_signatures@[1]@ == WITHDRAWAL_SIGNATURE_HASH@,
            f.topic1 == Some(self.ctx.owner),
            f.topic2 is None,
    {
        let mut event_signatures: Vec<[u8; 32]> = Vec::new();
        event_signatures.push(DEPOSIT_SIGNATURE_HASH);
        event_signatures.push(WITHDRAWAL_SIGNATURE_HASH);
        LogFilter {
            address: Some(self.ctx.weth_address),
            event_signatures,
            topic1: Some(self.ctx.owner),
            topic2: None,
        }
    }

    /// What to read for a token and the native coin, which every touch of the
    /// chain may have changed too.
    pub fn fetch_erc20_and_eth_balance(&self, token: Address, block: Option<u64>) -> (r:
        ReadRequest)
        ensures
            r.tokens@ == seq![token, self.ctx.network.spec_native_token_address()],
            r.block == block,
    {
        let mut tokens: Vec<Address> = Vec::new();
        tokens.push(token);
        tokens.push(self.ctx.network.native_token_address());
        assert(tokens@ =~= seq![token, self.ctx.network.spec_native_token_address()]);
        ReadRequest { tokens, block }
    }

    /// The error for a read that failed.
    pub fn get_tokens_balance_failed(&self, e: &ServiceError) -> (r: WatcherError)
        ensures
            r matches WatcherError::GettingBalance(owner, network, detail) && owner
                == self.ctx.owner && network == self.ctx.network && detail@ == e.text(),
    {
        WatcherError::GettingBalance(self.ctx.owner, self.ctx.network, e.message())
    }

    /// What to read after a transfer log: the log's token and the native
    /// coin, as of the log's block. Nothing where the block is unknown or the
    /// log does not decode as a transfer.
    pub fn parse_transfer_event_and_get_balance(&self, log: &LogRecord) -> (r: Option<ReadRequest>)
        ensures
            match parsed_transfer_log(*log) {
                Some((token, block)) => r is Some && r->0.tokens@ == seq![
                    token,
                    self.ctx.network.spec_native_token_address(),
                ] && r->0.block == Some(block),
                None => r is None,
            },
    {
        match parse_transfer_log(log) {
            Some((token, block)) => Some(self.fetch_erc20_and_eth_balance(token, Some(block))),
            None => None,
        }
    }

    /// What to read after a log of the wrapped coin's contract. A deposit or
    /// a withdrawal asks for the wrapped coin and the native coin, as of the
    /// log's block, or the latest where the log does not say. A log that
    /// carries one of the two signatures and does not decode asks for nothing.
    /// A log that carries neither is an error, for the log book only: either
    /// way the log is dropped.
    pub fn parse_weth_logs_and_fetch_balance(&self, log: &LogRecord) -> (r: Result<
        Option<ReadRequest>,
        WatcherError,
    >)
        ensures
            match parsed_weth_log(*log) {
                Ok(Some(event)) => r is Ok && r->Ok_0 is Some && r->Ok_0->0.tokens@ == seq![
                    self.ctx.weth_address,
                    self.ctx.network.spec_native_token_address(),
                ] && r->Ok_0->0.block == weth_read_block(event),
                Ok(None) => r is Ok && r->Ok_0 is None,
                Err(e) => r is Err && (r->Err_0 matches WatcherError::ParseLog(
                    network,
                    owner,
                    detail,
                ) && network == self.ctx.network && owner == self.ctx.owner && detail@
                    == e.text()),
            },
    {
        match parse_weth_logs(log) {
            Ok(Some(event)) => {
                let block = match event {
                    WethEvents::Deposit(block) => block,
                    WethEvents::Withdrawal(block) => block,
                };
                Ok(Some(self.fetch_erc20_and_eth_balance(self.ctx.weth_address, block)))
            },
            Ok(None) => Ok(None),
            Err(e) => Err(WatcherError::ParseLog(self.ctx.network, self.ctx.owner, e.message())),
        }
    }
}

/// The registry after balances were folded into the snapshot of the session
/// for `key`; unchanged where there is no such session.
pub open spec fn after_fold(
    state: Map<SubscriptionKey, SessionView>,
    key: SubscriptionKey,
    fresh: Map<Address, nat>,
) -> Map<SubscriptionKey, SessionView> {
    if state.contains_key(key) {
        state.insert(key, SessionView { snapshot: merged(state[key].snapshot, fresh), ..state[key] })
    } else {
        state
    }
}

/// Folding balances into a snapshot leaves the watched tokens, the clients
/// and every other session as they were.
pub proof fn lemma_fold_touches_the_snapshot_only(
    state: Map<SubscriptionKey, SessionView>,
    key: SubscriptionKey,
    fresh: Map<Address, nat>,
    session: SubscriptionKey,
)
    requires
        state.contains_key(session),
    ensures
        after_fold(state, key, fresh).dom() == state.dom(),
        after_fold(state, key, fresh)[session].tokens == state[session].tokens,
        after_fold(state, key, fresh)[session].clients == state[session].clients,
        after_fold(state, key, fresh)[session].idle_since == state[session].idle_since,
        session != key ==> after_fold(state, key, fresh)[session] == state[session],
{
    assert(after_fold(state, key, fresh).dom() =~= state.dom());
}

/// What is sent after balances were folded into the snapshot of the session
/// for `key`: those that changed, if any did.
pub open spec fn fold_event(
    state: Map<SubscriptionKey, SessionView>,
    key: SubscriptionKey,
    fresh: Map<Address, nat>,
) -> Option<BalanceEventView> {
    if state.contains_key(key) {
        update_for(changed(state[key].snapshot, fresh))
    } else {
        None
    }
}

/// Folds balances into the session's snapshot and says what to send.
fn fold_and_report(manager: &mut SubscriptionManager, key: &SubscriptionKey, fresh: &BalanceMap) -> (event:
    Option<BalanceEvent>)
    ensures
        final(manager)@ == after_fold(old(manager)@, *key, fresh@),
        sent(event) == fold_event(old(manager)@, *key, fresh@),
        final(manager).ttl() == old(manager).ttl(),
        registry_valid(final(manager)@),
{
    match manager.merge_balances(key, fresh) {
        Some(diff) => balance_update(diff),
        None => None,
    }
}

/// The snapshot ticker's step, once the balances were read or the read has
/// failed. What was read is folded into the session's snapshot, and the
/// changed balances are to be sent, if there are any. A failed read leaves the
/// snapshot as it is and is reported to the clients; the session goes on.
pub fn fetch_balances_and_broadcast(
    manager: &mut SubscriptionManager,
    key: &SubscriptionKey,
    read: Result<BalanceMap, WatcherError>,
) -> (event: Option<BalanceEvent>)
    ensures
        match read {
            Ok(fresh) => final(manager)@ == after_fold(old(manager)@, *key, fresh@) && sent(event) == fold_event(old(manager)@, *key, fresh@),
            Err(_) => final(manager)@ == old(manager)@ && sent(event)
                == failure_event("Error when make multicall3 request"@),
        },
        final(manager).ttl() == old(manager).ttl(),
{
    match read {
        Ok(fresh) => fold_and_report(manager, key, &fresh),
        Err(_) => {
            let event = Some(
                BalanceEvent::Error {
                    code: 500,
                    message: String::from_str("Error when make multicall3 request"),
                },
            );
            assert(sent(event) == failure_event(
                "Error when make multicall3 request"@,
            ));
            event
        },
    }
}

/// The registry after a log listener's step. A log that asked for no read
/// changes nothing, and neither does a read that failed; what was read is
/// folded into the snapshot of the session for `key`.
pub open spec fn after_log_step(
    state: Map<SubscriptionKey, SessionView>,
    key: SubscriptionKey,
    read: Option<Result<BalanceMap, WatcherError>>,
) -> Map<SubscriptionKey, SessionView> {
    match read {
        Some(Ok(fresh)) => after_fold(state, key, fresh@),
        _ => state,
    }
}

/// What is sent after a log listener's step. A log that asked for no read is
/// dropped and nothing is sent. A read that failed is reported to the clients
/// with code 500, in its own words. What was read is folded, and the balances
/// that changed are sent, if any did.
pub open spec fn log_step_event(
    state: Map<SubscriptionKey, SessionView>,
    key: SubscriptionKey,
    read: Option<Result<BalanceMap, WatcherError>>,
) -> Option<BalanceEventView> {
    match read {
        None => None,
        Some(Ok(fresh)) => fold_event(state, key, fresh@),
        Some(Err(e)) => failure_event(e.text()),
    }
}

/// A log listener's step, common to transfers, deposits and withdrawals.
fn log_event_broadcast(
    manager: &mut SubscriptionManager,
    key: &SubscriptionKey,
    read: Option<Result<BalanceMap, WatcherError>>,
) -> (event: Option<BalanceEvent>)
    ensures
        final(manager)@ == after_log_step(old(manager)@, *key, read),
        sent(event) == log_step_event(old(manager)@, *key, read),
        final(manager).ttl() == old(manager).ttl(),
{
    match read {
        None => None,
        Some(Ok(fresh)) => fold_and_report(manager, key, &fresh),
        Some(Err(e)) => {
            let event = Some(BalanceEvent::Error { code: 500, message: e.message() });
            assert(sent(event) == failure_event(e.text()));
            event
        },
    }
}

/// The step of the listener for deposits and withdrawals, once its log was
/// looked at. `read` is nothing where the log asked for no read, and else
/// what the read gave. Only a failed read is reported; a log that could not
/// be read is dropped and the session goes on.
pub fn wrapped_event_broadcast(
    manager: &mut SubscriptionManager,
    key: &SubscriptionKey,
    read: Option<Result<BalanceMap, WatcherError>>,
) -> (event: Option<BalanceEvent>)
    ensures
        final(manager)@ == after_log_step(old(manager)@, *key, read),
        sent(event) == log_step_event(old(manager)@, *key, read),
        final(manager).ttl() == old(manager).ttl(),
{
    log_event_broadcast(manager, key, read)
}

/// The step of a transfer listener, once its log was looked at. `read` is
/// nothing where the log asked for no read, because it does not decode as a
/// transfer or names no block, and else what the read gave. Only a failed
/// read is reported; a log that could not be read is dropped and the session
/// goes on.
pub fn transfer_event_broadcast(
    manager: &mut SubscriptionManager,
    key: &SubscriptionKey,
    read: Option<Result<BalanceMap, WatcherError>>,
) -> (event: Option<BalanceEvent>)
    ensures
        final(manager)@ == after_log_step(old(manager)@, *key, read),
        sent(event) == log_step_event(old(manager)@, *key, read),
        final(manager).ttl() == old(manager).ttl(),
{
    log_event_broadcast(manager, key, read)
}

/// A log that asks for no read changes nothing and sends nothing.
pub proof fn lemma_dropped_log_is_silent(
    state: Map<SubscriptionKey, SessionView>,
    key: SubscriptionKey,
)
    ensures
        after_log_step(state, key, None) == state,
        log_step_event(state, key, None) is None,
{
}

/// What the snapshot ticker reads: the tokens that the session for `key`
/// watches at this moment, as of the latest block; nothing where there is no
/// such session.
pub fn snapshot_read_request(manager: &SubscriptionManager, key: &SubscriptionKey) -> (r: Option<
    ReadRequest,
>)
    ensures
        match r {
            Some(request) => manager@.contains_key(*key) && request.tokens@.no_duplicates()
                && request.tokens@.to_set() == manager@[*key].tokens && request.block is None,
            None => !manager@.contains_key(*key),
        },
{
    match manager.get_subscription(key) {
        Some(subscription) => Some(
            ReadRequest { tokens: subscription.tokens.to_vec(), block: None },
        ),
        None => None,
    }
}

/// The snapshot ticker: it reads at a fixed rate, and a tick that falls while
/// a read is under way is dropped, not queued.
#[derive(Debug, Clone, Copy, PartialEq, Eq, Structural)]
pub struct SnapshotTicker {
    /// Whether a read is under way.
    pub reading: bool,
}

impl SnapshotTicker {
    /// A ticker that is not reading.
    pub fn new() -> (t: SnapshotTicker)
        ensures
            !t.reading,
    {
        SnapshotTicker { reading: false }
    }

    /// A tick. Says whether to start a read: only if none is under way.
    pub fn on_tick(&mut self) -> (start: bool)
        ensures
            start == !old(self).reading,
            final(self).reading,
    {
        if self.reading {
            false
        } else {
            self.reading = true;
            true
        }
    }

    /// The read has ended.
    pub fn on_read_done(&mut self)
        ensures
            !final(self).reading,
    {
        self.reading = false;
    }
}

} // verus!
