use vstd::prelude::*;
use crate::address::Address;
use crate::address_set::AddressSet;
use crate::balance_map::BalanceMap;
use crate::errors::SubscriptionError;
use crate::events::SubscriptionKey;
use crate::watcher::changed;
use crate::watcher::merged;
use crate::watcher::update_balances_and_take_diff;

verus! {

/// For how long a session without clients is kept, in milliseconds.
pub const SESSION_TTL_MS: u64 = 60000;

/// What a session knows: the tokens it watches and the balances last seen.
#[derive(Debug)]
pub struct Subscription {
    pub tokens: AddressSet,
    pub balances_snapshot: BalanceMap,
}

struct SubWithCounter {
    key: SubscriptionKey,
    clients: u32,
    idle_since: Option<u64>,
    subscription: Subscription,
}

/// A session as a plain value.
pub struct SessionView {
    /// How many clients are attached.
    pub clients: u32,
    /// When the last client left, while none is attached.
    pub idle_since: Option<u64>,
    /// The watched tokens.
    pub tokens: Set<Address>,
    /// The balances last seen.
    pub snapshot: Map<Address, nat>,
}

/// The time from `since` to `now`; none if `since` is not in the past.
pub open spec fn elapsed(now: u64, since: u64) -> int {
    if now >= since {
        now - since
    } else {
        0
    }
}

/// Whether a session is due for removal at `now`: it has no client and has
/// had none for longer than `ttl`.
pub open spec fn is_expired(session: SessionView, now: u64, ttl: u64) -> bool {
    session.clients == 0 && match session.idle_since {
        Some(since) => elapsed(now, since) > ttl,
        None => false,
    }
}

/// What holds of every registry: a session is marked idle exactly while it
/// has no client.
pub open spec fn registry_valid(state: Map<SubscriptionKey, SessionView>) -> bool {
    forall|k: SubscriptionKey| #[trigger]
        state.contains_key(k) ==> (state[k].clients == 0 <==> state[k].idle_since is Some)
}

/// The registry after `create_or_update(key, tokens)` at `now`: a fresh
/// session with these tokens, no client and idle from `now` on; or, where the
/// session exists, the same session watching these tokens too.
pub open spec fn after_create_or_update(
    state: Map<SubscriptionKey, SessionView>,
    key: SubscriptionKey,
    tokens: Set<Address>,
    now: u64,
) -> Map<SubscriptionKey, SessionView> {
    if state.contains_key(key) {
        state.insert(key, SessionView { tokens: state[key].tokens.union(tokens), ..state[key] })
    } else {
        state.insert(
            key,
            SessionView { clients: 0, idle_since: Some(now), tokens, snapshot: Map::empty() },
        )
    }
}

/// What `subscribe(key)` answers.
pub open spec fn subscribe_outcome(
    state: Map<SubscriptionKey, SessionView>,
    key: SubscriptionKey,
) -> Result<bool, SubscriptionError> {
    if !state.contains_key(key) {
        Err(SubscriptionError::NoSession)
    } else if state[key].clients == u32::MAX {
        Err(SubscriptionError::TooManyClients)
    } else {
        Ok(state[key].clients == 0)
    }
}

/// The registry after `subscribe(key)`: one client more and no longer idle,
/// where the request is granted; unchanged where it is refused.
pub open spec fn after_subscribe(
    state: Map<SubscriptionKey, SessionView>,
    key: SubscriptionKey,
) -> Map<SubscriptionKey, SessionView> {
    if subscribe_outcome(state, key) is Ok {
        state.insert(
            key,
            SessionView {
                clients: (state[key].clients + 1) as u32,
                idle_since: None,
                ..state[key]
            },
        )
    } else {
        state
    }
}

/// What `unsubscribe(key)` answers: whether the last client left.
pub open spec fn unsubscribe_outcome(
    state: Map<SubscriptionKey, SessionView>,
    key: SubscriptionKey,
) -> Result<bool, SubscriptionError> {
    if !state.contains_key(key) || state[key].clients == 0 {
        Err(SubscriptionError::NoClients)
    } else {
        Ok(state[key].clients == 1)
    }
}

/// The registry after `unsubscribe(key)` at `now`: one client fewer, and idle
/// from `now` on if that was the last; unchanged where the request is
/// refused. The session stays in the registry either way.
pub open spec fn after_unsubscribe(
    state: Map<SubscriptionKey, SessionView>,
    key: SubscriptionKey,
    now: u64,
) -> Map<SubscriptionKey, SessionView> {
    if unsubscribe_outcome(state, key) is Ok {
        state.insert(
            key,
            SessionView {
                clients: (state[key].clients - 1) as u32,
                idle_since: if state[key].clients == 1 {
                    Some(now)
                } else {
                    state[key].idle_since
                },
                ..state[key]
            },
        )
    } else {
        state
    }
}

/// The registry after the janitor has run at `now`: the sessions that were not
/// due for removal, as they were.
pub open spec fn after_cleanup(state: Map<SubscriptionKey, SessionView>, now: u64, ttl: u64) -> Map<
    SubscriptionKey,
    SessionView,
> {
    Map::new(
        |k: SubscriptionKey| state.contains_key(k) && !is_expired(state[k], now, ttl),
        |k: SubscriptionKey| state[k],
    )
}

spec fn entry_view(e: SubWithCounter) -> SessionView {
    SessionView {
        clients: e.clients,
        idle_since: e.idle_since,
        tokens: e.subscription.tokens@,
        snapshot: e.subscription.balances_snapshot@,
    }
}

spec fn has_session(entries: Seq<SubWithCounter>, key: SubscriptionKey) -> bool {
    exists|i: int| 0 <= i < entries.len() && (#[trigger] entries[i]).key == key
}

spec fn session_index(entries: Seq<SubWithCounter>, key: SubscriptionKey) -> int {
    choose|i: int| 0 <= i < entries.len() && (#[trigger] entries[i]).key == key
}

spec fn entries_map(entries: Seq<SubWithCounter>) -> Map<SubscriptionKey, SessionView> {
    Map::new(
        |k: SubscriptionKey| has_session(entries, k),
        |k: SubscriptionKey| entry_view(entries[session_index(entries, k)]),
    )
}

spec fn distinct_sessions(entries: Seq<SubWithCounter>) -> bool {
    forall|i: int, j: int|
        #![trigger entries[i], entries[j]]
        0 <= i < j < entries.len() ==> entries[i].key != entries[j].key
}

spec fn idle_marked(entries: Seq<SubWithCounter>) -> bool {
    forall|i: int|
        0 <= i < entries.len() ==> ((#[trigger] entries[i]).clients == 0
            <==> entries[i].idle_since is Some)
}

proof fn lemma_entries_map_entry(entries: Seq<SubWithCounter>, i: int)
    requires
        distinct_sessions(entries),
        0 <= i < entries.len(),
    ensures
        entries_map(entries).contains_key(entries[i].key),
        entries_map(entries)[entries[i].key] == entry_view(entries[i]),
        session_index(entries, entries[i].key) == i,
{
    let key = entries[i].key;
    assert(has_session(entries, key));
    let k = session_index(entries, key);
    if k < i {
        assert(entries[k].key != entries[i].key);
    }
    if i < k {
        assert(entries[i].key != entries[k].key);
    }
}

proof fn lemma_entries_map_valid(entries: Seq<SubWithCounter>)
    requires
        distinct_sessions(entries),
        idle_marked(entries),
    ensures
        registry_valid(entries_map(entries)),
{
    assert forall|k: SubscriptionKey| #[trigger]
        entries_map(entries).contains_key(k) implies (entries_map(entries)[k].clients == 0
        <==> entries_map(entries)[k].idle_since is Some) by {
        let i = session_index(entries, k);
        assert(entries[i].key == k);
    }
}

/// The map of a list in which the entry at `at` was replaced by one of the
/// same key, or to which an entry of a new key was added at the end.
proof fn lemma_entries_map_insert(
    before: Seq<SubWithCounter>,
    after: Seq<SubWithCounter>,
    at: int,
)
    requires
        distinct_sessions(before),
        0 <= at < after.len(),
        at < before.len() ==> after.len() == before.len() && before[at].key == after[at].key,
        at >= before.len() ==> at == before.len() && after.len() == before.len() + 1
            && !has_session(before, after[at].key),
        forall|k: int| 0 <= k < before.len() && k != at ==> #[trigger] after[k] == before[k],
    ensures
        distinct_sessions(after),
        entries_map(after) == entries_map(before).insert(after[at].key, entry_view(after[at])),
{
    let key = after[at].key;
    assert forall|i: int, j: int|
        #![trigger after[i], after[j]]
        0 <= i < j < after.len() implies after[i].key != after[j].key by {
        if j < before.len() {
            assert(before[i].key != before[j].key);
        } else {
            assert(before[i].key != key);
        }
    }
    assert forall|x: SubscriptionKey|
        entries_map(after).contains_key(x) <==> #[trigger] entries_map(before).insert(
            key,
            entry_view(after[at]),
        ).contains_key(x) by {
        if has_session(after, x) {
            let k = session_index(after, x);
            if k != at {
                assert(before[k].key == x);
            }
        }
        if has_session(before, x) {
            let k = session_index(before, x);
            assert(after[k].key == x);
        }
        if x == key {
            assert(after[at].key == x);
        }
    }
    assert forall|x: SubscriptionKey| #[trigger]
        entries_map(after).contains_key(x) implies entries_map(after)[x] == entries_map(
        before,
    ).insert(key, entry_view(after[at]))[x] by {
        let k = session_index(after, x);
        lemma_entries_map_entry(after, k);
        if k != at {
            assert(before[k].key == x);
            lemma_entries_map_entry(before, k);
        }
    }
    assert(entries_map(after) =~= entries_map(before).insert(key, entry_view(after[at])));
}

/// The registry of sessions, one for each key that is watched.
pub struct SubscriptionManager {
    subscriptions: Vec<SubWithCounter>,
    ttl: u64,
}

impl View for SubscriptionManager {
    type V = Map<SubscriptionKey, SessionView>;

    closed spec fn view(&self) -> Map<SubscriptionKey, SessionView> {
        entries_map(self.subscriptions@)
    }
}

impl SubscriptionManager {
    #[verifier::type_invariant]
    spec fn well_formed(self) -> bool {
        distinct_sessions(self.subscriptions@) && idle_marked(self.subscriptions@)
    }

    /// For how long this registry keeps a session without clients.
    pub closed spec fn ttl(&self) -> u64 {
        self.ttl
    }

    /// An empty registry with the default time to live.
    pub fn new() -> (m: SubscriptionManager)
        ensures
            m@ == Map::<SubscriptionKey, SessionView>::empty(),
            m.ttl() == SESSION_TTL_MS,
    {
        SubscriptionManager::with_ttl(SESSION_TTL_MS)
    }

    /// An empty registry that keeps idle sessions for `ttl` milliseconds.
    pub fn with_ttl(ttl: u64) -> (m: SubscriptionManager)
        ensures
            m@ == Map::<SubscriptionKey, SessionView>::empty(),
            m.ttl() == ttl,
    {
        let m = SubscriptionManager { subscriptions: Vec::new(), ttl };
        assert(m@ =~= Map::<SubscriptionKey, SessionView>::empty());
        m
    }

    fn position(&self, key: &SubscriptionKey) -> (r: Option<usize>)
        ensures
            match r {
                Some(i) => i < self.subscriptions@.len() && self.subscriptions@[i as int].key
                    == *key,
                None => !has_session(self.subscriptions@, *key),
            },
    {
        let mut i: usize = 0;
        while i < self.subscriptions.len()
            invariant
                i <= self.subscriptions@.len(),
                forall|k: int| 0 <= k < i ==> (#[trigger] self.subscriptions@[k]).key != *key,
            decreases self.subscriptions@.len() - i,
        {
            if self.subscriptions[i].key == *key {
                return Some(i);
            }
            i += 1;
        }
        None
    }

    /// Makes the session for `key` watch `tokens`: a new session if there is
    /// none, else the existing one with `tokens` added to what it watches.
    /// Says whether the session is new.
    pub fn create_or_update(&mut self, key: SubscriptionKey, tokens: AddressSet, now: u64) -> (created:
        bool)
        ensures
            final(self)@ == after_create_or_update(old(self)@, key, tokens@, now),
            created == !old(self)@.contains_key(key),
            final(self).ttl() == old(self).ttl(),
            registry_valid(final(self)@),
    {
        proof {
            use_type_invariant(&*self);
        }
        let found = self.position(&key);
        let mut entries: Vec<SubWithCounter> = Vec::new();
        core::mem::swap(&mut entries, &mut self.subscriptions);
        let ghost before = entries@;
        let created = match found {
            Some(i) => {
                proof {
                    lemma_entries_map_entry(before, i as int);
                }
                entries[i].subscription.tokens.extend(&tokens);
                proof {
                    lemma_entries_map_insert(before, entries@, i as int);
                }
                false
            },
            None => {
                entries.push(
                    SubWithCounter {
                        key,
                        clients: 0,
                        idle_since: Some(now),
                        subscription: Subscription {
                            tokens,
                            balances_snapshot: BalanceMap::new(),
                        },
                    },
                );
                proof {
                    lemma_entries_map_insert(before, entries@, before.len() as int);
                }
                true
            },
        };
        proof {
            lemma_entries_map_valid(entries@);
        }
        core::mem::swap(&mut entries, &mut self.subscriptions);
        created
    }

    /// The session for `key`, if there is one.
    pub fn get_subscription(&self, key: &SubscriptionKey) -> (r: Option<&Subscription>)
        ensures
            match r {
                Some(s) => self@.contains_key(*key) && s.tokens@ == self@[*key].tokens
                    && s.balances_snapshot@ == self@[*key].snapshot,
                None => !self@.contains_key(*key),
            },
    {
        proof {
            use_type_invariant(self);
        }
        match self.position(key) {
            Some(i) => {
                proof {
                    lemma_entries_map_entry(self.subscriptions@, i as int);
                }
                Some(&self.subscriptions[i].subscription)
            },
            None => None,
        }
    }

    /// Attaches a client to the session for `key`. Says whether it is the
    /// only one.
    pub fn subscribe(&mut self, key: &SubscriptionKey) -> (r: Result<bool, SubscriptionError>)
        ensures
            r == subscribe_outcome(old(self)@, *key),
            final(self)@ == after_subscribe(old(self)@, *key),
            final(self).ttl() == old(self).ttl(),
            registry_valid(final(self)@),
    {
        proof {
            use_type_invariant(&*self);
            lemma_entries_map_valid(self.subscriptions@);
        }
        let found = self.position(key);
        match found {
            None => Err(SubscriptionError::NoSession),
            Some(i) => {
                proof {
                    lemma_entries_map_entry(self.subscriptions@, i as int);
                }
                let clients = self.subscriptions[i].clients;
                if clients == u32::MAX {
                    return Err(SubscriptionError::TooManyClients);
                }
                let mut entries: Vec<SubWithCounter> = Vec::new();
                core::mem::swap(&mut entries, &mut self.subscriptions);
                let ghost before = entries@;
                entries[i].clients = clients + 1;
                entries[i].idle_since = None;
                proof {
                    lemma_entries_map_insert(before, entries@, i as int);
                    lemma_entries_map_valid(entries@);
                }
                core::mem::swap(&mut entries, &mut self.subscriptions);
                Ok(clients == 0)
            },
        }
    }

    /// Detaches a client from the session for `key`. Says whether it was the
    /// last one; the session then counts as idle from `now` on. The session
    /// itself is never removed here.
    pub fn unsubscribe(&mut self, key: &SubscriptionKey, now: u64) -> (r: Result<
        bool,
        SubscriptionError,
    >)
        ensures
            r == unsubscribe_outcome(old(self)@, *key),
            final(self)@ == after_unsubscribe(old(self)@, *key, now),
            final(self).ttl() == old(self).ttl(),
            registry_valid(final(self)@),
    {
        proof {
            use_type_invariant(&*self);
            lemma_entries_map_valid(self.subscriptions@);
        }
        let found = self.position(key);
        match found {
            None => Err(SubscriptionError::NoClients),
            Some(i) => {
                proof {
                    lemma_entries_map_entry(self.subscriptions@, i as int);
                }
                let clients = self.subscriptions[i].clients;
                if clients == 0 {
                    return Err(SubscriptionError::NoClients);
                }
                let mut entries: Vec<SubWithCounter> = Vec::new();
                core::mem::swap(&mut entries, &mut self.subscriptions);
                let ghost before = entries@;
                entries[i].clients = clients - 1;
                if clients == 1 {
                    entries[i].idle_since = Some(now);
                }
                proof {
                    lemma_entries_map_insert(before, entries@, i as int);
                    lemma_entries_map_valid(entries@);
                }
                core::mem::swap(&mut entries, &mut self.subscriptions);
                Ok(clients == 1)
            },
        }
    }

    /// Folds freshly read balances into the snapshot of the session for `key`
    /// and returns those that changed; nothing happens where there is no such
    /// session.
    pub fn merge_balances(&mut self, key: &SubscriptionKey, new_balances: &BalanceMap) -> (r:
        Option<BalanceMap>)
        ensures
            match r {
                Some(diff) => old(self)@.contains_key(*key) && diff@ == changed(
                    old(self)@[*key].snapshot,
                    new_balances@,
                ) && final(self)@ == old(self)@.insert(
                    *key,
                    SessionView {
                        snapshot: merged(old(self)@[*key].snapshot, new_balances@),
                        ..old(self)@[*key]
                    },
                ),
                None => !old(self)@.contains_key(*key) && final(self)@ == old(self)@,
            },
            final(self).ttl() == old(self).ttl(),
            registry_valid(final(self)@),
    {
        proof {
            use_type_invariant(&*self);
            lemma_entries_map_valid(self.subscriptions@);
        }
        let found = self.position(key);
        match found {
            None => None,
            Some(i) => {
                proof {
                    lemma_entries_map_entry(self.subscriptions@, i as int);
                }
                let mut entries: Vec<SubWithCounter> = Vec::new();
                core::mem::swap(&mut entries, &mut self.subscriptions);
                let ghost before = entries@;
                let diff = update_balances_and_take_diff(
                    &mut entries[i].subscription.balances_snapshot,
                    new_balances,
                );
                proof {
                    lemma_entries_map_insert(before, entries@, i as int);
                    lemma_entries_map_valid(entries@);
                }
                core::mem::swap(&mut entries, &mut self.subscriptions);
                Some(diff)
            },
        }
    }

    /// The janitor's round at `now`: removes every session that has had no
    /// client for longer than the time to live, and returns the keys of those
    /// it removed, each once, so that their workers can be told to stop.
    pub fn cleanup_subs(&mut self, now: u64) -> (removed: Vec<SubscriptionKey>)
        ensures
            final(self)@ == after_cleanup(old(self)@, now, old(self).ttl()),
            forall|k: SubscriptionKey| #[trigger]
                removed@.contains(k) <==> old(self)@.contains_key(k) && is_expired(
                    old(self)@[k],
                    now,
                    old(self).ttl(),
                ),
            removed@.no_duplicates(),
            final(self).ttl() == old(self).ttl(),
            registry_valid(final(self)@),
    {
        proof {
            use_type_invariant(&*self);
        }
        let ttl = self.ttl;
        let mut entries: Vec<SubWithCounter> = Vec::new();
        core::mem::swap(&mut entries, &mut self.subscriptions);
        let ghost start = entries_map(entries@);
        let mut removed: Vec<SubscriptionKey> = Vec::new();
        let mut i: usize = 0;
        proof {
            assert forall|k: int| 0 <= k < entries@.len() implies entry_view(
                #[trigger] entries@[k],
            ) == start[entries@[k].key] by {
                lemma_entries_map_entry(entries@, k);
            }
        }
        while i < entries.len()
            invariant
                i <= entries@.len(),
                distinct_sessions(entries@),
                idle_marked(entries@),
                removed@.no_duplicates(),
                forall|k: SubscriptionKey|
                    #![trigger has_session(entries@, k)]
                    #![trigger removed@.contains(k)]
                    has_session(entries@, k) <==> start.contains_key(k) && !removed@.contains(k),
                forall|k: int|
                    0 <= k < entries@.len() ==> entry_view(#[trigger] entries@[k])
                        == start[entries@[k].key],
                forall|k: int|
                    0 <= k < i ==> !is_expired(entry_view(#[trigger] entries@[k]), now, ttl),
                forall|k: SubscriptionKey| #[trigger]
                    removed@.contains(k) ==> start.contains_key(k) && is_expired(
                        start[k],
                        now,
                        ttl,
                    ),
            decreases entries@.len() - i,
        {
            let due = entries[i].clients == 0 && match entries[i].idle_since {
                Some(since) => now >= since && now - since > ttl,
                None => false,
            };
            assert(due == is_expired(entry_view(entries@[i as int]), now, ttl));
            if due {
                let ghost before = entries@;
                let ghost removed_before = removed@;
                let gone = entries.remove(i);
                removed.push(gone.key);
                proof {
                    let after = entries@;
                    assert(gone == before[i as int]);
                    assert(has_session(before, gone.key));
                    assert(forall|k: int| 0 <= k < i ==> #[trigger] after[k] == before[k]);
                    assert(forall|k: int|
                        i <= k < after.len() ==> #[trigger] after[k] == before[k + 1]);
                    assert forall|a: int, b: int|
                        #![trigger after[a], after[b]]
                        0 <= a < b < after.len() implies after[a].key != after[b].key by {
                        let a0 = if a < i {
                            a
                        } else {
                            a + 1
                        };
                        let b0 = if b < i {
                            b
                        } else {
                            b + 1
                        };
                        assert(before[a0].key != before[b0].key);
                    }
                    assert forall|k: int| 0 <= k < after.len() implies ((
                    #[trigger] after[k]).clients == 0 <==> after[k].idle_since is Some) by {
                        let k0 = if k < i {
                            k
                        } else {
                            k + 1
                        };
                        assert(before[k0].clients == 0 <==> before[k0].idle_since is Some);
                    }
                    assert forall|k: SubscriptionKey| #[trigger]
                        removed@.contains(k) <==> removed_before.contains(k) || k
                            == gone.key by {
                        if removed@.contains(k) {
                            let j = choose|j: int| 0 <= j < removed@.len() && removed@[j] == k;
                            if j < removed_before.len() {
                                assert(removed_before[j] == k);
                            }
                        }
                        if removed_before.contains(k) {
                            let j = choose|j: int|
                                0 <= j < removed_before.len() && removed_before[j] == k;
                            assert(removed@[j] == k);
                        }
                        if k == gone.key {
                            assert(removed@[removed_before.len() as int] == k);
                        }
                    }
                    assert(!removed_before.contains(gone.key));
                    assert forall|k: SubscriptionKey|
                        #![trigger has_session(after, k)]
                        #![trigger removed@.contains(k)]
                        has_session(after, k) <==> start.contains_key(k) && !removed@.contains(
                            k,
                        ) by {
                        assert(has_session(before, k) <==> start.contains_key(k)
                            && !removed_before.contains(k));
                        assert(removed@.contains(k) <==> removed_before.contains(k) || k
                            == gone.key);
                        if has_session(after, k) {
                            let j = session_index(after, k);
                            let j0 = if j < i {
                                j
                            } else {
                                j + 1
                            };
                            assert(before[j0].key == k);
                            if k == gone.key {
                                if j0 < i {
                                    assert(before[j0].key != before[i as int].key);
                                } else {
                                    assert(before[i as int].key != before[j0].key);
                                }
                            }
                        }
                        if has_session(before, k) && k != gone.key {
                            let j = session_index(before, k);
                            if j < i {
                                assert(after[j].key == k);
                            } else {
                                assert(after[j - 1].key == k);
                            }
                        }
                    }
                    assert forall|k: int| 0 <= k < after.len() implies entry_view(
                        #[trigger] after[k],
                    ) == start[after[k].key] by {
                        let k0 = if k < i {
                            k
                        } else {
                            k + 1
                        };
                        assert(entry_view(before[k0]) == start[before[k0].key]);
                    }
                    assert forall|k: SubscriptionKey| #[trigger]
                        removed@.contains(k) implies start.contains_key(k) && is_expired(
                        start[k],
                        now,
                        ttl,
                    ) by {
                        if k == gone.key {
                            assert(entry_view(before[i as int]) == start[k]);
                        } else {
                            assert(removed_before.contains(k));
                        }
                    }
                    assert(removed@ == removed_before.push(gone.key));
                }
            } else {
                i += 1;
            }
        }
        proof {
            let goal = after_cleanup(start, now, ttl);
            assert forall|k: SubscriptionKey|
                entries_map(entries@).contains_key(k) <==> #[trigger] goal.contains_key(k) by {
                if has_session(entries@, k) {
                    let j = session_index(entries@, k);
                    assert(entry_view(entries@[j]) == start[k]);
                    assert(!is_expired(entry_view(entries@[j]), now, ttl));
                }
                if goal.contains_key(k) {
                    assert(!removed@.contains(k));
                }
            }
            assert forall|k: SubscriptionKey| #[trigger]
                entries_map(entries@).contains_key(k) implies entries_map(entries@)[k]
                == goal[k] by {
                let j = session_index(entries@, k);
                lemma_entries_map_entry(entries@, j);
            }
            assert(entries_map(entries@) =~= goal);
            assert forall|k: SubscriptionKey| #[trigger]
                removed@.contains(k) <==> start.contains_key(k) && is_expired(
                    start[k],
                    now,
                    ttl,
                ) by {
                if start.contains_key(k) && is_expired(start[k], now, ttl) && !removed@.contains(
                    k,
                ) {
                    assert(has_session(entries@, k));
                    let j = session_index(entries@, k);
                    assert(entry_view(entries@[j]) == start[k]);
                }
            }
            lemma_entries_map_valid(entries@);
        }
        core::mem::swap(&mut entries, &mut self.subscriptions);
        removed
    }
}

/// The number of clients never falls below zero: a session without clients
/// refuses a client that would leave, and stays as it is.
pub proof fn lemma_clients_never_negative(
    state: Map<SubscriptionKey, SessionView>,
    key: SubscriptionKey,
    now: u64,
)
    requires
        state.contains_key(key),
    ensures
        after_unsubscribe(state, key, now)[key].clients >= 0,
        state[key].clients == 0 ==> unsubscribe_outcome(state, key) == Err::<
            bool,
            SubscriptionError,
        >(SubscriptionError::NoClients) && after_unsubscribe(state, key, now) == state,
        state[key].clients > 0 ==> after_unsubscribe(state, key, now)[key].clients
            == state[key].clients - 1,
{
}

/// A session without clients is marked idle, and at any time it is either
/// still within its time to live or gone after the janitor's round.
pub proof fn lemma_idle_session_kept_or_removed(
    state: Map<SubscriptionKey, SessionView>,
    key: SubscriptionKey,
    now: u64,
    ttl: u64,
)
    requires
        registry_valid(state),
        state.contains_key(key),
        state[key].clients == 0,
    ensures
        state[key].idle_since is Some,
        elapsed(now, state[key].idle_since->0) <= ttl || !after_cleanup(
            state,
            now,
            ttl,
        ).contains_key(key),
{
}

/// No operation of the registry takes a token away from a session that it
/// leaves in place.
pub proof fn lemma_watched_tokens_never_shrink(
    state: Map<SubscriptionKey, SessionView>,
    key: SubscriptionKey,
    tokens: Set<Address>,
    now: u64,
    ttl: u64,
    session: SubscriptionKey,
)
    requires
        state.contains_key(session),
    ensures
        state[session].tokens.subset_of(
            after_create_or_update(state, key, tokens, now)[session].tokens,
        ),
        state[session].tokens == after_subscribe(state, key)[session].tokens,
        state[session].tokens == after_unsubscribe(state, key, now)[session].tokens,
        after_cleanup(state, now, ttl).contains_key(session) ==> state[session].tokens
            == after_cleanup(state, now, ttl)[session].tokens,
{
}

/// Creating a session and then updating it leaves one session for the key,
/// which watches the union of the two token sets; no other session is touched.
pub proof fn lemma_create_then_update_is_union(
    state: Map<SubscriptionKey, SessionView>,
    key: SubscriptionKey,
    first: Set<Address>,
    second: Set<Address>,
    now: u64,
    later: u64,
)
    requires
        !state.contains_key(key),
    ensures
        ({
            let end = after_create_or_update(
                after_create_or_update(state, key, first, now),
                key,
                second,
                later,
            );
            &&& end.dom() == state.dom().insert(key)
            &&& end[key].tokens == first.union(second)
            &&& forall|other: SubscriptionKey|
                other != key && state.contains_key(other) ==> #[trigger] end[other]
                    == state[other]
        }),
{
    let mid = after_create_or_update(state, key, first, now);
    let end = after_create_or_update(mid, key, second, later);
    assert(end.dom() =~= state.dom().insert(key));
}

/// Updating an existing session adds to what it watched.
pub proof fn lemma_update_is_union(
    state: Map<SubscriptionKey, SessionView>,
    key: SubscriptionKey,
    tokens: Set<Address>,
    now: u64,
)
    requires
        state.contains_key(key),
    ensures
        after_create_or_update(state, key, tokens, now)[key].tokens == state[key].tokens.union(
            tokens,
        ),
        after_create_or_update(state, key, tokens, now).dom() == state.dom(),
{
    assert(after_create_or_update(state, key, tokens, now).dom() =~= state.dom());
}

/// The registry after `pairs` rounds of a client attaching to `key` and
/// leaving again.
pub open spec fn after_pairs(
    state: Map<SubscriptionKey, SessionView>,
    key: SubscriptionKey,
    now: u64,
    pairs: nat,
) -> Map<SubscriptionKey, SessionView>
    decreases pairs,
{
    if pairs == 0 {
        state
    } else {
        after_unsubscribe(
            after_subscribe(after_pairs(state, key, now, (pairs - 1) as nat), key),
            key,
            now,
        )
    }
}

/// A client that attaches and leaves again changes neither the number of
/// clients nor what the session watches or has seen, however often it does so.
pub proof fn lemma_subscribe_unsubscribe_cancel(
    state: Map<SubscriptionKey, SessionView>,
    key: SubscriptionKey,
    now: u64,
    pairs: nat,
)
    requires
        state.contains_key(key),
        state[key].clients < u32::MAX,
    ensures
        after_pairs(state, key, now, pairs).dom() == state.dom(),
        after_pairs(state, key, now, pairs)[key].clients == state[key].clients,
        after_pairs(state, key, now, pairs)[key].tokens == state[key].tokens,
        after_pairs(state, key, now, pairs)[key].snapshot == state[key].snapshot,
        forall|other: SubscriptionKey|
            other != key && state.contains_key(other) ==> #[trigger] after_pairs(
                state,
                key,
                now,
                pairs,
            )[other] == state[other],
    decreases pairs,
{
    if pairs > 0 {
        lemma_subscribe_unsubscribe_cancel(state, key, now, (pairs - 1) as nat);
        let prev = after_pairs(state, key, now, (pairs - 1) as nat);
        let mid = after_subscribe(prev, key);
        let end = after_unsubscribe(mid, key, now);
        assert(prev.contains_key(key));
        assert(mid.dom() =~= prev.dom());
        assert(end.dom() =~= mid.dom());
    }
}

/// Every operation keeps the registry valid.
pub proof fn lemma_operations_keep_registry_valid(
    state: Map<SubscriptionKey, SessionView>,
    key: SubscriptionKey,
    tokens: Set<Address>,
    now: u64,
    ttl: u64,
)
    requires
        registry_valid(state),
    ensures
        registry_valid(after_create_or_update(state, key, tokens, now)),
        registry_valid(after_subscribe(state, key)),
        registry_valid(after_unsubscribe(state, key, now)),
        registry_valid(after_cleanup(state, now, ttl)),
{
}

} // verus!
