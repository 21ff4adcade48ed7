use vstd::prelude::*;
use vstd::string::StringExecFns;
use crate::address::Address;
use crate::address::parsed_address;
use crate::address_set::AddressSet;
use crate::app_error::AppError;
use crate::app_error::BalanceResponse;
use crate::app_error::StreamError;
use crate::app_error::fetch_failed_message;
use crate::app_error::fetch_failed_text;
use crate::app_error::subscription_error_text;
use crate::app_error::subscription_failed;
use crate::balance_map::BalanceMap;
use crate::bytes::decimal_text;
use crate::bytes::u64_to_decimal;
use crate::errors::FetcherError;
use crate::errors::ServiceError;
use crate::errors::SubscriptionError;
use crate::events::BalanceEvent;
use crate::events::BalanceEventView;
use crate::events::SubscriptionKey;
use crate::events::sent;
use crate::network::EvmNetwork;
use crate::subscription_manager::SessionView;
use crate::subscription_manager::SubscriptionManager;
use crate::subscription_manager::after_create_or_update;
use crate::subscription_manager::after_subscribe;
use crate::subscription_manager::subscribe_outcome;

verus! {

/// How many tokens a session may watch, unless configured otherwise.
pub const DEFAULT_MAX_WATCHED_TOKENS_LIMIT: usize = 10000;

/// Whether a request to create a session can be served: it must name at least
/// one token list.
pub fn check_create_request(tokens_lists_urls: &Vec<String>) -> (r: Result<(), AppError>)
    ensures
        tokens_lists_urls@.len() > 0 ==> r is Ok,
        tokens_lists_urls@.len() == 0 ==> r is Err && r->Err_0 is BadRequest && r->Err_0.text()
            == "tokens_lists_urls should not be empty"@,
{
    if tokens_lists_urls.len() == 0 {
        Err(AppError::BadRequest(String::from_str("tokens_lists_urls should not be empty")))
    } else {
        Ok(())
    }
}

/// Whether a request to update a session can be served: it must name a token
/// list or a token.
pub fn check_update_request(tokens_lists_urls: &Vec<String>, custom_tokens: &Vec<Address>) -> (r:
    Result<(), AppError>)
    ensures
        tokens_lists_urls@.len() > 0 || custom_tokens@.len() > 0 ==> r is Ok,
        tokens_lists_urls@.len() == 0 && custom_tokens@.len() == 0 ==> r is Err
            && r->Err_0 is BadRequest && r->Err_0.text()
            == "tokens_lists_urls && custom_tokens are empty"@,
{
    if custom_tokens.len() == 0 && tokens_lists_urls.len() == 0 {
        Err(AppError::BadRequest(String::from_str("tokens_lists_urls && custom_tokens are empty")))
    } else {
        Ok(())
    }
}

/// Creates the session for `key`, or adds to what it watches, once the token
/// lists were fetched. The session is to watch the tokens of the lists and the
/// custom tokens. A list that failed to load, and a set of more than `limit`
/// tokens, refuse the request and leave the registry as it is.
pub fn create_session(
    manager: &mut SubscriptionManager,
    key: SubscriptionKey,
    fetched: Result<AddressSet, FetcherError>,
    custom_tokens: &Vec<Address>,
    limit: usize,
    now: u64,
) -> (r: Result<(), AppError>)
    ensures
        match fetched {
            Err(e) => r is Err && r->Err_0 is BadRequest && r->Err_0.text() == fetch_failed_text(e)
                && final(manager)@ == old(manager)@,
            Ok(tokens) => {
                let combined = tokens@.union(custom_tokens@.to_set());
                if combined.len() > limit {
                    r is Err && r->Err_0 is TokenLimitExceeded && final(manager)@ == old(manager)@
                } else {
                    r is Ok && final(manager)@ == after_create_or_update(
                        old(manager)@,
                        key,
                        combined,
                        now,
                    )
                }
            },
        },
        final(manager).ttl() == old(manager).ttl(),
{
    match fetched {
        Err(e) => Err(AppError::BadRequest(fetch_failed_message(&e))),
        Ok(tokens) => {
            let mut combined = tokens;
            let custom = AddressSet::from_vec(custom_tokens);
            combined.extend(&custom);
            if combined.len() > limit {
                return Err(AppError::TokenLimitExceeded);
            }
            manager.create_or_update(key, combined, now);
            Ok(())
        },
    }
}

/// Whether there is a session for `key` to update.
pub fn find_session(manager: &SubscriptionManager, key: &SubscriptionKey) -> (r: Result<
    (),
    AppError,
>)
    ensures
        manager@.contains_key(*key) ==> r is Ok,
        !manager@.contains_key(*key) ==> r is Err && r->Err_0 == AppError::NoSession(
            key.network,
            key.owner,
        ),
{
    match manager.get_subscription(key) {
        Some(_) => Ok(()),
        None => Err(AppError::NoSession(key.network, key.owner)),
    }
}

/// Adds to what the session for `key` watches, once the token lists were
/// fetched. Without a session, with a list that failed to load, or where the
/// session would come to watch more than `limit` tokens, the request is
/// refused and the registry stays as it is.
pub fn update_session(
    manager: &mut SubscriptionManager,
    key: SubscriptionKey,
    fetched: Result<AddressSet, FetcherError>,
    custom_tokens: &Vec<Address>,
    limit: usize,
    now: u64,
) -> (r: Result<(), AppError>)
    ensures
        !old(manager)@.contains_key(key) ==> r is Err && r->Err_0 == AppError::NoSession(
            key.network,
            key.owner,
        ) && final(manager)@ == old(manager)@,
        old(manager)@.contains_key(key) ==> match fetched {
            Err(e) => r is Err && r->Err_0 is BadRequest && r->Err_0.text() == fetch_failed_text(e)
                && final(manager)@ == old(manager)@,
            Ok(tokens) => {
                let added = tokens@.union(custom_tokens@.to_set());
                if old(manager)@[key].tokens.union(added).len() > limit {
                    r is Err && r->Err_0 is TokenLimitExceeded && final(manager)@ == old(manager)@
                } else {
                    r is Ok && final(manager)@ == old(manager)@.insert(
                        key,
                        SessionView {
                            tokens: old(manager)@[key].tokens.union(added),
                            ..old(manager)@[key]
                        },
                    )
                }
            },
        },
        final(manager).ttl() == old(manager).ttl(),
{
    let watched = match manager.get_subscription(&key) {
        Some(subscription) => subscription.tokens.clone(),
        None => {
            return Err(AppError::NoSession(key.network, key.owner));
        },
    };
    match fetched {
        Err(e) => Err(AppError::BadRequest(fetch_failed_message(&e))),
        Ok(tokens) => {
            let mut added = tokens;
            let custom = AddressSet::from_vec(custom_tokens);
            added.extend(&custom);
            let mut all = watched;
            all.extend(&added);
            if all.len() > limit {
                return Err(AppError::TokenLimitExceeded);
            }
            manager.create_or_update(key, added, now);
            Ok(())
        },
    }
}

/// What a client is sent on attaching: nothing if it is the first, or if
/// nothing has been seen yet; else the balances last seen, in full.
pub open spec fn primer_for(is_first: bool, snapshot: Map<Address, nat>) -> Option<
    BalanceEventView,
> {
    if is_first || snapshot == Map::<Address, nat>::empty() {
        None
    } else {
        Some(BalanceEventView::BalanceUpdate(snapshot))
    }
}

/// A client's attachment to a session.
#[derive(Debug)]
pub struct Attachment {
    /// Whether the client is the only one, so that the watcher has to be
    /// started.
    pub is_first: bool,
    /// What to broadcast so that the client learns the balances last seen.
    pub primer: Option<BalanceEvent>,
}

/// Attaches a client to the session for `key`.
pub fn attach_client(manager: &mut SubscriptionManager, key: &SubscriptionKey) -> (r: Result<
    Attachment,
    SubscriptionError,
>)
    ensures
        final(manager)@ == after_subscribe(old(manager)@, *key),
        match subscribe_outcome(old(manager)@, *key) {
            Ok(is_first) => r is Ok && r->Ok_0.is_first == is_first && sent(r->Ok_0.primer)
                == primer_for(is_first, old(manager)@[*key].snapshot),
            Err(e) => r == Err::<Attachment, SubscriptionError>(e),
        },
        final(manager).ttl() == old(manager).ttl(),
{
    match manager.subscribe(key) {
        Err(e) => Err(e),
        Ok(is_first) => {
            let primer = if is_first {
                None
            } else {
                match manager.get_subscription(key) {
                    Some(subscription) => {
                        if subscription.balances_snapshot.is_empty() {
                            None
                        } else {
                            Some(
                                BalanceEvent::BalanceUpdate(
                                    subscription.balances_snapshot.clone(),
                                ),
                            )
                        }
                    },
                    None => None,
                }
            };
            Ok(Attachment { is_first, primer })
        },
    }
}

/// The session that a request names by the chain id and the owner in its
/// path. A chain id that names no supported network is not found; an owner
/// that is no address is a bad request.
pub fn session_key(chain_id: &str, owner: &str) -> (r: Result<SubscriptionKey, StreamError>)
    ensures
        match EvmNetwork::parsed(chain_id@) {
            Err(e) => r is Err && r->Err_0.code == 404 && r->Err_0.message@ == e.text(),
            Ok(network) => match parsed_address(owner@) {
                None => r is Err && r->Err_0.code == 400 && r->Err_0.message@
                    == "owner is no address"@,
                Some(bytes) => r is Ok && r->Ok_0.network == network && r->Ok_0.owner.bytes@
                    == bytes,
            },
        },
{
    let network = match EvmNetwork::parse(chain_id) {
        Ok(network) => network,
        Err(e) => {
            return Err(StreamError { code: 404, message: e.message() });
        },
    };
    match Address::parse(owner) {
        Some(owner) => Ok(SubscriptionKey { owner, network }),
        None => Err(StreamError { code: 400, message: String::from_str("owner is no address") }),
    }
}

/// What is said when a network has no provider of the given kind.
pub open spec fn no_provider_text(kind: Seq<char>, network: EvmNetwork) -> Seq<char> {
    "No "@ + kind + " for network "@ + decimal_text(network.spec_chain_id() as nat)
}

fn no_provider(kind: &str, network: EvmNetwork) -> (r: StreamError)
    ensures
        r.code == 404,
        r.message@ == no_provider_text(kind@, network),
{
    let mut s = String::from_str("No ");
    s.append(kind);
    s.append(" for network ");
    s.append(u64_to_decimal(network.chain_id()).as_str());
    StreamError { code: 404, message: s }
}

/// Opens the stream of balance events for a client. A network without an
/// HTTP provider, or without a WebSocket provider, is not found; so is a
/// session that does not exist. Any other refusal of the registry is a fault
/// of the service. Where the stream cannot be opened, the registry stays as
/// it is.
pub fn get_balances(
    manager: &mut SubscriptionManager,
    key: &SubscriptionKey,
    has_provider: bool,
    has_ws_provider: bool,
) -> (r: Result<Attachment, StreamError>)
    ensures
        !has_provider ==> r is Err && r->Err_0.code == 404 && r->Err_0.message@
            == no_provider_text("provider"@, key.network) && final(manager)@ == old(manager)@,
        has_provider && !has_ws_provider ==> r is Err && r->Err_0.code == 404
            && r->Err_0.message@ == no_provider_text("ws provider"@, key.network)
            && final(manager)@ == old(manager)@,
        has_provider && has_ws_provider ==> final(manager)@ == after_subscribe(
            old(manager)@,
            *key,
        ) && match subscribe_outcome(old(manager)@, *key) {
            Ok(is_first) => r is Ok && r->Ok_0.is_first == is_first && sent(r->Ok_0.primer)
                == primer_for(is_first, old(manager)@[*key].snapshot),
            Err(e) => r is Err && r->Err_0.code == (if e == SubscriptionError::NoSession {
                404u16
            } else {
                500u16
            }) && r->Err_0.message@ == subscription_error_text(e),
        },
        final(manager).ttl() == old(manager).ttl(),
{
    if !has_provider {
        return Err(no_provider("provider", key.network));
    }
    if !has_ws_provider {
        return Err(no_provider("ws provider", key.network));
    }
    match attach_client(manager, key) {
        Ok(attachment) => Ok(attachment),
        Err(e) => Err(subscription_failed(e)),
    }
}

/// The token that a request names in its path; a text that is no address is a
/// bad request.
pub fn token_address(token: &str) -> (r: Result<Address, AppError>)
    ensures
        match parsed_address(token@) {
            Some(bytes) => r is Ok && r->Ok_0.bytes@ == bytes,
            None => r is Err && r->Err_0 is BadRequest && r->Err_0.text()
                == "token is no address"@,
        },
{
    match Address::parse(token) {
        Some(address) => Ok(address),
        None => Err(AppError::BadRequest(String::from_str("token is no address"))),
    }
}

/// The answer to a request for one balance of an owner. `read` is nothing
/// where the chain has no provider, and else what reading the token's balance
/// gave. A chain without provider is not found. A read that failed is a fault
/// of the service, and so is a read that does not hold the token's balance,
/// because its data did not decode: no balance is made up. A balance that was
/// read is answered in decimal.
pub fn get_token_balance(
    network: EvmNetwork,
    token: &Address,
    read: Option<Result<BalanceMap, ServiceError>>,
) -> (r: Result<BalanceResponse, AppError>)
    ensures
        match read {
            None => r is Err && r->Err_0 == AppError::ProviderIsNotDefined(network),
            Some(Err(e)) => r is Err && r->Err_0 is Internal && r->Err_0.text() == e.text(),
            Some(Ok(balances)) => if balances@.contains_key(*token) {
                r is Ok && r->Ok_0.balance@ == decimal_text(balances@[*token])
            } else {
                r is Err && r->Err_0 is Internal && r->Err_0.text()
                    == "the balance could not be read"@
            },
        },
        r is Err ==> r->Err_0.spec_status_code() == (if read is None {
            404u16
        } else {
            500u16
        }),
{
    match read {
        None => Err(AppError::ProviderIsNotDefined(network)),
        Some(Err(e)) => Err(AppError::Internal(e.message())),
        Some(Ok(balances)) => match balances.get(token) {
            Some(balance) => Ok(BalanceResponse { balance: balance.to_decimal_string() }),
            None => Err(AppError::Internal(String::from_str("the balance could not be read"))),
        },
    }
}

} // verus!
