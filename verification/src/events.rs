use vstd::prelude::*;
use crate::address::Address;
use crate::balance_map::BalanceMap;
use crate::network::EvmNetwork;

verus! {

/// What names a session: the chain and the owner whose balances are watched.
#[derive(Debug, Clone, Copy, Hash)]
pub struct SubscriptionKey {
    pub owner: Address,
    pub network: EvmNetwork,
}

impl PartialEq for SubscriptionKey {
    fn eq(&self, other: &SubscriptionKey) -> (r: bool) {
        self.network == other.network && self.owner == other.owner
    }
}

impl Eq for SubscriptionKey {

}

impl vstd::std_specs::cmp::PartialEqSpecImpl for SubscriptionKey {
    open spec fn obeys_eq_spec() -> bool {
        true
    }

    open spec fn eq_spec(&self, other: &SubscriptionKey) -> bool {
        *self == *other
    }
}

/// What is broadcast to the clients of a session.
#[derive(Debug, Clone)]
pub enum BalanceEvent {
    /// Balances that changed, each with its new absolute value.
    BalanceUpdate(BalanceMap),
    /// A problem that does not end the session.
    Error { code: u16, message: String },
}

/// A `BalanceEvent` as a plain value.
pub enum BalanceEventView {
    BalanceUpdate(Map<Address, nat>),
    Error { code: u16, message: Seq<char> },
}

impl View for BalanceEvent {
    type V = BalanceEventView;

    open spec fn view(&self) -> BalanceEventView {
        match self {
            BalanceEvent::BalanceUpdate(balances) => BalanceEventView::BalanceUpdate(balances@),
            BalanceEvent::Error { code, message } => BalanceEventView::Error {
                code: *code,
                message: message@,
            },
        }
    }
}

/// What is sent, as a plain value; nothing where no event is.
pub open spec fn sent(event: Option<BalanceEvent>) -> Option<BalanceEventView> {
    match event {
        Some(e) => Some(e@),
        None => None,
    }
}

} // verus!
