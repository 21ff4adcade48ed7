use vstd::prelude::*;
use vstd::string::StringExecFns;
use crate::address::Address;
use crate::balance::Balance;
use crate::bytes::decimal_text;
use crate::events::BalanceEvent;
use crate::events::SubscriptionKey;

verus! {

/// The body of a server-sent event.
#[derive(Debug)]
pub enum SseBody {
    /// Balances: each address in its wire form with its balance in decimal.
    Balances(Vec<(String, String)>),
    /// An error with its code and message.
    Error { code: u16, message: String },
}

/// A server-sent event: its name and what its body holds.
#[derive(Debug)]
pub struct SseMessage {
    pub event: String,
    pub body: SseBody,
}

/// Whether `wire` holds the entries of `pairs`, one for one and in their
/// order: each address as text, each balance in decimal.
pub open spec fn is_wire_form(wire: Seq<(String, String)>, pairs: Seq<(Address, Balance)>) -> bool {
    &&& wire.len() == pairs.len()
    &&& forall|i: int|
        0 <= i < wire.len() ==> (#[trigger] wire[i]).0@ == pairs[i].0.wire_text() && wire[i].1@
            == decimal_text(pairs[i].1@)
}

/// The entries of a balance mapping as they go on the wire.
pub fn wire_balances(pairs: &Vec<(Address, Balance)>) -> (wire: Vec<(String, String)>)
    ensures
        is_wire_form(wire@, pairs@),
{
    let mut wire: Vec<(String, String)> = Vec::new();
    let mut i: usize = 0;
    while i < pairs.len()
        invariant
            i <= pairs@.len(),
            wire@.len() == i,
            forall|k: int|
                0 <= k < i ==> (#[trigger] wire@[k]).0@ == pairs@[k].0.wire_text() && wire@[k].1@
                    == decimal_text(pairs@[k].1@),
        decreases pairs@.len() - i,
    {
        wire.push((pairs[i].0.to_hex_string(), pairs[i].1.to_decimal_string()));
        i += 1;
    }
    wire
}

/// The server-sent event for an event of the session: a balance update goes
/// out as `balance_update` with its balances, an error as `error` with its
/// code and message.
pub fn to_sse(event: &BalanceEvent) -> (message: SseMessage)
    ensures
        match event {
            BalanceEvent::BalanceUpdate(balances) => message.event@ == "balance_update"@
                && message.body is Balances && is_wire_form(
                message.body->Balances_0@,
                balances.entries(),
            ),
            BalanceEvent::Error { code, message: text } => message.event@ == "error"@
                && message.body is Error && message.body->Error_code == *code
                && message.body->Error_message@ == text@,
        },
{
    match event {
        BalanceEvent::BalanceUpdate(balances) => SseMessage {
            event: String::from_str("balance_update"),
            body: SseBody::Balances(wire_balances(&balances.pairs())),
        },
        BalanceEvent::Error { code, message } => SseMessage {
            event: String::from_str("error"),
            body: SseBody::Error { code: *code, message: message.clone() },
        },
    }
}

/// What a client's receiver gave.
#[derive(Debug)]
pub enum Received {
    /// The next event of the session.
    Event(BalanceEvent),
    /// The receiver fell behind and missed so many events.
    Lagged(u64),
    /// The session has ended.
    Closed,
}

/// What the adapter does with what the receiver gave.
#[derive(Debug)]
pub enum SseStep {
    /// Send the message to the client.
    Send(SseMessage),
    /// Send nothing and keep the connection open.
    Skip,
    /// Close the connection.
    End,
}

/// Decides what goes to the client. An event is sent; a receiver that fell
/// behind sends nothing and stays open, since the next snapshot makes up for
/// what was missed; a closed session closes the connection.
pub fn on_received(received: &Received) -> (step: SseStep)
    ensures
        match received {
            Received::Event(event) => step is Send && match event {
                BalanceEvent::BalanceUpdate(balances) => step->Send_0.event@ == "balance_update"@
                    && step->Send_0.body is Balances && is_wire_form(
                    step->Send_0.body->Balances_0@,
                    balances.entries(),
                ),
                BalanceEvent::Error { code, message: text } => step->Send_0.event@ == "error"@
                    && step->Send_0.body is Error && step->Send_0.body->Error_code == *code
                    && step->Send_0.body->Error_message@ == text@,
            },
            Received::Lagged(_) => step is Skip,
            Received::Closed => step is End,
        },
{
    match received {
        Received::Event(event) => SseStep::Send(to_sse(event)),
        Received::Lagged(_) => SseStep::Skip,
        Received::Closed => SseStep::End,
    }
}

/// What makes sure that a client that goes away is detached from its session
/// once, however its stream ends.
#[derive(Debug)]
pub struct CleanupGuard {
    pub key: SubscriptionKey,
    pub cleaned_up: bool,
}

impl CleanupGuard {
    /// A guard for a client of the session for `key`.
    pub fn new(key: SubscriptionKey) -> (g: CleanupGuard)
        ensures
            g.key == key,
            !g.cleaned_up,
    {
        CleanupGuard { key, cleaned_up: false }
    }

    /// Called when the stream is dropped. Hands out the key of the session to
    /// detach from, the first time only.
    pub fn release(&mut self) -> (r: Option<SubscriptionKey>)
        ensures
            final(self).cleaned_up,
            final(self).key == old(self).key,
            r == (if old(self).cleaned_up {
                None
            } else {
                Some(old(self).key)
            }),
    {
        if self.cleaned_up {
            None
        } else {
            self.cleaned_up = true;
            Some(self.key)
        }
    }
}

} // verus!
