use vstd::prelude::*;

verus! {

/// How long a listener waits before it subscribes again, in milliseconds.
pub const RECONNECT_DELAY_MS: u64 = 1000;

/// Where a log listener stands.
#[derive(Debug, Clone, Copy, PartialEq, Eq, Structural)]
pub enum LoopPhase {
    /// It is asking the provider for a subscription.
    Subscribing,
    /// It has a subscription and waits for the next log.
    Listening,
    /// It waits before it subscribes again.
    BackingOff,
    /// It has ended.
    Stopped,
}

/// What happened to a log listener.
#[derive(Debug, Clone, Copy, PartialEq, Eq, Structural)]
pub enum LoopEvent {
    /// The session was cancelled.
    Cancelled,
    /// The provider granted the subscription.
    Subscribed,
    /// The provider refused the subscription.
    SubscribeFailed,
    /// The stream delivered a log.
    LogReceived,
    /// The stream ended: the provider disconnected.
    StreamEnded,
    /// The wait is over.
    DelayElapsed,
}

/// What a log listener has to do next.
#[derive(Debug, Clone, Copy, PartialEq, Eq, Structural)]
pub enum LoopAction {
    /// Ask the provider for a subscription.
    Subscribe,
    /// Wait for the next log of the stream.
    NextLog,
    /// Handle the log that arrived, then wait for the next.
    HandleLog,
    /// Wait for so many milliseconds.
    Sleep(u64),
    /// End.
    Exit,
}

/// A log listener that subscribes again whenever its subscription fails or
/// ends, and stops only when its session is cancelled.
#[derive(Debug, Clone, Copy, PartialEq, Eq, Structural)]
pub struct LogSubscriptionLoop {
    /// Where the listener stands.
    pub phase: LoopPhase,
    /// How many times in a row it has failed to keep a subscription.
    pub attempt: u32,
}

/// One more attempt, counted without overflow.
pub open spec fn one_more(attempt: u32) -> u32 {
    if attempt == u32::MAX {
        attempt
    } else {
        (attempt + 1) as u32
    }
}

/// What the listener does in a phase when nothing new has happened.
pub open spec fn pending_action(phase: LoopPhase) -> LoopAction {
    match phase {
        LoopPhase::Subscribing => LoopAction::Subscribe,
        LoopPhase::Listening => LoopAction::NextLog,
        LoopPhase::BackingOff => LoopAction::Sleep(RECONNECT_DELAY_MS),
        LoopPhase::Stopped => LoopAction::Exit,
    }
}

/// The listener after an event, and what it has to do.
///
/// Cancellation ends it, wherever it stands. A granted subscription clears the
/// count of attempts; a refused one, or a stream that ends, adds to the count
/// and makes the listener wait. After the wait it subscribes again. An event
/// that does not belong to the phase changes nothing.
pub open spec fn next_step(state: LogSubscriptionLoop, event: LoopEvent) -> (
    LogSubscriptionLoop,
    LoopAction,
) {
    match (state.phase, event) {
        (LoopPhase::Stopped, _) => (state, LoopAction::Exit),
        (_, LoopEvent::Cancelled) => (
            LogSubscriptionLoop { phase: LoopPhase::Stopped, attempt: state.attempt },
            LoopAction::Exit,
        ),
        (LoopPhase::Subscribing, LoopEvent::Subscribed) => (
            LogSubscriptionLoop { phase: LoopPhase::Listening, attempt: 0 },
            LoopAction::NextLog,
        ),
        (LoopPhase::Subscribing, LoopEvent::SubscribeFailed) => (
            LogSubscriptionLoop { phase: LoopPhase::BackingOff, attempt: one_more(state.attempt) },
            LoopAction::Sleep(RECONNECT_DELAY_MS),
        ),
        (LoopPhase::Listening, LoopEvent::LogReceived) => (state, LoopAction::HandleLog),
        (LoopPhase::Listening, LoopEvent::StreamEnded) => (
            LogSubscriptionLoop { phase: LoopPhase::BackingOff, attempt: one_more(state.attempt) },
            LoopAction::Sleep(RECONNECT_DELAY_MS),
        ),
        (LoopPhase::BackingOff, LoopEvent::DelayElapsed) => (
            LogSubscriptionLoop { phase: LoopPhase::Subscribing, attempt: state.attempt },
            LoopAction::Subscribe,
        ),
        _ => (state, pending_action(state.phase)),
    }
}

impl LogSubscriptionLoop {
    /// A listener that is about to subscribe for the first time.
    pub fn new() -> (l: LogSubscriptionLoop)
        ensures
            l == (LogSubscriptionLoop { phase: LoopPhase::Subscribing, attempt: 0 }),
    {
        LogSubscriptionLoop { phase: LoopPhase::Subscribing, attempt: 0 }
    }

    /// Takes in an event and says what to do next.
    pub fn step(&mut self, event: LoopEvent) -> (action: LoopAction)
        ensures
            (*final(self), action) == next_step(*old(self), event),
    {
        match self.phase {
            LoopPhase::Stopped => LoopAction::Exit,
            phase => match event {
                LoopEvent::Cancelled => {
                    self.phase = LoopPhase::Stopped;
                    LoopAction::Exit
                },
                LoopEvent::Subscribed => {
                    if phase == LoopPhase::Subscribing {
                        self.phase = LoopPhase::Listening;
                        self.attempt = 0;
                        LoopAction::NextLog
                    } else {
                        Self::pending(phase)
                    }
                },
                LoopEvent::SubscribeFailed => {
                    if phase == LoopPhase::Subscribing {
                        self.back_off()
                    } else {
                        Self::pending(phase)
                    }
                },
                LoopEvent::LogReceived => {
                    if phase == LoopPhase::Listening {
                        LoopAction::HandleLog
                    } else {
                        Self::pending(phase)
                    }
                },
                LoopEvent::StreamEnded => {
                    if phase == LoopPhase::Listening {
                        self.back_off()
                    } else {
                        Self::pending(phase)
                    }
                },
                LoopEvent::DelayElapsed => {
                    if phase == LoopPhase::BackingOff {
                        self.phase = LoopPhase::Subscribing;
                        LoopAction::Subscribe
                    } else {
                        Self::pending(phase)
                    }
                },
            },
        }
    }

    fn pending(phase: LoopPhase) -> (action: LoopAction)
        ensures
            action == pending_action(phase),
    {
        match phase {
            LoopPhase::Subscribing => LoopAction::Subscribe,
            LoopPhase::Listening => LoopAction::NextLog,
            LoopPhase::BackingOff => LoopAction::Sleep(RECONNECT_DELAY_MS),
            LoopPhase::Stopped => LoopAction::Exit,
        }
    }

    fn back_off(&mut self) -> (action: LoopAction)
        ensures
            final(self).phase == LoopPhase::BackingOff,
            final(self).attempt == one_more(old(self).attempt),
            action == LoopAction::Sleep(RECONNECT_DELAY_MS),
    {
        self.phase = LoopPhase::BackingOff;
        self.attempt = self.attempt.saturating_add(1);
        LoopAction::Sleep(RECONNECT_DELAY_MS)
    }
}

/// Cancellation ends a listener wherever it stands, and an ended listener
/// never does anything again.
pub proof fn lemma_cancellation_is_final(state: LogSubscriptionLoop, event: LoopEvent)
    ensures
        next_step(state, LoopEvent::Cancelled).1 == LoopAction::Exit,
        next_step(state, LoopEvent::Cancelled).0.phase == LoopPhase::Stopped,
        state.phase == LoopPhase::Stopped ==> next_step(state, event) == (state, LoopAction::Exit),
{
}

/// A listener ends only when it is cancelled or has ended before: no failure
/// of the provider ends it.
pub proof fn lemma_only_cancellation_ends(state: LogSubscriptionLoop, event: LoopEvent)
    requires
        state.phase != LoopPhase::Stopped,
        event != LoopEvent::Cancelled,
    ensures
        next_step(state, event).0.phase != LoopPhase::Stopped,
        next_step(state, event).1 != LoopAction::Exit,
{
}

/// When the stream ends or a subscription is refused, the listener waits the
/// reconnect delay and then subscribes again.
pub proof fn lemma_resubscribes_after_delay(state: LogSubscriptionLoop, event: LoopEvent)
    requires
        (state.phase == LoopPhase::Listening && event == LoopEvent::StreamEnded) || (state.phase
            == LoopPhase::Subscribing && event == LoopEvent::SubscribeFailed),
    ensures
        next_step(state, event).1 == LoopAction::Sleep(RECONNECT_DELAY_MS),
        next_step(next_step(state, event).0, LoopEvent::DelayElapsed).1 == LoopAction::Subscribe,
        next_step(next_step(state, event).0, LoopEvent::Cancelled).1 == LoopAction::Exit,
{
}

} // verus!
