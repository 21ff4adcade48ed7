use balance_watcher::reconnect::{
    LogSubscriptionLoop, LoopAction, LoopEvent, LoopPhase, RECONNECT_DELAY_MS,
};

#[test]
fn listener_starts_by_subscribing() {
    let l = LogSubscriptionLoop::new();
    assert_eq!(l.phase, LoopPhase::Subscribing);
    assert_eq!(l.attempt, 0);
}

#[test]
fn reconnect_delay_is_one_second() {
    assert_eq!(RECONNECT_DELAY_MS, 1000);
}

#[test]
fn listener_handles_logs_while_subscribed() {
    let mut l = LogSubscriptionLoop::new();
    assert_eq!(l.step(LoopEvent::Subscribed), LoopAction::NextLog);
    assert_eq!(l.phase, LoopPhase::Listening);
    assert_eq!(l.step(LoopEvent::LogReceived), LoopAction::HandleLog);
    assert_eq!(l.step(LoopEvent::LogReceived), LoopAction::HandleLog);
    assert_eq!(l.phase, LoopPhase::Listening);
    assert_eq!(l.attempt, 0);
}

#[test]
fn websocket_reconnect() {
    let mut l = LogSubscriptionLoop::new();
    assert_eq!(l.step(LoopEvent::Subscribed), LoopAction::NextLog);
    assert_eq!(l.step(LoopEvent::LogReceived), LoopAction::HandleLog);
    assert_eq!(l.step(LoopEvent::StreamEnded), LoopAction::Sleep(1000));
    assert_eq!(l.attempt, 1);
    assert_eq!(l.step(LoopEvent::DelayElapsed), LoopAction::Subscribe);
    assert_eq!(l.step(LoopEvent::SubscribeFailed), LoopAction::Sleep(1000));
    assert_eq!(l.attempt, 2);
    assert_eq!(l.step(LoopEvent::DelayElapsed), LoopAction::Subscribe);
    assert_eq!(l.step(LoopEvent::Subscribed), LoopAction::NextLog);
    assert_eq!(l.attempt, 0);
    assert_eq!(l.step(LoopEvent::LogReceived), LoopAction::HandleLog);
}

#[test]
fn cancellation_ends_the_listener_in_every_phase() {
    for phase in [LoopPhase::Subscribing, LoopPhase::Listening, LoopPhase::BackingOff] {
        let mut l = LogSubscriptionLoop { phase, attempt: 3 };
        assert_eq!(l.step(LoopEvent::Cancelled), LoopAction::Exit);
        assert_eq!(l.phase, LoopPhase::Stopped);
        assert_eq!(l.step(LoopEvent::Subscribed), LoopAction::Exit);
        assert_eq!(l.step(LoopEvent::DelayElapsed), LoopAction::Exit);
        assert_eq!(l.phase, LoopPhase::Stopped);
    }
}

#[test]
fn attempts_are_counted_without_overflow() {
    let mut l = LogSubscriptionLoop { phase: LoopPhase::Subscribing, attempt: u32::MAX };
    assert_eq!(l.step(LoopEvent::SubscribeFailed), LoopAction::Sleep(1000));
    assert_eq!(l.attempt, u32::MAX);
}

#[test]
fn event_out_of_phase_changes_nothing() {
    let mut l = LogSubscriptionLoop { phase: LoopPhase::BackingOff, attempt: 1 };
    assert_eq!(l.step(LoopEvent::LogReceived), LoopAction::Sleep(1000));
    assert_eq!(l.step(LoopEvent::Subscribed), LoopAction::Sleep(1000));
    assert_eq!(l, LogSubscriptionLoop { phase: LoopPhase::BackingOff, attempt: 1 });
    let mut l = LogSubscriptionLoop { phase: LoopPhase::Subscribing, attempt: 0 };
    assert_eq!(l.step(LoopEvent::StreamEnded), LoopAction::Subscribe);
    assert_eq!(l.step(LoopEvent::DelayElapsed), LoopAction::Subscribe);
    let mut l = LogSubscriptionLoop { phase: LoopPhase::Listening, attempt: 0 };
    assert_eq!(l.step(LoopEvent::SubscribeFailed), LoopAction::NextLog);
    assert_eq!(l.phase, LoopPhase::Listening);
}
