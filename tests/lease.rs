use pitaya_discovery::lease::{refresh_period_ms, KeepAliveAction, KeepAliveEvent, KeepAliveState};

#[test]
fn refresh_period_is_a_third_of_the_ttl() {
    assert_eq!(refresh_period_ms(60_000), 20_000);
    assert_eq!(refresh_period_ms(10), 3);
    assert_eq!(refresh_period_ms(2), 1);
}

#[test]
fn tick_then_answer_returns_to_idle() {
    let s = KeepAliveState::start();
    let (s, a) = s.step(KeepAliveEvent::Tick);
    assert_eq!(a, KeepAliveAction::SendRefresh);
    assert_eq!(s, KeepAliveState::Refreshing { failures: 0 });
    let (s, a) = s.step(KeepAliveEvent::RefreshOk);
    assert_eq!(a, KeepAliveAction::Wait);
    assert_eq!(s, KeepAliveState::Idle { failures: 0 });
}

#[test]
fn three_failures_in_a_row_signal_app_die() {
    let s = KeepAliveState::start();
    let (s, a) = s.step(KeepAliveEvent::RefreshFailed);
    assert_eq!((s, a), (KeepAliveState::Idle { failures: 1 }, KeepAliveAction::Wait));
    let (s, _) = s.step(KeepAliveEvent::Tick);
    let (s, a) = s.step(KeepAliveEvent::Tick);
    assert_eq!((s, a), (KeepAliveState::Refreshing { failures: 2 }, KeepAliveAction::SendRefresh));
    let (s, a) = s.step(KeepAliveEvent::RefreshFailed);
    assert_eq!((s, a), (KeepAliveState::Stopped { failed: true }, KeepAliveAction::SignalAppDie));
}

#[test]
fn success_resets_the_failure_count() {
    let s = KeepAliveState::start();
    let (s, _) = s.step(KeepAliveEvent::RefreshFailed);
    let (s, _) = s.step(KeepAliveEvent::RefreshFailed);
    let (s, _) = s.step(KeepAliveEvent::Tick);
    let (s, _) = s.step(KeepAliveEvent::RefreshOk);
    assert_eq!(s, KeepAliveState::Idle { failures: 0 });
    let (s, a) = s.step(KeepAliveEvent::RefreshFailed);
    assert_eq!((s, a), (KeepAliveState::Idle { failures: 1 }, KeepAliveAction::Wait));
}

#[test]
fn stream_end_signals_and_stop_exits_cleanly() {
    let (s, a) = KeepAliveState::start().step(KeepAliveEvent::StreamEnded);
    assert_eq!((s, a), (KeepAliveState::Stopped { failed: true }, KeepAliveAction::SignalAppDie));
    let (s, a) = KeepAliveState::start().step(KeepAliveEvent::StopRequested);
    assert_eq!((s, a), (KeepAliveState::Stopped { failed: false }, KeepAliveAction::Exit));
    let (s2, a2) = s.step(KeepAliveEvent::Tick);
    assert_eq!((s2, a2), (s, KeepAliveAction::Wait));
}
