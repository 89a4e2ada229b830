//! Decisions of the task that keeps the lease alive. The task itself (timers,
//! the store's keep-alive stream) runs outside; it feeds each event to
//! `KeepAliveState::step` and performs the action that comes back.
use vstd::prelude::*;

verus! {

/// Consecutive refresh failures after which the lease counts as lost.
pub const MAX_REFRESH_FAILURES: u8 = 3;

#[derive(Debug, Clone, Copy, PartialEq, Eq, Structural)]
pub enum KeepAliveState {
    /// Waiting for the next tick; `failures` refreshes in a row have failed.
    Idle { failures: u8 },
    /// A refresh was sent and has not been answered yet.
    Refreshing { failures: u8 },
    /// The task has ended; `failed` when the lease was lost.
    Stopped { failed: bool },
}

#[derive(Debug, Clone, Copy, PartialEq, Eq, Structural)]
pub enum KeepAliveEvent {
    /// The refresh period (a third of the lease's time to live) elapsed.
    Tick,
    /// The store answered the pending refresh.
    RefreshOk,
    /// Sending the refresh, or its answer, failed.
    RefreshFailed,
    /// The store closed the keep-alive stream.
    StreamEnded,
    /// The owner asked the task to stop.
    StopRequested,
}

#[derive(Debug, Clone, Copy, PartialEq, Eq, Structural)]
pub enum KeepAliveAction {
    /// Nothing to do until the next event.
    Wait,
    /// Send a keep-alive request for the lease.
    SendRefresh,
    /// End the task cleanly.
    Exit,
    /// Raise the app-die signal and end the task.
    SignalAppDie,
}

/// The state and action that follow one more failed refresh.
pub open spec fn after_failure(failures: u8, retry: bool) -> (KeepAliveState, KeepAliveAction) {
    if failures + 1 >= MAX_REFRESH_FAILURES {
        (KeepAliveState::Stopped { failed: true }, KeepAliveAction::SignalAppDie)
    } else if retry {
        (KeepAliveState::Refreshing { failures: (failures + 1) as u8 }, KeepAliveAction::SendRefresh)
    } else {
        (KeepAliveState::Idle { failures: (failures + 1) as u8 }, KeepAliveAction::Wait)
    }
}

/// The transition function of the keep-alive task.
pub open spec fn keep_alive_next(s: KeepAliveState, e: KeepAliveEvent) -> (KeepAliveState, KeepAliveAction) {
    match s {
        KeepAliveState::Stopped { failed } => (s, KeepAliveAction::Wait),
        KeepAliveState::Idle { failures } => match e {
            KeepAliveEvent::Tick => (KeepAliveState::Refreshing { failures }, KeepAliveAction::SendRefresh),
            KeepAliveEvent::RefreshOk => (KeepAliveState::Idle { failures: 0 }, KeepAliveAction::Wait),
            KeepAliveEvent::RefreshFailed => after_failure(failures, false),
            KeepAliveEvent::StreamEnded => (KeepAliveState::Stopped { failed: true }, KeepAliveAction::SignalAppDie),
            KeepAliveEvent::StopRequested => (KeepAliveState::Stopped { failed: false }, KeepAliveAction::Exit),
        },
        KeepAliveState::Refreshing { failures } => match e {
            KeepAliveEvent::Tick => after_failure(failures, true),
            KeepAliveEvent::RefreshOk => (KeepAliveState::Idle { failures: 0 }, KeepAliveAction::Wait),
            KeepAliveEvent::RefreshFailed => after_failure(failures, false),
            KeepAliveEvent::StreamEnded => (KeepAliveState::Stopped { failed: true }, KeepAliveAction::SignalAppDie),
            KeepAliveEvent::StopRequested => (KeepAliveState::Stopped { failed: false }, KeepAliveAction::Exit),
        },
    }
}

impl KeepAliveState {
    /// A live state counts fewer failures than the limit.
    pub open spec fn wf(self) -> bool {
        match self {
            KeepAliveState::Idle { failures } => failures < MAX_REFRESH_FAILURES,
            KeepAliveState::Refreshing { failures } => failures < MAX_REFRESH_FAILURES,
            KeepAliveState::Stopped { failed } => true,
        }
    }

    /// The state of a task that has just started.
    pub fn start() -> (r: KeepAliveState)
        ensures
            r == (KeepAliveState::Idle { failures: 0 }),
            r.wf(),
    {
        KeepAliveState::Idle { failures: 0 }
    }

    /// Handles one event: a tick sends a refresh; an answer resets the count
    /// of failures; a tick with a refresh still pending, or a failed refresh,
    /// is one more failure, and the third in a row raises app-die; the end of
    /// the stream raises app-die; a stop request ends the task cleanly.
    pub fn step(self, e: KeepAliveEvent) -> (r: (KeepAliveState, KeepAliveAction))
        requires
            self.wf(),
        ensures
            r == keep_alive_next(self, e),
            r.0.wf(),
    {
        match self {
            KeepAliveState::Stopped { failed } => (self, KeepAliveAction::Wait),
            KeepAliveState::Idle { failures } => match e {
                KeepAliveEvent::Tick => (KeepAliveState::Refreshing { failures }, KeepAliveAction::SendRefresh),
                KeepAliveEvent::RefreshOk => (KeepAliveState::Idle { failures: 0 }, KeepAliveAction::Wait),
                KeepAliveEvent::RefreshFailed => fail_once(failures, false),
                KeepAliveEvent::StreamEnded => (KeepAliveState::Stopped { failed: true }, KeepAliveAction::SignalAppDie),
                KeepAliveEvent::StopRequested => (KeepAliveState::Stopped { failed: false }, KeepAliveAction::Exit),
            },
            KeepAliveState::Refreshing { failures } => match e {
                KeepAliveEvent::Tick => fail_once(failures, true),
                KeepAliveEvent::RefreshOk => (KeepAliveState::Idle { failures: 0 }, KeepAliveAction::Wait),
                KeepAliveEvent::RefreshFailed => fail_once(failures, false),
                KeepAliveEvent::StreamEnded => (KeepAliveState::Stopped { failed: true }, KeepAliveAction::SignalAppDie),
                KeepAliveEvent::StopRequested => (KeepAliveState::Stopped { failed: false }, KeepAliveAction::Exit),
            },
        }
    }
}

fn fail_once(failures: u8, retry: bool) -> (r: (KeepAliveState, KeepAliveAction))
    requires
        failures < MAX_REFRESH_FAILURES,
    ensures
        r == after_failure(failures, retry),
        r.0.wf(),
{
    if failures + 1 >= MAX_REFRESH_FAILURES {
        (KeepAliveState::Stopped { failed: true }, KeepAliveAction::SignalAppDie)
    } else if retry {
        (KeepAliveState::Refreshing { failures: failures + 1 }, KeepAliveAction::SendRefresh)
    } else {
        (KeepAliveState::Idle { failures: failures + 1 }, KeepAliveAction::Wait)
    }
}

/// The refresh period, in milliseconds, for a lease that lives `ttl_ms`
/// milliseconds: a third of it, and never less than one millisecond.
pub fn refresh_period_ms(ttl_ms: u64) -> (r: u64)
    ensures
        r == if ttl_ms / 3 == 0 { 1 } else { ttl_ms / 3 },
{
    if ttl_ms / 3 == 0 {
        1
    } else {
        ttl_ms / 3
    }
}

} // verus!
