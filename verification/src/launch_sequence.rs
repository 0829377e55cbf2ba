//! The order of a launch. `%APPDATA%\Guild Wars 2` points at the launching account only while its
//! client starts: from then on every way the launch can end passes through pointing it back at
//! the shared profile. The application performs each action and reports what came of it; this
//! module decides what comes next.

use vstd::prelude::*;

use crate::launcher::{
    LaunchError, LaunchWarning, LockWatch, RESTART_GRACE_MS, elapsed, lock_poll_spec,
};
use crate::profile_link::ProfileLinkError;

verus! {

/// How far a launch has come.
#[derive(Debug, PartialEq, Eq)]
pub enum LaunchPhase {
    /// Nothing done yet.
    Start,
    /// The game's data folder is being pointed at the account.
    PointingAtAccount,
    /// The data folder points at the account; the client is to be started.
    PointedAtAccount,
    /// The client `pid` runs; waiting for it to own its `Local.dat`.
    Started { pid: u32, watch: LockWatch },
    /// The client `pid` exited successfully at `since` during startup; waiting for the process that
    /// took over from it.
    Restarting { pid: u32, since: u64, watch: LockWatch },
    /// The outcome is known (the client and whether it owned its `Local.dat` in time, or the
    /// error); the data folder is being pointed back at the shared profile.
    PointingBack(Result<(u32, bool), LaunchError>),
    /// The client `pid` runs.
    Done { pid: u32, warning: Option<LaunchWarning> },
    /// The launch failed.
    Failed(LaunchError),
}

/// What came of the last action.
#[derive(Debug, PartialEq, Eq)]
pub enum LaunchEvent {
    /// The launch is asked for.
    Begin,
    /// The data folder was pointed at the account, or could not be.
    PointedToAccount(Result<(), ProfileLinkError>),
    /// The client was started with this process id, or could not be (the system's reason).
    Spawned(Result<u32, String>),
    /// The client has exited with this code.
    Exited(u32),
    /// The client runs; whether its `Local.dat` is locked.
    Running { locked: bool },
    /// The client's state could not be read (the system's reason).
    CheckFailed(String),
    /// The process that took over from an exited client, if one runs.
    Successor(Option<u32>),
    /// The data folder was pointed back at the shared profile, or could not be.
    PointedToShared(Result<(), ProfileLinkError>),
}

/// What the application does next.
#[derive(Debug, Clone, Copy, PartialEq, Eq, Structural)]
pub enum LaunchAction {
    /// Point the data folder at the account.
    PointToAccount,
    /// Start the client.
    Spawn,
    /// Look whether the client still runs and whether it holds its `Local.dat`; after waiting
    /// [`POLL_INTERVAL_MS`](crate::launcher::POLL_INTERVAL_MS) first if `wait`.
    Check { wait: bool },
    /// Look for a running process that took over from `pid`; after waiting first if `wait`.
    FindSuccessor { pid: u32, wait: bool },
    /// Point the data folder back at the shared profile.
    PointToShared,
    /// The launch is over: see its phase.
    Finish,
}

/// The next phase and action after `event`, at `now` (milliseconds on a clock that does not go
/// back). An event that does not answer the phase's action changes nothing and asks again.
pub open spec fn launch_step_spec(phase: LaunchPhase, event: LaunchEvent, now: u64) -> (
    LaunchPhase,
    LaunchAction,
) {
    match phase {
        LaunchPhase::Start => (LaunchPhase::PointingAtAccount, LaunchAction::PointToAccount),
        LaunchPhase::PointingAtAccount => match event {
            LaunchEvent::PointedToAccount(Ok(_)) => (
                LaunchPhase::PointedAtAccount,
                LaunchAction::Spawn,
            ),
            LaunchEvent::PointedToAccount(Err(e)) => (
                LaunchPhase::Failed(LaunchError::ProfileLink(e)),
                LaunchAction::Finish,
            ),
            _ => (phase, LaunchAction::PointToAccount),
        },
        LaunchPhase::PointedAtAccount => match event {
            LaunchEvent::Spawned(Ok(pid)) => (
                LaunchPhase::Started { pid, watch: LockWatch { started: now, locked_since: None } },
                LaunchAction::Check { wait: false },
            ),
            LaunchEvent::Spawned(Err(m)) => (
                LaunchPhase::PointingBack(Err(LaunchError::Spawn(m))),
                LaunchAction::PointToShared,
            ),
            _ => (phase, LaunchAction::Spawn),
        },
        LaunchPhase::Started { pid, watch } => match event {
            LaunchEvent::Exited(code) => if code != 0 {
                (
                    LaunchPhase::PointingBack(Err(LaunchError::ExitedDuringStartup(code))),
                    LaunchAction::PointToShared,
                )
            } else {
                (
                    LaunchPhase::Restarting { pid, since: now, watch },
                    LaunchAction::FindSuccessor { pid, wait: false },
                )
            },
            LaunchEvent::Running { locked } => {
                let (next, done) = lock_poll_spec(watch, now, locked);
                match done {
                    Some(owned) => (
                        LaunchPhase::PointingBack(Ok((pid, owned))),
                        LaunchAction::PointToShared,
                    ),
                    None => (LaunchPhase::Started { pid, watch: next }, LaunchAction::Check { wait: true }),
                }
            },
            LaunchEvent::CheckFailed(m) => (
                LaunchPhase::PointingBack(Err(LaunchError::Spawn(m))),
                LaunchAction::PointToShared,
            ),
            _ => (phase, LaunchAction::Check { wait: true }),
        },
        LaunchPhase::Restarting { pid, since, watch } => match event {
            LaunchEvent::Successor(Some(next)) => (
                LaunchPhase::Started {
                    pid: next,
                    watch: LockWatch { started: watch.started, locked_since: None },
                },
                LaunchAction::Check { wait: false },
            ),
            LaunchEvent::Successor(None) => if elapsed(now, since) >= RESTART_GRACE_MS {
                (
                    LaunchPhase::PointingBack(Err(LaunchError::ExitedDuringStartup(0))),
                    LaunchAction::PointToShared,
                )
            } else {
                (phase, LaunchAction::FindSuccessor { pid, wait: true })
            },
            _ => (phase, LaunchAction::FindSuccessor { pid, wait: true }),
        },
        LaunchPhase::PointingBack(outcome) => match event {
            LaunchEvent::PointedToShared(restored) => match outcome {
                Err(e) => (LaunchPhase::Failed(e), LaunchAction::Finish),
                Ok((pid, owned)) => (
                    LaunchPhase::Done {
                        pid,
                        warning: match restored {
                            Err(e) => Some(LaunchWarning::ProfileNotRestored(e)),
                            Ok(_) => if owned {
                                None
                            } else {
                                Some(LaunchWarning::SlowStart)
                            },
                        },
                    },
                    LaunchAction::Finish,
                ),
            },
            _ => (LaunchPhase::PointingBack(outcome), LaunchAction::PointToShared),
        },
        LaunchPhase::Done { .. } | LaunchPhase::Failed(_) => (phase, LaunchAction::Finish),
    }
}

/// The next phase of a launch and what to do, after `event` at `now`:
/// - the data folder is pointed at the account first; if that fails, the launch fails;
/// - then the client is started and watched until it has held its `Local.dat` for
///   [`LOCK_STABLE_FOR_MS`](crate::launcher::LOCK_STABLE_FOR_MS), or until
///   [`STARTUP_TIMEOUT_MS`](crate::launcher::STARTUP_TIMEOUT_MS) have passed (it is kept, with a
///   warning);
/// - a client that exits with an error, cannot be started or cannot be watched fails the launch;
///   one that exits successfully is looked for again as the process that took over from it,
///   for up to [`RESTART_GRACE_MS`];
/// - once the outcome is known the data folder is pointed back at the shared profile, and only
///   then does the launch end: failed, or done with the client (with a warning if the folder
///   could not be pointed back or the client took too long).
pub fn launch_step(phase: LaunchPhase, event: LaunchEvent, now_ms: u64) -> (r: (LaunchPhase, LaunchAction))
    ensures
        r == launch_step_spec(phase, event, now_ms),
{
    match phase {
        LaunchPhase::Start => (LaunchPhase::PointingAtAccount, LaunchAction::PointToAccount),
        LaunchPhase::PointingAtAccount => match event {
            LaunchEvent::PointedToAccount(Ok(_)) => (
                LaunchPhase::PointedAtAccount,
                LaunchAction::Spawn,
            ),
            LaunchEvent::PointedToAccount(Err(e)) => (
                LaunchPhase::Failed(LaunchError::ProfileLink(e)),
                LaunchAction::Finish,
            ),
            _ => (LaunchPhase::PointingAtAccount, LaunchAction::PointToAccount),
        },
        LaunchPhase::PointedAtAccount => match event {
            LaunchEvent::Spawned(Ok(pid)) => (
                LaunchPhase::Started { pid, watch: LockWatch::new(now_ms) },
                LaunchAction::Check { wait: false },
            ),
            LaunchEvent::Spawned(Err(m)) => (
                LaunchPhase::PointingBack(Err(LaunchError::Spawn(m))),
                LaunchAction::PointToShared,
            ),
            _ => (LaunchPhase::PointedAtAccount, LaunchAction::Spawn),
        },
        LaunchPhase::Started { pid, watch } => match event {
            LaunchEvent::Exited(code) => if code != 0 {
                (
                    LaunchPhase::PointingBack(Err(LaunchError::ExitedDuringStartup(code))),
                    LaunchAction::PointToShared,
                )
            } else {
                (
                    LaunchPhase::Restarting { pid, since: now_ms, watch },
                    LaunchAction::FindSuccessor { pid, wait: false },
                )
            },
            LaunchEvent::Running { locked } => {
                let mut next = watch;
                match next.poll(now_ms, locked) {
                    Some(owned) => (
                        LaunchPhase::PointingBack(Ok((pid, owned))),
                        LaunchAction::PointToShared,
                    ),
                    None => (LaunchPhase::Started { pid, watch: next }, LaunchAction::Check { wait: true }),
                }
            },
            LaunchEvent::CheckFailed(m) => (
                LaunchPhase::PointingBack(Err(LaunchError::Spawn(m))),
                LaunchAction::PointToShared,
            ),
            _ => (LaunchPhase::Started { pid, watch }, LaunchAction::Check { wait: true }),
        },
        LaunchPhase::Restarting { pid, since, watch } => match event {
            LaunchEvent::Successor(Some(next)) => {
                let mut fresh = watch;
                fresh.restart();
                (LaunchPhase::Started { pid: next, watch: fresh }, LaunchAction::Check { wait: false })
            },
            LaunchEvent::Successor(None) => if now_ms >= since && now_ms - since >= RESTART_GRACE_MS {
                (
                    LaunchPhase::PointingBack(Err(LaunchError::ExitedDuringStartup(0))),
                    LaunchAction::PointToShared,
                )
            } else {
                (LaunchPhase::Restarting { pid, since, watch }, LaunchAction::FindSuccessor { pid, wait: true })
            },
            _ => (LaunchPhase::Restarting { pid, since, watch }, LaunchAction::FindSuccessor { pid, wait: true }),
        },
        LaunchPhase::PointingBack(outcome) => match event {
            LaunchEvent::PointedToShared(restored) => match outcome {
                Err(e) => (LaunchPhase::Failed(e), LaunchAction::Finish),
                Ok((pid, owned)) => {
                    let warning = match restored {
                        Err(e) => Some(LaunchWarning::ProfileNotRestored(e)),
                        Ok(_) => if owned {
                            None
                        } else {
                            Some(LaunchWarning::SlowStart)
                        },
                    };
                    (LaunchPhase::Done { pid, warning }, LaunchAction::Finish)
                },
            },
            _ => (LaunchPhase::PointingBack(outcome), LaunchAction::PointToShared),
        },
        LaunchPhase::Done { pid, warning } => (LaunchPhase::Done { pid, warning }, LaunchAction::Finish),
        LaunchPhase::Failed(e) => (LaunchPhase::Failed(e), LaunchAction::Finish),
    }
}

/// A process that took over from a client that restarted is looked for during
/// [`RESTART_GRACE_MS`] after the exit, and the launch fails once that has passed without one.
pub proof fn lemma_restart_grace(pid: u32, since: u64, watch: LockWatch, now: u64)
    ensures
        elapsed(now, since) < RESTART_GRACE_MS ==> launch_step_spec(
            LaunchPhase::Restarting { pid, since, watch },
            LaunchEvent::Successor(None),
            now,
        ) == (LaunchPhase::Restarting { pid, since, watch }, LaunchAction::FindSuccessor {
            pid,
            wait: true,
        }),
        elapsed(now, since) >= RESTART_GRACE_MS ==> launch_step_spec(
            LaunchPhase::Restarting { pid, since, watch },
            LaunchEvent::Successor(None),
            now,
        ) == (LaunchPhase::PointingBack(Err(LaunchError::ExitedDuringStartup(0))),
        LaunchAction::PointToShared),
{
}

/// The phases and actions a launch goes through from `phase` as `events` (each with its time)
/// come in, one for each event.
pub open spec fn launch_trace(phase: LaunchPhase, events: Seq<(LaunchEvent, u64)>) -> Seq<
    (LaunchPhase, LaunchAction),
>
    decreases events.len(),
{
    if events.len() == 0 {
        Seq::empty()
    } else {
        let before = launch_trace(phase, events.drop_last());
        let current = if before.len() == 0 {
            phase
        } else {
            before.last().0
        };
        before.push(launch_step_spec(current, events.last().0, events.last().1))
    }
}

/// Whether the data folder points at the account in `phase`.
pub open spec fn points_at_account(phase: LaunchPhase) -> bool {
    phase is PointedAtAccount || phase is Started || phase is Restarting
}

/// Whether the launch is over in `phase`.
pub open spec fn finished(phase: LaunchPhase) -> bool {
    phase is Done || phase is Failed
}

/// Before step `k` of `trace`, pointing the data folder back was asked for and answered.
pub open spec fn pointed_back_before(
    trace: Seq<(LaunchPhase, LaunchAction)>,
    events: Seq<(LaunchEvent, u64)>,
    k: int,
) -> bool {
    exists|j: int|
        0 <= j < k && #[trigger] trace[j].1 == LaunchAction::PointToShared && events[j + 1].0 is PointedToShared
}

/// What step `k` of a launch that started out pointed at the account can be: still pointed at
/// it, pointing back, or over after pointing back.
pub open spec fn step_kind_ok(
    trace: Seq<(LaunchPhase, LaunchAction)>,
    events: Seq<(LaunchEvent, u64)>,
    k: int,
) -> bool {
    ||| points_at_account(trace[k].0)
    ||| trace[k].0 is PointingBack && trace[k].1 == LaunchAction::PointToShared
    ||| finished(trace[k].0) && pointed_back_before(trace, events, k)
}

/// Every step of a launch that started out pointed at the account is of those kinds.
proof fn lemma_trace_steps(phase: LaunchPhase, events: Seq<(LaunchEvent, u64)>)
    requires
        points_at_account(phase),
    ensures
        launch_trace(phase, events).len() == events.len(),
        forall|k: int|
            0 <= k < events.len() ==> #[trigger] step_kind_ok(launch_trace(phase, events), events, k),
    decreases events.len(),
{
    if events.len() > 0 {
        let prev = events.drop_last();
        lemma_trace_steps(phase, prev);
        let t0 = launch_trace(phase, prev);
        let t = launch_trace(phase, events);
        let n = events.len() - 1;
        assert forall|k: int| 0 <= k < events.len() implies #[trigger] step_kind_ok(t, events, k) by {
            if k < n {
                assert(step_kind_ok(t0, prev, k));
                assert(t[k] == t0[k]);
                if finished(t0[k].0) && pointed_back_before(t0, prev, k) {
                    let j = choose|j: int|
                        0 <= j < k && #[trigger] t0[j].1 == LaunchAction::PointToShared
                            && prev[j + 1].0 is PointedToShared;
                    assert(t[j] == t0[j]);
                    assert(events[j + 1] == prev[j + 1]);
                }
            } else {
                if n > 0 {
                    assert(step_kind_ok(t0, prev, n - 1));
                    let current = t0[n - 1].0;
                    assert(t[n - 1] == t0[n - 1]);
                    if finished(current) {
                        let j = choose|j: int|
                            0 <= j < n - 1 && #[trigger] t0[j].1 == LaunchAction::PointToShared
                                && prev[j + 1].0 is PointedToShared;
                        assert(t[j] == t0[j]);
                        assert(events[j + 1] == prev[j + 1]);
                    } else if current is PointingBack {
                        assert(t[n - 1].1 == LaunchAction::PointToShared);
                        if finished(t[n].0) {
                            assert(events[n].0 is PointedToShared);
                        }
                    }
                }
            }
        }
    }
}

/// Once the game's data folder points at the launching account, the launch never ends, whatever
/// happens (the client fails to start, exits, restarts, never takes its `Local.dat`), without the
/// folder first being pointed back at the shared profile: every step at which the launch is over
/// comes after one that asked for that and was answered.
pub proof fn lemma_points_back_before_finishing(phase: LaunchPhase, events: Seq<(LaunchEvent, u64)>)
    requires
        points_at_account(phase),
    ensures
        forall|k: int|
            0 <= k < events.len() && finished(#[trigger] launch_trace(phase, events)[k].0)
                ==> pointed_back_before(launch_trace(phase, events), events, k),
{
    lemma_trace_steps(phase, events);
    assert forall|k: int|
        0 <= k < events.len() && finished(#[trigger] launch_trace(phase, events)[k].0) implies pointed_back_before(
        launch_trace(phase, events),
        events,
        k,
    ) by {
        assert(step_kind_ok(launch_trace(phase, events), events, k));
    }
}

/// How a launch whose client runs ends once the data folder was pointed back: done with that
/// client, warning that the folder could not be pointed back if so, otherwise warning of a slow
/// start exactly when the client had not taken its `Local.dat` in time. A failed launch stays
/// failed with its error, whatever pointing back gave.
pub proof fn lemma_outcome_reported(
    pid: u32,
    owned: bool,
    error: LaunchError,
    restored: Result<(), ProfileLinkError>,
    now: u64,
)
    ensures
        ({
            let (phase, action) = launch_step_spec(
                LaunchPhase::PointingBack(Ok((pid, owned))),
                LaunchEvent::PointedToShared(restored),
                now,
            );
            &&& action == LaunchAction::Finish
            &&& phase matches LaunchPhase::Done { pid: p, warning } && p == pid && (match restored {
                Err(e) => warning == Some(LaunchWarning::ProfileNotRestored(e)),
                Ok(_) => (warning == Some(LaunchWarning::SlowStart) <==> !owned) && (warning is None
                    <==> owned),
            })
        }),
        launch_step_spec(
            LaunchPhase::PointingBack(Err(error)),
            LaunchEvent::PointedToShared(restored),
            now,
        ) == (LaunchPhase::Failed(error), LaunchAction::Finish),
{
}

/// A client that is still running without holding its `Local.dat` once
/// [`STARTUP_TIMEOUT_MS`](crate::launcher::STARTUP_TIMEOUT_MS) have passed since the wait began
/// is kept: the launch goes on to point the folder back with that client, marked as not having
/// taken its `Local.dat`.
pub proof fn lemma_timeout_keeps_the_client(pid: u32, watch: LockWatch, now: u64)
    requires
        elapsed(now, watch.started) >= crate::launcher::STARTUP_TIMEOUT_MS,
    ensures
        launch_step_spec(
            LaunchPhase::Started { pid, watch },
            LaunchEvent::Running { locked: false },
            now,
        ) == (LaunchPhase::PointingBack(Ok((pid, false))), LaunchAction::PointToShared),
{
}

} // verus!
