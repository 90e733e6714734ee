//! Service supervisor: drives the externally owned gateway service through
//! start, stop, restart and kill-all transitions.
//!
//! Every waiting point of an operation is an external action — probe the
//! port, run the stop command, spawn the service, sleep, kill a process —
//! that only an unverified driver can perform. Each operation is therefore
//! an explicit state machine: a phase names the one action it awaits, and
//! `..._step` consumes the observed event and yields the next phase. The
//! driver loops: ask the pending action, perform it, feed the event back.
//! All policy — orderings, retry ceilings, escalation — lives in the
//! verified step functions.

use vstd::prelude::*;

verus! {

/// Attempts granted to the port poll after a spawn, one per second.
pub const START_POLL_LIMIT: u32 = 15;

/// Pause before each poll attempt of the start phase, in milliseconds.
pub const START_POLL_MS: u64 = 1000;

/// Settle pause after a stop command, in milliseconds.
pub const STOP_SETTLE_MS: u64 = 500;

/// Attempts granted to the port-freed poll inside a restart.
pub const FREE_POLL_LIMIT: u32 = 10;

/// Pause between port-freed poll attempts, in milliseconds.
pub const FREE_POLL_MS: u64 = 500;

/// An external action the driver is asked to perform.
#[derive(Clone, Copy, Debug, PartialEq, Eq)]
pub enum SupervisorAction {
    /// Probe the fixed port for one listener.
    Probe,
    /// Probe the fixed port for every listener.
    ProbeAll,
    /// Look the service executable up.
    Locate,
    /// Spawn the detached service process.
    Spawn,
    /// Run the service's own stop command, forced or graceful.
    RunStop { force: bool },
    /// Sleep for the given number of milliseconds.
    Pause { ms: u64 },
    /// Forcefully terminate the given process.
    Kill { pid: u32 },
}

/// What the driver observed after performing the pending action.
#[derive(Clone, Debug, PartialEq, Eq)]
pub enum SupervisorEvent {
    /// Outcome of `Probe`: the listener found, if any.
    Probed { pid: Option<u32> },
    /// Outcome of `ProbeAll`: every listener found.
    ProbedAll { pids: Vec<u32> },
    /// Outcome of `Locate`: whether the executable exists.
    Located { found: bool },
    /// Outcome of `Spawn`: whether the OS accepted the exec request.
    Spawned { ok: bool },
    /// The stop command was issued; its own exit status carries no signal.
    StopIssued,
    /// The pause elapsed.
    Paused,
    /// Outcome of `Kill`: whether the termination succeeded.
    KillDone { ok: bool },
}

/// Result of a start operation.
#[derive(Clone, Copy, Debug, PartialEq, Eq)]
pub enum StartOutcome {
    /// The port came up on poll attempt `seconds`, owned by `pid`.
    Started { pid: u32, seconds: u32 },
    /// A listener already held the port; nothing was spawned.
    AlreadyRunning { pid: u32 },
    /// The executable could not be located; nothing was spawned.
    ExecutableNotFound,
    /// The OS rejected the spawn request.
    SpawnFailed,
    /// The port never came up within the poll ceiling. The spawned child
    /// is left running for out-of-band diagnosis.
    StartTimeout,
}

/// Phase of a start operation; each non-final phase awaits one action.
#[derive(Clone, Copy, Debug, PartialEq, Eq)]
pub enum StartPhase {
    /// Awaits `Probe`: is the service already running?
    CheckRunning,
    /// Awaits `Locate`.
    Locating,
    /// Awaits `Spawn`.
    Spawning,
    /// Awaits `Pause` before poll attempt `attempt`.
    Settling { attempt: u32 },
    /// Awaits `Probe`, poll attempt `attempt`.
    Polling { attempt: u32 },
    /// Operation over.
    Finished { outcome: StartOutcome },
}

/// Poll counters stay within the ceiling.
pub open spec fn start_wf(s: StartPhase) -> bool {
    match s {
        StartPhase::Settling { attempt } => 1 <= attempt <= START_POLL_LIMIT,
        StartPhase::Polling { attempt } => 1 <= attempt <= START_POLL_LIMIT,
        _ => true,
    }
}

/// The action a start phase awaits; `None` once finished.
pub open spec fn start_action_spec(s: StartPhase) -> Option<SupervisorAction> {
    match s {
        StartPhase::CheckRunning => Some(SupervisorAction::Probe),
        StartPhase::Locating => Some(SupervisorAction::Locate),
        StartPhase::Spawning => Some(SupervisorAction::Spawn),
        StartPhase::Settling { .. } => Some(SupervisorAction::Pause { ms: START_POLL_MS }),
        StartPhase::Polling { .. } => Some(SupervisorAction::Probe),
        StartPhase::Finished { .. } => None,
    }
}

/// One step of the start machine. An event that does not answer the
/// pending action leaves the phase unchanged.
pub open spec fn start_step_spec(s: StartPhase, e: SupervisorEvent) -> StartPhase {
    match (s, e) {
        (StartPhase::CheckRunning, SupervisorEvent::Probed { pid: Some(p) }) =>
            StartPhase::Finished { outcome: StartOutcome::AlreadyRunning { pid: p } },
        (StartPhase::CheckRunning, SupervisorEvent::Probed { pid: None }) =>
            StartPhase::Locating,
        (StartPhase::Locating, SupervisorEvent::Located { found }) => if found {
            StartPhase::Spawning
        } else {
            StartPhase::Finished { outcome: StartOutcome::ExecutableNotFound }
        },
        (StartPhase::Spawning, SupervisorEvent::Spawned { ok }) => if ok {
            StartPhase::Settling { attempt: 1 }
        } else {
            StartPhase::Finished { outcome: StartOutcome::SpawnFailed }
        },
        (StartPhase::Settling { attempt }, SupervisorEvent::Paused) =>
            StartPhase::Polling { attempt },
        (StartPhase::Polling { attempt }, SupervisorEvent::Probed { pid: Some(p) }) =>
            StartPhase::Finished {
                outcome: StartOutcome::Started { pid: p, seconds: attempt },
            },
        (StartPhase::Polling { attempt }, SupervisorEvent::Probed { pid: None }) => if
        attempt >= START_POLL_LIMIT {
            StartPhase::Finished { outcome: StartOutcome::StartTimeout }
        } else {
            StartPhase::Settling { attempt: (attempt + 1) as u32 }
        },
        (s0, _) => s0,
    }
}

/// Begins a start operation: the state is re-derived from a fresh probe.
pub fn start_begin() -> (s: StartPhase)
    ensures
        s == StartPhase::CheckRunning,
        start_wf(s),
{
    StartPhase::CheckRunning
}

/// The action a start phase awaits.
pub fn start_pending(s: &StartPhase) -> (a: Option<SupervisorAction>)
    ensures
        a == start_action_spec(*s),
{
    match s {
        StartPhase::CheckRunning => Some(SupervisorAction::Probe),
        StartPhase::Locating => Some(SupervisorAction::Locate),
        StartPhase::Spawning => Some(SupervisorAction::Spawn),
        StartPhase::Settling { .. } => Some(SupervisorAction::Pause { ms: START_POLL_MS }),
        StartPhase::Polling { .. } => Some(SupervisorAction::Probe),
        StartPhase::Finished { .. } => None,
    }
}

/// Steps the start machine on an observed event.
pub fn start_step(s: StartPhase, e: &SupervisorEvent) -> (t: StartPhase)
    requires
        start_wf(s),
    ensures
        t == start_step_spec(s, *e),
        start_wf(t),
{
    match (s, e) {
        (StartPhase::CheckRunning, SupervisorEvent::Probed { pid: Some(p) }) =>
            StartPhase::Finished { outcome: StartOutcome::AlreadyRunning { pid: *p } },
        (StartPhase::CheckRunning, SupervisorEvent::Probed { pid: None }) =>
            StartPhase::Locating,
        (StartPhase::Locating, SupervisorEvent::Located { found }) => if *found {
            StartPhase::Spawning
        } else {
            StartPhase::Finished { outcome: StartOutcome::ExecutableNotFound }
        },
        (StartPhase::Spawning, SupervisorEvent::Spawned { ok }) => if *ok {
            StartPhase::Settling { attempt: 1 }
        } else {
            StartPhase::Finished { outcome: StartOutcome::SpawnFailed }
        },
        (StartPhase::Settling { attempt }, SupervisorEvent::Paused) =>
            StartPhase::Polling { attempt },
        (StartPhase::Polling { attempt }, SupervisorEvent::Probed { pid: Some(p) }) =>
            StartPhase::Finished {
                outcome: StartOutcome::Started { pid: *p, seconds: attempt },
            },
        (StartPhase::Polling { attempt }, SupervisorEvent::Probed { pid: None }) => if
        attempt >= START_POLL_LIMIT {
            StartPhase::Finished { outcome: StartOutcome::StartTimeout }
        } else {
            StartPhase::Settling { attempt: attempt + 1 }
        },
        (s0, _) => s0,
    }
}

/// Result of a stop operation.
#[derive(Clone, Copy, Debug, PartialEq, Eq)]
pub enum StopOutcome {
    /// The port is free.
    Stopped,
    /// The port is still held after the graceful and the forced command;
    /// the supervisor does not escalate further on its own.
    StopFailed { pid: u32 },
}

/// Phase of a stop operation.
#[derive(Clone, Copy, Debug, PartialEq, Eq)]
pub enum StopPhase {
    /// Awaits `RunStop { force: false }`.
    IssueGraceful,
    /// Awaits `Pause`, letting the graceful command take effect.
    SettleGraceful,
    /// Awaits `Probe` after the graceful command.
    ProbeAfterGraceful,
    /// Awaits `RunStop { force: true }`.
    IssueForced,
    /// Awaits `Pause`, letting the forced command take effect.
    SettleForced,
    /// Awaits `Probe` after the forced command.
    ProbeAfterForced,
    /// Operation over.
    Finished { outcome: StopOutcome },
}

/// The action a stop phase awaits; `None` once finished.
pub open spec fn stop_action_spec(s: StopPhase) -> Option<SupervisorAction> {
    match s {
        StopPhase::IssueGraceful => Some(SupervisorAction::RunStop { force: false }),
        StopPhase::SettleGraceful => Some(SupervisorAction::Pause { ms: STOP_SETTLE_MS }),
        StopPhase::ProbeAfterGraceful => Some(SupervisorAction::Probe),
        StopPhase::IssueForced => Some(SupervisorAction::RunStop { force: true }),
        StopPhase::SettleForced => Some(SupervisorAction::Pause { ms: STOP_SETTLE_MS }),
        StopPhase::ProbeAfterForced => Some(SupervisorAction::Probe),
        StopPhase::Finished { .. } => None,
    }
}

/// One step of the stop machine: graceful command, settle, probe; then the
/// forced command, settle, probe; the forced leg only when the port is
/// still held.
pub open spec fn stop_step_spec(s: StopPhase, e: SupervisorEvent) -> StopPhase {
    match (s, e) {
        (StopPhase::IssueGraceful, SupervisorEvent::StopIssued) => StopPhase::SettleGraceful,
        (StopPhase::SettleGraceful, SupervisorEvent::Paused) => StopPhase::ProbeAfterGraceful,
        (StopPhase::ProbeAfterGraceful, SupervisorEvent::Probed { pid: None }) =>
            StopPhase::Finished { outcome: StopOutcome::Stopped },
        (StopPhase::ProbeAfterGraceful, SupervisorEvent::Probed { pid: Some(_) }) =>
            StopPhase::IssueForced,
        (StopPhase::IssueForced, SupervisorEvent::StopIssued) => StopPhase::SettleForced,
        (StopPhase::SettleForced, SupervisorEvent::Paused) => StopPhase::ProbeAfterForced,
        (StopPhase::ProbeAfterForced, SupervisorEvent::Probed { pid: None }) =>
            StopPhase::Finished { outcome: StopOutcome::Stopped },
        (StopPhase::ProbeAfterForced, SupervisorEvent::Probed { pid: Some(p) }) =>
            StopPhase::Finished { outcome: StopOutcome::StopFailed { pid: p } },
        (s0, _) => s0,
    }
}

/// Begins a stop operation.
pub fn stop_begin() -> (s: StopPhase)
    ensures
        s == StopPhase::IssueGraceful,
{
    StopPhase::IssueGraceful
}

/// The action a stop phase awaits.
pub fn stop_pending(s: &StopPhase) -> (a: Option<SupervisorAction>)
    ensures
        a == stop_action_spec(*s),
{
    match s {
        StopPhase::IssueGraceful => Some(SupervisorAction::RunStop { force: false }),
        StopPhase::SettleGraceful => Some(SupervisorAction::Pause { ms: STOP_SETTLE_MS }),
        StopPhase::ProbeAfterGraceful => Some(SupervisorAction::Probe),
        StopPhase::IssueForced => Some(SupervisorAction::RunStop { force: true }),
        StopPhase::SettleForced => Some(SupervisorAction::Pause { ms: STOP_SETTLE_MS }),
        StopPhase::ProbeAfterForced => Some(SupervisorAction::Probe),
        StopPhase::Finished { .. } => None,
    }
}

/// Steps the stop machine on an observed event.
pub fn stop_step(s: StopPhase, e: &SupervisorEvent) -> (t: StopPhase)
    ensures
        t == stop_step_spec(s, *e),
{
    match (s, e) {
        (StopPhase::IssueGraceful, SupervisorEvent::StopIssued) => StopPhase::SettleGraceful,
        (StopPhase::SettleGraceful, SupervisorEvent::Paused) => StopPhase::ProbeAfterGraceful,
        (StopPhase::ProbeAfterGraceful, SupervisorEvent::Probed { pid: None }) =>
            StopPhase::Finished { outcome: StopOutcome::Stopped },
        (StopPhase::ProbeAfterGraceful, SupervisorEvent::Probed { pid: Some(_) }) =>
            StopPhase::IssueForced,
        (StopPhase::IssueForced, SupervisorEvent::StopIssued) => StopPhase::SettleForced,
        (StopPhase::SettleForced, SupervisorEvent::Paused) => StopPhase::ProbeAfterForced,
        (StopPhase::ProbeAfterForced, SupervisorEvent::Probed { pid: None }) =>
            StopPhase::Finished { outcome: StopOutcome::Stopped },
        (StopPhase::ProbeAfterForced, SupervisorEvent::Probed { pid: Some(p) }) =>
            StopPhase::Finished { outcome: StopOutcome::StopFailed { pid: *p } },
        (s0, _) => s0,
    }
}

/// Result of a restart operation.
#[derive(Clone, Copy, Debug, PartialEq, Eq)]
pub enum RestartOutcome {
    /// The port came up on poll attempt `seconds`, owned by `pid`.
    Restarted { pid: u32, seconds: u32 },
    /// The port was never freed within the stop-phase ceiling.
    StopPhaseTimeout,
    /// The OS rejected the spawn request.
    SpawnFailed,
    /// The port never came up within the start-phase poll ceiling.
    StartTimeout,
}

/// Phase of a restart operation: a stop phase bounded by its own
/// port-freed poll, then the same start phase as a fresh start.
#[derive(Clone, Copy, Debug, PartialEq, Eq)]
pub enum RestartPhase {
    /// Awaits `Probe`: a stopped service skips the stop phase entirely.
    CheckRunning,
    /// Awaits `RunStop { force: false }`.
    IssueGraceful,
    /// Awaits `Pause` after the graceful command.
    SettleGraceful,
    /// Awaits `Probe` after the graceful command.
    ProbeAfterGraceful,
    /// Awaits `RunStop { force: true }`.
    IssueForced,
    /// Awaits `Pause` after the forced command.
    SettleForced,
    /// Awaits `Probe`, port-freed poll attempt `attempt`.
    AwaitFree { attempt: u32 },
    /// Awaits `Pause` before the next port-freed poll attempt.
    FreeRetryPause { attempt: u32 },
    /// Awaits `Spawn`.
    Spawning,
    /// Awaits `Pause` before start poll attempt `attempt`.
    StartSettling { attempt: u32 },
    /// Awaits `Probe`, start poll attempt `attempt`.
    StartPolling { attempt: u32 },
    /// Operation over.
    Finished { outcome: RestartOutcome },
}

/// Poll counters stay within their ceilings.
pub open spec fn restart_wf(s: RestartPhase) -> bool {
    match s {
        RestartPhase::AwaitFree { attempt } => 1 <= attempt <= FREE_POLL_LIMIT,
        RestartPhase::FreeRetryPause { attempt } => 1 <= attempt < FREE_POLL_LIMIT,
        RestartPhase::StartSettling { attempt } => 1 <= attempt <= START_POLL_LIMIT,
        RestartPhase::StartPolling { attempt } => 1 <= attempt <= START_POLL_LIMIT,
        _ => true,
    }
}

/// The action a restart phase awaits; `None` once finished.
pub open spec fn restart_action_spec(s: RestartPhase) -> Option<SupervisorAction> {
    match s {
        RestartPhase::CheckRunning => Some(SupervisorAction::Probe),
        RestartPhase::IssueGraceful => Some(SupervisorAction::RunStop { force: false }),
        RestartPhase::SettleGraceful => Some(SupervisorAction::Pause { ms: STOP_SETTLE_MS }),
        RestartPhase::ProbeAfterGraceful => Some(SupervisorAction::Probe),
        RestartPhase::IssueForced => Some(SupervisorAction::RunStop { force: true }),
        RestartPhase::SettleForced => Some(SupervisorAction::Pause { ms: STOP_SETTLE_MS }),
        RestartPhase::AwaitFree { .. } => Some(SupervisorAction::Probe),
        RestartPhase::FreeRetryPause { .. } => Some(SupervisorAction::Pause {
            ms: FREE_POLL_MS,
        }),
        RestartPhase::Spawning => Some(SupervisorAction::Spawn),
        RestartPhase::StartSettling { .. } => Some(SupervisorAction::Pause {
            ms: START_POLL_MS,
        }),
        RestartPhase::StartPolling { .. } => Some(SupervisorAction::Probe),
        RestartPhase::Finished { .. } => None,
    }
}

/// One step of the restart machine.
pub open spec fn restart_step_spec(s: RestartPhase, e: SupervisorEvent) -> RestartPhase {
    match (s, e) {
        (RestartPhase::CheckRunning, SupervisorEvent::Probed { pid: None }) =>
            RestartPhase::Spawning,
        (RestartPhase::CheckRunning, SupervisorEvent::Probed { pid: Some(_) }) =>
            RestartPhase::IssueGraceful,
        (RestartPhase::IssueGraceful, SupervisorEvent::StopIssued) =>
            RestartPhase::SettleGraceful,
        (RestartPhase::SettleGraceful, SupervisorEvent::Paused) =>
            RestartPhase::ProbeAfterGraceful,
        (RestartPhase::ProbeAfterGraceful, SupervisorEvent::Probed { pid: Some(_) }) =>
            RestartPhase::IssueForced,
        (RestartPhase::ProbeAfterGraceful, SupervisorEvent::Probed { pid: None }) =>
            RestartPhase::AwaitFree { attempt: 1 },
        (RestartPhase::IssueForced, SupervisorEvent::StopIssued) =>
            RestartPhase::SettleForced,
        (RestartPhase::SettleForced, SupervisorEvent::Paused) => RestartPhase::AwaitFree {
            attempt: 1,
        },
        (RestartPhase::AwaitFree { attempt }, SupervisorEvent::Probed { pid: None }) =>
            RestartPhase::Spawning,
        (RestartPhase::AwaitFree { attempt }, SupervisorEvent::Probed { pid: Some(_) }) =>
            if attempt >= FREE_POLL_LIMIT {
            RestartPhase::Finished { outcome: RestartOutcome::StopPhaseTimeout }
        } else {
            RestartPhase::FreeRetryPause { attempt }
        },
        (RestartPhase::FreeRetryPause { attempt }, SupervisorEvent::Paused) =>
            RestartPhase::AwaitFree { attempt: (attempt + 1) as u32 },
        (RestartPhase::Spawning, SupervisorEvent::Spawned { ok }) => if ok {
            RestartPhase::StartSettling { attempt: 1 }
        } else {
            RestartPhase::Finished { outcome: RestartOutcome::SpawnFailed }
        },
        (RestartPhase::StartSettling { attempt }, SupervisorEvent::Paused) =>
            RestartPhase::StartPolling { attempt },
        (RestartPhase::StartPolling { attempt }, SupervisorEvent::Probed { pid: Some(p) })
            => RestartPhase::Finished {
            outcome: RestartOutcome::Restarted { pid: p, seconds: attempt },
        },
        (RestartPhase::StartPolling { attempt }, SupervisorEvent::Probed { pid: None }) =>
            if attempt >= START_POLL_LIMIT {
            RestartPhase::Finished { outcome: RestartOutcome::StartTimeout }
        } else {
            RestartPhase::StartSettling { attempt: (attempt + 1) as u32 }
        },
        (s0, _) => s0,
    }
}

/// Begins a restart operation.
pub fn restart_begin() -> (s: RestartPhase)
    ensures
        s == RestartPhase::CheckRunning,
        restart_wf(s),
{
    RestartPhase::CheckRunning
}

/// The action a restart phase awaits.
pub fn restart_pending(s: &RestartPhase) -> (a: Option<SupervisorAction>)
    ensures
        a == restart_action_spec(*s),
{
    match s {
        RestartPhase::CheckRunning => Some(SupervisorAction::Probe),
        RestartPhase::IssueGraceful => Some(SupervisorAction::RunStop { force: false }),
        RestartPhase::SettleGraceful => Some(SupervisorAction::Pause { ms: STOP_SETTLE_MS }),
        RestartPhase::ProbeAfterGraceful => Some(SupervisorAction::Probe),
        RestartPhase::IssueForced => Some(SupervisorAction::RunStop { force: true }),
        RestartPhase::SettleForced => Some(SupervisorAction::Pause { ms: STOP_SETTLE_MS }),
        RestartPhase::AwaitFree { .. } => Some(SupervisorAction::Probe),
        RestartPhase::FreeRetryPause { .. } => Some(SupervisorAction::Pause {
            ms: FREE_POLL_MS,
        }),
        RestartPhase::Spawning => Some(SupervisorAction::Spawn),
        RestartPhase::StartSettling { .. } => Some(SupervisorAction::Pause {
            ms: START_POLL_MS,
        }),
        RestartPhase::StartPolling { .. } => Some(SupervisorAction::Probe),
        RestartPhase::Finished { .. } => None,
    }
}

/// Steps the restart machine on an observed event.
pub fn restart_step(s: RestartPhase, e: &SupervisorEvent) -> (t: RestartPhase)
    requires
        restart_wf(s),
    ensures
        t == restart_step_spec(s, *e),
        restart_wf(t),
{
    match (s, e) {
        (RestartPhase::CheckRunning, SupervisorEvent::Probed { pid: None }) =>
            RestartPhase::Spawning,
        (RestartPhase::CheckRunning, SupervisorEvent::Probed { pid: Some(_) }) =>
            RestartPhase::IssueGraceful,
        (RestartPhase::IssueGraceful, SupervisorEvent::StopIssued) =>
            RestartPhase::SettleGraceful,
        (RestartPhase::SettleGraceful, SupervisorEvent::Paused) =>
            RestartPhase::ProbeAfterGraceful,
        (RestartPhase::ProbeAfterGraceful, SupervisorEvent::Probed { pid: Some(_) }) =>
            RestartPhase::IssueForced,
        (RestartPhase::ProbeAfterGraceful, SupervisorEvent::Probed { pid: None }) =>
            RestartPhase::AwaitFree { attempt: 1 },
        (RestartPhase::IssueForced, SupervisorEvent::StopIssued) =>
            RestartPhase::SettleForced,
        (RestartPhase::SettleForced, SupervisorEvent::Paused) => RestartPhase::AwaitFree {
            attempt: 1,
        },
        (RestartPhase::AwaitFree { attempt: _ }, SupervisorEvent::Probed { pid: None }) =>
            RestartPhase::Spawning,
        (RestartPhase::AwaitFree { attempt }, SupervisorEvent::Probed { pid: Some(_) }) =>
            if attempt >= FREE_POLL_LIMIT {
            RestartPhase::Finished { outcome: RestartOutcome::StopPhaseTimeout }
        } else {
            RestartPhase::FreeRetryPause { attempt }
        },
        (RestartPhase::FreeRetryPause { attempt }, SupervisorEvent::Paused) =>
            RestartPhase::AwaitFree { attempt: attempt + 1 },
        (RestartPhase::Spawning, SupervisorEvent::Spawned { ok }) => if *ok {
            RestartPhase::StartSettling { attempt: 1 }
        } else {
            RestartPhase::Finished { outcome: RestartOutcome::SpawnFailed }
        },
        (RestartPhase::StartSettling { attempt }, SupervisorEvent::Paused) =>
            RestartPhase::StartPolling { attempt },
        (RestartPhase::StartPolling { attempt }, SupervisorEvent::Probed { pid: Some(p) })
            => RestartPhase::Finished {
            outcome: RestartOutcome::Restarted { pid: *p, seconds: attempt },
        },
        (RestartPhase::StartPolling { attempt }, SupervisorEvent::Probed { pid: None }) =>
            if attempt >= START_POLL_LIMIT {
            RestartPhase::Finished { outcome: RestartOutcome::StartTimeout }
        } else {
            RestartPhase::StartSettling { attempt: attempt + 1 }
        },
        (s0, _) => s0,
    }
}

/// Result of a kill-all operation.
#[derive(Clone, Copy, Debug, PartialEq, Eq)]
pub enum KillOutcome {
    /// No process holds the port.
    NoneFound,
    /// Aggregate tally: every listed process got its own termination
    /// attempt, whatever happened to the others.
    Report { killed: u64, failed: u64 },
}

/// Phase of a kill-all operation.
#[derive(Clone, Debug, PartialEq, Eq)]
pub enum KillPhase {
    /// Awaits `ProbeAll`.
    Enumerating,
    /// Awaits `Kill { pid: pending[idx] }`; earlier ids are tallied.
    Killing { pending: Vec<u32>, idx: usize, killed: u64, failed: u64 },
    /// Operation over.
    Finished { outcome: KillOutcome },
}

/// The index stays in range and the tally counts the ids behind it.
pub open spec fn kill_wf(s: KillPhase) -> bool {
    match s {
        KillPhase::Killing { pending, idx, killed, failed } => idx < pending@.len()
            && killed + failed == idx,
        _ => true,
    }
}

/// The action a kill-all phase awaits; `None` once finished.
pub open spec fn kill_action_spec(s: KillPhase) -> Option<SupervisorAction> {
    match s {
        KillPhase::Enumerating => Some(SupervisorAction::ProbeAll),
        KillPhase::Killing { pending, idx, .. } => Some(SupervisorAction::Kill {
            pid: pending@[idx as int],
        }),
        KillPhase::Finished { .. } => None,
    }
}

/// One step of the kill-all machine: every enumerated id gets exactly one
/// termination attempt; a failure is tallied, never short-circuited on.
pub open spec fn kill_step_spec(s: KillPhase, e: SupervisorEvent) -> KillPhase {
    match (s, e) {
        (KillPhase::Enumerating, SupervisorEvent::ProbedAll { pids }) => if pids@.len()
            == 0 {
            KillPhase::Finished { outcome: KillOutcome::NoneFound }
        } else {
            KillPhase::Killing { pending: pids, idx: 0, killed: 0, failed: 0 }
        },
        (KillPhase::Killing { pending, idx, killed, failed }, SupervisorEvent::KillDone {
            ok,
        }) => {
            let killed2 = if ok {
                (killed + 1) as u64
            } else {
                killed
            };
            let failed2 = if ok {
                failed
            } else {
                (failed + 1) as u64
            };
            if idx + 1 < pending@.len() {
                KillPhase::Killing {
                    pending,
                    idx: (idx + 1) as usize,
                    killed: killed2,
                    failed: failed2,
                }
            } else {
                KillPhase::Finished {
                    outcome: KillOutcome::Report { killed: killed2, failed: failed2 },
                }
            }
        },
        (s0, _) => s0,
    }
}

/// Begins a kill-all operation.
pub fn kill_begin() -> (s: KillPhase)
    ensures
        s == KillPhase::Enumerating,
        kill_wf(s),
{
    KillPhase::Enumerating
}

/// The action a kill-all phase awaits.
pub fn kill_pending(s: &KillPhase) -> (a: Option<SupervisorAction>)
    requires
        kill_wf(*s),
    ensures
        a == kill_action_spec(*s),
{
    match s {
        KillPhase::Enumerating => Some(SupervisorAction::ProbeAll),
        KillPhase::Killing { pending, idx, .. } => Some(SupervisorAction::Kill {
            pid: pending[*idx],
        }),
        KillPhase::Finished { .. } => None,
    }
}

/// Steps the kill-all machine on an observed event.
pub fn kill_step(s: KillPhase, e: SupervisorEvent) -> (t: KillPhase)
    requires
        kill_wf(s),
    ensures
        t == kill_step_spec(s, e),
        kill_wf(t),
{
    match (s, e) {
        (KillPhase::Enumerating, SupervisorEvent::ProbedAll { pids }) => if pids.len()
            == 0 {
            KillPhase::Finished { outcome: KillOutcome::NoneFound }
        } else {
            KillPhase::Killing { pending: pids, idx: 0, killed: 0, failed: 0 }
        },
        (KillPhase::Killing { pending, idx, killed, failed }, SupervisorEvent::KillDone {
            ok,
        }) => {
            let n: usize = pending.len();
            let killed2: u64 = if ok {
                killed + 1
            } else {
                killed
            };
            let failed2: u64 = if ok {
                failed
            } else {
                failed + 1
            };
            if idx + 1 < n {
                KillPhase::Killing { pending, idx: idx + 1, killed: killed2, failed: failed2 }
            } else {
                KillPhase::Finished {
                    outcome: KillOutcome::Report { killed: killed2, failed: failed2 },
                }
            }
        },
        (s0, _) => s0,
    }
}

/// How many log lines a query asks for when it does not say: one hundred.
pub fn log_line_count(requested: Option<u32>) -> (n: u32)
    ensures
        n == (match requested {
            Some(v) => v,
            None => 100u32,
        }),
{
    match requested {
        Some(v) => v,
        None => 100,
    }
}

} // verus!
