//! Properties of the supervisor machines, stated over whole runs.
//!
//! A run folds a machine's step function over a sequence of observed
//! events; the actions of a run are the pending actions of the phases it
//! passes through, in order. The proof functions here pin down what each
//! operation does and — just as important — what it never does: start
//! never spawns past a precondition failure and never kills; stop keeps
//! the forced command behind a failed graceful probe; restart on a stopped
//! service issues no stop command at all; kill-all gives every enumerated
//! process exactly one termination attempt.

use vstd::prelude::*;

verus! {

use crate::supervisor::START_POLL_LIMIT;
use crate::supervisor::START_POLL_MS;
use crate::supervisor::STOP_SETTLE_MS;
use crate::supervisor::SupervisorAction;
use crate::supervisor::SupervisorEvent;
use crate::supervisor::StartOutcome;
use crate::supervisor::StartPhase;
use crate::supervisor::start_action_spec;
use crate::supervisor::start_step_spec;
use crate::supervisor::StopOutcome;
use crate::supervisor::StopPhase;
use crate::supervisor::stop_action_spec;
use crate::supervisor::stop_step_spec;
use crate::supervisor::RestartPhase;
use crate::supervisor::restart_action_spec;
use crate::supervisor::restart_step_spec;
use crate::supervisor::KillOutcome;
use crate::supervisor::KillPhase;
use crate::supervisor::kill_action_spec;
use crate::supervisor::kill_step_spec;

/// No spawn request stands among `acts`.
pub open spec fn no_spawn(acts: Seq<SupervisorAction>) -> bool {
    forall|i: int| 0 <= i < acts.len() ==> !(acts[i] is Spawn)
}

/// No termination request stands among `acts`.
pub open spec fn no_kill(acts: Seq<SupervisorAction>) -> bool {
    forall|i: int| 0 <= i < acts.len() ==> !(acts[i] is Kill)
}

/// No stop command, graceful or forced, stands among `acts`.
pub open spec fn no_stop_command(acts: Seq<SupervisorAction>) -> bool {
    forall|i: int| 0 <= i < acts.len() ==> !(acts[i] is RunStop)
}

/// No forced stop command stands among `acts`.
pub open spec fn no_forced_stop(acts: Seq<SupervisorAction>) -> bool {
    forall|i: int|
        0 <= i < acts.len() ==> acts[i] != (SupervisorAction::RunStop { force: true })
}

/// The phase a start operation reaches after consuming `evs`.
pub open spec fn start_run(s: StartPhase, evs: Seq<SupervisorEvent>) -> StartPhase
    decreases evs.len(),
{
    if evs.len() == 0 {
        s
    } else {
        start_run(start_step_spec(s, evs[0]), evs.drop_first())
    }
}

/// The action a phase asks of the driver, as a sequence piece.
pub open spec fn start_emits(s: StartPhase) -> Seq<SupervisorAction> {
    match start_action_spec(s) {
        Some(a) => seq![a],
        None => Seq::empty(),
    }
}

/// The actions a start operation issues while consuming `evs`.
pub open spec fn start_actions(s: StartPhase, evs: Seq<SupervisorEvent>) -> Seq<
    SupervisorAction,
>
    decreases evs.len(),
{
    if evs.len() == 0 {
        Seq::empty()
    } else {
        start_emits(s) + start_actions(start_step_spec(s, evs[0]), evs.drop_first())
    }
}

/// Runs compose over concatenated event sequences.
pub proof fn lemma_start_run_append(
    s: StartPhase,
    a: Seq<SupervisorEvent>,
    b: Seq<SupervisorEvent>,
)
    ensures
        start_run(s, a + b) == start_run(start_run(s, a), b),
        start_actions(s, a + b) == start_actions(s, a) + start_actions(start_run(s, a), b),
    decreases a.len(),
{
    if a.len() == 0 {
        assert(a + b =~= b);
        assert(start_actions(s, a) + start_actions(s, b) =~= start_actions(s, b));
    } else {
        let s1 = start_step_spec(s, a[0]);
        assert((a + b).drop_first() =~= a.drop_first() + b);
        lemma_start_run_append(s1, a.drop_first(), b);
        assert(start_emits(s) + (start_actions(s1, a.drop_first()) + start_actions(
            start_run(s, a),
            b,
        )) =~= (start_emits(s) + start_actions(s1, a.drop_first())) + start_actions(
            start_run(s, a),
            b,
        ));
    }
}

/// A finished start operation stays finished and asks nothing more.
pub proof fn lemma_start_finished_absorbs(o: StartOutcome, evs: Seq<SupervisorEvent>)
    ensures
        start_run(StartPhase::Finished { outcome: o }, evs) == (StartPhase::Finished {
            outcome: o,
        }),
        start_actions(StartPhase::Finished { outcome: o }, evs) == Seq::<
            SupervisorAction,
        >::empty(),
    decreases evs.len(),
{
    if evs.len() > 0 {
        lemma_start_finished_absorbs(o, evs.drop_first());
        assert(start_actions(StartPhase::Finished { outcome: o }, evs) =~= Seq::<
            SupervisorAction,
        >::empty());
    }
}

/// The start machine never asks for a termination, whatever it observes.
pub proof fn lemma_start_never_kills(s: StartPhase, evs: Seq<SupervisorEvent>)
    ensures
        no_kill(start_actions(s, evs)),
    decreases evs.len(),
{
    if evs.len() > 0 {
        lemma_start_never_kills(start_step_spec(s, evs[0]), evs.drop_first());
        let acts = start_actions(s, evs);
        let rest = start_actions(start_step_spec(s, evs[0]), evs.drop_first());
        assert forall|i: int| 0 <= i < acts.len() implies !(acts[i] is Kill) by {
            if i >= start_emits(s).len() {
                assert(acts[i] == rest[i - start_emits(s).len()]);
            }
        }
    }
}

/// A start against an already-bound port reports `AlreadyRunning` and
/// never asks for a spawn.
pub proof fn lemma_start_already_running(pid: u32, evs: Seq<SupervisorEvent>)
    requires
        evs.len() >= 1,
        evs[0] == (SupervisorEvent::Probed { pid: Some(pid) }),
    ensures
        start_run(StartPhase::CheckRunning, evs) == (StartPhase::Finished {
            outcome: StartOutcome::AlreadyRunning { pid },
        }),
        start_actions(StartPhase::CheckRunning, evs) == seq![SupervisorAction::Probe],
        no_spawn(start_actions(StartPhase::CheckRunning, evs)),
{
    lemma_start_finished_absorbs(
        StartOutcome::AlreadyRunning { pid },
        evs.drop_first(),
    );
    assert(start_actions(StartPhase::CheckRunning, evs) =~= seq![SupervisorAction::Probe]);
}

/// A start whose executable cannot be located reports
/// `ExecutableNotFound` and never asks for a spawn.
pub proof fn lemma_start_no_executable(evs: Seq<SupervisorEvent>)
    requires
        evs.len() >= 2,
        evs[0] == (SupervisorEvent::Probed { pid: None }),
        evs[1] == (SupervisorEvent::Located { found: false }),
    ensures
        start_run(StartPhase::CheckRunning, evs) == (StartPhase::Finished {
            outcome: StartOutcome::ExecutableNotFound,
        }),
        start_actions(StartPhase::CheckRunning, evs) == seq![
            SupervisorAction::Probe,
            SupervisorAction::Locate,
        ],
        no_spawn(start_actions(StartPhase::CheckRunning, evs)),
{
    let d1 = evs.drop_first();
    reveal_with_fuel(start_run, 6);
    reveal_with_fuel(start_actions, 6);
    assert(d1[0] == evs[1]);
    lemma_start_finished_absorbs(StartOutcome::ExecutableNotFound, d1.drop_first());
    assert(start_actions(StartPhase::CheckRunning, evs) =~= seq![
        SupervisorAction::Probe,
        SupervisorAction::Locate,
    ]);
}

/// `j` poll rounds in which the port stays silent: a pause, then a probe
/// that finds nothing.
pub open spec fn poll_miss_rounds(j: nat) -> Seq<SupervisorEvent>
    decreases j,
{
    if j == 0 {
        Seq::empty()
    } else {
        seq![SupervisorEvent::Paused, SupervisorEvent::Probed { pid: None }]
            + poll_miss_rounds((j - 1) as nat)
    }
}

/// The actions of `j` poll rounds: a pause and a probe each.
pub open spec fn pause_probe_actions(j: nat) -> Seq<SupervisorAction>
    decreases j,
{
    if j == 0 {
        Seq::empty()
    } else {
        seq![SupervisorAction::Pause { ms: START_POLL_MS }, SupervisorAction::Probe]
            + pause_probe_actions((j - 1) as nat)
    }
}

/// Silent poll rounds only advance the attempt counter.
pub proof fn lemma_start_poll_misses(a: u32, j: nat, rest: Seq<SupervisorEvent>)
    requires
        1 <= a,
        a + j <= START_POLL_LIMIT,
    ensures
        start_run(StartPhase::Settling { attempt: a }, poll_miss_rounds(j) + rest)
            == start_run(StartPhase::Settling { attempt: (a + j) as u32 }, rest),
        start_actions(StartPhase::Settling { attempt: a }, poll_miss_rounds(j) + rest)
            == pause_probe_actions(j) + start_actions(
            StartPhase::Settling { attempt: (a + j) as u32 },
            rest,
        ),
    decreases j,
{
    reveal_with_fuel(start_run, 6);
    reveal_with_fuel(start_actions, 6);
    reveal_with_fuel(poll_miss_rounds, 3);
    reveal_with_fuel(pause_probe_actions, 3);
    if j == 0 {
        assert(poll_miss_rounds(0) + rest =~= rest);
        assert(pause_probe_actions(0) + start_actions(
            StartPhase::Settling { attempt: a },
            rest,
        ) =~= start_actions(StartPhase::Settling { attempt: a }, rest));
    } else {
        let two = seq![SupervisorEvent::Paused, SupervisorEvent::Probed { pid: None }];
        let tail = poll_miss_rounds((j - 1) as nat) + rest;
        assert(poll_miss_rounds(j) + rest =~= two + tail);
        lemma_start_run_append(StartPhase::Settling { attempt: a }, two, tail);
        assert(two.drop_first() =~= seq![SupervisorEvent::Probed { pid: None }]);
        assert(seq![SupervisorEvent::Probed { pid: None }].drop_first() =~= Seq::<
            SupervisorEvent,
        >::empty());
        assert(start_run(StartPhase::Settling { attempt: a }, two) == (StartPhase::Settling {
            attempt: (a + 1) as u32,
        }));
        assert(start_actions(StartPhase::Settling { attempt: a }, two) =~= seq![
            SupervisorAction::Pause { ms: START_POLL_MS },
            SupervisorAction::Probe,
        ]);
        lemma_start_poll_misses((a + 1) as u32, (j - 1) as nat, rest);
        assert(pause_probe_actions(j) =~= seq![
            SupervisorAction::Pause { ms: START_POLL_MS },
            SupervisorAction::Probe,
        ] + pause_probe_actions((j - 1) as nat));
        assert(start_actions(StartPhase::Settling { attempt: a }, two) + (
        pause_probe_actions((j - 1) as nat) + start_actions(
            StartPhase::Settling { attempt: (a + j) as u32 },
            rest,
        )) =~= pause_probe_actions(j) + start_actions(
            StartPhase::Settling { attempt: (a + j) as u32 },
            rest,
        ));
    }
}

/// The canonical events of a start that finds the port on attempt `k`.
pub open spec fn start_events_found(k: u32, pid: u32) -> Seq<SupervisorEvent> {
    seq![
        SupervisorEvent::Probed { pid: None },
        SupervisorEvent::Located { found: true },
        SupervisorEvent::Spawned { ok: true },
    ] + poll_miss_rounds((k - 1) as nat) + seq![
        SupervisorEvent::Paused,
        SupervisorEvent::Probed { pid: Some(pid) },
    ]
}

/// A start whose probe succeeds on attempt `k` within the ceiling reports
/// the discovered id, and polls exactly `k` times after the initial check:
/// its actions are pinned down completely, so no polling continues past
/// attempt `k`.
pub proof fn lemma_start_finds_port(k: u32, pid: u32)
    requires
        1 <= k <= START_POLL_LIMIT,
    ensures
        start_run(StartPhase::CheckRunning, start_events_found(k, pid))
            == (StartPhase::Finished {
            outcome: StartOutcome::Started { pid, seconds: k },
        }),
        start_actions(StartPhase::CheckRunning, start_events_found(k, pid)) == seq![
            SupervisorAction::Probe,
            SupervisorAction::Locate,
            SupervisorAction::Spawn,
        ] + pause_probe_actions((k - 1) as nat) + seq![
            SupervisorAction::Pause { ms: START_POLL_MS },
            SupervisorAction::Probe,
        ],
{
    let pre = seq![
        SupervisorEvent::Probed { pid: None },
        SupervisorEvent::Located { found: true },
        SupervisorEvent::Spawned { ok: true },
    ];
    let mid = poll_miss_rounds((k - 1) as nat);
    let fin = seq![SupervisorEvent::Paused, SupervisorEvent::Probed { pid: Some(pid) }];
    let evs = start_events_found(k, pid);
    assert(evs =~= pre + (mid + fin));
    reveal_with_fuel(start_run, 6);
    reveal_with_fuel(start_actions, 6);
    lemma_start_run_append(StartPhase::CheckRunning, pre, mid + fin);
    assert(pre.drop_first() =~= seq![
        SupervisorEvent::Located { found: true },
        SupervisorEvent::Spawned { ok: true },
    ]);
    assert(pre.drop_first().drop_first() =~= seq![SupervisorEvent::Spawned { ok: true }]);
    assert(seq![SupervisorEvent::Spawned { ok: true }].drop_first() =~= Seq::<
        SupervisorEvent,
    >::empty());
    assert(start_run(StartPhase::CheckRunning, pre) == (StartPhase::Settling {
        attempt: 1,
    }));
    assert(start_actions(StartPhase::CheckRunning, pre) =~= seq![
        SupervisorAction::Probe,
        SupervisorAction::Locate,
        SupervisorAction::Spawn,
    ]);
    lemma_start_poll_misses(1, (k - 1) as nat, fin);
    assert(fin.drop_first() =~= seq![SupervisorEvent::Probed { pid: Some(pid) }]);
    assert(seq![SupervisorEvent::Probed { pid: Some(pid) }].drop_first() =~= Seq::<
        SupervisorEvent,
    >::empty());
    assert(start_run(StartPhase::Settling { attempt: k }, fin) == (StartPhase::Finished {
        outcome: StartOutcome::Started { pid, seconds: k },
    }));
    assert(start_actions(StartPhase::Settling { attempt: k }, fin) =~= seq![
        SupervisorAction::Pause { ms: START_POLL_MS },
        SupervisorAction::Probe,
    ]);
    assert(start_actions(StartPhase::CheckRunning, evs) =~= seq![
        SupervisorAction::Probe,
        SupervisorAction::Locate,
        SupervisorAction::Spawn,
    ] + pause_probe_actions((k - 1) as nat) + seq![
        SupervisorAction::Pause { ms: START_POLL_MS },
        SupervisorAction::Probe,
    ]);
}

/// Silent poll rounds that exhaust the ceiling end in `StartTimeout`.
pub proof fn lemma_start_poll_exhausts(a: u32, j: nat)
    requires
        1 <= a <= START_POLL_LIMIT,
        a + j == START_POLL_LIMIT + 1,
    ensures
        start_run(StartPhase::Settling { attempt: a }, poll_miss_rounds(j))
            == (StartPhase::Finished { outcome: StartOutcome::StartTimeout }),
        start_actions(StartPhase::Settling { attempt: a }, poll_miss_rounds(j))
            == pause_probe_actions(j),
    decreases j,
{
    reveal_with_fuel(start_run, 6);
    reveal_with_fuel(start_actions, 6);
    reveal_with_fuel(poll_miss_rounds, 3);
    reveal_with_fuel(pause_probe_actions, 3);
    let two = seq![SupervisorEvent::Paused, SupervisorEvent::Probed { pid: None }];
    let tail = poll_miss_rounds((j - 1) as nat);
    assert(poll_miss_rounds(j) =~= two + tail);
    lemma_start_run_append(StartPhase::Settling { attempt: a }, two, tail);
    assert(two.drop_first() =~= seq![SupervisorEvent::Probed { pid: None }]);
    assert(seq![SupervisorEvent::Probed { pid: None }].drop_first() =~= Seq::<
        SupervisorEvent,
    >::empty());
    assert(start_actions(StartPhase::Settling { attempt: a }, two) =~= seq![
        SupervisorAction::Pause { ms: START_POLL_MS },
        SupervisorAction::Probe,
    ]);
    if j == 1 {
        assert(start_run(StartPhase::Settling { attempt: a }, two) == (StartPhase::Finished {
            outcome: StartOutcome::StartTimeout,
        }));
        lemma_start_finished_absorbs(StartOutcome::StartTimeout, tail);
        assert(start_actions(StartPhase::Settling { attempt: a }, poll_miss_rounds(j))
            =~= pause_probe_actions(j));
    } else {
        assert(start_run(StartPhase::Settling { attempt: a }, two) == (StartPhase::Settling {
            attempt: (a + 1) as u32,
        }));
        lemma_start_poll_exhausts((a + 1) as u32, (j - 1) as nat);
        assert(start_actions(StartPhase::Settling { attempt: a }, poll_miss_rounds(j))
            =~= pause_probe_actions(j));
    }
}

/// The canonical events of a start whose port never comes up.
pub open spec fn start_events_timeout() -> Seq<SupervisorEvent> {
    seq![
        SupervisorEvent::Probed { pid: None },
        SupervisorEvent::Located { found: true },
        SupervisorEvent::Spawned { ok: true },
    ] + poll_miss_rounds(START_POLL_LIMIT as nat)
}

/// A start whose port never becomes occupied across the whole ceiling
/// reports `StartTimeout`, and the spawned child is never terminated by
/// the supervisor: no kill action stands in the run.
pub proof fn lemma_start_timeout_spares_child()
    ensures
        start_run(StartPhase::CheckRunning, start_events_timeout())
            == (StartPhase::Finished { outcome: StartOutcome::StartTimeout }),
        start_actions(StartPhase::CheckRunning, start_events_timeout()) == seq![
            SupervisorAction::Probe,
            SupervisorAction::Locate,
            SupervisorAction::Spawn,
        ] + pause_probe_actions(START_POLL_LIMIT as nat),
        no_kill(start_actions(StartPhase::CheckRunning, start_events_timeout())),
{
    let pre = seq![
        SupervisorEvent::Probed { pid: None },
        SupervisorEvent::Located { found: true },
        SupervisorEvent::Spawned { ok: true },
    ];
    let mid = poll_miss_rounds(START_POLL_LIMIT as nat);
    let evs = start_events_timeout();
    assert(evs =~= pre + mid);
    reveal_with_fuel(start_run, 6);
    reveal_with_fuel(start_actions, 6);
    lemma_start_run_append(StartPhase::CheckRunning, pre, mid);
    assert(pre.drop_first() =~= seq![
        SupervisorEvent::Located { found: true },
        SupervisorEvent::Spawned { ok: true },
    ]);
    assert(pre.drop_first().drop_first() =~= seq![SupervisorEvent::Spawned { ok: true }]);
    assert(seq![SupervisorEvent::Spawned { ok: true }].drop_first() =~= Seq::<
        SupervisorEvent,
    >::empty());
    assert(start_run(StartPhase::CheckRunning, pre) == (StartPhase::Settling {
        attempt: 1,
    }));
    assert(start_actions(StartPhase::CheckRunning, pre) =~= seq![
        SupervisorAction::Probe,
        SupervisorAction::Locate,
        SupervisorAction::Spawn,
    ]);
    lemma_start_poll_exhausts(1, START_POLL_LIMIT as nat);
    assert(start_actions(StartPhase::CheckRunning, evs) =~= seq![
        SupervisorAction::Probe,
        SupervisorAction::Locate,
        SupervisorAction::Spawn,
    ] + pause_probe_actions(START_POLL_LIMIT as nat));
    lemma_start_never_kills(StartPhase::CheckRunning, evs);
}

/// The phase a stop operation reaches after consuming `evs`.
pub open spec fn stop_run(s: StopPhase, evs: Seq<SupervisorEvent>) -> StopPhase
    decreases evs.len(),
{
    if evs.len() == 0 {
        s
    } else {
        stop_run(stop_step_spec(s, evs[0]), evs.drop_first())
    }
}

/// The action a stop phase asks of the driver, as a sequence piece.
pub open spec fn stop_emits(s: StopPhase) -> Seq<SupervisorAction> {
    match stop_action_spec(s) {
        Some(a) => seq![a],
        None => Seq::empty(),
    }
}

/// The actions a stop operation issues while consuming `evs`.
pub open spec fn stop_actions(s: StopPhase, evs: Seq<SupervisorEvent>) -> Seq<
    SupervisorAction,
>
    decreases evs.len(),
{
    if evs.len() == 0 {
        Seq::empty()
    } else {
        stop_emits(s) + stop_actions(stop_step_spec(s, evs[0]), evs.drop_first())
    }
}

/// A finished stop operation stays finished and asks nothing more.
pub proof fn lemma_stop_finished_absorbs(o: StopOutcome, evs: Seq<SupervisorEvent>)
    ensures
        stop_run(StopPhase::Finished { outcome: o }, evs) == (StopPhase::Finished {
            outcome: o,
        }),
        stop_actions(StopPhase::Finished { outcome: o }, evs) == Seq::<
            SupervisorAction,
        >::empty(),
    decreases evs.len(),
{
    if evs.len() > 0 {
        lemma_stop_finished_absorbs(o, evs.drop_first());
        assert(stop_actions(StopPhase::Finished { outcome: o }, evs) =~= Seq::<
            SupervisorAction,
        >::empty());
    }
}

/// A stop whose graceful command already clears the port succeeds after
/// exactly the graceful command, the settle pause and one probe; the
/// forced command is never invoked.
pub proof fn lemma_stop_graceful_clears(evs: Seq<SupervisorEvent>)
    requires
        evs.len() >= 3,
        evs[0] == SupervisorEvent::StopIssued,
        evs[1] == SupervisorEvent::Paused,
        evs[2] == (SupervisorEvent::Probed { pid: None }),
    ensures
        stop_run(StopPhase::IssueGraceful, evs) == (StopPhase::Finished {
            outcome: StopOutcome::Stopped,
        }),
        stop_actions(StopPhase::IssueGraceful, evs) == seq![
            SupervisorAction::RunStop { force: false },
            SupervisorAction::Pause { ms: STOP_SETTLE_MS },
            SupervisorAction::Probe,
        ],
        no_forced_stop(stop_actions(StopPhase::IssueGraceful, evs)),
{
    reveal_with_fuel(stop_run, 6);
    reveal_with_fuel(stop_actions, 6);
    let d1 = evs.drop_first();
    let d2 = d1.drop_first();
    assert(d1[0] == evs[1]);
    assert(d2[0] == evs[2]);
    lemma_stop_finished_absorbs(StopOutcome::Stopped, d2.drop_first());
    assert(stop_actions(StopPhase::IssueGraceful, evs) =~= seq![
        SupervisorAction::RunStop { force: false },
        SupervisorAction::Pause { ms: STOP_SETTLE_MS },
        SupervisorAction::Probe,
    ]);
}

/// The phase a restart operation reaches after consuming `evs`.
pub open spec fn restart_run(s: RestartPhase, evs: Seq<SupervisorEvent>) -> RestartPhase
    decreases evs.len(),
{
    if evs.len() == 0 {
        s
    } else {
        restart_run(restart_step_spec(s, evs[0]), evs.drop_first())
    }
}

/// The action a restart phase asks of the driver, as a sequence piece.
pub open spec fn restart_emits(s: RestartPhase) -> Seq<SupervisorAction> {
    match restart_action_spec(s) {
        Some(a) => seq![a],
        None => Seq::empty(),
    }
}

/// The actions a restart operation issues while consuming `evs`.
pub open spec fn restart_actions(s: RestartPhase, evs: Seq<SupervisorEvent>) -> Seq<
    SupervisorAction,
>
    decreases evs.len(),
{
    if evs.len() == 0 {
        Seq::empty()
    } else {
        restart_emits(s) + restart_actions(restart_step_spec(s, evs[0]), evs.drop_first())
    }
}

/// Restart phases that lie past the stop phase: from them, no stop
/// command can ever be asked for again.
pub open spec fn restart_past_stop(s: RestartPhase) -> bool {
    match s {
        RestartPhase::Spawning => true,
        RestartPhase::StartSettling { .. } => true,
        RestartPhase::StartPolling { .. } => true,
        RestartPhase::Finished { .. } => true,
        _ => false,
    }
}

/// Past the stop phase, a restart never issues a stop command.
pub proof fn lemma_restart_past_stop_no_stop(s: RestartPhase, evs: Seq<SupervisorEvent>)
    requires
        restart_past_stop(s),
    ensures
        no_stop_command(restart_actions(s, evs)),
    decreases evs.len(),
{
    if evs.len() > 0 {
        let s1 = restart_step_spec(s, evs[0]);
        assert(restart_past_stop(s1));
        lemma_restart_past_stop_no_stop(s1, evs.drop_first());
        let acts = restart_actions(s, evs);
        let rest = restart_actions(s1, evs.drop_first());
        assert forall|i: int| 0 <= i < acts.len() implies !(acts[i] is RunStop) by {
            if i >= restart_emits(s).len() {
                assert(acts[i] == rest[i - restart_emits(s).len()]);
            }
        }
    }
}

/// A restart that finds the service already stopped skips the stop phase
/// entirely: after the one probe it proceeds directly to the start phase,
/// and no stop command, graceful or forced, is ever issued.
pub proof fn lemma_restart_stopped_skips_stop(evs: Seq<SupervisorEvent>)
    requires
        evs.len() >= 1,
        evs[0] == (SupervisorEvent::Probed { pid: None }),
    ensures
        restart_run(RestartPhase::CheckRunning, evs) == restart_run(
            RestartPhase::Spawning,
            evs.drop_first(),
        ),
        restart_actions(RestartPhase::CheckRunning, evs) == seq![SupervisorAction::Probe]
            + restart_actions(RestartPhase::Spawning, evs.drop_first()),
        no_stop_command(restart_actions(RestartPhase::CheckRunning, evs)),
{
    lemma_restart_past_stop_no_stop(RestartPhase::Spawning, evs.drop_first());
    let acts = restart_actions(RestartPhase::CheckRunning, evs);
    let rest = restart_actions(RestartPhase::Spawning, evs.drop_first());
    assert(acts =~= seq![SupervisorAction::Probe] + rest);
    assert forall|i: int| 0 <= i < acts.len() implies !(acts[i] is RunStop) by {
        if i >= 1 {
            assert(acts[i] == rest[i - 1]);
        }
    }
}

/// The phase a kill-all operation reaches after consuming `evs`.
pub open spec fn kill_run(s: KillPhase, evs: Seq<SupervisorEvent>) -> KillPhase
    decreases evs.len(),
{
    if evs.len() == 0 {
        s
    } else {
        kill_run(kill_step_spec(s, evs[0]), evs.drop_first())
    }
}

/// The action a kill-all phase asks of the driver, as a sequence piece.
pub open spec fn kill_emits(s: KillPhase) -> Seq<SupervisorAction> {
    match kill_action_spec(s) {
        Some(a) => seq![a],
        None => Seq::empty(),
    }
}

/// The actions a kill-all operation issues while consuming `evs`.
pub open spec fn kill_actions(s: KillPhase, evs: Seq<SupervisorEvent>) -> Seq<
    SupervisorAction,
>
    decreases evs.len(),
{
    if evs.len() == 0 {
        Seq::empty()
    } else {
        kill_emits(s) + kill_actions(kill_step_spec(s, evs[0]), evs.drop_first())
    }
}

/// How many termination attempts of a batch succeeded.
pub open spec fn count_true(results: Seq<bool>) -> nat
    decreases results.len(),
{
    if results.len() == 0 {
        0
    } else {
        let rest = count_true(results.drop_first());
        if results[0] {
            rest + 1
        } else {
            rest
        }
    }
}

pub proof fn lemma_count_true_le(results: Seq<bool>)
    ensures
        count_true(results) <= results.len(),
    decreases results.len(),
{
    if results.len() > 0 {
        lemma_count_true_le(results.drop_first());
    }
}

/// One `KillDone` event per termination outcome, in order.
pub open spec fn kill_done_events(results: Seq<bool>) -> Seq<SupervisorEvent> {
    results.map_values(|b: bool| SupervisorEvent::KillDone { ok: b })
}

/// One termination request per id, in order.
pub open spec fn kill_actions_of(pids: Seq<u32>) -> Seq<SupervisorAction> {
    pids.map_values(|p: u32| SupervisorAction::Kill { pid: p })
}

/// The killing loop gives one termination attempt to every remaining id,
/// whatever each attempt reports, and tallies exactly the successes and
/// failures.
pub proof fn lemma_kill_loop(
    pending: Vec<u32>,
    idx: usize,
    killed: u64,
    failed: u64,
    results: Seq<bool>,
)
    requires
        idx < pending@.len(),
        pending@.len() <= usize::MAX,
        killed + failed == idx,
        results.len() == pending@.len() - idx,
    ensures
        kill_run(
            KillPhase::Killing { pending, idx, killed, failed },
            kill_done_events(results),
        ) == (KillPhase::Finished {
            outcome: KillOutcome::Report {
                killed: (killed + count_true(results)) as u64,
                failed: (failed + results.len() - count_true(results)) as u64,
            },
        }),
        kill_actions(
            KillPhase::Killing { pending, idx, killed, failed },
            kill_done_events(results),
        ) == kill_actions_of(pending@.skip(idx as int)),
    decreases results.len(),
{
    lemma_count_true_le(results);
    let s = KillPhase::Killing { pending, idx, killed, failed };
    let evs = kill_done_events(results);
    assert(evs[0] == (SupervisorEvent::KillDone { ok: results[0] }));
    assert(evs.drop_first() =~= kill_done_events(results.drop_first()));
    let ok = results[0];
    let killed2: u64 = if ok {
        (killed + 1) as u64
    } else {
        killed
    };
    let failed2: u64 = if ok {
        failed
    } else {
        (failed + 1) as u64
    };
    lemma_count_true_le(results.drop_first());
    if idx + 1 < pending@.len() {
        let s1 = KillPhase::Killing {
            pending,
            idx: (idx + 1) as usize,
            killed: killed2,
            failed: failed2,
        };
        assert(kill_step_spec(s, evs[0]) == s1);
        lemma_kill_loop(pending, (idx + 1) as usize, killed2, failed2, results.drop_first());
        assert(kill_actions_of(pending@.skip(idx as int)) =~= seq![SupervisorAction::Kill {
            pid: pending@[idx as int],
        }] + kill_actions_of(pending@.skip(idx + 1)));
        assert(kill_actions(s, evs) == kill_emits(s) + kill_actions(s1, evs.drop_first()));
        assert(kill_emits(s) =~= seq![SupervisorAction::Kill { pid: pending@[idx as int] }]);
        assert(evs.drop_first() == kill_done_events(results.drop_first()));
        assert(kill_actions(s1, evs.drop_first()) == kill_actions_of(pending@.skip(idx + 1)));
        assert(kill_actions(s, evs) =~= kill_actions_of(pending@.skip(idx as int)));
    } else {
        assert(results.len() == 1);
        assert(results.drop_first() =~= Seq::<bool>::empty());
        assert(count_true(results.drop_first()) == 0);
        let fin = KillPhase::Finished {
            outcome: KillOutcome::Report { killed: killed2, failed: failed2 },
        };
        assert(kill_step_spec(s, evs[0]) == fin);
        assert(evs.drop_first().len() == 0);
        assert(kill_run(s, evs) == kill_run(fin, evs.drop_first()));
        assert(kill_run(fin, evs.drop_first()) == fin);
        assert(pending@.skip(idx as int).len() == 1);
        assert(kill_actions_of(pending@.skip(idx as int)) =~= seq![SupervisorAction::Kill {
            pid: pending@[idx as int],
        }]);
        assert(kill_actions(s, evs) == kill_emits(s) + kill_actions(fin, evs.drop_first()));
        assert(kill_actions(fin, evs.drop_first()) =~= Seq::<SupervisorAction>::empty());
        assert(kill_emits(s) =~= seq![SupervisorAction::Kill { pid: pending@[idx as int] }]);
        assert(kill_actions(s, evs) =~= kill_actions_of(pending@.skip(idx as int)));
    }
}

/// The events of a kill-all: the enumeration, then one termination
/// outcome per id.
pub open spec fn kill_all_events(pids: Vec<u32>, results: Seq<bool>) -> Seq<
    SupervisorEvent,
> {
    seq![SupervisorEvent::ProbedAll { pids }] + kill_done_events(results)
}

/// A kill-all over a nonempty enumeration issues exactly one termination
/// attempt per enumerated id — a failure never short-circuits the rest —
/// and reports exactly how many attempts succeeded and how many failed.
pub proof fn lemma_kill_all_tallies(pids: Vec<u32>, results: Seq<bool>)
    requires
        1 <= pids@.len() <= usize::MAX,
        results.len() == pids@.len(),
    ensures
        kill_run(KillPhase::Enumerating, kill_all_events(pids, results))
            == (KillPhase::Finished {
            outcome: KillOutcome::Report {
                killed: count_true(results) as u64,
                failed: (results.len() - count_true(results)) as u64,
            },
        }),
        kill_actions(KillPhase::Enumerating, kill_all_events(pids, results)) == seq![
            SupervisorAction::ProbeAll,
        ] + kill_actions_of(pids@),
{
    let evs = kill_all_events(pids, results);
    let s1 = KillPhase::Killing { pending: pids, idx: 0, killed: 0, failed: 0 };
    assert(kill_step_spec(KillPhase::Enumerating, evs[0]) == s1);
    assert(evs.drop_first() =~= kill_done_events(results));
    lemma_kill_loop(pids, 0, 0, 0, results);
    assert(pids@.skip(0) =~= pids@);
    assert(kill_actions(KillPhase::Enumerating, evs) =~= seq![SupervisorAction::ProbeAll]
        + kill_actions_of(pids@));
}

} // verus!
