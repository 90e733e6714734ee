use openclaw_panel::config::default_mcp_enabled;
use openclaw_panel::status::status_from_probe;
use openclaw_panel::status::ServiceStatus;
use openclaw_panel::supervisor::kill_begin;
use openclaw_panel::supervisor::kill_pending;
use openclaw_panel::supervisor::kill_step;
use openclaw_panel::supervisor::log_line_count;
use openclaw_panel::supervisor::restart_begin;
use openclaw_panel::supervisor::restart_pending;
use openclaw_panel::supervisor::restart_step;
use openclaw_panel::supervisor::start_begin;
use openclaw_panel::supervisor::start_pending;
use openclaw_panel::supervisor::start_step;
use openclaw_panel::supervisor::stop_begin;
use openclaw_panel::supervisor::stop_pending;
use openclaw_panel::supervisor::stop_step;
use openclaw_panel::supervisor::KillOutcome;
use openclaw_panel::supervisor::KillPhase;
use openclaw_panel::supervisor::RestartOutcome;
use openclaw_panel::supervisor::RestartPhase;
use openclaw_panel::supervisor::StartOutcome;
use openclaw_panel::supervisor::StartPhase;
use openclaw_panel::supervisor::StopOutcome;
use openclaw_panel::supervisor::StopPhase;
use openclaw_panel::supervisor::SupervisorAction;
use openclaw_panel::supervisor::SupervisorEvent;
use openclaw_panel::SERVICE_PORT;

#[test]
fn status_is_a_pure_view_of_the_probe() {
    let up = status_from_probe(Some(4242));
    assert!(up.running);
    assert_eq!(up.pid, Some(4242));
    assert_eq!(up.port, SERVICE_PORT);
    assert_eq!(up.uptime_seconds, None);

    let down = status_from_probe(None);
    assert!(!down.running);
    assert_eq!(down.pid, None);

    // Repeating the query with the same probe result changes nothing.
    assert_eq!(status_from_probe(Some(4242)), up);
    assert_eq!(status_from_probe(None), down);
}

#[test]
fn default_status_reports_stopped_on_the_fixed_port() {
    let s = ServiceStatus::default();
    assert!(!s.running);
    assert_eq!(s.pid, None);
    assert_eq!(s.port, 18789);
    assert_eq!(s.uptime_seconds, None);
}

#[test]
fn start_on_bound_port_reports_already_running_without_spawn() {
    let s0 = start_begin();
    assert_eq!(start_pending(&s0), Some(SupervisorAction::Probe));
    let s1 = start_step(s0, &SupervisorEvent::Probed { pid: Some(7) });
    assert_eq!(
        s1,
        StartPhase::Finished { outcome: StartOutcome::AlreadyRunning { pid: 7 } }
    );
    // The machine asks for nothing more, so a spawn was never requested.
    assert_eq!(start_pending(&s1), None);
}

#[test]
fn start_without_executable_reports_not_found_without_spawn() {
    let s0 = start_begin();
    let s1 = start_step(s0, &SupervisorEvent::Probed { pid: None });
    assert_eq!(start_pending(&s1), Some(SupervisorAction::Locate));
    let s2 = start_step(s1, &SupervisorEvent::Located { found: false });
    assert_eq!(
        s2,
        StartPhase::Finished { outcome: StartOutcome::ExecutableNotFound }
    );
    assert_eq!(start_pending(&s2), None);
}

#[test]
fn start_reports_the_pid_found_on_the_third_attempt() {
    let mut s = start_begin();
    let mut probes = 0;
    let mut actions = Vec::new();
    let plan = [None, None, Some(5150)];
    let mut next_probe = 0;
    loop {
        let a = match start_pending(&s) {
            Some(a) => a,
            None => break,
        };
        actions.push(a);
        let e = match a {
            SupervisorAction::Probe => {
                if matches!(s, StartPhase::CheckRunning) {
                    SupervisorEvent::Probed { pid: None }
                } else {
                    probes += 1;
                    let pid = plan[next_probe];
                    next_probe += 1;
                    SupervisorEvent::Probed { pid }
                }
            }
            SupervisorAction::Locate => SupervisorEvent::Located { found: true },
            SupervisorAction::Spawn => SupervisorEvent::Spawned { ok: true },
            SupervisorAction::Pause { .. } => SupervisorEvent::Paused,
            other => panic!("start asked for {:?}", other),
        };
        s = start_step(s, &e);
    }
    assert_eq!(
        s,
        StartPhase::Finished {
            outcome: StartOutcome::Started { pid: 5150, seconds: 3 }
        }
    );
    // Polling stopped at the successful attempt.
    assert_eq!(probes, 3);
    assert!(actions.contains(&SupervisorAction::Spawn));
}

#[test]
fn start_times_out_after_fifteen_silent_polls_and_never_kills() {
    let mut s = start_begin();
    let mut poll_probes = 0;
    loop {
        let a = match start_pending(&s) {
            Some(a) => a,
            None => break,
        };
        let e = match a {
            SupervisorAction::Probe => {
                if !matches!(s, StartPhase::CheckRunning) {
                    poll_probes += 1;
                }
                SupervisorEvent::Probed { pid: None }
            }
            SupervisorAction::Locate => SupervisorEvent::Located { found: true },
            SupervisorAction::Spawn => SupervisorEvent::Spawned { ok: true },
            SupervisorAction::Pause { .. } => SupervisorEvent::Paused,
            other => panic!("start asked for {:?}, a termination would be wrong", other),
        };
        s = start_step(s, &e);
    }
    assert_eq!(s, StartPhase::Finished { outcome: StartOutcome::StartTimeout });
    assert_eq!(poll_probes, 15);
}

#[test]
fn start_reports_spawn_failure_at_once() {
    let mut s = start_begin();
    s = start_step(s, &SupervisorEvent::Probed { pid: None });
    s = start_step(s, &SupervisorEvent::Located { found: true });
    assert_eq!(start_pending(&s), Some(SupervisorAction::Spawn));
    s = start_step(s, &SupervisorEvent::Spawned { ok: false });
    assert_eq!(s, StartPhase::Finished { outcome: StartOutcome::SpawnFailed });
}

#[test]
fn stop_succeeds_on_the_graceful_path_without_the_forced_command() {
    let mut s = stop_begin();
    let mut actions = Vec::new();
    loop {
        let a = match stop_pending(&s) {
            Some(a) => a,
            None => break,
        };
        actions.push(a);
        let e = match a {
            SupervisorAction::RunStop { .. } => SupervisorEvent::StopIssued,
            SupervisorAction::Pause { .. } => SupervisorEvent::Paused,
            SupervisorAction::Probe => SupervisorEvent::Probed { pid: None },
            other => panic!("stop asked for {:?}", other),
        };
        s = stop_step(s, &e);
    }
    assert_eq!(s, StopPhase::Finished { outcome: StopOutcome::Stopped });
    assert_eq!(
        actions,
        vec![
            SupervisorAction::RunStop { force: false },
            SupervisorAction::Pause { ms: 500 },
            SupervisorAction::Probe,
        ]
    );
}

#[test]
fn stop_escalates_to_forced_and_reports_the_surviving_pid() {
    let mut s = stop_begin();
    s = stop_step(s, &SupervisorEvent::StopIssued);
    s = stop_step(s, &SupervisorEvent::Paused);
    s = stop_step(s, &SupervisorEvent::Probed { pid: Some(9) });
    assert_eq!(
        stop_pending(&s),
        Some(SupervisorAction::RunStop { force: true })
    );
    s = stop_step(s, &SupervisorEvent::StopIssued);
    s = stop_step(s, &SupervisorEvent::Paused);
    s = stop_step(s, &SupervisorEvent::Probed { pid: Some(9) });
    assert_eq!(
        s,
        StopPhase::Finished { outcome: StopOutcome::StopFailed { pid: 9 } }
    );
}

#[test]
fn restart_on_stopped_service_goes_straight_to_spawn() {
    let s0 = restart_begin();
    assert_eq!(restart_pending(&s0), Some(SupervisorAction::Probe));
    let s1 = restart_step(s0, &SupervisorEvent::Probed { pid: None });
    // The stop-phase settle and poll are skipped entirely.
    assert_eq!(restart_pending(&s1), Some(SupervisorAction::Spawn));

    let mut s = s1;
    let mut actions = Vec::new();
    loop {
        let a = match restart_pending(&s) {
            Some(a) => a,
            None => break,
        };
        actions.push(a);
        let e = match a {
            SupervisorAction::Spawn => SupervisorEvent::Spawned { ok: true },
            SupervisorAction::Pause { .. } => SupervisorEvent::Paused,
            SupervisorAction::Probe => SupervisorEvent::Probed { pid: Some(31) },
            other => panic!("restart asked for {:?}", other),
        };
        s = restart_step(s, &e);
    }
    assert_eq!(
        s,
        RestartPhase::Finished {
            outcome: RestartOutcome::Restarted { pid: 31, seconds: 1 }
        }
    );
    // No stop command, graceful or forced, was ever requested.
    assert!(actions
        .iter()
        .all(|a| !matches!(a, SupervisorAction::RunStop { .. })));
}

#[test]
fn restart_fails_fast_when_the_port_is_never_freed() {
    let mut s = restart_begin();
    let mut free_probes = 0;
    loop {
        let a = match restart_pending(&s) {
            Some(a) => a,
            None => break,
        };
        let e = match a {
            SupervisorAction::Probe => {
                if matches!(s, RestartPhase::AwaitFree { .. }) {
                    free_probes += 1;
                }
                SupervisorEvent::Probed { pid: Some(77) }
            }
            SupervisorAction::RunStop { .. } => SupervisorEvent::StopIssued,
            SupervisorAction::Pause { .. } => SupervisorEvent::Paused,
            other => panic!("restart asked for {:?}", other),
        };
        s = restart_step(s, &e);
    }
    assert_eq!(
        s,
        RestartPhase::Finished { outcome: RestartOutcome::StopPhaseTimeout }
    );
    assert_eq!(free_probes, 10);
}

#[test]
fn kill_all_tallies_two_killed_one_failed_and_tries_all_three() {
    let mut s = kill_begin();
    assert_eq!(kill_pending(&s), Some(SupervisorAction::ProbeAll));
    s = kill_step(
        s,
        SupervisorEvent::ProbedAll { pids: vec![100, 200, 300] },
    );

    assert_eq!(kill_pending(&s), Some(SupervisorAction::Kill { pid: 100 }));
    s = kill_step(s, SupervisorEvent::KillDone { ok: true });

    // The failure on 200 does not short-circuit the attempt on 300.
    assert_eq!(kill_pending(&s), Some(SupervisorAction::Kill { pid: 200 }));
    s = kill_step(s, SupervisorEvent::KillDone { ok: false });

    assert_eq!(kill_pending(&s), Some(SupervisorAction::Kill { pid: 300 }));
    s = kill_step(s, SupervisorEvent::KillDone { ok: true });

    assert_eq!(
        s,
        KillPhase::Finished {
            outcome: KillOutcome::Report { killed: 2, failed: 1 }
        }
    );
}

#[test]
fn kill_all_on_an_empty_port_reports_none_found() {
    let s = kill_step(kill_begin(), SupervisorEvent::ProbedAll { pids: vec![] });
    assert_eq!(s, KillPhase::Finished { outcome: KillOutcome::NoneFound });
}

#[test]
fn log_queries_default_to_one_hundred_lines() {
    assert_eq!(log_line_count(None), 100);
    assert_eq!(log_line_count(Some(5)), 5);
}

#[test]
fn mcp_entries_default_to_enabled() {
    assert!(default_mcp_enabled());
}

#[test]
fn restart_reports_spawn_failure_at_once() {
    let mut s = restart_begin();
    s = restart_step(s, &SupervisorEvent::Probed { pid: None });
    s = restart_step(s, &SupervisorEvent::Spawned { ok: false });
    assert_eq!(
        s,
        RestartPhase::Finished { outcome: RestartOutcome::SpawnFailed }
    );
}

#[test]
fn restart_times_out_when_the_port_never_comes_up() {
    let mut s = restart_begin();
    s = restart_step(s, &SupervisorEvent::Probed { pid: None });
    s = restart_step(s, &SupervisorEvent::Spawned { ok: true });
    for _ in 0..15 {
        s = restart_step(s, &SupervisorEvent::Paused);
        s = restart_step(s, &SupervisorEvent::Probed { pid: None });
    }
    assert_eq!(
        s,
        RestartPhase::Finished { outcome: RestartOutcome::StartTimeout }
    );
}
