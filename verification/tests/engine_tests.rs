//! The termination engine, the batch driver, the concurrency guard
//! and the positional menu dispatch.

use port_kill::engine::{
    batch_succeeded, execute_signal_step, plan_kill_targets, run_batch, run_session, FailCause,
    KillEngine, KillEvent, KillStep, KillTarget, SkipReason, TerminationOutcome,
};
use port_kill::filter::IgnoreConfig;
use port_kill::guard::{GuardState, KillGuard, KillRequest, TriggerDecision};
use port_kill::menu::{resolve_menu_action, resolve_trigger, MenuAction, TriggerEvent};
use port_kill::snapshot::Snapshot;
use port_kill::types::ProcessInfo;

fn no_ignores() -> IgnoreConfig {
    IgnoreConfig::new(vec![], vec![])
}

fn name_event(name: &str) -> KillEvent {
    KillEvent::NameIs { name: name.to_string() }
}

fn binding(port: u16, pid: i32, name: &str) -> ProcessInfo {
    ProcessInfo {
        pid,
        port,
        command: name.to_string(),
        name: name.to_string(),
        container_id: None,
        container_name: None,
    }
}

#[test]
fn graceful_death_sends_no_forceful_signal() {
    let cfg = no_ignores();
    let (mut engine, first) = KillEngine::new(41, None, false);
    assert!(matches!(first, KillStep::ResolveName { pid: 41 }));

    let step = engine.on_event(&cfg, &name_event("node"));
    assert!(matches!(step, KillStep::SendSignal { pid: 41, forceful: false }));
    let step = engine.on_event(&cfg, &KillEvent::SignalSent { ok: true });
    assert!(matches!(step, KillStep::Wait));
    let step = engine.on_event(&cfg, &KillEvent::Waited);
    assert!(matches!(step, KillStep::CheckAlive { pid: 41 }));
    let step = engine.on_event(&cfg, &KillEvent::AliveIs { alive: false });
    assert!(matches!(
        step,
        KillStep::Done { outcome: TerminationOutcome::Killed }
    ));
    assert_eq!(engine.outcome(), Some(TerminationOutcome::Killed));
}

#[test]
fn survivor_gets_exactly_one_forceful_signal_after_the_graceful() {
    let cfg = no_ignores();
    let (mut engine, _) = KillEngine::new(42, None, false);

    let mut graceful_sends = 0;
    let mut forceful_sends = 0;
    let events = [
        name_event("node"),
        KillEvent::SignalSent { ok: true },
        KillEvent::Waited,
        KillEvent::AliveIs { alive: true },
        KillEvent::SignalSent { ok: true },
    ];
    for ev in events.iter() {
        let step = engine.on_event(&cfg, ev);
        match step {
            KillStep::SendSignal { forceful: false, .. } => {
                assert_eq!(forceful_sends, 0, "graceful must come first");
                graceful_sends += 1;
            }
            KillStep::SendSignal { forceful: true, .. } => forceful_sends += 1,
            _ => {}
        }
    }
    assert_eq!(graceful_sends, 1);
    assert_eq!(forceful_sends, 1);
    assert_eq!(engine.outcome(), Some(TerminationOutcome::Killed));
}

#[test]
fn failed_graceful_send_still_waits_and_escalates() {
    let cfg = no_ignores();
    let (mut engine, _) = KillEngine::new(43, None, false);
    engine.on_event(&cfg, &name_event("node"));
    let step = engine.on_event(&cfg, &KillEvent::SignalSent { ok: false });
    assert!(matches!(step, KillStep::Wait));
    engine.on_event(&cfg, &KillEvent::Waited);
    engine.on_event(&cfg, &KillEvent::AliveIs { alive: true });
    let step = engine.on_event(&cfg, &KillEvent::SignalSent { ok: false });
    assert!(matches!(
        step,
        KillStep::Done { outcome: TerminationOutcome::Failed(FailCause::ForcefulSignalFailed) }
    ));
}

#[test]
fn containerized_process_never_gets_a_direct_signal() {
    let cfg = no_ignores();
    let (mut engine, _) = KillEngine::new(44, None, true);
    let step = engine.on_event(&cfg, &name_event("node"));
    assert!(matches!(step, KillStep::LookupContainer { pid: 44 }));
    let step = engine.on_event(
        &cfg,
        &KillEvent::ContainerIs { id: Some("abc123".to_string()) },
    );
    match step {
        KillStep::StopContainer { id } => assert_eq!(id, "abc123"),
        other => panic!("expected a container stop, got {:?}", other),
    }
    let step = engine.on_event(&cfg, &KillEvent::ContainerStopped { ok: false });
    match step {
        KillStep::RemoveContainer { id } => assert_eq!(id, "abc123"),
        other => panic!("expected a forced removal, got {:?}", other),
    }
    let step = engine.on_event(&cfg, &KillEvent::ContainerRemoved { ok: false });
    assert!(matches!(
        step,
        KillStep::Done { outcome: TerminationOutcome::Failed(FailCause::ContainerRemoveFailed) }
    ));
}

#[test]
fn ignore_recheck_skips_by_fresh_name_and_by_trigger_port() {
    let cfg = IgnoreConfig::new(vec![5353], vec!["java".to_string()]);

    let (mut by_name, _) = KillEngine::new(45, None, false);
    let step = by_name.on_event(&cfg, &name_event("java"));
    assert!(matches!(
        step,
        KillStep::Done { outcome: TerminationOutcome::Skipped(SkipReason::IgnoredName) }
    ));

    let (mut by_port, _) = KillEngine::new(46, Some(5353), false);
    let step = by_port.on_event(&cfg, &name_event("mdns"));
    assert!(matches!(
        step,
        KillStep::Done { outcome: TerminationOutcome::Skipped(SkipReason::IgnoredPort) }
    ));

    // The same pid without the ignored port proceeds to the signal.
    let (mut plain, _) = KillEngine::new(46, Some(3000), false);
    let step = plain.on_event(&cfg, &name_event("mdns"));
    assert!(matches!(step, KillStep::SendSignal { forceful: false, .. }));
}

#[test]
fn batch_partial_failure_keeps_both_outcomes() {
    let cfg = no_ignores();
    let targets = vec![
        KillTarget { pid: 11, port: Some(3000) },
        KillTarget { pid: 22, port: Some(8080) },
    ];
    let traces = vec![
        vec![
            name_event("stubborn"),
            KillEvent::SignalSent { ok: true },
            KillEvent::Waited,
            KillEvent::AliveIs { alive: true },
            KillEvent::SignalSent { ok: false },
        ],
        vec![
            name_event("meek"),
            KillEvent::SignalSent { ok: true },
            KillEvent::Waited,
            KillEvent::AliveIs { alive: false },
        ],
    ];
    let outcomes = run_batch(&targets, &traces, false, &cfg);
    assert_eq!(outcomes.len(), 2);
    assert_eq!(
        outcomes[0],
        TerminationOutcome::Failed(FailCause::ForcefulSignalFailed)
    );
    assert_eq!(outcomes[1], TerminationOutcome::Killed);
    assert!(!batch_succeeded(&outcomes));

    let all_good = vec![TerminationOutcome::Killed, TerminationOutcome::Skipped(
        SkipReason::IgnoredName,
    )];
    assert!(batch_succeeded(&all_good));
}

#[test]
fn stalled_session_counts_as_failed() {
    let cfg = no_ignores();
    let outcome = run_session(47, None, false, &cfg, &vec![name_event("node")]);
    assert_eq!(outcome, TerminationOutcome::Failed(FailCause::Stalled));
}

#[test]
fn kill_targets_follow_port_order() {
    let mut s = Snapshot::new();
    s.upsert(binding(8080, 222, "java"));
    s.upsert(binding(3000, 111, "node"));
    let targets = plan_kill_targets(&s);
    assert_eq!(targets.len(), 2);
    assert_eq!(targets[0], KillTarget { pid: 111, port: Some(3000) });
    assert_eq!(targets[1], KillTarget { pid: 222, port: Some(8080) });
}

#[test]
fn guard_rejects_second_batch_and_recovers_after_cooldown() {
    let mut guard = KillGuard::new();
    assert!(guard.refresh_allowed());

    assert_eq!(guard.submit(&KillRequest::KillAll), TriggerDecision::Admitted);
    assert_eq!(
        guard.submit(&KillRequest::KillAll),
        TriggerDecision::GuardRejected
    );
    assert_eq!(
        guard.submit(&KillRequest::KillOne { pid: 11, port: 3000 }),
        TriggerDecision::GuardRejected
    );
    assert!(!guard.refresh_allowed());

    guard.finish_batch();
    assert!(!guard.refresh_allowed());
    assert_eq!(
        guard.submit(&KillRequest::KillAll),
        TriggerDecision::GuardRejected
    );

    guard.cooldown_elapsed();
    assert!(guard.refresh_allowed());
    assert_eq!(guard.submit(&KillRequest::KillAll), TriggerDecision::Admitted);
}

#[test]
fn guard_state_is_observable() {
    let mut guard = KillGuard::new();
    guard.submit(&KillRequest::KillAll);
    guard.finish_batch();
    guard.cooldown_elapsed();
    // Back to idle: a new batch may begin.
    assert_eq!(guard.submit(&KillRequest::KillAll), TriggerDecision::Admitted);
    let _ = GuardState::Idle;
}

#[test]
fn menu_index_resolution_over_three_processes() {
    // Three displayed processes: 0 kills all, 1 and 5 are inert
    // separators, 2 through 4 kill the listed processes, 6 quits.
    assert_eq!(resolve_menu_action(0, 3), MenuAction::KillAllProcesses);
    assert_eq!(resolve_menu_action(1, 3), MenuAction::Inert);
    assert_eq!(resolve_menu_action(2, 3), MenuAction::KillProcessAt { position: 0 });
    assert_eq!(resolve_menu_action(4, 3), MenuAction::KillProcessAt { position: 2 });
    assert_eq!(resolve_menu_action(5, 3), MenuAction::Inert);
    assert_eq!(resolve_menu_action(6, 3), MenuAction::Quit);
    assert_eq!(resolve_menu_action(7, 3), MenuAction::NoOp);
}

#[test]
fn menu_trigger_resolution_uses_sorted_order() {
    let mut s = Snapshot::new();
    s.upsert(binding(8080, 222, "java"));
    s.upsert(binding(3000, 111, "node"));
    s.upsert(binding(5000, 333, "cast"));

    assert_eq!(
        resolve_trigger(0, &s),
        Some(TriggerEvent::Kill(KillRequest::KillAll))
    );
    // Index 4 is the third listed process in port order: 8080.
    assert_eq!(
        resolve_trigger(4, &s),
        Some(TriggerEvent::Kill(KillRequest::KillOne { pid: 222, port: 8080 }))
    );
    assert_eq!(resolve_trigger(5, &s), None);
    assert_eq!(resolve_trigger(6, &s), Some(TriggerEvent::Quit));
    assert_eq!(resolve_trigger(1, &s), None);
    assert_eq!(resolve_trigger(99, &s), None);
}

#[test]
fn signal_step_execution_reports_a_failed_send() {
    // A pid far above the kernel's pid range: the send must fail, and
    // the step must come back as a signal event rather than nothing.
    let step = KillStep::SendSignal { pid: 2_000_000_000, forceful: false };
    match execute_signal_step(&step) {
        Some(KillEvent::SignalSent { ok }) => assert!(!ok),
        other => panic!("expected a signal event, got {:?}", other),
    }
    assert!(execute_signal_step(&KillStep::Wait).is_none());
    assert!(execute_signal_step(&KillStep::CheckAlive { pid: 1 }).is_none());
}
