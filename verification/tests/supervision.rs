use styx_runtime::{
    aborted_daemon_report, classify_join, command_worker, map_lsd_error, merge_exits,
    normalize_dht_event, push_exit, push_unique, shared_worker, shutdown_budget, timeout_report,
    DhtCommand, DhtRuntimeEvent, ExitsByKind, FailureReasonCode, JoinOutcome, LsdCommand,
    LsdError, PersistenceOutcome, RuntimeError, SessionCommand, SessionEvent, SessionNotice,
    SharedWorkerKind, ShutdownMode, ShutdownReport, SupervisorLedger, TaskExit, TaskKind,
    TimeSpan,
};

#[test]
fn dht_failure_text_is_discarded_at_supervision_boundary() {
    let normalized = normalize_dht_event(DhtRuntimeEvent::Failed {
        reason: "peer 203.0.113.7 leaked magnet:?xt=urn:btih:secret".into(),
    });

    assert_eq!(normalized, Err(FailureReasonCode::DhtFailed));
    let debug = format!("{normalized:?}");
    assert!(!debug.contains("203.0.113.7"));
    assert!(!debug.contains("magnet:"));
}

#[test]
fn bootstrap_is_passed_on_with_a_notice() {
    let normalized = normalize_dht_event(DhtRuntimeEvent::Bootstrapped { nodes: 12 });
    assert_eq!(
        normalized,
        Ok((
            SessionEvent::Dht(DhtRuntimeEvent::Bootstrapped { nodes: 12 }),
            Some(SessionNotice::DhtBootstrapped { nodes: 12 })
        ))
    );
}

#[test]
fn join_outcomes_are_classified() {
    assert_eq!(classify_join(JoinOutcome::Finished, true), TaskExit::Graceful);
    assert_eq!(
        classify_join(JoinOutcome::Panicked, false),
        TaskExit::Failed(FailureReasonCode::WorkerPanicked)
    );
    assert_eq!(classify_join(JoinOutcome::Cancelled, true), TaskExit::Aborted);
    assert_eq!(
        classify_join(JoinOutcome::Cancelled, false),
        TaskExit::Failed(FailureReasonCode::Cancelled)
    );
}

#[test]
fn exits_are_kept_per_kind_in_order() {
    let mut exits = ExitsByKind::new();
    push_exit(&mut exits, TaskKind::Dht, TaskExit::Graceful);
    push_exit(&mut exits, TaskKind::Dht, TaskExit::Aborted);
    let mut later = ExitsByKind::new();
    push_exit(&mut later, TaskKind::Lsd, TaskExit::Aborted);
    push_exit(&mut later, TaskKind::Dht, TaskExit::Failed(FailureReasonCode::DhtFailed));
    merge_exits(&mut exits, later);
    assert_eq!(
        exits.get(TaskKind::Dht).unwrap(),
        &vec![
            TaskExit::Graceful,
            TaskExit::Aborted,
            TaskExit::Failed(FailureReasonCode::DhtFailed)
        ]
    );
    assert_eq!(exits.get(TaskKind::Lsd).unwrap(), &vec![TaskExit::Aborted]);
    assert!(!exits.contains_kind(TaskKind::Session));
    let mut report = ShutdownReport::new(ShutdownMode::Clean, TimeSpan::zero());
    report.exits = exits;
    assert_eq!(report.aborted_count(), 2);
}

#[test]
fn push_unique_keeps_one_of_each() {
    let mut values = vec![FailureReasonCode::DhtFailed];
    push_unique(&mut values, FailureReasonCode::DhtFailed);
    push_unique(&mut values, FailureReasonCode::ChannelClosed);
    push_unique(&mut values, FailureReasonCode::ChannelClosed);
    assert_eq!(
        values,
        vec![FailureReasonCode::DhtFailed, FailureReasonCode::ChannelClosed]
    );
}

#[test]
fn timeout_and_abort_reports() {
    let report = timeout_report(TimeSpan::from_secs(3));
    assert_eq!(report.mode, ShutdownMode::Forced);
    assert_eq!(
        report.exits.get(TaskKind::Session).unwrap(),
        &vec![TaskExit::Failed(FailureReasonCode::ShutdownTimeout)]
    );
    assert_eq!(report.persistence, PersistenceOutcome::NotAttempted);
    let report = aborted_daemon_report(TimeSpan::from_secs(1));
    assert_eq!(report.exits.get(TaskKind::Session).unwrap(), &vec![TaskExit::Aborted]);
    assert_eq!(report.aborted_count(), 1);
}

#[test]
fn operational_failure_is_not_misreported_as_worker_exit() {
    let mut ledger = SupervisorLedger::new();
    let (event, notice) = ledger.emit_failure(SharedWorkerKind::Dht, FailureReasonCode::DhtFailed);
    assert_eq!(
        event,
        SessionEvent::SharedWorkerFailed {
            worker: SharedWorkerKind::Dht,
            reason: FailureReasonCode::DhtFailed
        }
    );
    assert_eq!(
        notice,
        SessionNotice::SharedWorkerFailed {
            worker: SharedWorkerKind::Dht,
            reason: FailureReasonCode::DhtFailed
        }
    );
    let report = ledger.finish(ShutdownMode::Clean, TimeSpan::zero(), ExitsByKind::new());
    assert!(!report.exits.contains_kind(TaskKind::Dht));
    assert_eq!(
        report.capability_failures.get(SharedWorkerKind::Dht).unwrap(),
        &vec![FailureReasonCode::DhtFailed]
    );
}

#[test]
fn harvested_failures_of_shared_workers_give_notices() {
    let mut ledger = SupervisorLedger::new();
    let notices = ledger.harvest(
        TaskKind::Dht,
        vec![TaskExit::Failed(FailureReasonCode::WorkerPanicked), TaskExit::Graceful],
    );
    assert_eq!(
        notices,
        vec![SessionNotice::SharedWorkerFailed {
            worker: SharedWorkerKind::Dht,
            reason: FailureReasonCode::WorkerPanicked
        }]
    );
    assert!(ledger
        .harvest(TaskKind::Session, vec![TaskExit::Failed(FailureReasonCode::Cancelled)])
        .is_empty());
    ledger.record_delivery_failure(true);
    ledger.record_delivery_failure(true);
    let mut registry_exits = ExitsByKind::new();
    push_exit(&mut registry_exits, TaskKind::Dht, TaskExit::Aborted);
    let report = ledger.finish(ShutdownMode::Forced, TimeSpan::zero(), registry_exits);
    assert_eq!(
        report.exits.get(TaskKind::Dht).unwrap(),
        &vec![
            TaskExit::Aborted,
            TaskExit::Failed(FailureReasonCode::WorkerPanicked),
            TaskExit::Graceful
        ]
    );
    assert_eq!(report.session_failures, vec![FailureReasonCode::CommandBackpressure]);
}

#[test]
fn refused_commands_and_workers() {
    assert_eq!(
        map_lsd_error(LsdError::CommandBackpressure),
        RuntimeError::Backpressure { stage: "lsd_command" }
    );
    assert_eq!(map_lsd_error(LsdError::WorkerClosed), RuntimeError::Cancelled);
    assert_eq!(
        command_worker(&SessionCommand::Dht(DhtCommand::Bootstrap)),
        SharedWorkerKind::Dht
    );
    assert_eq!(
        command_worker(&SessionCommand::Lsd(LsdCommand::Update { torrents: vec![] })),
        SharedWorkerKind::Lsd
    );
    assert_eq!(shared_worker(TaskKind::Session), None);
    assert_eq!(shared_worker(TaskKind::Lsd), Some(SharedWorkerKind::Lsd));
    let mut ledger = SupervisorLedger::new();
    let (event, _) = ledger.command_failed(
        SharedWorkerKind::Lsd,
        &RuntimeError::Backpressure { stage: "session_command" },
    );
    assert_eq!(
        event,
        SessionEvent::SharedWorkerFailed {
            worker: SharedWorkerKind::Lsd,
            reason: FailureReasonCode::CommandBackpressure
        }
    );
}

#[test]
fn shutdown_budgets_add_up_and_saturate() {
    let clean = shutdown_budget(ShutdownMode::Clean, TimeSpan::from_secs(10), TimeSpan::from_secs(2));
    assert_eq!(clean.as_nanos(), 12_100_000_000);
    let forced = shutdown_budget(ShutdownMode::Forced, TimeSpan::from_secs(10), TimeSpan::from_secs(2));
    assert_eq!(forced.as_nanos(), 2_100_000_000);
    let huge = shutdown_budget(ShutdownMode::Clean, TimeSpan::max_value(), TimeSpan::from_secs(1));
    assert_eq!(huge, TimeSpan::max_value());
}
