use rex_cli::autorun::{AutorunPhase, OperatorStatus};
use rex_cli::runner::{recover_state, RecoveryAction, Report, RunAction, RunEvent, RunState, SavedRun, Stage, StopReason};

fn report(status: OperatorStatus, message: &str, item: &str) -> Option<Report> {
    Some(Report { status, message: message.to_owned(), item: item.to_owned() })
}

fn fresh() -> RunState {
    RunState::start(&RecoveryAction::CleanStart)
}

fn exit_reason(a: RunAction) -> StopReason {
    match a {
        RunAction::Exit { reason } => reason,
        other => panic!("expected an exit, got {other:?}"),
    }
}

#[test]
fn recover_state_classifies_saved_runs() {
    assert!(matches!(recover_state(None), RecoveryAction::CleanStart));
    let running = SavedRun {
        phase: AutorunPhase::Running,
        session_id: None,
        pending_question: None,
        agent_pgid: Some(42),
        invocation_count: 7,
    };
    assert!(matches!(
        recover_state(Some(running)),
        RecoveryAction::StartFresh { invocation_count: 7, kill_pgid: Some(42) }
    ));
    let pending = SavedRun {
        phase: AutorunPhase::PendingInput,
        session_id: Some("s1".into()),
        pending_question: Some("Which DB?".into()),
        agent_pgid: None,
        invocation_count: 3,
    };
    match recover_state(Some(pending)) {
        RecoveryAction::ResumePendingInput { session_id, question, invocation_count, kill_pgid } => {
            assert_eq!(session_id, "s1");
            assert_eq!(question, "Which DB?");
            assert_eq!(invocation_count, 3);
            assert_eq!(kill_pgid, None);
        }
        other => panic!("unexpected {other:?}"),
    }
    let corrupt = SavedRun {
        phase: AutorunPhase::PendingInput,
        session_id: None,
        pending_question: Some("q".into()),
        agent_pgid: Some(9),
        invocation_count: 2,
    };
    assert!(matches!(
        recover_state(Some(corrupt)),
        RecoveryAction::StartFresh { invocation_count: 2, kill_pgid: None }
    ));
}

#[test]
fn runner_question_round_then_budget_stop() {
    let mut s = fresh();
    assert!(matches!(s.step(RunEvent::BudgetChecked { exceeded: false }, 5), RunAction::Invoke { n: 1 }));
    let a = s.step(
        RunEvent::Finished { session_id: "sess-1".into(), report: report(OperatorStatus::NeedsInput, "Which DB?", "db") },
        5,
    );
    match a {
        RunAction::Ask { question, item } => {
            assert_eq!(question, "Which DB?");
            assert_eq!(item, "db");
        }
        other => panic!("unexpected {other:?}"),
    }
    match s.step(RunEvent::Replied { reply: "postgres".into() }, 5) {
        RunAction::Resume { session, reply } => {
            assert_eq!(session, "sess-1");
            assert_eq!(reply, "postgres");
        }
        other => panic!("unexpected {other:?}"),
    }
    let a = s.step(
        RunEvent::Finished { session_id: "sess-2".into(), report: report(OperatorStatus::NeedsInput, "Version?", "other") },
        5,
    );
    match a {
        RunAction::Ask { question, item } => {
            assert_eq!(question, "Version?");
            assert_eq!(item, "db");
        }
        other => panic!("unexpected {other:?}"),
    }
    match s.step(RunEvent::Replied { reply: "16".into() }, 5) {
        RunAction::Resume { session, .. } => assert_eq!(session, "sess-2"),
        other => panic!("unexpected {other:?}"),
    }
    let a = s.step(RunEvent::Finished { session_id: "sess-2".into(), report: report(OperatorStatus::Completed, "done", "db") }, 5);
    assert!(matches!(a, RunAction::ItemDone { .. }));
    assert_eq!(s.stage, Stage::Top);
    assert!(matches!(s.step(RunEvent::BudgetChecked { exceeded: false }, 5), RunAction::Invoke { n: 2 }));
    let a = s.step(RunEvent::Finished { session_id: "x".into(), report: report(OperatorStatus::Completed, "ok", "") }, 5);
    assert!(matches!(a, RunAction::ItemDone { .. }));
    let r = exit_reason(s.step(RunEvent::BudgetChecked { exceeded: true }, 5));
    assert_eq!(r, StopReason::BudgetReached);
    assert_eq!(r.exit_code(), 5);
    assert_eq!(s.stage, Stage::Stopped);
}

#[test]
fn runner_retries_transient_failures_with_backoff_then_gives_up() {
    let mut s = fresh();
    s.step(RunEvent::BudgetChecked { exceeded: false }, 2);
    let a = s.step(RunEvent::Failed { auth_expired: false, error: "Rate limit exceeded".into() }, 2);
    assert!(matches!(a, RunAction::Retry { attempt: 1, delay_secs: 30 }));
    s.step(RunEvent::BudgetChecked { exceeded: false }, 2);
    let a = s.step(RunEvent::SpawnFailed { error: "connection refused".into() }, 2);
    assert!(matches!(a, RunAction::Retry { attempt: 2, delay_secs: 60 }));
    assert!(matches!(s.step(RunEvent::BudgetChecked { exceeded: false }, 2), RunAction::Invoke { n: 3 }));
    let r = exit_reason(s.step(RunEvent::Failed { auth_expired: false, error: "Overloaded".into() }, 2));
    assert_eq!(r, StopReason::RetriesExhausted);
    assert_eq!(r.exit_code(), 3);
}

#[test]
fn runner_spawn_failures_exhaust_retries_with_code_three() {
    let mut s = fresh();
    s.step(RunEvent::BudgetChecked { exceeded: false }, 1);
    let a = s.step(RunEvent::SpawnFailed { error: "connection refused".into() }, 1);
    assert!(matches!(a, RunAction::Retry { attempt: 1, .. }));
    s.step(RunEvent::BudgetChecked { exceeded: false }, 1);
    let r = exit_reason(s.step(RunEvent::SpawnFailed { error: "connection refused".into() }, 1));
    assert_eq!(r, StopReason::RetriesExhausted);
    assert_eq!(r.exit_code(), 3);
}

#[test]
fn runner_fatal_errors_and_kill() {
    let mut s = fresh();
    s.step(RunEvent::BudgetChecked { exceeded: false }, 5);
    let r = exit_reason(s.step(RunEvent::Failed { auth_expired: false, error: "segfault".into() }, 5));
    assert_eq!(r, StopReason::Fatal);
    assert_eq!(r.exit_code(), 1);
    let mut s = fresh();
    s.step(RunEvent::BudgetChecked { exceeded: false }, 5);
    let r = exit_reason(s.step(RunEvent::SpawnFailed { error: "no such file".into() }, 5));
    assert_eq!(r, StopReason::SpawnFailed);
    let mut s = fresh();
    s.step(RunEvent::BudgetChecked { exceeded: false }, 5);
    let r = exit_reason(s.step(RunEvent::Killed, 5));
    assert_eq!(r.exit_code(), 6);
    let mut s = fresh();
    s.step(RunEvent::BudgetChecked { exceeded: false }, 5);
    let r = exit_reason(s.step(RunEvent::Finished { session_id: "s".into(), report: report(OperatorStatus::ProjectDone, "", "") }, 5));
    assert_eq!(r.exit_code(), 0);
    let mut s = fresh();
    s.step(RunEvent::BudgetChecked { exceeded: false }, 5);
    let r = exit_reason(s.step(RunEvent::Finished { session_id: "s".into(), report: None }, 5));
    assert_eq!(r, StopReason::ParseError);
    let mut s = fresh();
    s.step(RunEvent::BudgetChecked { exceeded: false }, 5);
    s.step(RunEvent::Finished { session_id: "s".into(), report: report(OperatorStatus::NeedsInput, "q", "i") }, 5);
    let r = exit_reason(s.step(RunEvent::ReplyTimedOut, 5));
    assert_eq!(r.exit_code(), 2);
}

#[test]
fn runner_refreshes_auth_only_once() {
    let mut s = fresh();
    s.step(RunEvent::BudgetChecked { exceeded: false }, 5);
    let a = s.step(RunEvent::Failed { auth_expired: true, error: "OAuth token has expired".into() }, 5);
    assert!(matches!(a, RunAction::RefreshAuth));
    assert!(matches!(s.step(RunEvent::AuthConfirmed, 5), RunAction::Continue { warning: false }));
    assert!(s.auth_refreshed);
    s.step(RunEvent::BudgetChecked { exceeded: false }, 5);
    let r = exit_reason(s.step(RunEvent::Failed { auth_expired: true, error: "OAuth token has expired".into() }, 5));
    assert_eq!(r, StopReason::Fatal);
}

#[test]
fn runner_recovery_resumes_saved_session() {
    let rec = RecoveryAction::ResumePendingInput {
        session_id: "old".into(),
        question: "q".into(),
        invocation_count: 4,
        kill_pgid: None,
    };
    let mut s = RunState::start(&rec);
    assert_eq!(s.stage, Stage::RecoverAsking);
    match s.step(RunEvent::Replied { reply: "yes".into() }, 5) {
        RunAction::Resume { session, reply } => {
            assert_eq!(session, "old");
            assert_eq!(reply, "yes");
        }
        other => panic!("unexpected {other:?}"),
    }
    let a = s.step(RunEvent::Finished { session_id: "old".into(), report: report(OperatorStatus::Completed, "", "") }, 5);
    assert!(matches!(a, RunAction::Continue { warning: false }));
    assert_eq!(s.invocations, 5);
    assert!(matches!(s.step(RunEvent::BudgetChecked { exceeded: false }, 5), RunAction::Invoke { n: 6 }));
    let mut s = RunState::start(&rec);
    s.step(RunEvent::Replied { reply: "yes".into() }, 5);
    let a = s.step(RunEvent::Failed { auth_expired: false, error: "boom".into() }, 5);
    assert!(matches!(a, RunAction::Continue { warning: true }));
    assert_eq!(s.invocations, 4);
}
