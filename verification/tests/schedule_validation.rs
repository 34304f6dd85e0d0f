use rex_cli::error::RexError;
use rex_cli::project::ProjectId;
use rex_cli::schedule::{
    counters_for, validate_no_chunk_cycles, validate_no_phase_cycles, validate_no_state_regression,
    validate_slug_uniqueness, Chunk, Phase, Schedule, ScheduleState, Task,
};

fn pid() -> ProjectId {
    ProjectId::parse("test-project").unwrap()
}

fn task(id: &str, state: ScheduleState) -> Task {
    Task { id: id.to_owned(), description: id.to_owned(), state, skill: None, inputs: None, outputs: None }
}

fn chunk(id: &str, state: ScheduleState, tasks: Vec<Task>) -> Chunk {
    Chunk {
        id: id.to_owned(),
        description: id.to_owned(),
        scenarios: vec![],
        spec_refs: vec![],
        blocked_by: vec![],
        state,
        tasks,
    }
}

fn make_schedule() -> Schedule {
    Schedule {
        project: pid(),
        phases: vec![
            Phase {
                id: "phase-a".to_owned(),
                description: "Phase A".to_owned(),
                blocked_by: vec![],
                state: ScheduleState::Pending,
                chunks: vec![
                    Chunk {
                        id: "chunk-1".to_owned(),
                        description: "Chunk 1".to_owned(),
                        scenarios: vec![],
                        spec_refs: vec![],
                        blocked_by: vec![],
                        state: ScheduleState::Pending,
                        tasks: vec![
                            Task {
                                id: "task-a".to_owned(),
                                description: "Task A".to_owned(),
                                state: ScheduleState::Pending,
                                skill: None,
                                inputs: None,
                                outputs: None,
                            },
                            Task {
                                id: "task-b".to_owned(),
                                description: "Task B".to_owned(),
                                state: ScheduleState::Done,
                                skill: None,
                                inputs: None,
                                outputs: None,
                            },
                        ],
                    },
                    Chunk {
                        id: "chunk-2".to_owned(),
                        description: "Chunk 2".to_owned(),
                        scenarios: vec![],
                        spec_refs: vec![],
                        blocked_by: vec!["chunk-1".to_owned()],
                        state: ScheduleState::Done,
                        tasks: vec![],
                    },
                ],
            },
            Phase {
                id: "phase-b".to_owned(),
                description: "Phase B".to_owned(),
                blocked_by: vec!["phase-a".to_owned()],
                state: ScheduleState::Pending,
                chunks: vec![Chunk {
                    id: "chunk-1".to_owned(),
                    description: "Chunk 1 in phase B".to_owned(),
                    scenarios: vec![],
                    spec_refs: vec![],
                    blocked_by: vec![],
                    state: ScheduleState::Pending,
                    tasks: vec![Task {
                        id: "task-a".to_owned(),
                        description: "Task A in phase B".to_owned(),
                        state: ScheduleState::Pending,
                        skill: None,
                        inputs: None,
                        outputs: None,
                    }],
                }],
            },
        ],
    }
}

#[test]
fn validate_no_regression_passes_when_clean() {
    let old = make_schedule();
    let new = make_schedule();
    assert!(validate_no_state_regression(&old, &new).is_ok());
}

#[test]
fn validate_regression_fails_when_done_becomes_pending() {
    let old = make_schedule();
    let mut new = make_schedule();
    new.phases[0].chunks[0].tasks[1].state = ScheduleState::Pending;
    let err = validate_no_state_regression(&old, &new).unwrap_err();
    assert!(matches!(err, RexError::ReplaceWouldRegressState { .. }));
}

#[test]
fn regression_lists_every_offender_in_order() {
    let old = make_schedule();
    let mut new = make_schedule();
    new.phases[0].chunks[0].tasks[1].state = ScheduleState::Pending;
    new.phases[0].chunks[1].state = ScheduleState::InProgress;
    match validate_no_state_regression(&old, &new) {
        Err(RexError::ReplaceWouldRegressState { offenders }) => {
            assert_eq!(offenders, "task:phase-a/chunk-1/task-b, chunk:phase-a/chunk-2");
        }
        other => panic!("expected ReplaceWouldRegressState, got {other:?}"),
    }
}

#[test]
fn counters_for_counts_pending_and_done_correctly() {
    let s = Schedule {
        project: pid(),
        phases: vec![
            Phase {
                id: "phase-a".to_owned(),
                description: "Phase A".to_owned(),
                blocked_by: vec![],
                state: ScheduleState::Pending,
                chunks: vec![
                    chunk(
                        "chunk-1",
                        ScheduleState::Pending,
                        vec![task("task-a", ScheduleState::Pending), task("task-b", ScheduleState::Done)],
                    ),
                    chunk("chunk-2", ScheduleState::Done, vec![]),
                ],
            },
            Phase {
                id: "phase-b".to_owned(),
                description: "Phase B".to_owned(),
                blocked_by: vec![],
                state: ScheduleState::Pending,
                chunks: vec![chunk("chunk-1", ScheduleState::Pending, vec![task("task-a", ScheduleState::Pending)])],
            },
        ],
    };
    let c = counters_for(&s);
    assert_eq!(c.chunks_required, 3);
    assert_eq!(c.chunks_completed, 1);
    assert_eq!(c.tasks_required, 3);
    assert_eq!(c.tasks_completed, 1);
}

#[test]
fn phase_cycle_is_reported() {
    let mut s = make_schedule();
    assert!(validate_no_phase_cycles(&s).is_ok());
    s.phases[0].blocked_by = vec!["phase-b".to_owned()];
    match validate_no_phase_cycles(&s) {
        Err(RexError::BlockedByCycle { addr }) => assert!(addr == "phase-a" || addr == "phase-b"),
        other => panic!("expected BlockedByCycle, got {other:?}"),
    }
}

#[test]
fn chunk_cycle_is_reported() {
    let mut s = make_schedule();
    assert!(validate_no_chunk_cycles(&s).is_ok());
    s.phases[0].chunks[0].blocked_by = vec!["chunk-2".to_owned()];
    assert!(matches!(validate_no_chunk_cycles(&s), Err(RexError::BlockedByCycle { .. })));
}

#[test]
fn duplicate_slugs_are_reported() {
    let mut s = make_schedule();
    assert!(validate_slug_uniqueness(&s).is_ok());
    s.phases[1].id = "phase-a".to_owned();
    match validate_slug_uniqueness(&s) {
        Err(RexError::DuplicateSlug { addr }) => assert_eq!(addr, "phase-a"),
        other => panic!("expected DuplicateSlug, got {other:?}"),
    }
}

#[test]
fn replacing_with_itself_never_regresses() {
    let mut s = make_schedule();
    for p in s.phases.iter_mut() {
        p.state = ScheduleState::Done;
    }
    let copy = Schedule {
        project: pid(),
        phases: s.phases.iter().map(|p| p.duplicate()).collect(),
    };
    assert!(validate_slug_uniqueness(&s).is_ok());
    assert!(validate_no_state_regression(&s, &copy).is_ok());
}

fn bare_phase(id: &str, blocked_by: &[&str]) -> Phase {
    Phase {
        id: id.to_owned(),
        description: String::new(),
        blocked_by: blocked_by.iter().map(|s| s.to_string()).collect(),
        state: ScheduleState::Pending,
        chunks: vec![],
    }
}

#[test]
fn duplicate_phase_ids_without_references_have_no_cycle() {
    let s = Schedule { project: pid(), phases: vec![bare_phase("a", &[]), bare_phase("a", &[])] };
    assert!(validate_no_phase_cycles(&s).is_ok());
}

#[test]
fn phase_cycle_error_names_a_phase_on_the_cycle() {
    // c waits on b, b and a wait on each other: c is stuck but not on the cycle.
    let s = Schedule {
        project: pid(),
        phases: vec![bare_phase("c", &["b"]), bare_phase("a", &["b"]), bare_phase("b", &["a"])],
    };
    match validate_no_phase_cycles(&s) {
        Err(RexError::BlockedByCycle { addr }) => assert!(addr == "a" || addr == "b", "got {addr}"),
        other => panic!("expected BlockedByCycle, got {other:?}"),
    }
}

#[test]
fn self_reference_is_a_cycle() {
    let s = Schedule { project: pid(), phases: vec![bare_phase("a", &[]), bare_phase("z", &["z"])] };
    match validate_no_phase_cycles(&s) {
        Err(RexError::BlockedByCycle { addr }) => assert_eq!(addr, "z"),
        other => panic!("expected BlockedByCycle, got {other:?}"),
    }
}
