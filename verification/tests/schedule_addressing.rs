use rex_cli::error::RexError;
use rex_cli::project::ProjectId;
use rex_cli::schedule::{
    find_chunk, find_phase, find_task, parse_dotted, rewrite_blocked_by_at_chunk_level,
    rewrite_blocked_by_at_phase_level, slug_from_description, unique_slug, Chunk, Phase, Schedule,
    ScheduleState, Task,
};

fn task(id: &str, state: ScheduleState) -> Task {
    Task { id: id.to_owned(), description: id.to_owned(), state, skill: None, inputs: None, outputs: None }
}

fn chunk(id: &str, blocked_by: Vec<String>, state: ScheduleState, tasks: Vec<Task>) -> Chunk {
    Chunk {
        id: id.to_owned(),
        description: id.to_owned(),
        scenarios: vec![],
        spec_refs: vec![],
        blocked_by,
        state,
        tasks,
    }
}

fn make_schedule() -> Schedule {
    Schedule {
        project: ProjectId::parse("test-project").unwrap(),
        phases: vec![
            Phase {
                id: "phase-a".to_owned(),
                description: "Phase A".to_owned(),
                blocked_by: vec![],
                state: ScheduleState::Pending,
                chunks: vec![
                    chunk(
                        "chunk-1",
                        vec![],
                        ScheduleState::Pending,
                        vec![task("task-a", ScheduleState::Pending), task("task-b", ScheduleState::Done)],
                    ),
                    chunk("chunk-2", vec!["chunk-1".to_owned()], ScheduleState::Done, vec![]),
                ],
            },
            Phase {
                id: "phase-b".to_owned(),
                description: "Phase B".to_owned(),
                blocked_by: vec!["phase-a".to_owned()],
                state: ScheduleState::Pending,
                chunks: vec![chunk(
                    "chunk-1",
                    vec![],
                    ScheduleState::Pending,
                    vec![task("task-a", ScheduleState::Pending)],
                )],
            },
        ],
    }
}

#[test]
fn unique_slug_returns_input_when_no_collision() {
    let result = unique_slug(&["alpha", "beta"], "gamma");
    assert_eq!(result, "gamma");
}

#[test]
fn unique_slug_appends_numeric_suffix_on_collision() {
    let result = unique_slug(&["alpha", "beta"], "alpha");
    assert_eq!(result, "alpha-2");
}

#[test]
fn unique_slug_skips_existing_suffixes() {
    let result = unique_slug(&["alpha", "alpha-2", "alpha-3"], "alpha");
    assert_eq!(result, "alpha-4");
}

#[test]
fn find_phase_by_slug() {
    let s = make_schedule();
    let (idx, phase) = find_phase(&s, "phase-a").unwrap();
    assert_eq!(idx, 0);
    assert_eq!(phase.id, "phase-a");
}

#[test]
fn find_phase_by_position() {
    let s = make_schedule();
    let (idx, phase) = find_phase(&s, "2").unwrap();
    assert_eq!(idx, 1);
    assert_eq!(phase.id, "phase-b");
}

#[test]
fn find_phase_not_found_returns_error() {
    let s = make_schedule();
    assert!(matches!(find_phase(&s, "nonexistent"), Err(RexError::ScheduleAddrNotFound { .. })));
}

#[test]
fn find_chunk_by_dotted_position() {
    let s = make_schedule();
    let (pi, ci, chunk) = find_chunk(&s, "1.2").unwrap();
    assert_eq!(pi, 0);
    assert_eq!(ci, 1);
    assert_eq!(chunk.id, "chunk-2");
}

#[test]
fn find_chunk_by_unique_slug() {
    let s = make_schedule();
    let (pi, ci, chunk) = find_chunk(&s, "chunk-2").unwrap();
    assert_eq!(pi, 0);
    assert_eq!(ci, 1);
    assert_eq!(chunk.id, "chunk-2");
}

#[test]
fn find_chunk_ambiguous_slug_returns_error() {
    let s = make_schedule();
    let err = find_chunk(&s, "chunk-1").unwrap_err();
    match err {
        RexError::AmbiguousAddr { addr, candidates } => {
            assert_eq!(addr, "chunk-1");
            assert!(candidates.contains("1.1"), "candidates missing 1.1: {candidates}");
            assert!(candidates.contains("2.1"), "candidates missing 2.1: {candidates}");
        }
        other => panic!("expected AmbiguousAddr, got {other:?}"),
    }
}

#[test]
fn find_task_by_dotted_position() {
    let s = make_schedule();
    let (pi, ci, ti, task) = find_task(&s, "1.1.2").unwrap();
    assert_eq!(pi, 0);
    assert_eq!(ci, 0);
    assert_eq!(ti, 1);
    assert_eq!(task.id, "task-b");
}

#[test]
fn find_task_ambiguous_slug_returns_error() {
    let s = make_schedule();
    let err = find_task(&s, "task-a").unwrap_err();
    match err {
        RexError::AmbiguousAddr { addr, candidates } => {
            assert_eq!(addr, "task-a");
            assert!(candidates.contains("1.1.1"), "candidates missing 1.1.1: {candidates}");
            assert!(candidates.contains("2.1.1"), "candidates missing 2.1.1: {candidates}");
        }
        other => panic!("expected AmbiguousAddr, got {other:?}"),
    }
}

#[test]
fn rewrite_blocked_by_renames_every_match_at_phase_level() {
    let mut s = make_schedule();
    rewrite_blocked_by_at_phase_level(&mut s, "phase-a", Some("phase-alpha"));
    assert!(s.phases[1].blocked_by.contains(&"phase-alpha".to_owned()));
    assert!(!s.phases[1].blocked_by.contains(&"phase-a".to_owned()));
}

#[test]
fn rewrite_blocked_by_drops_when_target_removed_at_phase_level() {
    let mut s = make_schedule();
    rewrite_blocked_by_at_phase_level(&mut s, "phase-a", None);
    assert!(s.phases[1].blocked_by.is_empty());
}

#[test]
fn rewrite_blocked_by_renames_every_match_at_chunk_level() {
    let mut s = make_schedule();
    rewrite_blocked_by_at_chunk_level(&mut s, 0, "chunk-1", Some("chunk-one"));
    assert!(s.phases[0].chunks[1].blocked_by.contains(&"chunk-one".to_owned()));
}

#[test]
fn rewrite_blocked_by_drops_when_target_removed_at_chunk_level() {
    let mut s = make_schedule();
    rewrite_blocked_by_at_chunk_level(&mut s, 0, "chunk-1", None);
    assert!(s.phases[0].chunks[1].blocked_by.is_empty());
}

#[test]
fn ambiguous_candidates_are_listed_in_order() {
    let s = make_schedule();
    match find_chunk(&s, "chunk-1").unwrap_err() {
        RexError::AmbiguousAddr { candidates, .. } => assert_eq!(candidates, "1.1, 2.1"),
        other => panic!("expected AmbiguousAddr, got {other:?}"),
    }
    match find_task(&s, "task-a").unwrap_err() {
        RexError::AmbiguousAddr { candidates, .. } => assert_eq!(candidates, "1.1.1, 2.1.1"),
        other => panic!("expected AmbiguousAddr, got {other:?}"),
    }
}

#[test]
fn positions_out_of_range_are_not_found() {
    let s = make_schedule();
    assert!(matches!(find_phase(&s, "3"), Err(RexError::ScheduleAddrNotFound { .. })));
    assert!(matches!(find_chunk(&s, "2.2"), Err(RexError::ScheduleAddrNotFound { .. })));
    assert!(matches!(find_task(&s, "1.2.1"), Err(RexError::ScheduleAddrNotFound { .. })));
    assert!(matches!(find_phase(&s, "0"), Err(RexError::ScheduleAddrNotFound { .. })));
}

#[test]
fn dotted_addresses_parse_to_positions() {
    assert_eq!(parse_dotted("1.2.3"), Some(vec![1, 2, 3]));
    assert_eq!(parse_dotted("12"), Some(vec![12]));
    assert_eq!(parse_dotted("phase-a"), None);
    assert_eq!(parse_dotted("1..2"), None);
}

#[test]
fn slug_from_description_is_slugged_and_unique() {
    let existing = ["add-login"];
    assert_eq!(slug_from_description(&existing, "Add Login"), "add-login-2");
    assert_eq!(slug_from_description(&[], "Hello, World!"), "hello-world");
}
