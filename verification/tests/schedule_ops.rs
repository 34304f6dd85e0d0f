use rex_cli::error::RexError;
use rex_cli::project::ProjectId;
use rex_cli::schedule::{
    add_chunk, add_phase, add_task, counters_for, mark_task_done, move_chunk, move_phase, move_task,
    next_pending_chunk, prior_chunk, remove_chunk, remove_phase, remove_task, update_chunk,
    update_phase, update_task, Chunk, ChunkEdit, Phase, PhaseEdit, Schedule, ScheduleState, Task,
    TaskEdit,
};

fn task(id: &str, state: ScheduleState) -> Task {
    Task { id: id.to_owned(), description: id.to_owned(), state, skill: None, inputs: None, outputs: None }
}

fn chunk(id: &str, blocked_by: Vec<String>, state: ScheduleState, tasks: Vec<Task>) -> Chunk {
    Chunk {
        id: id.to_owned(),
        description: id.to_owned(),
        scenarios: vec![],
        spec_refs: vec![],
        blocked_by,
        state,
        tasks,
    }
}

fn make_schedule() -> Schedule {
    Schedule {
        project: ProjectId::parse("test-project").unwrap(),
        phases: vec![
            Phase {
                id: "phase-a".to_owned(),
                description: "Phase A".to_owned(),
                blocked_by: vec![],
                state: ScheduleState::Pending,
                chunks: vec![
                    chunk(
                        "chunk-1",
                        vec![],
                        ScheduleState::Pending,
                        vec![task("task-a", ScheduleState::Pending), task("task-b", ScheduleState::Done)],
                    ),
                    chunk("chunk-2", vec!["chunk-1".to_owned()], ScheduleState::Done, vec![]),
                ],
            },
            Phase {
                id: "phase-b".to_owned(),
                description: "Phase B".to_owned(),
                blocked_by: vec!["phase-a".to_owned()],
                state: ScheduleState::Pending,
                chunks: vec![chunk(
                    "chunk-1",
                    vec![],
                    ScheduleState::Pending,
                    vec![task("task-a", ScheduleState::Pending)],
                )],
            },
        ],
    }
}

#[test]
fn add_phase_appends() {
    let mut s = make_schedule();
    let new_phase = Phase {
        id: "phase-c".to_owned(),
        description: "Phase C".to_owned(),
        blocked_by: vec![],
        state: ScheduleState::Pending,
        chunks: vec![],
    };
    add_phase(&mut s, new_phase);
    assert_eq!(s.phases.len(), 3);
    assert_eq!(s.phases[2].id, "phase-c");
}

#[test]
fn update_phase_renames_and_rewrites_refs() {
    let mut s = make_schedule();
    let edit = PhaseEdit { new_id: Some("phase-alpha".to_owned()), ..Default::default() };
    update_phase(&mut s, "phase-a", edit).unwrap();
    assert_eq!(s.phases[0].id, "phase-alpha");
    assert!(s.phases[1].blocked_by.contains(&"phase-alpha".to_owned()));
}

#[test]
fn remove_phase_drops_dangling_refs() {
    let mut s = make_schedule();
    remove_phase(&mut s, "phase-a").unwrap();
    assert_eq!(s.phases.len(), 1);
    assert!(s.phases[0].blocked_by.is_empty());
}

#[test]
fn move_phase_reorders() {
    let mut s = make_schedule();
    move_phase(&mut s, "phase-b", 1).unwrap();
    assert_eq!(s.phases[0].id, "phase-b");
    assert_eq!(s.phases[1].id, "phase-a");
}

#[test]
fn add_chunk_under_phase() {
    let mut s = make_schedule();
    let chunk = Chunk {
        id: "chunk-new".to_owned(),
        description: "New chunk".to_owned(),
        scenarios: vec![],
        spec_refs: vec![],
        blocked_by: vec![],
        state: ScheduleState::Pending,
        tasks: vec![],
    };
    add_chunk(&mut s, "phase-a", chunk).unwrap();
    assert_eq!(s.phases[0].chunks.len(), 3);
    assert_eq!(s.phases[0].chunks[2].id, "chunk-new");
}

#[test]
fn remove_chunk_cascades_and_drops_refs() {
    let mut s = make_schedule();
    remove_chunk(&mut s, "1.1").unwrap();
    assert!(s.phases[0].chunks[0].blocked_by.is_empty());
}

#[test]
fn move_chunk_to_other_phase() {
    let mut s = make_schedule();
    move_chunk(&mut s, "1.2", Some("phase-b"), None).unwrap();
    assert_eq!(s.phases[0].chunks.len(), 1);
    assert_eq!(s.phases[1].chunks.len(), 2);
}

#[test]
fn add_task_under_chunk() {
    let mut s = make_schedule();
    let task = Task {
        id: "task-new".to_owned(),
        description: "New task".to_owned(),
        state: ScheduleState::Pending,
        skill: None,
        inputs: None,
        outputs: None,
    };
    add_task(&mut s, "1.1", task).unwrap();
    assert_eq!(s.phases[0].chunks[0].tasks.len(), 3);
    assert_eq!(s.phases[0].chunks[0].tasks[2].id, "task-new");
}

#[test]
fn update_task_changes_state() {
    let mut s = make_schedule();
    let edit = TaskEdit { state: Some(ScheduleState::Done), ..Default::default() };
    let updated = update_task(&mut s, "1.1.1", edit).unwrap();
    assert_eq!(updated.state, ScheduleState::Done);
}

#[test]
fn remove_task_removes_correct() {
    let mut s = make_schedule();
    let removed = remove_task(&mut s, "1.1.1").unwrap();
    assert_eq!(removed.id, "task-a");
    assert_eq!(s.phases[0].chunks[0].tasks.len(), 1);
}

#[test]
fn move_task_to_other_chunk() {
    let mut s = make_schedule();
    move_task(&mut s, "1.1.1", Some("2.1"), None).unwrap();
    assert_eq!(s.phases[0].chunks[0].tasks.len(), 1);
    assert_eq!(s.phases[1].chunks[0].tasks.len(), 2);
}

#[test]
fn rename_to_taken_id_is_duplicate_slug() {
    let mut s = make_schedule();
    let edit = PhaseEdit { new_id: Some("phase-b".to_owned()), ..Default::default() };
    assert!(matches!(update_phase(&mut s, "phase-a", edit), Err(RexError::DuplicateSlug { .. })));
    assert_eq!(s.phases[0].id, "phase-a");
    let edit = ChunkEdit { new_id: Some("chunk-2".to_owned()), ..Default::default() };
    assert!(matches!(update_chunk(&mut s, "1.1", edit), Err(RexError::DuplicateSlug { .. })));
    let edit = TaskEdit { new_id: Some("task-b".to_owned()), ..Default::default() };
    assert!(matches!(update_task(&mut s, "1.1.1", edit), Err(RexError::DuplicateSlug { .. })));
}

#[test]
fn move_phase_past_end_is_not_found() {
    let mut s = make_schedule();
    match move_phase(&mut s, "phase-a", 5) {
        Err(RexError::ScheduleAddrNotFound { addr }) => assert_eq!(addr, "5"),
        other => panic!("expected ScheduleAddrNotFound, got {other:?}"),
    }
    assert_eq!(s.phases[0].id, "phase-a");
}

#[test]
fn chunk_rename_rewrites_sibling_refs() {
    let mut s = make_schedule();
    let edit = ChunkEdit { new_id: Some("chunk-one".to_owned()), ..Default::default() };
    update_chunk(&mut s, "1.1", edit).unwrap();
    assert_eq!(s.phases[0].chunks[0].id, "chunk-one");
    assert_eq!(s.phases[0].chunks[1].blocked_by, vec!["chunk-one".to_owned()]);
}

#[test]
fn mark_task_done_completes_and_promotes() {
    let mut s = make_schedule();
    let before = counters_for(&s);
    let done = mark_task_done(&mut s).unwrap();
    assert_eq!(done.task.id, "task-a");
    assert_eq!(done.task.state, ScheduleState::Done);
    assert!(done.chunk_promoted);
    assert!(done.phase_promoted);
    let after = counters_for(&s);
    assert_eq!(after.tasks_completed, before.tasks_completed + 1);
    assert_eq!(after.chunks_completed, before.chunks_completed + 1);
    assert_eq!(after.tasks_required, before.tasks_required);
    assert_eq!(after.chunks_required, before.chunks_required);
    assert_eq!(s.phases[0].state, ScheduleState::Done);
    let next = mark_task_done(&mut s).unwrap();
    assert_eq!(next.task.id, "task-a");
    assert!(next.chunk_promoted);
    assert!(mark_task_done(&mut s).is_none());
}

#[test]
fn next_and_prior_chunk() {
    let s = make_schedule();
    assert_eq!(next_pending_chunk(&s).unwrap().id, "chunk-1");
    assert_eq!(prior_chunk(&s).unwrap().id, "chunk-2");
    let mut s2 = make_schedule();
    s2.phases[0].chunks[0].state = ScheduleState::Done;
    s2.phases[1].chunks[0].state = ScheduleState::Done;
    assert!(next_pending_chunk(&s2).is_none());
}

#[test]
fn move_phase_to_position_zero_is_not_found() {
    let mut s = make_schedule();
    match move_phase(&mut s, "phase-b", 0) {
        Err(RexError::ScheduleAddrNotFound { addr }) => assert_eq!(addr, "0"),
        other => panic!("expected ScheduleAddrNotFound, got {other:?}"),
    }
    assert_eq!(s.phases[0].id, "phase-a");
}

#[test]
fn task_complete_advances_only_the_chunk_chunk_next_reports() {
    let mut s = Schedule {
        project: ProjectId::parse("test-project").unwrap(),
        phases: vec![Phase {
            id: "phase-a".to_owned(),
            description: "Phase A".to_owned(),
            blocked_by: vec![],
            state: ScheduleState::Pending,
            chunks: vec![
                chunk("empty", vec![], ScheduleState::Pending, vec![]),
                chunk("later", vec![], ScheduleState::Pending, vec![task("t", ScheduleState::Pending)]),
            ],
        }],
    };
    assert_eq!(next_pending_chunk(&s).map(|c| c.id.clone()), Some("empty".to_owned()));
    assert!(mark_task_done(&mut s).is_none());
    assert_eq!(s.phases[0].chunks[1].tasks[0].state, ScheduleState::Pending);
    assert_eq!(s.phases[0].chunks[0].state, ScheduleState::Pending);
}
