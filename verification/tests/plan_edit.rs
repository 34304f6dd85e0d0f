use rex_cli::models::milestone_edit::{remove_milestone, upsert_milestone};
use rex_cli::models::objective_edit::{remove_objective, upsert_objective};
use rex_cli::models::plan_edit::{build_agent, remove_task, upsert_task, PlanError};
use rex_cli::models::planning::{ListMods, Milestone, Objective, PlanningStatus, PlanningStore, Task};
use rex_cli::models::project_status::Agent;

fn objective(id: &str) -> Objective {
    Objective {
        id: id.to_owned(),
        milestone_id: "m1".to_owned(),
        title: id.to_owned(),
        description: String::new(),
        status: PlanningStatus::NotStarted,
        references: vec![],
        outputs: vec![],
        checklist: vec![],
        tasks: vec![],
        upstream: vec![],
        downstream: vec![],
    }
}

fn store() -> PlanningStore {
    PlanningStore { milestones: vec![], objectives: vec![objective("o1"), objective("o2")], tasks: vec![] }
}

fn create(s: &mut PlanningStore, id: &str, obj: &str, mods: ListMods) -> Result<bool, PlanError> {
    upsert_task(
        s,
        id,
        Some(obj.to_owned()),
        Some(format!("Title {id}")),
        Some("desc".to_owned()),
        None,
        None,
        None,
        vec![],
        None,
        mods,
    )
}

fn task<'a>(s: &'a PlanningStore, id: &str) -> &'a Task {
    s.tasks.iter().find(|t| t.id == id).unwrap()
}

#[test]
fn upsert_task_creates_and_registers_under_objective() {
    let mut s = store();
    assert_eq!(create(&mut s, "t1", "o1", ListMods::default()).unwrap(), true);
    let t = task(&s, "t1");
    assert_eq!(t.objective_id, "o1");
    assert_eq!(t.title, "Title t1");
    assert_eq!(t.status, PlanningStatus::NotStarted);
    assert!(t.agent.is_none());
    assert_eq!(s.objectives[0].tasks, vec!["t1".to_owned()]);
    assert!(s.objectives[1].tasks.is_empty());
}

#[test]
fn upsert_task_requires_fields_for_new_task() {
    let mut s = store();
    let e = upsert_task(&mut s, "t1", None, None, None, None, None, None, vec![], None, ListMods::default())
        .unwrap_err();
    match e {
        PlanError::Validation(m) => assert_eq!(m, "--objective is required when creating a new task."),
        _ => panic!("expected a validation error"),
    }
    let e = upsert_task(&mut s, "t1", Some("o1".into()), None, None, None, None, None, vec![], None, ListMods::default())
        .unwrap_err();
    assert_eq!(e.message(), "--title is required when creating a new task.");
    let e = upsert_task(
        &mut s,
        "t1",
        Some("o1".into()),
        Some("T".into()),
        None,
        None,
        None,
        None,
        vec![],
        None,
        ListMods::default(),
    )
    .unwrap_err();
    assert_eq!(e.message(), "--description is required when creating a new task.");
    assert!(s.tasks.is_empty());
}

#[test]
fn upsert_task_unknown_objective_is_not_found() {
    let mut s = store();
    let e = create(&mut s, "t1", "nope", ListMods::default()).unwrap_err();
    match e {
        PlanError::NotFound(m) => assert_eq!(m, "Objective \"nope\" not found."),
        _ => panic!("expected not found"),
    }
    assert!(s.tasks.is_empty());
}

#[test]
fn upsert_task_mirrors_upstream_and_downstream() {
    let mut s = store();
    create(&mut s, "a", "o1", ListMods::default()).unwrap();
    create(&mut s, "c", "o1", ListMods::default()).unwrap();
    let mods = ListMods { add_upstream: vec!["a".into()], add_downstream: vec!["c".into()], ..ListMods::default() };
    create(&mut s, "b", "o1", mods).unwrap();
    assert_eq!(task(&s, "b").upstream, vec!["a".to_owned()]);
    assert_eq!(task(&s, "b").downstream, vec!["c".to_owned()]);
    assert_eq!(task(&s, "a").downstream, vec!["b".to_owned()]);
    assert_eq!(task(&s, "c").upstream, vec!["b".to_owned()]);
    let mods = ListMods { remove_upstream: vec!["a".into()], ..ListMods::default() };
    assert_eq!(
        upsert_task(&mut s, "b", None, None, None, None, None, None, vec![], None, mods).unwrap(),
        false
    );
    assert!(task(&s, "b").upstream.is_empty());
    assert!(task(&s, "a").downstream.is_empty());
    assert_eq!(task(&s, "c").upstream, vec!["b".to_owned()]);
}

#[test]
fn upsert_task_updates_fields_and_moves_objective() {
    let mut s = store();
    create(&mut s, "t1", "o1", ListMods::default()).unwrap();
    let created = upsert_task(
        &mut s,
        "t1",
        Some("o2".into()),
        Some("New".into()),
        None,
        Some(PlanningStatus::InProgress),
        Some("opus".into()),
        None,
        vec![],
        None,
        ListMods::default(),
    )
    .unwrap();
    assert!(!created);
    let t = task(&s, "t1");
    assert_eq!(t.objective_id, "o2");
    assert_eq!(t.title, "New");
    assert_eq!(t.description, "desc");
    assert_eq!(t.status, PlanningStatus::InProgress);
    let a = t.agent.as_ref().unwrap();
    assert_eq!((a.count, a.effort.as_str(), a.model.as_str()), (1, "high", "opus"));
    assert!(s.objectives[0].tasks.is_empty());
    assert_eq!(s.objectives[1].tasks, vec!["t1".to_owned()]);
    let e = upsert_task(&mut s, "t1", Some("zz".into()), None, None, None, None, None, vec![], None, ListMods::default())
        .unwrap_err();
    assert_eq!(e.message(), "Objective \"zz\" not found.");
}

#[test]
fn upsert_task_bad_checklist_entry_leaves_store_unchanged() {
    let mut s = store();
    create(&mut s, "t1", "o1", ListMods::default()).unwrap();
    let mods = ListMods {
        add_references: vec!["doc.md".into()],
        add_checklist: vec!["no-colon".into()],
        ..ListMods::default()
    };
    let e = upsert_task(&mut s, "t1", None, Some("X".into()), None, None, None, None, vec![], None, mods).unwrap_err();
    assert_eq!(e.message(), "Invalid checklist format: \"no-colon\". Expected \"id:text\".");
    let t = task(&s, "t1");
    assert_eq!(t.title, "Title t1");
    assert!(t.references.is_empty());
}

#[test]
fn build_agent_merges_given_fields() {
    assert!(build_agent(None, None, None, vec![], None).is_none());
    let fresh = build_agent(None, None, Some("max".into()), vec![], None).unwrap();
    assert_eq!((fresh.count, fresh.effort.as_str(), fresh.model.as_str()), (1, "max", "sonnet"));
    let prev = Agent { count: 3, effort: "low".into(), model: "opus".into(), skills: vec!["s".into()] };
    let kept = build_agent(Some(&prev), None, None, vec![], None).unwrap();
    assert_eq!(kept.skills, vec!["s".to_owned()]);
    assert_eq!(kept.count, 3);
    let merged = build_agent(Some(&prev), None, None, vec!["t".into()], Some(2)).unwrap();
    assert_eq!((merged.count, merged.effort.as_str(), merged.model.as_str()), (2, "low", "opus"));
    assert_eq!(merged.skills, vec!["t".to_owned()]);
}

#[test]
fn remove_task_unlinks_everywhere() {
    let mut s = store();
    create(&mut s, "a", "o1", ListMods::default()).unwrap();
    let mods = ListMods { add_upstream: vec!["a".into()], ..ListMods::default() };
    create(&mut s, "b", "o1", mods).unwrap();
    remove_task(&mut s, "a").unwrap();
    assert_eq!(s.tasks.len(), 1);
    assert!(task(&s, "b").upstream.is_empty());
    assert_eq!(s.objectives[0].tasks, vec!["b".to_owned()]);
    let e = remove_task(&mut s, "a").unwrap_err();
    assert_eq!(e.message(), "Task \"a\" not found.");
}

fn milestone(s: &PlanningStore, id: &str) -> Milestone {
    s.milestones.iter().find(|m| m.id == id).unwrap().duplicate()
}

fn objective_of(s: &PlanningStore, id: &str) -> Objective {
    s.objectives.iter().find(|o| o.id == id).unwrap().duplicate()
}

fn new_milestone(s: &mut PlanningStore, id: &str, mods: ListMods) -> Result<bool, PlanError> {
    upsert_milestone(s, id, Some(format!("M {id}")), Some("d".into()), None, mods)
}

#[test]
fn upsert_milestone_creates_updates_and_mirrors() {
    let mut s = PlanningStore { milestones: vec![], objectives: vec![], tasks: vec![] };
    let e = upsert_milestone(&mut s, "m1", None, None, None, ListMods::default()).unwrap_err();
    assert_eq!(e.message(), "--title is required when creating a new milestone.");
    let e = upsert_milestone(&mut s, "m1", Some("T".into()), None, None, ListMods::default()).unwrap_err();
    assert_eq!(e.message(), "--description is required when creating a new milestone.");
    assert!(new_milestone(&mut s, "m1", ListMods::default()).unwrap());
    let mods = ListMods { add_upstream: vec!["m1".into()], ..ListMods::default() };
    assert!(new_milestone(&mut s, "m2", mods).unwrap());
    assert_eq!(milestone(&s, "m1").downstream, vec!["m2".to_owned()]);
    assert_eq!(milestone(&s, "m2").upstream, vec!["m1".to_owned()]);
    let updated = upsert_milestone(
        &mut s,
        "m1",
        None,
        None,
        Some(PlanningStatus::Completed),
        ListMods { add_checklist: vec!["c1:Check it".into()], ..ListMods::default() },
    )
    .unwrap();
    assert!(!updated);
    let m1 = milestone(&s, "m1");
    assert_eq!(m1.status, PlanningStatus::Completed);
    assert_eq!(m1.title, "M m1");
    assert_eq!(m1.checklist.len(), 1);
    assert_eq!(m1.checklist[0].id, "c1");
    assert_eq!(m1.checklist[0].item, "Check it");
    assert!(!m1.checklist[0].done);
}

#[test]
fn remove_milestone_unlinks_and_reports_orphans() {
    let mut s = PlanningStore { milestones: vec![], objectives: vec![objective("o1"), objective("o2")], tasks: vec![] };
    new_milestone(&mut s, "m1", ListMods::default()).unwrap();
    let mods = ListMods { add_upstream: vec!["m1".into()], ..ListMods::default() };
    new_milestone(&mut s, "m2", mods).unwrap();
    let orphans = remove_milestone(&mut s, "m1").unwrap();
    assert_eq!(orphans, vec!["o1".to_owned(), "o2".to_owned()]);
    assert_eq!(s.milestones.len(), 1);
    assert!(milestone(&s, "m2").upstream.is_empty());
    assert_eq!(s.objectives.len(), 2);
    let e = remove_milestone(&mut s, "m1").unwrap_err();
    assert_eq!(e.message(), "Milestone \"m1\" not found.");
}

#[test]
fn upsert_objective_registers_moves_and_mirrors() {
    let mut s = PlanningStore { milestones: vec![], objectives: vec![], tasks: vec![] };
    new_milestone(&mut s, "m1", ListMods::default()).unwrap();
    new_milestone(&mut s, "m2", ListMods::default()).unwrap();
    let e = upsert_objective(&mut s, "o1", None, None, None, None, ListMods::default()).unwrap_err();
    assert_eq!(e.message(), "--milestone is required when creating a new objective.");
    let e = upsert_objective(&mut s, "o1", Some("zz".into()), Some("T".into()), Some("D".into()), None, ListMods::default())
        .unwrap_err();
    match e {
        PlanError::NotFound(m) => assert_eq!(m, "Milestone \"zz\" not found."),
        _ => panic!("expected not found"),
    }
    assert!(upsert_objective(&mut s, "o1", Some("m1".into()), Some("T".into()), Some("D".into()), None, ListMods::default())
        .unwrap());
    assert_eq!(milestone(&s, "m1").objectives, vec!["o1".to_owned()]);
    let mods = ListMods { add_downstream: vec!["o1".into()], ..ListMods::default() };
    upsert_objective(&mut s, "o0", Some("m1".into()), Some("T0".into()), Some("D0".into()), None, mods).unwrap();
    assert_eq!(objective_of(&s, "o1").upstream, vec!["o0".to_owned()]);
    assert!(!upsert_objective(&mut s, "o1", Some("m2".into()), None, None, None, ListMods::default()).unwrap());
    assert_eq!(objective_of(&s, "o1").milestone_id, "m2");
    assert_eq!(milestone(&s, "m1").objectives, vec!["o0".to_owned()]);
    assert_eq!(milestone(&s, "m2").objectives, vec!["o1".to_owned()]);
}

#[test]
fn remove_objective_unlinks_and_reports_orphans() {
    let mut s = PlanningStore { milestones: vec![], objectives: vec![], tasks: vec![] };
    new_milestone(&mut s, "m1", ListMods::default()).unwrap();
    upsert_objective(&mut s, "o1", Some("m1".into()), Some("T".into()), Some("D".into()), None, ListMods::default()).unwrap();
    let mods = ListMods { add_upstream: vec!["o1".into()], ..ListMods::default() };
    upsert_objective(&mut s, "o2", Some("m1".into()), Some("T".into()), Some("D".into()), None, mods).unwrap();
    create(&mut s, "t1", "o1", ListMods::default()).unwrap();
    let orphans = remove_objective(&mut s, "o1").unwrap();
    assert_eq!(orphans, vec!["t1".to_owned()]);
    assert!(objective_of(&s, "o2").upstream.is_empty());
    assert_eq!(milestone(&s, "m1").objectives, vec!["o2".to_owned()]);
    assert_eq!(s.tasks.len(), 1);
    assert_eq!(remove_objective(&mut s, "o1").unwrap_err().message(), "Objective \"o1\" not found.");
}
