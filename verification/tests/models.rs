use rex_cli::models::checklist::{Checklist, ChecklistCategory, ChecklistItem};
use rex_cli::models::planning::{
    apply_all_list_mods, apply_checklist_mods, apply_list_mods, transitive_downstream_count, ListMods,
    PlanningChecklistItem, PlanningStatus, Task,
};
use rex_cli::models::next_task::{pick_next_task, PickError};
use rex_cli::models::planning::PlanningStore;
use rex_cli::models::project::{Category, Complexity, Project, ProjectRegistry};
use rex_cli::models::project_status::{is_design_required, ProjectStatus, Status};

fn project(id: &str) -> Project {
    Project {
        id: id.to_owned(),
        category: Category::Library,
        complexity: Complexity::Low,
        title: id.to_owned(),
        subtitle: String::new(),
        description: String::new(),
        directory: format!("rex/{id}"),
        user_name: None,
        locked: false,
    }
}

fn strings(v: &[&str]) -> Vec<String> {
    v.iter().map(|s| s.to_string()).collect()
}

#[test]
fn registry_set_active_moves_previous_to_inactive() {
    let mut r = ProjectRegistry::default();
    r.set_active(project("a"));
    r.set_active(project("b"));
    assert_eq!(r.active.as_ref().unwrap().id, "b");
    assert_eq!(r.inactive.len(), 1);
    assert_eq!(r.inactive[0].id, "a");
    assert!(r.has_project("a"));
    assert!(r.has_project("b"));
    assert!(!r.has_project("c"));
}

#[test]
fn registry_activate_swaps_projects() {
    let mut r = ProjectRegistry::default();
    r.set_active(project("a"));
    r.set_active(project("b"));
    r.activate_project("a").unwrap();
    assert_eq!(r.active.as_ref().unwrap().id, "a");
    assert_eq!(r.inactive[0].id, "b");
    assert_eq!(r.activate_project("a").unwrap_err(), "Project \"a\" is already the active project.");
    assert_eq!(r.activate_project("zzz").unwrap_err(), "Project \"zzz\" not found.");
}

#[test]
fn registry_remove_prefers_active() {
    let mut r = ProjectRegistry::default();
    r.set_active(project("a"));
    r.set_active(project("b"));
    assert_eq!(r.remove_project("b").unwrap().id, "b");
    assert!(r.active.is_none());
    assert_eq!(r.remove_project("a").unwrap().id, "a");
    assert!(r.inactive.is_empty());
    assert!(r.remove_project("a").is_none());
}

#[test]
fn category_and_complexity_from_index() {
    assert_eq!(Category::from_index(0), Category::Binary);
    assert_eq!(Category::from_index(2), Category::Refactor);
    assert_eq!(Complexity::from_index(1), Complexity::Medium);
    assert_eq!(Complexity::High.name(), "high");
}

#[test]
fn checklist_finds_category_by_id() {
    let mut c = Checklist::new("2024-01-01");
    assert!(!c.has_id("x"));
    assert!(ChecklistCategory::OutOfScope.label() == "Out of Scope");
    c.items_mut(ChecklistCategory::RiskMitigations).push(ChecklistItem {
        id: "x".to_owned(),
        title: "t".to_owned(),
        description: "d".to_owned(),
        complete: None,
        phase: None,
    });
    assert_eq!(c.find_category("x"), Some(ChecklistCategory::RiskMitigations));
    assert!(c.has_id("x"));
    assert_eq!(c.items(ChecklistCategory::RiskMitigations).len(), 1);
    assert!(c.items(ChecklistCategory::Objectives).is_empty());
}

#[test]
fn list_mods_remove_then_add_without_duplicates() {
    let mut list = strings(&["a", "b", "c"]);
    apply_list_mods(&mut list, &strings(&["c", "d", "d"]), &strings(&["b"]));
    assert_eq!(list, strings(&["a", "c", "d"]));
}

#[test]
fn checklist_mods_apply_in_order() {
    let mut cl = vec![PlanningChecklistItem { id: "one".to_owned(), item: "first".to_owned(), done: false }];
    apply_checklist_mods(&mut cl, &strings(&["two:second: part"]), &[], &strings(&["two"]), &[]).unwrap();
    assert_eq!(cl.len(), 2);
    assert_eq!(cl[1].id, "two");
    assert_eq!(cl[1].item, "second: part");
    assert!(cl[1].done);
}

#[test]
fn checklist_mod_errors() {
    let mut cl = vec![PlanningChecklistItem { id: "one".to_owned(), item: "first".to_owned(), done: false }];
    assert_eq!(
        apply_checklist_mods(&mut cl, &strings(&["nocolon"]), &[], &[], &[]).unwrap_err(),
        "Invalid checklist format: \"nocolon\". Expected \"id:text\"."
    );
    assert_eq!(
        apply_checklist_mods(&mut cl, &strings(&["one:again"]), &[], &[], &[]).unwrap_err(),
        "Checklist item \"one\" already exists."
    );
    assert_eq!(
        apply_checklist_mods(&mut cl, &[], &[], &[], &strings(&["missing"])).unwrap_err(),
        "Checklist item \"missing\" not found."
    );
}

#[test]
fn all_list_mods_edit_every_field() {
    let mut refs = strings(&["r1"]);
    let mut outs = vec![];
    let mut up = strings(&["u1"]);
    let mut down = vec![];
    let mut cl = vec![];
    let mods = ListMods {
        add_references: strings(&["r2"]),
        add_outputs: strings(&["o1"]),
        remove_upstream: strings(&["u1"]),
        add_downstream: strings(&["d1"]),
        add_checklist: strings(&["c:check"]),
        ..Default::default()
    };
    apply_all_list_mods(&mut refs, &mut outs, &mut up, &mut down, &mut cl, &mods).unwrap();
    assert_eq!(refs, strings(&["r1", "r2"]));
    assert_eq!(outs, strings(&["o1"]));
    assert!(up.is_empty());
    assert_eq!(down, strings(&["d1"]));
    assert_eq!(cl.len(), 1);
}

fn ptask(id: &str, downstream: &[&str]) -> Task {
    Task {
        id: id.to_owned(),
        objective_id: "o".to_owned(),
        title: id.to_owned(),
        description: String::new(),
        status: PlanningStatus::NotStarted,
        agent: None,
        references: vec![],
        outputs: vec![],
        checklist: vec![],
        upstream: vec![],
        downstream: strings(downstream),
    }
}

#[test]
fn downstream_count_is_transitive_and_distinct() {
    let tasks = vec![ptask("a", &["b", "c"]), ptask("b", &["c", "d"]), ptask("c", &[]), ptask("d", &["a"])];
    assert_eq!(transitive_downstream_count("a", &tasks), 4);
    assert_eq!(transitive_downstream_count("c", &tasks), 0);
    assert_eq!(transitive_downstream_count("b", &tasks), 4);
    assert_eq!(transitive_downstream_count("zzz", &tasks), 0);
}

#[test]
fn design_required_items() {
    assert!(is_design_required("module-design", &Category::Binary));
    assert!(!is_design_required("existing-code-exploration", &Category::Binary));
    assert!(is_design_required("existing-code-exploration", &Category::Refactor));
    assert_eq!(Status::NotRequired.name(), "not-required");
}

fn milestone(id: &str, status: PlanningStatus) -> rex_cli::models::planning::Milestone {
    rex_cli::models::planning::Milestone {
        id: id.to_owned(),
        title: id.to_owned(),
        description: String::new(),
        status,
        references: vec![],
        outputs: vec![],
        checklist: vec![],
        objectives: vec![],
        upstream: vec![],
        downstream: vec![],
    }
}

fn objective(id: &str, ms: &str, status: PlanningStatus) -> rex_cli::models::planning::Objective {
    rex_cli::models::planning::Objective {
        id: id.to_owned(),
        milestone_id: ms.to_owned(),
        title: id.to_owned(),
        description: String::new(),
        status,
        references: vec![],
        outputs: vec![],
        checklist: vec![],
        tasks: vec![],
        upstream: vec![],
        downstream: vec![],
    }
}

#[test]
fn next_task_prefers_in_progress_then_impact() {
    let mut store = PlanningStore {
        milestones: vec![milestone("m1", PlanningStatus::NotStarted)],
        objectives: vec![objective("o1", "m1", PlanningStatus::NotStarted)],
        tasks: vec![ptask("a", &[]), ptask("b", &["c"]), ptask("c", &[])],
    };
    store.tasks[2].upstream = strings(&["b"]);
    for t in store.tasks.iter_mut() {
        t.objective_id = "o1".to_owned();
    }
    assert_eq!(pick_next_task(&store), Ok(1));
    store.tasks[0].status = PlanningStatus::InProgress;
    assert_eq!(pick_next_task(&store), Ok(0));
    for t in store.tasks.iter_mut() {
        t.status = PlanningStatus::Completed;
    }
    assert_eq!(pick_next_task(&store), Err(PickError::AllDone));
    store.tasks[2].status = PlanningStatus::Blocked;
    assert_eq!(pick_next_task(&store), Err(PickError::NoneEligible));
    assert_eq!(PickError::NoneEligible.message(), "No eligible tasks. Remaining tasks are blocked by unmet dependencies.");
    let empty = PlanningStore::default();
    assert_eq!(pick_next_task(&empty), Err(PickError::NoTasks));
}

#[test]
fn project_status_new_onboarding_chain_and_statuses() {
    let ps = ProjectStatus::new("demo", &["resources".to_owned()], &[], &Category::Binary);
    assert_eq!(ps.onboarding.len(), 15);
    assert!(ps.onboarding[0].inputs.is_empty());
    assert_eq!(
        ps.onboarding[2].inputs,
        vec!["rex/demo/onboarding/goal.md".to_owned(), "rex/demo/onboarding/scope.md".to_owned()]
    );
    assert_eq!(ps.onboarding[2].item, "existing-code");
    assert_eq!(ps.onboarding[0].status, Status::NotStarted);
    assert_eq!(ps.onboarding[4].status, Status::NotRequired);
    assert_eq!(ps.onboarding[5].status, Status::NotStarted);
    assert_eq!(ps.onboarding[10].status, Status::NotStarted);
    let checklist = &ps.onboarding[14];
    assert_eq!(checklist.item, "checklist");
    assert!(checklist.stop_on_finish);
    assert_eq!(checklist.outputs, vec!["rex/demo/onboarding/checklist.json".to_owned()]);
    assert_eq!(checklist.inputs.len(), 14);
    assert_eq!(checklist.agent.skills, vec!["rex-onboarding-checklist".to_owned()]);
    assert!(!ps.onboarding[13].stop_on_finish);
    assert_eq!(ps.onboarding[13].outputs, vec!["rex/demo/onboarding/skill-building.md".to_owned()]);
}

#[test]
fn project_status_new_design_steps() {
    let ps = ProjectStatus::new("demo", &[], &["library-review".to_owned()], &Category::Refactor);
    assert_eq!(ps.design.len(), 9);
    let explore = &ps.design[0];
    assert_eq!(explore.item, "existing-code-exploration");
    assert_eq!(explore.status, Status::NotStarted);
    assert_eq!(explore.agent.count, 3);
    assert_eq!(
        explore.inputs,
        vec![
            "rex/demo/onboarding/goal.md".to_owned(),
            "rex/demo/onboarding/scope.md".to_owned(),
            "rex/demo/onboarding/existing-code.md".to_owned(),
        ]
    );
    assert_eq!(ps.design[1].status, Status::NotStarted);
    assert_eq!(ps.design[4].status, Status::NotRequired);
    assert_eq!(ps.design[4].outputs, vec!["rex/demo/design/integration-tests.md".to_owned()]);
    assert_eq!(ps.design[4].inputs.len(), 16);
    assert_eq!(ps.design[2].agent.model, "opus");
    assert_eq!(ps.design[2].agent.effort, "max");
    assert_eq!(ps.design[2].inputs.len(), 14);
    assert_eq!(ps.design[3].inputs.len(), 15);
    assert_eq!(ps.design[5].inputs.len(), 17);
    assert_eq!(
        ps.design[7].outputs,
        vec![
            "rex/demo/design/architecture-proposal.md".to_owned(),
            "rex/demo/design/architecture-proposal.html".to_owned(),
        ]
    );
    assert_eq!(ps.design[8].inputs, vec!["rex/demo/design/architecture-proposal.html".to_owned()]);
    assert!(ps.design.iter().all(|s| s.stop_on_finish));
    let binary = ProjectStatus::new("demo", &[], &[], &Category::Binary);
    assert_eq!(binary.design[0].status, Status::NotRequired);
}

#[test]
fn project_status_new_planning_execution_and_support() {
    let ps = ProjectStatus::new("demo", &[], &[], &Category::Library);
    assert_eq!(ps.planning.len(), 4);
    let items: Vec<&str> = ps.planning.iter().map(|s| s.item.as_str()).collect();
    assert_eq!(items, vec!["milestones", "objectives", "tasks", "review"]);
    assert_eq!(ps.planning[0].inputs.len(), 19);
    assert_eq!(ps.planning[0].inputs[18], "rex/demo/planning/planning.json");
    assert_eq!(ps.planning[1].inputs, ps.planning[0].inputs);
    assert_eq!(ps.planning[2].inputs.len(), 8);
    assert_eq!(ps.planning[3].inputs.len(), 14);
    assert_eq!(ps.planning[3].inputs[10], "rex/demo/planning/milestones.json");
    assert!(ps.planning.iter().all(|s| s.outputs.is_empty() && s.status == Status::NotStarted));
    assert_eq!(ps.planning[2].agent.skills, vec!["rex-planning-tasks".to_owned()]);
    assert_eq!(ps.execution.len(), 1);
    assert_eq!(ps.execution[0].item, "run");
    assert_eq!(ps.execution[0].agent.skills.len(), 2);
    assert_eq!(ps.execution[0].agent.skills[0], "STEP 1: run 'rex task next'");
    assert_eq!(ps.user_support.len(), 1);
    assert_eq!(ps.user_support[0].status, Status::Completed);
    assert_eq!(ps.user_support[0].inputs, vec!["rex/demo/user-support/requested.md".to_owned()]);
    assert_eq!(ps.user_support[0].outputs, vec!["rex/demo/user-support/provided.md".to_owned()]);
}

#[test]
fn next_task_reports_its_objective_and_milestone() {
    let mut store = PlanningStore {
        milestones: vec![milestone("m0", PlanningStatus::NotStarted), milestone("m1", PlanningStatus::NotStarted)],
        objectives: vec![objective("o0", "m0", PlanningStatus::NotStarted), objective("o1", "m1", PlanningStatus::NotStarted)],
        tasks: vec![ptask("a", &[]), ptask("b", &[])],
    };
    store.tasks[0].objective_id = "o1".to_owned();
    store.tasks[1].objective_id = "missing".to_owned();
    assert_eq!(rex_cli::models::next_task::task_parents(&store, 0), (Some(1), Some(1)));
    assert_eq!(rex_cli::models::next_task::task_parents(&store, 1), (None, None));
    store.objectives[1].milestone_id = "gone".to_owned();
    assert_eq!(rex_cli::models::next_task::task_parents(&store, 0), (Some(1), None));
}

#[test]
fn task_counts_count_completed_tasks() {
    let mut store = PlanningStore {
        milestones: vec![],
        objectives: vec![],
        tasks: vec![ptask("a", &[]), ptask("b", &[]), ptask("c", &[])],
    };
    assert_eq!(rex_cli::models::next_task::task_counts(&store), (0, 3));
    store.tasks[0].status = PlanningStatus::Completed;
    store.tasks[2].status = PlanningStatus::Completed;
    store.tasks[1].status = PlanningStatus::InProgress;
    assert_eq!(rex_cli::models::next_task::task_counts(&store), (2, 3));
}
