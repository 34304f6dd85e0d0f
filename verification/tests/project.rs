use rex_cli::commands::{id_taken, new_project, CreateOpts};
use rex_cli::error::RexError;
use rex_cli::project::store::apply_counters;
use rex_cli::project::{
    current_incomplete_step, prune_steps, PipelineStep, ProjectId, ProjectMeta, ProjectStore, ProjectYaml,
};
use rex_cli::schedule::{Chunk, Phase, Schedule, ScheduleState, Task};

fn step(name: &str, required: bool) -> PipelineStep {
    PipelineStep {
        step: name.to_owned(),
        required,
        skill: None,
        agent: None,
        instructions: None,
        inputs: None,
        outputs: None,
        completed: false,
    }
}

fn make_template() -> ProjectYaml {
    ProjectYaml {
        project_id: ProjectId::parse("template").unwrap(),
        category: "feature".to_owned(),
        title: None,
        subtitle: None,
        description: None,
        complexity: "medium".to_owned(),
        chunks_required: 0,
        chunks_completed: 0,
        tasks_required: 0,
        tasks_completed: 0,
        completed: false,
        steps: vec![step("discovery", true), step("resources", false), step("prd", true)],
    }
}

#[test]
fn project_prune_keeps_required_only() {
    let tmpl = make_template();
    let pruned = prune_steps(&tmpl, &[]);
    assert_eq!(pruned.len(), 2);
    assert!(pruned.iter().all(|s| s.required));
}

#[test]
fn project_prune_includes_selected_optional() {
    let tmpl = make_template();
    let pruned = prune_steps(&tmpl, &["resources"]);
    assert_eq!(pruned.len(), 3);
    let names: Vec<_> = pruned.iter().map(|s| s.step.as_str()).collect();
    assert!(names.contains(&"resources"));
}

#[test]
fn project_prune_skips_unselected_optional() {
    let tmpl = make_template();
    let pruned = prune_steps(&tmpl, &[]);
    let names: Vec<_> = pruned.iter().map(|s| s.step.as_str()).collect();
    assert!(!names.contains(&"resources"));
}

#[test]
fn mod_prune_keeps_required_only() {
    let tmpl = make_template();
    let pruned = prune_steps(&tmpl, &[]);
    assert_eq!(pruned.len(), 2);
    assert!(pruned.iter().all(|s| s.required));
}

#[test]
fn mod_prune_includes_selected_optional() {
    let tmpl = make_template();
    let pruned = prune_steps(&tmpl, &["resources"]);
    assert_eq!(pruned.len(), 3);
    let names: Vec<_> = pruned.iter().map(|s| s.step.as_str()).collect();
    assert!(names.contains(&"resources"));
}

#[test]
fn mod_prune_skips_unselected_optional() {
    let tmpl = make_template();
    let pruned = prune_steps(&tmpl, &[]);
    let names: Vec<_> = pruned.iter().map(|s| s.step.as_str()).collect();
    assert!(!names.contains(&"resources"));
}

#[test]
fn project_id_parse_accepts_valid_slug() {
    let id = ProjectId::parse("my-project").unwrap();
    assert_eq!(id.as_str(), "my-project");
}

#[test]
fn project_id_parse_rejects_empty() {
    let err = ProjectId::parse("").unwrap_err();
    assert!(matches!(err, RexError::InvalidProjectId { .. }), "expected InvalidProjectId, got: {err:?}");
}

#[test]
fn project_id_parse_rejects_whitespace_only() {
    let err = ProjectId::parse("   ").unwrap_err();
    assert!(matches!(err, RexError::InvalidProjectId { .. }), "expected InvalidProjectId, got: {err:?}");
}

#[test]
fn prune_keeps_order() {
    let tmpl = make_template();
    let pruned = prune_steps(&tmpl, &["resources"]);
    let names: Vec<_> = pruned.iter().map(|s| s.step.as_str()).collect();
    assert_eq!(names, vec!["discovery", "resources", "prd"]);
}

#[test]
fn current_step_is_first_incomplete() {
    let mut p = make_template();
    assert_eq!(current_incomplete_step(&p).unwrap().step, "discovery");
    p.steps[0].completed = true;
    assert_eq!(current_incomplete_step(&p).unwrap().step, "resources");
    for s in p.steps.iter_mut() {
        s.completed = true;
    }
    assert!(current_incomplete_step(&p).is_none());
}

#[test]
fn meta_drops_steps_only() {
    let p = make_template();
    let m = ProjectMeta::from_project(&p);
    assert_eq!(m.project_id.as_str(), "template");
    assert_eq!(m.category, "feature");
    assert_eq!(m.complexity, "medium");
    assert!(!m.completed);
}

#[test]
fn store_paths_join_the_root() {
    let store = ProjectStore::new("/work".to_owned());
    assert_eq!(store.schedule_path(), "/work/rex/active/schedule.json");
    assert_eq!(store.project_path(), "/work/rex/active/project.yaml");
    assert_eq!(store.inactive_target("my-id"), "/work/rex/inactive/my-id");
    let rel = ProjectStore::new(String::new());
    assert_eq!(rel.schedule_path(), "rex/active/schedule.json");
    let slash = ProjectStore::new("/work/".to_owned());
    assert_eq!(slash.active_dir(), "/work/rex/active");
}

#[test]
fn counters_follow_the_schedule() {
    let mut p = make_template();
    let s = Schedule {
        project: ProjectId::parse("template").unwrap(),
        phases: vec![Phase {
            id: "p".to_owned(),
            description: "p".to_owned(),
            blocked_by: vec![],
            state: ScheduleState::Pending,
            chunks: vec![Chunk {
                id: "c".to_owned(),
                description: "c".to_owned(),
                scenarios: vec![],
                spec_refs: vec![],
                blocked_by: vec![],
                state: ScheduleState::Done,
                tasks: vec![Task {
                    id: "t".to_owned(),
                    description: "t".to_owned(),
                    state: ScheduleState::Done,
                    skill: None,
                    inputs: None,
                    outputs: None,
                }],
            }],
        }],
    };
    apply_counters(&mut p, &s);
    assert_eq!((p.chunks_required, p.chunks_completed, p.tasks_required, p.tasks_completed), (1, 1, 1, 1));
    assert_eq!(p.steps.len(), 3);
}

#[test]
fn create_new_project_from_template() {
    let tmpl = make_template();
    let opts = CreateOpts {
        title: "My Project".to_owned(),
        subtitle: Some("sub".to_owned()),
        description: None,
        category: "refactor".to_owned(),
        complexity: "high".to_owned(),
        project_id: ProjectId::parse("my-project").unwrap(),
        selected_optional_steps: vec!["resources".to_owned()],
    };
    let p = new_project(&tmpl, opts);
    assert_eq!(p.project_id.as_str(), "my-project");
    assert_eq!(p.title.as_deref(), Some("My Project"));
    assert_eq!(p.subtitle.as_deref(), Some("sub"));
    assert_eq!(p.description, None);
    assert_eq!(p.category, "refactor");
    assert_eq!(p.complexity, "high");
    assert!(!p.completed);
    assert_eq!(p.chunks_required, 0);
    let names: Vec<_> = p.steps.iter().map(|s| s.step.as_str()).collect();
    assert_eq!(names, vec!["discovery", "resources", "prd"]);
    let taken = vec![ProjectId::parse("old").unwrap(), ProjectId::parse("my-project").unwrap()];
    assert!(id_taken(&taken, &p.project_id));
    assert!(!id_taken(&taken[..1], &p.project_id));
}

#[test]
fn research_api_list_renders_one_bullet_per_row() {
    let rows = vec![
        rex_cli::commands::ResearchApiRow { name: "Binance\nSpot".to_string(), url: "https://x.test".to_string() },
        rex_cli::commands::ResearchApiRow { name: "Other".to_string(), url: "u\r".to_string() },
    ];
    assert_eq!(
        rex_cli::commands::render_research_api_md(&rows),
        "# APIs to research\n\n- **Binance Spot** — https://x.test\n- **Other** — u \n"
    );
}
