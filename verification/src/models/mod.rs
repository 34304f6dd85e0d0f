//! Planning-side models: the project registry, the checklist, the planning
//! store and the per-project status pipeline.

pub mod project;
pub mod checklist;
pub mod checklist_edit;
pub mod project_status;
pub mod planning;
pub mod next_task;
pub mod plan_edit;
pub mod milestone_edit;
pub mod objective_edit;
