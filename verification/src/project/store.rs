//! Layout of the active and inactive project directories, and the counter
//! fields of `project.yaml` that follow the schedule.

use vstd::prelude::*;
use crate::schedule::counters::{counters_for, done_chunks, done_tasks, total_chunks, total_tasks};
use crate::schedule::types::Schedule;
use super::ProjectYaml;

verus! {

/// `path` joined with the component `rel`: an absolute `rel` replaces the path,
/// an empty path yields `rel`, and a separator is added unless `path` ends with one.
pub open spec fn path_join(path: Seq<char>, rel: Seq<char>) -> Seq<char> {
    if rel.len() > 0 && rel[0] == '/' {
        rel
    } else if path.len() == 0 {
        rel
    } else if path.last() == '/' {
        path + rel
    } else {
        path + seq!['/'] + rel
    }
}

/// Join a relative or absolute component onto a path.
pub fn join_path(path: &str, rel: &str) -> (r: String)
    ensures
        r@ == path_join(path@, rel@),
{
    let rn = rel.unicode_len();
    let pn = path.unicode_len();
    if rn > 0 && rel.get_char(0) == '/' {
        rel.to_owned()
    } else if pn == 0 {
        rel.to_owned()
    } else if path.get_char(pn - 1) == '/' {
        path.to_owned().concat(rel)
    } else {
        proof { reveal_strlit("/"); }
        let r = path.to_owned().concat("/").concat(rel);
        assert(r@ =~= path@ + seq!['/'] + rel@);
        r
    }
}

/// On-disk layout of the active and inactive project directories, all
/// relative to the `root` given at construction.
#[derive(Debug)]
pub struct ProjectStore {
    root: String,
}

impl ProjectStore {
    /// The root directory.
    pub closed spec fn root_view(&self) -> Seq<char> {
        self.root@
    }

    /// Create a store rooted at `root` (typically the current working directory).
    pub fn new(root: String) -> (r: ProjectStore)
        ensures
            r.root_view() == root@,
    {
        ProjectStore { root }
    }

    /// The root directory.
    pub fn root(&self) -> (r: &str)
        ensures
            r@ == self.root_view(),
    {
        self.root.as_str()
    }

    /// `<root>/rex/active`.
    pub fn active_dir(&self) -> (r: String)
        ensures
            r@ == path_join(self.root_view(), "rex/active"@),
    {
        join_path(self.root.as_str(), "rex/active")
    }

    /// `<root>/rex/inactive`.
    pub fn inactive_dir(&self) -> (r: String)
        ensures
            r@ == path_join(self.root_view(), "rex/inactive"@),
    {
        join_path(self.root.as_str(), "rex/inactive")
    }

    /// `<root>/rex/active/project.yaml`.
    pub fn project_path(&self) -> (r: String)
        ensures
            r@ == path_join(path_join(self.root_view(), "rex/active"@), "project.yaml"@),
    {
        join_path(self.active_dir().as_str(), "project.yaml")
    }

    /// `<root>/rex/inactive/<project_id>`: where an archived project lives.
    pub fn inactive_target(&self, project_id: &str) -> (r: String)
        ensures
            r@ == path_join(path_join(self.root_view(), "rex/inactive"@), project_id@),
    {
        join_path(self.inactive_dir().as_str(), project_id)
    }

    /// Path to the active project's `schedule.json`. The active project lives
    /// flat under `rex/active/`; the slug only enters paths at archive time.
    pub fn schedule_path(&self) -> (r: String)
        ensures
            r@ == path_join(path_join(self.root_view(), "rex/active"@), "schedule.json"@),
    {
        join_path(self.active_dir().as_str(), "schedule.json")
    }
}

/// Set the four counter fields of `project` from `schedule`, leaving every
/// other field as it was. This is what keeps `project.yaml` in step with
/// `schedule.json` after each schedule mutation.
pub fn apply_counters(project: &mut ProjectYaml, schedule: &Schedule)
    requires
        total_chunks(schedule@.phases) <= u32::MAX,
        total_tasks(schedule@.phases) <= u32::MAX,
    ensures
        final(project).chunks_required == total_chunks(schedule@.phases),
        final(project).tasks_required == total_tasks(schedule@.phases),
        final(project).chunks_completed == done_chunks(schedule@.phases),
        final(project).tasks_completed == done_tasks(schedule@.phases),
        final(project).project_id == old(project).project_id,
        final(project).category == old(project).category,
        final(project).title == old(project).title,
        final(project).subtitle == old(project).subtitle,
        final(project).description == old(project).description,
        final(project).complexity == old(project).complexity,
        final(project).completed == old(project).completed,
        final(project).steps == old(project).steps,
{
    let counters = counters_for(schedule);
    project.chunks_required = counters.chunks_required;
    project.tasks_required = counters.tasks_required;
    project.chunks_completed = counters.chunks_completed;
    project.tasks_completed = counters.tasks_completed;
}

} // verus!
