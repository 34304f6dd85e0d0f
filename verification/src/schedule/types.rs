//! Core data types for the schedule domain and their mathematical views.

use vstd::prelude::*;
use crate::project::ProjectId;
use crate::text::{str_eq, to_string};

verus! {

/// Lifecycle state of a task, chunk, or phase.
///
/// `InProgress` is reserved for agents that hand-edit the schedule; the work
/// queue treats it like `Pending` so such an edit cannot hide a chunk.
#[derive(Debug, Clone, Copy, PartialEq, Eq, Structural)]
pub enum ScheduleState {
    Pending,
    InProgress,
    Done,
    Blocked,
}

/// States still picked up by the work queue.
pub open spec fn state_open(s: ScheduleState) -> bool {
    s is Pending || s is InProgress
}

/// Text names accepted for each state.
pub open spec fn state_name(s: ScheduleState) -> Seq<char> {
    match s {
        ScheduleState::Pending => "pending"@,
        ScheduleState::InProgress => "in-progress"@,
        ScheduleState::Done => "done"@,
        ScheduleState::Blocked => "blocked"@,
    }
}

impl ScheduleState {
    /// `true` for `Pending` or `InProgress`.
    pub fn is_open(&self) -> (r: bool)
        ensures
            r == state_open(*self),
    {
        match self {
            ScheduleState::Pending | ScheduleState::InProgress => true,
            _ => false,
        }
    }

    /// `true` for `Done`.
    pub fn is_done(&self) -> (r: bool)
        ensures
            r == (*self is Done),
    {
        match self {
            ScheduleState::Done => true,
            _ => false,
        }
    }

    /// Parse a state name (`pending`, `in-progress`, `done`, `blocked`).
    pub fn parse(s: &str) -> (r: Result<ScheduleState, String>)
        ensures
            r matches Ok(st) ==> state_name(st) == s@,
            r is Err ==> forall|st: ScheduleState| state_name(st) != s@,
            r matches Err(msg) ==> msg@ == "unknown state '"@ + s@
                + "'; expected pending|in-progress|done|blocked"@,
    {
        if str_eq(s, "pending") {
            Ok(ScheduleState::Pending)
        } else if str_eq(s, "in-progress") {
            Ok(ScheduleState::InProgress)
        } else if str_eq(s, "done") {
            Ok(ScheduleState::Done)
        } else if str_eq(s, "blocked") {
            Ok(ScheduleState::Blocked)
        } else {
            proof {
                assert forall|st: ScheduleState| state_name(st) != s@ by {
                    match st {
                        ScheduleState::Pending => {},
                        ScheduleState::InProgress => {},
                        ScheduleState::Done => {},
                        ScheduleState::Blocked => {},
                    }
                }
            }
            let m = to_string("unknown state '");
            let m = m.concat(s);
            let m = m.concat("'; expected pending|in-progress|done|blocked");
            Err(m)
        }
    }
}

impl std::str::FromStr for ScheduleState {
    type Err = String;

    fn from_str(s: &str) -> (r: Result<Self, Self::Err>)
        ensures
            r matches Ok(st) ==> state_name(st) == s@,
            r is Err ==> forall|st: ScheduleState| state_name(st) != s@,
            r matches Err(msg) ==> msg@ == "unknown state '"@ + s@
                + "'; expected pending|in-progress|done|blocked"@,
    {
        ScheduleState::parse(s)
    }
}

/// Mathematical view of a [`Task`].
pub ghost struct TaskV {
    pub id: Seq<char>,
    pub description: Seq<char>,
    pub state: ScheduleState,
    pub skill: Option<Seq<char>>,
    pub inputs: Option<Seq<char>>,
    pub outputs: Option<Seq<char>>,
}

/// Mathematical view of a [`Chunk`].
pub ghost struct ChunkV {
    pub id: Seq<char>,
    pub description: Seq<char>,
    pub scenarios: Seq<Seq<char>>,
    pub spec_refs: Seq<Seq<char>>,
    pub blocked_by: Seq<Seq<char>>,
    pub state: ScheduleState,
    pub tasks: Seq<TaskV>,
}

/// Mathematical view of a [`Phase`].
pub ghost struct PhaseV {
    pub id: Seq<char>,
    pub description: Seq<char>,
    pub blocked_by: Seq<Seq<char>>,
    pub state: ScheduleState,
    pub chunks: Seq<ChunkV>,
}

/// Mathematical view of a [`Schedule`].
pub ghost struct ScheduleV {
    pub project: Seq<char>,
    pub phases: Seq<PhaseV>,
}

/// One atomic unit of work within a chunk.
#[derive(Debug)]
pub struct Task {
    pub id: String,
    pub description: String,
    pub state: ScheduleState,
    pub skill: Option<String>,
    pub inputs: Option<String>,
    pub outputs: Option<String>,
}

/// A vertical slice of work: one agent session.
#[derive(Debug)]
pub struct Chunk {
    pub id: String,
    pub description: String,
    pub scenarios: Vec<String>,
    pub spec_refs: Vec<String>,
    pub blocked_by: Vec<String>,
    pub state: ScheduleState,
    pub tasks: Vec<Task>,
}

/// A milestone containing chunks.
#[derive(Debug)]
pub struct Phase {
    pub id: String,
    pub description: String,
    pub blocked_by: Vec<String>,
    pub state: ScheduleState,
    pub chunks: Vec<Chunk>,
}

/// The full work queue of a project.
#[derive(Debug)]
pub struct Schedule {
    pub project: ProjectId,
    pub phases: Vec<Phase>,
}

impl View for Task {
    type V = TaskV;

    open spec fn view(&self) -> TaskV {
        TaskV {
            id: self.id@,
            description: self.description@,
            state: self.state,
            skill: self.skill.deep_view(),
            inputs: self.inputs.deep_view(),
            outputs: self.outputs.deep_view(),
        }
    }
}

impl DeepView for Task {
    type V = TaskV;

    open spec fn deep_view(&self) -> TaskV {
        self@
    }
}

impl View for Chunk {
    type V = ChunkV;

    open spec fn view(&self) -> ChunkV {
        ChunkV {
            id: self.id@,
            description: self.description@,
            scenarios: self.scenarios.deep_view(),
            spec_refs: self.spec_refs.deep_view(),
            blocked_by: self.blocked_by.deep_view(),
            state: self.state,
            tasks: self.tasks.deep_view(),
        }
    }
}

impl DeepView for Chunk {
    type V = ChunkV;

    open spec fn deep_view(&self) -> ChunkV {
        self@
    }
}

impl View for Phase {
    type V = PhaseV;

    open spec fn view(&self) -> PhaseV {
        PhaseV {
            id: self.id@,
            description: self.description@,
            blocked_by: self.blocked_by.deep_view(),
            state: self.state,
            chunks: self.chunks.deep_view(),
        }
    }
}

impl DeepView for Phase {
    type V = PhaseV;

    open spec fn deep_view(&self) -> PhaseV {
        self@
    }
}

impl View for Schedule {
    type V = ScheduleV;

    open spec fn view(&self) -> ScheduleV {
        ScheduleV { project: self.project@, phases: self.phases.deep_view() }
    }
}

/// A duplicate of a list of strings with the same characters.
pub fn clone_strings(v: &Vec<String>) -> (r: Vec<String>)
    ensures
        r.deep_view() == v.deep_view(),
{
    let r = v.clone();
    assert(r.deep_view() =~= v.deep_view());
    r
}

/// A duplicate of an optional string.
pub fn clone_opt_string(v: &Option<String>) -> (r: Option<String>)
    ensures
        r.deep_view() == v.deep_view(),
{
    match v {
        Some(s) => Some(s.clone()),
        None => None,
    }
}

impl Task {
    /// A duplicate of the task, with the same view.
    pub fn duplicate(&self) -> (r: Task)
        ensures
            r@ == self@,
    {
        Task {
            id: self.id.clone(),
            description: self.description.clone(),
            state: self.state,
            skill: clone_opt_string(&self.skill),
            inputs: clone_opt_string(&self.inputs),
            outputs: clone_opt_string(&self.outputs),
        }
    }
}

/// A copy of a list of tasks with the same view.
pub fn clone_tasks(v: &Vec<Task>) -> (r: Vec<Task>)
    ensures
        r.deep_view() == v.deep_view(),
{
    let mut r: Vec<Task> = Vec::new();
    let mut i: usize = 0;
    while i < v.len()
        invariant
            i <= v.len(),
            r.len() == i,
            forall|k: int| 0 <= k < i ==> (#[trigger] r@[k])@ == v@[k]@,
        decreases v.len() - i,
    {
        r.push(v[i].duplicate());
        i += 1;
    }
    assert(r.deep_view() =~= v.deep_view());
    r
}

impl Chunk {
    /// A copy of this chunk with the same view.
    pub fn duplicate(&self) -> (r: Chunk)
        ensures
            r@ == self@,
    {
        Chunk {
            id: self.id.clone(),
            description: self.description.clone(),
            scenarios: clone_strings(&self.scenarios),
            spec_refs: clone_strings(&self.spec_refs),
            blocked_by: clone_strings(&self.blocked_by),
            state: self.state,
            tasks: clone_tasks(&self.tasks),
        }
    }
}

/// A copy of a list of chunks with the same view.
pub fn clone_chunks(v: &Vec<Chunk>) -> (r: Vec<Chunk>)
    ensures
        r.deep_view() == v.deep_view(),
{
    let mut r: Vec<Chunk> = Vec::new();
    let mut i: usize = 0;
    while i < v.len()
        invariant
            i <= v.len(),
            r.len() == i,
            forall|k: int| 0 <= k < i ==> (#[trigger] r@[k])@ == v@[k]@,
        decreases v.len() - i,
    {
        r.push(v[i].duplicate());
        i += 1;
    }
    assert(r.deep_view() =~= v.deep_view());
    r
}

impl Phase {
    /// A copy of this phase with the same view.
    pub fn duplicate(&self) -> (r: Phase)
        ensures
            r@ == self@,
    {
        Phase {
            id: self.id.clone(),
            description: self.description.clone(),
            blocked_by: clone_strings(&self.blocked_by),
            state: self.state,
            chunks: clone_chunks(&self.chunks),
        }
    }
}

/// Result of marking a task done, with the auto-promotion flags.
#[derive(Debug)]
pub struct TaskCompletion {
    /// The task that was just marked done.
    pub task: Task,
    /// `true` when the parent chunk was promoted to `Done`.
    pub chunk_promoted: bool,
    /// `true` when the parent phase was promoted to `Done`.
    pub phase_promoted: bool,
}

/// Counter values derived from a schedule.
#[derive(Debug, Clone, Copy, PartialEq, Eq, Structural)]
pub struct ScheduleCounters {
    pub chunks_required: u32,
    pub tasks_required: u32,
    pub chunks_completed: u32,
    pub tasks_completed: u32,
}

/// Optional fields for updating a phase.
#[derive(Debug, Default)]
pub struct PhaseEdit {
    pub description: Option<String>,
    pub new_id: Option<String>,
    pub state: Option<ScheduleState>,
    pub blocked_by: Option<Vec<String>>,
}

/// Optional fields for updating a chunk.
#[derive(Debug, Default)]
pub struct ChunkEdit {
    pub description: Option<String>,
    pub new_id: Option<String>,
    pub state: Option<ScheduleState>,
    pub blocked_by: Option<Vec<String>>,
    pub scenarios: Option<Vec<String>>,
    pub spec_refs: Option<Vec<String>>,
}

/// Optional fields for updating a task. For the optional task fields,
/// `Some(None)` clears the field.
#[derive(Debug, Default)]
pub struct TaskEdit {
    pub description: Option<String>,
    pub new_id: Option<String>,
    pub state: Option<ScheduleState>,
    pub skill: Option<Option<String>>,
    pub inputs: Option<Option<String>>,
    pub outputs: Option<Option<String>>,
}


} // verus!
