//! The per-project status pipeline: steps, their agents and their status.

use vstd::prelude::*;
use crate::selection::{ItemList, onboarding_item, design_item};
use crate::text::{contains_str, str_eq};
use super::project::Category;

verus! {

/// Progress of a pipeline step.
#[derive(Debug, Clone, Copy, PartialEq, Eq, Structural)]
pub enum Status {
    NotStarted,
    InProgress,
    NotRequired,
    Completed,
}

impl Status {
    /// Kebab-case name, as shown and stored.
    pub fn name(&self) -> (r: &'static str)
        ensures
            r@ == match self {
                Status::NotStarted => "not-started"@,
                Status::InProgress => "in-progress"@,
                Status::NotRequired => "not-required"@,
                Status::Completed => "completed"@,
            },
    {
        match self {
            Status::NotStarted => "not-started",
            Status::InProgress => "in-progress",
            Status::NotRequired => "not-required",
            Status::Completed => "completed",
        }
    }
}

/// The agent a step runs: how many, at which effort, on which model, with
/// which skills.
#[derive(Debug)]
pub struct Agent {
    pub count: u32,
    pub effort: String,
    pub model: String,
    pub skills: Vec<String>,
}

/// A step with one output.
#[derive(Debug)]
pub struct Step {
    pub agent: Agent,
    pub inputs: Vec<String>,
    pub output: String,
    pub status: Status,
}

/// A named step of a pipeline stage.
#[derive(Debug)]
pub struct TaskStep {
    pub item: String,
    pub stop_on_finish: bool,
    pub agent: Agent,
    pub inputs: Vec<String>,
    pub outputs: Vec<String>,
    pub status: Status,
}

/// The steps of every stage of a project.
#[derive(Debug)]
pub struct ProjectStatus {
    pub user_support: Vec<TaskStep>,
    pub onboarding: Vec<TaskStep>,
    pub design: Vec<TaskStep>,
    pub planning: Vec<TaskStep>,
    pub execution: Vec<TaskStep>,
}

/// Design items that are required whatever the selection: the four core
/// design documents, and the existing-code exploration of a refactor.
pub open spec fn design_required(item: Seq<char>, category: Category) -> bool {
    item == "module-design"@ || item == "architecture-design"@ || item == "error-handling"@
        || item == "architecture-proposal"@ || (item == "existing-code-exploration"@ && category
        == Category::Refactor)
}

/// Whether the design item `item` must run for a project of `category`.
pub fn is_design_required(item: &str, category: &Category) -> (r: bool)
    ensures
        r == design_required(item@, *category),
{
    str_eq(item, "module-design") || str_eq(item, "architecture-design") || str_eq(item, "error-handling")
        || str_eq(item, "architecture-proposal") || (str_eq(item, "existing-code-exploration")
        && *category == Category::Refactor)
}

/// Onboarding items that are required whatever the selection.
pub open spec fn required_always(item: Seq<char>) -> bool {
    item == "goal"@ || item == "scope"@ || item == "uat"@ || item == "checklist"@
}

/// Whether the onboarding item `item` must always run.
pub fn is_required_always(item: &str) -> (r: bool)
    ensures
        r == required_always(item@),
{
    str_eq(item, "goal") || str_eq(item, "scope") || str_eq(item, "uat") || str_eq(item, "checklist")
}

/// An agent as plain values.
pub struct AgentV {
    pub count: u32,
    pub effort: Seq<char>,
    pub model: Seq<char>,
    pub skills: Seq<Seq<char>>,
}

/// A pipeline step as plain values.
pub struct TaskStepV {
    pub item: Seq<char>,
    pub stop_on_finish: bool,
    pub agent: AgentV,
    pub inputs: Seq<Seq<char>>,
    pub outputs: Seq<Seq<char>>,
    pub status: Status,
}

/// The steps of every stage, as plain values.
pub struct ProjectStatusV {
    pub user_support: Seq<TaskStepV>,
    pub onboarding: Seq<TaskStepV>,
    pub design: Seq<TaskStepV>,
    pub planning: Seq<TaskStepV>,
    pub execution: Seq<TaskStepV>,
}

impl View for Agent {
    type V = AgentV;

    open spec fn view(&self) -> AgentV {
        AgentV {
            count: self.count,
            effort: self.effort@,
            model: self.model@,
            skills: self.skills.deep_view(),
        }
    }
}

impl View for TaskStep {
    type V = TaskStepV;

    open spec fn view(&self) -> TaskStepV {
        TaskStepV {
            item: self.item@,
            stop_on_finish: self.stop_on_finish,
            agent: self.agent@,
            inputs: self.inputs.deep_view(),
            outputs: self.outputs.deep_view(),
            status: self.status,
        }
    }
}

impl DeepView for TaskStep {
    type V = TaskStepV;

    open spec fn deep_view(&self) -> TaskStepV {
        self@
    }
}

impl View for ProjectStatus {
    type V = ProjectStatusV;

    open spec fn view(&self) -> ProjectStatusV {
        ProjectStatusV {
            user_support: self.user_support.deep_view(),
            onboarding: self.onboarding.deep_view(),
            design: self.design.deep_view(),
            planning: self.planning.deep_view(),
            execution: self.execution.deep_view(),
        }
    }
}

/// The path of the document `name` of a project stage: `rex/<id>/<stage>/<name>`.
pub open spec fn stage_path(id: Seq<char>, stage: Seq<char>, name: Seq<char>) -> Seq<char> {
    "rex/"@ + id + "/"@ + stage + "/"@ + name
}

/// An onboarding document of the project.
pub open spec fn onb(id: Seq<char>, name: Seq<char>) -> Seq<char> {
    stage_path(id, "onboarding"@, name)
}

/// A design document of the project.
pub open spec fn des(id: Seq<char>, name: Seq<char>) -> Seq<char> {
    stage_path(id, "design"@, name)
}

/// A planning document of the project.
pub open spec fn pln(id: Seq<char>, name: Seq<char>) -> Seq<char> {
    stage_path(id, "planning"@, name)
}

/// An agent with the given settings.
pub open spec fn agent_v(count: u32, effort: Seq<char>, model: Seq<char>, skills: Seq<Seq<char>>) -> AgentV {
    AgentV { count, effort, model, skills }
}

/// The status a step starts with: to do when required or selected, else not required.
pub open spec fn initial_status(needed: bool) -> Status {
    if needed {
        Status::NotStarted
    } else {
        Status::NotRequired
    }
}

/// The onboarding step at position `i`: it reads the documents of every
/// earlier onboarding step and writes its own (the checklist as JSON, where
/// the run stops).
pub open spec fn onboarding_step(id: Seq<char>, selected: Seq<Seq<char>>, i: int) -> TaskStepV {
    let item = onboarding_item(i);
    let checklist = item == "checklist"@;
    TaskStepV {
        item,
        stop_on_finish: checklist,
        agent: agent_v(1, "high"@, "sonnet"@, seq!["rex-onboarding-"@ + item]),
        inputs: Seq::new(i as nat, |j: int| onb(id, onboarding_item(j) + ".md"@)),
        outputs: seq![onb(id, item + if checklist { ".json"@ } else { ".md"@ })],
        status: initial_status(required_always(item) || selected.contains(item)),
    }
}

/// The path `rex/<id>/<stage>/<name>`.
fn stage_path_of(id: &str, stage: &str, name: &str) -> (r: String)
    ensures
        r@ == stage_path(id@, stage@, name@),
{
    "rex/".to_owned().concat(id).concat("/").concat(stage).concat("/").concat(name)
}

/// Append the path `rex/<id>/<stage>/<name>` to `v`.
fn push_path(v: &mut Vec<String>, id: &str, stage: &str, name: &str)
    ensures
        final(v).deep_view() == old(v).deep_view().push(stage_path(id@, stage@, name@)),
{
    let p = stage_path_of(id, stage, name);
    v.push(p);
    assert(v.deep_view() =~= old(v).deep_view().push(stage_path(id@, stage@, name@)));
}

/// A list holding one string.
fn one_string(s: String) -> (r: Vec<String>)
    ensures
        r.deep_view() == seq![s@],
{
    let mut v: Vec<String> = Vec::new();
    v.push(s);
    assert(v.deep_view() =~= seq![s@]);
    v
}

/// The initial status of a step.
fn initial_status_of(needed: bool) -> (r: Status)
    ensures
        r == initial_status(needed),
{
    if needed {
        Status::NotStarted
    } else {
        Status::NotRequired
    }
}

/// Build the onboarding step at position `i`.
fn build_onboarding_step(project_id: &str, selected: &[String], i: usize) -> (r: TaskStep)
    requires
        i < 15,
    ensures
        r@ == onboarding_step(project_id@, selected.deep_view(), i as int),
{
    let list = ItemList::Onboarding;
    let item = list.item(i);
    let status = initial_status_of(is_required_always(item) || contains_str(selected, item));
    let ghost f = |j: int| onb(project_id@, onboarding_item(j) + ".md"@);
    let mut inputs: Vec<String> = Vec::new();
    let mut j: usize = 0;
    assert(inputs.deep_view() =~= Seq::new(0, f));
    while j < i
        invariant
            i < 15,
            j <= i,
            list == ItemList::Onboarding,
            f == (|j: int| onb(project_id@, onboarding_item(j) + ".md"@)),
            inputs.deep_view() == Seq::new(j as nat, f),
        decreases i - j,
    {
        let prev = list.item(j).to_owned().concat(".md");
        push_path(&mut inputs, project_id, "onboarding", prev.as_str());
        assert(inputs.deep_view() =~= Seq::new((j + 1) as nat, f));
        j += 1;
    }
    let checklist = str_eq(item, "checklist");
    let name = if checklist {
        item.to_owned().concat(".json")
    } else {
        item.to_owned().concat(".md")
    };
    let mut outputs: Vec<String> = Vec::new();
    push_path(&mut outputs, project_id, "onboarding", name.as_str());
    assert(outputs.deep_view() =~= seq![onb(project_id@, name@)]);
    let skills = one_string("rex-onboarding-".to_owned().concat(item));
    TaskStep {
        item: item.to_owned(),
        stop_on_finish: checklist,
        agent: Agent { count: 1, effort: "high".to_owned(), model: "sonnet".to_owned(), skills },
        inputs,
        outputs,
        status,
    }
}


/// The agent of each design item: how many run, at which effort, on which
/// model, with which skill.
pub open spec fn design_agent(item: Seq<char>) -> AgentV {
    if item == "existing-code-exploration"@ {
        agent_v(3, "high"@, "sonnet"@, seq!["rex-design-rust-existing-code-exploration"@])
    } else if item == "library-review"@ {
        agent_v(1, "high"@, "sonnet"@, seq!["rex-design-rust-library-review"@])
    } else if item == "module-design"@ {
        agent_v(1, "max"@, "opus"@, seq!["rex-design-rust-modules"@])
    } else if item == "architecture-design"@ {
        agent_v(1, "max"@, "opus"@, seq!["rex-design-rust-architecture"@])
    } else if item == "integration-testing"@ {
        agent_v(1, "high"@, "sonnet"@, seq!["rex-design-rust-integration-tests"@])
    } else if item == "foreign-critique"@ {
        agent_v(3, "max"@, "opus"@, seq!["rex-design-foreign-critique"@])
    } else if item == "error-handling"@ {
        agent_v(1, "high"@, "sonnet"@, seq!["rex-design-rust-errors"@])
    } else if item == "architecture-proposal"@ {
        agent_v(1, "max"@, "opus"@, seq!["rex-design-rust-architecture-proposal"@])
    } else if item == "user-acceptance"@ {
        agent_v(1, "high"@, "sonnet"@, seq!["rex-design-user-acceptance"@])
    } else {
        agent_v(1, "high"@, "sonnet"@, seq![])
    }
}

/// The onboarding documents that every later design step reads.
pub open spec fn onboarding_context(id: Seq<char>) -> Seq<Seq<char>> {
    seq![
        onb(id, "research.md"@),
        onb(id, "resources.md"@),
        onb(id, "user-expertise.md"@),
        onb(id, "success-measures.md"@),
        onb(id, "known-risks.md"@),
        onb(id, "uat.md"@),
        onb(id, "environment-variables.md"@),
        onb(id, "idea-generation.md"@),
        onb(id, "goal.md"@),
        onb(id, "user-expertise.md"@),
        onb(id, "checklist.json"@),
        onb(id, "libraries-and-sdks.md"@),
        des(id, "existing-code-exploration.md"@),
        des(id, "library-review.md"@),
    ]
}

/// The documents each design step reads.
pub open spec fn design_inputs(id: Seq<char>, item: Seq<char>) -> Seq<Seq<char>> {
    if item == "existing-code-exploration"@ {
        seq![onb(id, "goal.md"@), onb(id, "scope.md"@), onb(id, "existing-code.md"@)]
    } else if item == "library-review"@ {
        seq![
            onb(id, "goal.md"@),
            onb(id, "scope.md"@),
            onb(id, "user-expertise.md"@),
            onb(id, "checklist.json"@),
            onb(id, "libraries-and-sdks.md"@),
        ]
    } else if item == "module-design"@ {
        onboarding_context(id)
    } else if item == "architecture-design"@ {
        onboarding_context(id).push(des(id, "module-design.md"@))
    } else if item == "integration-testing"@ {
        onboarding_context(id).push(des(id, "module-design.md"@)).push(des(id, "architecture-design.md"@))
    } else if item == "foreign-critique"@ {
        seq![
            onb(id, "goal.md"@),
            onb(id, "scope.md"@),
            onb(id, "existing-code.md"@),
            onb(id, "libraries-and-sdks.md"@),
            onb(id, "research.md"@),
            onb(id, "resources.md"@),
            onb(id, "user-expertise.md"@),
            onb(id, "success-measures.md"@),
            onb(id, "known-risks.md"@),
            onb(id, "uat.md"@),
            onb(id, "environment-variables.md"@),
            onb(id, "idea-generation.md"@),
            onb(id, "skill-building.md"@),
            des(id, "existing-code-exploration.md"@),
            des(id, "library-review.md"@),
            des(id, "module-design.md"@),
            des(id, "architecture-design.md"@),
        ]
    } else if item == "error-handling"@ {
        seq![
            des(id, "existing-code-exploration.md"@),
            des(id, "library-review.md"@),
            des(id, "module-design.md"@),
            des(id, "architecture-design.md"@),
        ]
    } else if item == "architecture-proposal"@ {
        seq![
            onb(id, "goal.md"@),
            onb(id, "scope.md"@),
            des(id, "error-handling.md"@),
            des(id, "existing-code-exploration.md"@),
            des(id, "library-review.md"@),
            des(id, "module-design.md"@),
            des(id, "architecture-design.md"@),
            des(id, "foreign-critique.md"@),
        ]
    } else if item == "user-acceptance"@ {
        seq![des(id, "architecture-proposal.html"@)]
    } else {
        seq![]
    }
}

/// The documents each design step writes: the proposal as Markdown and
/// HTML, the integration tests under their own name, any other item under
/// its name.
pub open spec fn design_outputs(id: Seq<char>, item: Seq<char>) -> Seq<Seq<char>> {
    if item == "architecture-proposal"@ {
        seq![des(id, "architecture-proposal.md"@), des(id, "architecture-proposal.html"@)]
    } else if item == "integration-testing"@ {
        seq![des(id, "integration-tests.md"@)]
    } else {
        seq![des(id, item + ".md"@)]
    }
}

/// The design step at position `i`; every design step stops the run when done.
pub open spec fn design_step(id: Seq<char>, selected: Seq<Seq<char>>, category: Category, i: int) -> TaskStepV {
    let item = design_item(i);
    TaskStepV {
        item,
        stop_on_finish: true,
        agent: design_agent(item),
        inputs: design_inputs(id, item),
        outputs: design_outputs(id, item),
        status: initial_status(design_required(item, category) || selected.contains(item)),
    }
}

/// Build the agent of a design item.
fn design_agent_config(item: &str) -> (r: Agent)
    ensures
        r@ == design_agent(item@),
{
    let (count, effort, model, skill): (u32, &str, &str, &str) = if str_eq(item, "existing-code-exploration") {
        (3, "high", "sonnet", "rex-design-rust-existing-code-exploration")
    } else if str_eq(item, "library-review") {
        (1, "high", "sonnet", "rex-design-rust-library-review")
    } else if str_eq(item, "module-design") {
        (1, "max", "opus", "rex-design-rust-modules")
    } else if str_eq(item, "architecture-design") {
        (1, "max", "opus", "rex-design-rust-architecture")
    } else if str_eq(item, "integration-testing") {
        (1, "high", "sonnet", "rex-design-rust-integration-tests")
    } else if str_eq(item, "foreign-critique") {
        (3, "max", "opus", "rex-design-foreign-critique")
    } else if str_eq(item, "error-handling") {
        (1, "high", "sonnet", "rex-design-rust-errors")
    } else if str_eq(item, "architecture-proposal") {
        (1, "max", "opus", "rex-design-rust-architecture-proposal")
    } else if str_eq(item, "user-acceptance") {
        (1, "high", "sonnet", "rex-design-user-acceptance")
    } else {
        let skills: Vec<String> = Vec::new();
        assert(skills.deep_view() =~= Seq::<Seq<char>>::empty());
        return Agent { count: 1, effort: "high".to_owned(), model: "sonnet".to_owned(), skills };
    };
    Agent { count, effort: effort.to_owned(), model: model.to_owned(), skills: one_string(skill.to_owned()) }
}

/// Append the onboarding context of the later design steps.
fn push_onboarding_context(v: &mut Vec<String>, id: &str)
    ensures
        final(v).deep_view() == old(v).deep_view() + onboarding_context(id@),
{
    push_path(v, id, "onboarding", "research.md");
    push_path(v, id, "onboarding", "resources.md");
    push_path(v, id, "onboarding", "user-expertise.md");
    push_path(v, id, "onboarding", "success-measures.md");
    push_path(v, id, "onboarding", "known-risks.md");
    push_path(v, id, "onboarding", "uat.md");
    push_path(v, id, "onboarding", "environment-variables.md");
    push_path(v, id, "onboarding", "idea-generation.md");
    push_path(v, id, "onboarding", "goal.md");
    push_path(v, id, "onboarding", "user-expertise.md");
    push_path(v, id, "onboarding", "checklist.json");
    push_path(v, id, "onboarding", "libraries-and-sdks.md");
    push_path(v, id, "design", "existing-code-exploration.md");
    push_path(v, id, "design", "library-review.md");
    assert(v.deep_view() =~= old(v).deep_view() + onboarding_context(id@));
}

/// Build the inputs of a design step.
fn design_inputs_of(id: &str, item: &str) -> (r: Vec<String>)
    ensures
        r.deep_view() == design_inputs(id@, item@),
{
    let mut v: Vec<String> = Vec::new();
    if str_eq(item, "existing-code-exploration") {
        push_path(&mut v, id, "onboarding", "goal.md");
        push_path(&mut v, id, "onboarding", "scope.md");
        push_path(&mut v, id, "onboarding", "existing-code.md");
    } else if str_eq(item, "library-review") {
        push_path(&mut v, id, "onboarding", "goal.md");
        push_path(&mut v, id, "onboarding", "scope.md");
        push_path(&mut v, id, "onboarding", "user-expertise.md");
        push_path(&mut v, id, "onboarding", "checklist.json");
        push_path(&mut v, id, "onboarding", "libraries-and-sdks.md");
    } else if str_eq(item, "module-design") {
        push_onboarding_context(&mut v, id);
        assert(v.deep_view() =~= onboarding_context(id@));
    } else if str_eq(item, "architecture-design") {
        push_onboarding_context(&mut v, id);
        push_path(&mut v, id, "design", "module-design.md");
        assert(v.deep_view() =~= onboarding_context(id@).push(des(id@, "module-design.md"@)));
    } else if str_eq(item, "integration-testing") {
        push_onboarding_context(&mut v, id);
        push_path(&mut v, id, "design", "module-design.md");
        push_path(&mut v, id, "design", "architecture-design.md");
        assert(v.deep_view() =~= onboarding_context(id@).push(des(id@, "module-design.md"@)).push(
            des(id@, "architecture-design.md"@),
        ));
    } else if str_eq(item, "foreign-critique") {
        push_path(&mut v, id, "onboarding", "goal.md");
        push_path(&mut v, id, "onboarding", "scope.md");
        push_path(&mut v, id, "onboarding", "existing-code.md");
        push_path(&mut v, id, "onboarding", "libraries-and-sdks.md");
        push_path(&mut v, id, "onboarding", "research.md");
        push_path(&mut v, id, "onboarding", "resources.md");
        push_path(&mut v, id, "onboarding", "user-expertise.md");
        push_path(&mut v, id, "onboarding", "success-measures.md");
        push_path(&mut v, id, "onboarding", "known-risks.md");
        push_path(&mut v, id, "onboarding", "uat.md");
        push_path(&mut v, id, "onboarding", "environment-variables.md");
        push_path(&mut v, id, "onboarding", "idea-generation.md");
        push_path(&mut v, id, "onboarding", "skill-building.md");
        push_path(&mut v, id, "design", "existing-code-exploration.md");
        push_path(&mut v, id, "design", "library-review.md");
        push_path(&mut v, id, "design", "module-design.md");
        push_path(&mut v, id, "design", "architecture-design.md");
    } else if str_eq(item, "error-handling") {
        push_path(&mut v, id, "design", "existing-code-exploration.md");
        push_path(&mut v, id, "design", "library-review.md");
        push_path(&mut v, id, "design", "module-design.md");
        push_path(&mut v, id, "design", "architecture-design.md");
    } else if str_eq(item, "architecture-proposal") {
        push_path(&mut v, id, "onboarding", "goal.md");
        push_path(&mut v, id, "onboarding", "scope.md");
        push_path(&mut v, id, "design", "error-handling.md");
        push_path(&mut v, id, "design", "existing-code-exploration.md");
        push_path(&mut v, id, "design", "library-review.md");
        push_path(&mut v, id, "design", "module-design.md");
        push_path(&mut v, id, "design", "architecture-design.md");
        push_path(&mut v, id, "design", "foreign-critique.md");
    } else if str_eq(item, "user-acceptance") {
        push_path(&mut v, id, "design", "architecture-proposal.html");
    }
    v
}

/// Build the outputs of a design step.
fn design_outputs_of(id: &str, item: &str) -> (r: Vec<String>)
    ensures
        r.deep_view() == design_outputs(id@, item@),
{
    let mut v: Vec<String> = Vec::new();
    if str_eq(item, "architecture-proposal") {
        push_path(&mut v, id, "design", "architecture-proposal.md");
        push_path(&mut v, id, "design", "architecture-proposal.html");
    } else if str_eq(item, "integration-testing") {
        push_path(&mut v, id, "design", "integration-tests.md");
    } else {
        let name = item.to_owned().concat(".md");
        push_path(&mut v, id, "design", name.as_str());
    }
    v
}

/// Build the design step at position `i`.
fn build_design_step(project_id: &str, selected: &[String], category: &Category, i: usize) -> (r: TaskStep)
    requires
        i < 9,
    ensures
        r@ == design_step(project_id@, selected.deep_view(), *category, i as int),
{
    let item = ItemList::Design.item(i);
    let status = initial_status_of(is_design_required(item, category) || contains_str(selected, item));
    TaskStep {
        item: item.to_owned(),
        stop_on_finish: true,
        agent: design_agent_config(item),
        inputs: design_inputs_of(project_id, item),
        outputs: design_outputs_of(project_id, item),
        status,
    }
}

/// What the milestone and objective planners read: the onboarding and
/// design documents and the planning file.
pub open spec fn planning_full_inputs(id: Seq<char>) -> Seq<Seq<char>> {
    seq![
        onb(id, "goal.md"@),
        onb(id, "scope.md"@),
        onb(id, "research.md"@),
        onb(id, "resources.md"@),
        onb(id, "user-expertise.md"@),
        onb(id, "success-measures.md"@),
        onb(id, "known-risks.md"@),
        onb(id, "uat.md"@),
        onb(id, "environment-variables.md"@),
        onb(id, "idea-generation.md"@),
        onb(id, "checklist.json"@),
    ] + planning_tasks_inputs(id)
}

/// What the task planner reads: the design documents and the planning file.
pub open spec fn planning_tasks_inputs(id: Seq<char>) -> Seq<Seq<char>> {
    seq![
        des(id, "error-handling.md"@),
        des(id, "existing-code-exploration.md"@),
        des(id, "library-review.md"@),
        des(id, "module-design.md"@),
        des(id, "architecture-design.md"@),
        des(id, "foreign-critique.md"@),
        des(id, "architecture-proposal.md"@),
        pln(id, "planning.json"@),
    ]
}

/// The documents of the final planning step, which checks the plan.
pub open spec fn planning_review_inputs(id: Seq<char>) -> Seq<Seq<char>> {
    seq![
        des(id, "error-handling.md"@),
        des(id, "existing-code-exploration.md"@),
        des(id, "library-review.md"@),
        des(id, "module-design.md"@),
        des(id, "architecture-design.md"@),
        des(id, "existing-code-exploration.md"@),
        des(id, "library-review.md"@),
        des(id, "module-design.md"@),
        des(id, "architecture-design.md"@),
        des(id, "architecture-proposal.md"@),
        pln(id, "milestones.json"@),
        pln(id, "objectives.json"@),
        pln(id, "tasks.json"@),
        pln(id, "planning.json"@),
    ]
}

/// A planning step: one agent at maximum effort on opus, no outputs, to do,
/// stopping the run when done.
pub open spec fn planning_step(item: Seq<char>, skill: Seq<char>, inputs: Seq<Seq<char>>) -> TaskStepV {
    TaskStepV {
        item,
        stop_on_finish: true,
        agent: agent_v(1, "max"@, "opus"@, seq![skill]),
        inputs,
        outputs: seq![],
        status: Status::NotStarted,
    }
}

/// The planning stage: milestones, objectives, tasks, then a check of the plan.
pub open spec fn planning_steps(id: Seq<char>) -> Seq<TaskStepV> {
    seq![
        planning_step("milestones"@, "rex-planning-milestones"@, planning_full_inputs(id)),
        planning_step("objectives"@, "rex-planning-objectives"@, planning_full_inputs(id)),
        planning_step("tasks"@, "rex-planning-tasks"@, planning_tasks_inputs(id)),
        planning_step("review"@, "rex-planning-review"@, planning_review_inputs(id)),
    ]
}

/// The execution stage: one step that runs the next task.
pub open spec fn execution_steps() -> Seq<TaskStepV> {
    seq![
        TaskStepV {
            item: "run"@,
            stop_on_finish: false,
            agent: agent_v(
                1,
                "high"@,
                "sonnet"@,
                seq![
                    "STEP 1: run 'rex task next'"@,
                    "STEP 2: Assign agents with model, effort level and skills as defined in the task"@,
                ],
            ),
            inputs: seq![],
            outputs: seq![],
            status: Status::NotStarted,
        },
    ]
}

/// The user-support stage: the user-input step, done from the start.
pub open spec fn user_support_steps(id: Seq<char>) -> Seq<TaskStepV> {
    seq![
        TaskStepV {
            item: "user-input"@,
            stop_on_finish: false,
            agent: agent_v(1, "high"@, "sonnet"@, seq!["rex-user-input"@]),
            inputs: seq![stage_path(id, "user-support"@, "requested.md"@)],
            outputs: seq![stage_path(id, "user-support"@, "provided.md"@)],
            status: Status::Completed,
        },
    ]
}

/// The status of a new project: every stage with its steps, onboarding and
/// design steps to do where required or selected.
pub open spec fn new_project_status(
    id: Seq<char>,
    onboarding: Seq<Seq<char>>,
    design: Seq<Seq<char>>,
    category: Category,
) -> ProjectStatusV {
    ProjectStatusV {
        user_support: user_support_steps(id),
        onboarding: Seq::new(15, |i: int| onboarding_step(id, onboarding, i)),
        design: Seq::new(9, |i: int| design_step(id, design, category, i)),
        planning: planning_steps(id),
        execution: execution_steps(),
    }
}

/// Append the design documents and the planning file that the task planner reads.
fn push_tasks_inputs(v: &mut Vec<String>, id: &str)
    ensures
        final(v).deep_view() == old(v).deep_view() + planning_tasks_inputs(id@),
{
    push_path(v, id, "design", "error-handling.md");
    push_path(v, id, "design", "existing-code-exploration.md");
    push_path(v, id, "design", "library-review.md");
    push_path(v, id, "design", "module-design.md");
    push_path(v, id, "design", "architecture-design.md");
    push_path(v, id, "design", "foreign-critique.md");
    push_path(v, id, "design", "architecture-proposal.md");
    push_path(v, id, "planning", "planning.json");
    assert(v.deep_view() =~= old(v).deep_view() + planning_tasks_inputs(id@));
}

/// Build what the milestone and objective planners read.
fn full_inputs_of(id: &str) -> (r: Vec<String>)
    ensures
        r.deep_view() == planning_full_inputs(id@),
{
    let mut v: Vec<String> = Vec::new();
    push_path(&mut v, id, "onboarding", "goal.md");
    push_path(&mut v, id, "onboarding", "scope.md");
    push_path(&mut v, id, "onboarding", "research.md");
    push_path(&mut v, id, "onboarding", "resources.md");
    push_path(&mut v, id, "onboarding", "user-expertise.md");
    push_path(&mut v, id, "onboarding", "success-measures.md");
    push_path(&mut v, id, "onboarding", "known-risks.md");
    push_path(&mut v, id, "onboarding", "uat.md");
    push_path(&mut v, id, "onboarding", "environment-variables.md");
    push_path(&mut v, id, "onboarding", "idea-generation.md");
    push_path(&mut v, id, "onboarding", "checklist.json");
    push_tasks_inputs(&mut v, id);
    v
}

/// Build a planning step.
fn planning_step_of(item: &str, skill: &str, inputs: Vec<String>) -> (r: TaskStep)
    ensures
        r@ == planning_step(item@, skill@, inputs.deep_view()),
{
    let outputs: Vec<String> = Vec::new();
    assert(outputs.deep_view() =~= Seq::<Seq<char>>::empty());
    TaskStep {
        item: item.to_owned(),
        stop_on_finish: true,
        agent: Agent { count: 1, effort: "max".to_owned(), model: "opus".to_owned(), skills: one_string(skill.to_owned()) },
        inputs,
        outputs,
        status: Status::NotStarted,
    }
}

/// Build the planning stage.
fn build_planning_steps(id: &str) -> (r: Vec<TaskStep>)
    ensures
        r.deep_view() == planning_steps(id@),
{
    let mut tasks_inputs: Vec<String> = Vec::new();
    push_tasks_inputs(&mut tasks_inputs, id);
    assert(tasks_inputs.deep_view() =~= planning_tasks_inputs(id@));
    let mut review: Vec<String> = Vec::new();
    push_path(&mut review, id, "design", "error-handling.md");
    push_path(&mut review, id, "design", "existing-code-exploration.md");
    push_path(&mut review, id, "design", "library-review.md");
    push_path(&mut review, id, "design", "module-design.md");
    push_path(&mut review, id, "design", "architecture-design.md");
    push_path(&mut review, id, "design", "existing-code-exploration.md");
    push_path(&mut review, id, "design", "library-review.md");
    push_path(&mut review, id, "design", "module-design.md");
    push_path(&mut review, id, "design", "architecture-design.md");
    push_path(&mut review, id, "design", "architecture-proposal.md");
    push_path(&mut review, id, "planning", "milestones.json");
    push_path(&mut review, id, "planning", "objectives.json");
    push_path(&mut review, id, "planning", "tasks.json");
    push_path(&mut review, id, "planning", "planning.json");
    assert(review.deep_view() =~= planning_review_inputs(id@));
    let mut steps: Vec<TaskStep> = Vec::new();
    steps.push(planning_step_of("milestones", "rex-planning-milestones", full_inputs_of(id)));
    steps.push(planning_step_of("objectives", "rex-planning-objectives", full_inputs_of(id)));
    steps.push(planning_step_of("tasks", "rex-planning-tasks", tasks_inputs));
    steps.push(planning_step_of("review", "rex-planning-review", review));
    assert(steps.deep_view() =~= planning_steps(id@));
    steps
}

/// Build the execution stage.
fn build_execution_steps() -> (r: Vec<TaskStep>)
    ensures
        r.deep_view() == execution_steps(),
{
    let mut skills: Vec<String> = Vec::new();
    skills.push("STEP 1: run 'rex task next'".to_owned());
    skills.push("STEP 2: Assign agents with model, effort level and skills as defined in the task".to_owned());
    let none: Vec<String> = Vec::new();
    let none2: Vec<String> = Vec::new();
    let mut steps: Vec<TaskStep> = Vec::new();
    steps.push(
        TaskStep {
            item: "run".to_owned(),
            stop_on_finish: false,
            agent: Agent { count: 1, effort: "high".to_owned(), model: "sonnet".to_owned(), skills },
            inputs: none,
            outputs: none2,
            status: Status::NotStarted,
        },
    );
    assert(steps[0].agent.skills.deep_view() =~= execution_steps()[0].agent.skills);
    assert(steps[0].inputs.deep_view() =~= Seq::<Seq<char>>::empty());
    assert(steps[0].outputs.deep_view() =~= Seq::<Seq<char>>::empty());
    assert(steps.deep_view() =~= execution_steps());
    steps
}

impl ProjectStatus {
    /// The status of a new project: each onboarding and design step to do
    /// where it is required or selected and not required otherwise; the
    /// planning and execution steps to do; the user-input step done.
    pub fn new(
        project_id: &str,
        selected_onboarding: &[String],
        selected_design: &[String],
        category: &Category,
    ) -> (r: ProjectStatus)
        ensures
            r@ == new_project_status(
                project_id@,
                selected_onboarding.deep_view(),
                selected_design.deep_view(),
                *category,
            ),
    {
        let ghost id = project_id@;
        let ghost so = selected_onboarding.deep_view();
        let ghost sd = selected_design.deep_view();
        let ghost expected = new_project_status(id, so, sd, *category);
        let mut onboarding: Vec<TaskStep> = Vec::new();
        let mut i: usize = 0;
        while i < 15
            invariant
                i <= 15,
                id == project_id@,
                so == selected_onboarding.deep_view(),
                onboarding.deep_view() =~= Seq::new(i as nat, |k: int| onboarding_step(id, so, k)),
            decreases 15 - i,
        {
            let step = build_onboarding_step(project_id, selected_onboarding, i);
            let ghost prev = onboarding.deep_view();
            let ghost sv = step@;
            onboarding.push(step);
            assert(onboarding.deep_view() =~= prev.push(sv));
            assert(onboarding.deep_view() =~= Seq::new((i + 1) as nat, |k: int| onboarding_step(id, so, k)));
            i += 1;
        }
        let mut design: Vec<TaskStep> = Vec::new();
        let mut i: usize = 0;
        while i < 9
            invariant
                i <= 9,
                id == project_id@,
                sd == selected_design.deep_view(),
                design.deep_view() =~= Seq::new(i as nat, |k: int| design_step(id, sd, *category, k)),
            decreases 9 - i,
        {
            let step = build_design_step(project_id, selected_design, category, i);
            let ghost prev = design.deep_view();
            let ghost sv = step@;
            design.push(step);
            assert(design.deep_view() =~= prev.push(sv));
            assert(design.deep_view() =~= Seq::new((i + 1) as nat, |k: int| design_step(id, sd, *category, k)));
            i += 1;
        }
        let mut requested: Vec<String> = Vec::new();
        push_path(&mut requested, project_id, "user-support", "requested.md");
        let mut provided: Vec<String> = Vec::new();
        push_path(&mut provided, project_id, "user-support", "provided.md");
        let mut user_support: Vec<TaskStep> = Vec::new();
        user_support.push(
            TaskStep {
                item: "user-input".to_owned(),
                stop_on_finish: false,
                agent: Agent {
                    count: 1,
                    effort: "high".to_owned(),
                    model: "sonnet".to_owned(),
                    skills: one_string("rex-user-input".to_owned()),
                },
                inputs: requested,
                outputs: provided,
                status: Status::Completed,
            },
        );
        assert(user_support[0].inputs.deep_view() =~= expected.user_support[0].inputs);
        assert(user_support[0].outputs.deep_view() =~= expected.user_support[0].outputs);
        assert(user_support.deep_view() =~= expected.user_support);
        let planning = build_planning_steps(project_id);
        let execution = build_execution_steps();
        ProjectStatus { user_support, onboarding, design, planning, execution }
    }
}

} // verus!
