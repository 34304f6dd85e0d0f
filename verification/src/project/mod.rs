//! Project descriptors: the project-id slug, pipeline steps and the
//! `project.yaml` model, plus the pure step-selection logic.

pub mod store;

use vstd::prelude::*;
use crate::error::RexError;
use crate::schedule::types::{clone_opt_string, clone_strings};
use crate::text::{all_ws, is_blank, str_eq, to_string};

pub use store::ProjectStore;

verus! {

/// Slug identifier for a project. The wrapped string is never empty or
/// whitespace-only.
#[derive(Debug)]
pub struct ProjectId(String);

impl View for ProjectId {
    type V = Seq<char>;

    closed spec fn view(&self) -> Seq<char> {
        self.0@
    }
}

impl DeepView for ProjectId {
    type V = Seq<char>;

    open spec fn deep_view(&self) -> Seq<char> {
        self@
    }
}

impl ProjectId {
    /// Well-formedness: the slug has at least one non-whitespace character.
    pub open spec fn wf(&self) -> bool {
        !all_ws(self@)
    }

    /// Parse and validate a project-id slug.
    pub fn parse(slug: &str) -> (r: Result<ProjectId, RexError>)
        ensures
            r is Ok <==> !all_ws(slug@),
            r matches Ok(id) ==> id@ == slug@ && id.wf(),
            r matches Err(e) ==> e is InvalidProjectId,
    {
        if is_blank(slug) {
            return Err(RexError::InvalidProjectId {
                reason: to_string("must not be empty or whitespace-only"),
            });
        }
        Ok(ProjectId(to_string(slug)))
    }

    /// The slug as a string slice.
    pub fn as_str(&self) -> (r: &str)
        ensures
            r@ == self@,
    {
        self.0.as_str()
    }

    /// A duplicate of this id.
    pub fn duplicate(&self) -> (r: ProjectId)
        ensures
            r@ == self@,
    {
        ProjectId(self.0.clone())
    }
}


/// One step in a project pipeline.
#[derive(Debug)]
pub struct PipelineStep {
    /// Step identifier, e.g. `discovery`, `prd`.
    pub step: String,
    /// `true` when the step must run for every project.
    pub required: bool,
    /// Skill the step invokes, if any.
    pub skill: Option<String>,
    /// Agent the step invokes, if any.
    pub agent: Option<String>,
    /// Free-form per-step instructions for the agent.
    pub instructions: Option<Vec<String>>,
    /// Path glob describing what the step reads.
    pub inputs: Option<String>,
    /// Path glob describing what the step writes.
    pub outputs: Option<String>,
    /// Marks the step as already executed for this project.
    pub completed: bool,
}

/// Mathematical value of a pipeline step.
pub ghost struct StepV {
    pub step: Seq<char>,
    pub required: bool,
    pub skill: Option<Seq<char>>,
    pub agent: Option<Seq<char>>,
    pub instructions: Option<Seq<Seq<char>>>,
    pub inputs: Option<Seq<char>>,
    pub outputs: Option<Seq<char>>,
    pub completed: bool,
}

impl View for PipelineStep {
    type V = StepV;

    open spec fn view(&self) -> StepV {
        StepV {
            step: self.step@,
            required: self.required,
            skill: self.skill.deep_view(),
            agent: self.agent.deep_view(),
            instructions: self.instructions.deep_view(),
            inputs: self.inputs.deep_view(),
            outputs: self.outputs.deep_view(),
            completed: self.completed,
        }
    }
}

impl DeepView for PipelineStep {
    type V = StepV;

    open spec fn deep_view(&self) -> StepV {
        self@
    }
}

fn clone_opt_strings(v: &Option<Vec<String>>) -> (r: Option<Vec<String>>)
    ensures
        r.deep_view() == v.deep_view(),
{
    match v {
        Some(x) => Some(clone_strings(x)),
        None => None,
    }
}

impl PipelineStep {
    /// A duplicate of this step.
    pub fn duplicate(&self) -> (r: PipelineStep)
        ensures
            r@ == self@,
    {
        PipelineStep {
            step: self.step.clone(),
            required: self.required,
            skill: clone_opt_string(&self.skill),
            agent: clone_opt_string(&self.agent),
            instructions: clone_opt_strings(&self.instructions),
            inputs: clone_opt_string(&self.inputs),
            outputs: clone_opt_string(&self.outputs),
            completed: self.completed,
        }
    }
}

/// Active or inactive project file (`project.yaml`). The pipeline template
/// has the same shape, with a placeholder project id.
#[derive(Debug)]
pub struct ProjectYaml {
    /// Slug identifier.
    pub project_id: ProjectId,
    /// Project category, e.g. `feature`, `refactor`.
    pub category: String,
    /// Human-readable title.
    pub title: Option<String>,
    /// Optional one-liner under the title.
    pub subtitle: Option<String>,
    /// Free-form long description.
    pub description: Option<String>,
    /// Project complexity, e.g. `low`, `medium`, `high`.
    pub complexity: String,
    /// Number of chunks declared for the project.
    pub chunks_required: u32,
    /// Number of chunks marked completed.
    pub chunks_completed: u32,
    /// Number of tasks declared for the project.
    pub tasks_required: u32,
    /// Number of tasks marked completed.
    pub tasks_completed: u32,
    /// `true` once every required step has been completed.
    pub completed: bool,
    /// Ordered list of steps for this project.
    pub steps: Vec<PipelineStep>,
}

/// Project envelope consumed by pipeline agents: the fields of
/// [`ProjectYaml`] without `steps`.
#[derive(Debug)]
pub struct ProjectMeta {
    pub project_id: ProjectId,
    pub category: String,
    pub title: Option<String>,
    pub subtitle: Option<String>,
    pub description: Option<String>,
    pub complexity: String,
    pub chunks_required: u32,
    pub chunks_completed: u32,
    pub tasks_required: u32,
    pub tasks_completed: u32,
    pub completed: bool,
}

impl ProjectMeta {
    /// The envelope of a project: every field but the steps.
    pub fn from_project(p: &ProjectYaml) -> (r: ProjectMeta)
        ensures
            r.project_id@ == p.project_id@,
            r.category@ == p.category@,
            r.title.deep_view() == p.title.deep_view(),
            r.subtitle.deep_view() == p.subtitle.deep_view(),
            r.description.deep_view() == p.description.deep_view(),
            r.complexity@ == p.complexity@,
            r.chunks_required == p.chunks_required,
            r.chunks_completed == p.chunks_completed,
            r.tasks_required == p.tasks_required,
            r.tasks_completed == p.tasks_completed,
            r.completed == p.completed,
    {
        ProjectMeta {
            project_id: p.project_id.duplicate(),
            category: p.category.clone(),
            title: clone_opt_string(&p.title),
            subtitle: clone_opt_string(&p.subtitle),
            description: clone_opt_string(&p.description),
            complexity: p.complexity.clone(),
            chunks_required: p.chunks_required,
            chunks_completed: p.chunks_completed,
            tasks_required: p.tasks_required,
            tasks_completed: p.tasks_completed,
            completed: p.completed,
        }
    }
}

/// Index of the first step that is not completed.
pub open spec fn first_incomplete(steps: Seq<StepV>) -> Option<int>
    decreases steps.len(),
{
    if steps.len() == 0 {
        None
    } else {
        match first_incomplete(steps.drop_last()) {
            Some(i) => Some(i),
            None => if !steps.last().completed {
                Some(steps.len() - 1)
            } else {
                None
            },
        }
    }
}

/// Return the first step of `active` that is not completed, or `None` when
/// every step is complete (or there are no steps).
pub fn current_incomplete_step(active: &ProjectYaml) -> (r: Option<&PipelineStep>)
    ensures
        match first_incomplete(active.steps.deep_view()) {
            Some(i) => r matches Some(s) && *s == active.steps@[i],
            None => r is None,
        },
{
    let ghost sv = active.steps.deep_view();
    let mut i: usize = 0;
    assert(sv.take(0) =~= Seq::<StepV>::empty());
    while i < active.steps.len()
        invariant
            sv == active.steps.deep_view(),
            i <= sv.len(),
            first_incomplete(sv.take(i as int)) is None,
        decreases active.steps.len() - i,
    {
        assert(sv.take(i + 1).drop_last() =~= sv.take(i as int));
        assert(sv.take(i + 1).last() == active.steps@[i as int]@);
        if !active.steps[i].completed {
            proof { lemma_first_incomplete_prefix(sv, i + 1); }
            return Some(&active.steps[i]);
        }
        i += 1;
    }
    assert(sv.take(sv.len() as int) =~= sv);
    None
}

proof fn lemma_first_incomplete_prefix(steps: Seq<StepV>, k: int)
    requires
        0 <= k <= steps.len(),
        first_incomplete(steps.take(k)) is Some,
    ensures
        first_incomplete(steps) == first_incomplete(steps.take(k)),
    decreases steps.len(),
{
    if k == steps.len() {
        assert(steps.take(k) =~= steps);
    } else {
        assert(steps.drop_last().take(k) =~= steps.take(k));
        lemma_first_incomplete_prefix(steps.drop_last(), k);
    }
}

/// The step is kept: it is required, or its name was selected.
pub open spec fn step_kept(keep: Seq<Seq<char>>) -> spec_fn(StepV) -> bool {
    |s: StepV| s.required || keep.contains(s.step)
}

/// Names of a list of string slices.
pub open spec fn str_names(keep: Seq<&str>) -> Seq<Seq<char>> {
    keep.map_values(|k: &str| k@)
}

fn selected(keep_optional: &[&str], name: &String) -> (r: bool)
    ensures
        r == str_names(keep_optional@).contains(name@),
{
    let ghost names = str_names(keep_optional@);
    let mut i: usize = 0;
    while i < keep_optional.len()
        invariant
            names == str_names(keep_optional@),
            i <= keep_optional@.len(),
            forall|j: int| 0 <= j < i ==> names[j] != name@,
        decreases keep_optional.len() - i,
    {
        if str_eq(keep_optional[i], name.as_str()) {
            assert(names[i as int] == name@);
            return true;
        }
        i += 1;
    }
    false
}

/// Retain only the steps that are required, or whose `step` name is in
/// `keep_optional`, in their order.
pub fn prune_steps(template: &ProjectYaml, keep_optional: &[&str]) -> (r: Vec<PipelineStep>)
    ensures
        r.deep_view() == template.steps.deep_view().filter(step_kept(str_names(keep_optional@))),
{
    let ghost sv = template.steps.deep_view();
    let ghost pred = step_kept(str_names(keep_optional@));
    let mut out: Vec<PipelineStep> = Vec::new();
    let mut i: usize = 0;
    proof { reveal(Seq::filter); }
    assert(sv.take(0) =~= Seq::<StepV>::empty());
    assert(out.deep_view() =~= sv.take(0).filter(pred));
    while i < template.steps.len()
        invariant
            sv == template.steps.deep_view(),
            pred == step_kept(str_names(keep_optional@)),
            i <= sv.len(),
            out.deep_view() == sv.take(i as int).filter(pred),
        decreases template.steps.len() - i,
    {
        proof { reveal(Seq::filter); }
        let ghost before = out.deep_view();
        assert(sv.take(i + 1).drop_last() =~= sv.take(i as int));
        assert(sv.take(i + 1).last() == template.steps@[i as int]@);
        let st = &template.steps[i];
        if st.required || selected(keep_optional, &st.step) {
            out.push(st.duplicate());
            assert(out.deep_view() =~= before.push(st@));
        }
        assert(out.deep_view() =~= sv.take(i + 1).filter(pred));
        i += 1;
    }
    assert(sv.take(sv.len() as int) =~= sv);
    out
}


/// Every required step is completed.
pub open spec fn required_done(steps: Seq<StepV>) -> bool {
    forall|i: int| 0 <= i < steps.len() ==> (#[trigger] steps[i]).required ==> steps[i].completed
}

fn first_incomplete_index(steps: &Vec<PipelineStep>) -> (r: Option<usize>)
    ensures
        match r {
            Some(k) => first_incomplete(steps.deep_view()) == Some(k as int) && k < steps@.len(),
            None => first_incomplete(steps.deep_view()) is None,
        },
{
    let ghost sv = steps.deep_view();
    let mut i: usize = 0;
    assert(sv.take(0) =~= Seq::<StepV>::empty());
    while i < steps.len()
        invariant
            sv == steps.deep_view(),
            i <= sv.len(),
            first_incomplete(sv.take(i as int)) is None,
        decreases steps.len() - i,
    {
        assert(sv.take(i + 1).drop_last() =~= sv.take(i as int));
        assert(sv.take(i + 1).last() == steps@[i as int]@);
        if !steps[i].completed {
            proof { lemma_first_incomplete_prefix(sv, i + 1); }
            return Some(i);
        }
        i += 1;
    }
    assert(sv.take(sv.len() as int) =~= sv);
    None
}

/// Mark the first incomplete step of `project` completed, and the project
/// completed once every required step is; returns the step's index, or
/// `None`, changing nothing, when every step is already complete.
pub fn complete_first_step(project: &mut ProjectYaml) -> (r: Option<usize>)
    ensures
        match first_incomplete(old(project).steps.deep_view()) {
            None => r is None && final(project).steps.deep_view() == old(project).steps.deep_view()
                && final(project).completed == old(project).completed,
            Some(i) => {
                let steps = old(project).steps.deep_view().update(i, StepV { completed: true, ..old(project).steps.deep_view()[i] });
                &&& r == Some(i as usize)
                &&& final(project).steps.deep_view() == steps
                &&& final(project).completed == (old(project).completed || required_done(steps))
            },
        },
        final(project).project_id == old(project).project_id,
        final(project).category == old(project).category,
        final(project).title == old(project).title,
        final(project).subtitle == old(project).subtitle,
        final(project).description == old(project).description,
        final(project).complexity == old(project).complexity,
        final(project).chunks_required == old(project).chunks_required,
        final(project).chunks_completed == old(project).chunks_completed,
        final(project).tasks_required == old(project).tasks_required,
        final(project).tasks_completed == old(project).tasks_completed,
{
    let idx = match first_incomplete_index(&project.steps) {
        Some(i) => i,
        None => return None,
    };
    let ghost before = project.steps.deep_view();
    project.steps[idx].completed = true;
    let ghost steps = before.update(idx as int, StepV { completed: true, ..before[idx as int] });
    assert(project.steps.deep_view() =~= steps);
    let mut all = true;
    let mut k: usize = 0;
    while k < project.steps.len()
        invariant
            steps == project.steps.deep_view(),
            k <= steps.len(),
            all == forall|q: int| 0 <= q < k ==> (#[trigger] steps[q]).required ==> steps[q].completed,
        decreases project.steps.len() - k,
    {
        assert(steps[k as int] == project.steps@[k as int]@);
        if project.steps[k].required && !project.steps[k].completed {
            all = false;
        }
        k += 1;
    }
    if all {
        project.completed = true;
    }
    Some(idx)
}


/// Pruning keeps exactly the steps that are required or selected: each such
/// step of the template survives, and each surviving step is one of them.
pub proof fn law_prune_keeps_exactly_selected(steps: Seq<StepV>, keep: Seq<Seq<char>>)
    ensures
        forall|i: int|
            0 <= i < steps.len() && (steps[i].required || keep.contains(steps[i].step)) ==> #[trigger] steps.filter(
                step_kept(keep),
            ).contains(steps[i]),
        forall|j: int|
            0 <= j < steps.filter(step_kept(keep)).len() ==> (#[trigger] steps.filter(step_kept(keep))[j]).required
                || keep.contains(steps.filter(step_kept(keep))[j].step),
        steps.filter(step_kept(keep)).len() <= steps.len(),
{
    broadcast use vstd::seq_lib::group_filter_ensures;
    let pred = step_kept(keep);
    assert forall|i: int| 0 <= i < steps.len() && (steps[i].required || keep.contains(steps[i].step)) implies #[trigger] steps.filter(
        pred,
    ).contains(steps[i]) by {
        assert(pred(steps[i]));
    }
    assert forall|j: int| 0 <= j < steps.filter(pred).len() implies (#[trigger] steps.filter(pred)[j]).required
        || keep.contains(steps.filter(pred)[j].step) by {
        assert(pred(steps.filter(pred)[j]));
    }
}

/// Completing the current step: the step completed is the first one not yet
/// completed, and the project becomes completed exactly when no required
/// step is left incomplete; while another required step is still
/// incomplete, the project's completion stays as it was.
pub proof fn law_project_completes_with_its_required_steps(steps: Seq<StepV>, done_before: bool)
    requires
        first_incomplete(steps) is Some,
    ensures
        ({
            let i = first_incomplete(steps)->0;
            let s2 = steps.update(i, StepV { completed: true, ..steps[i] });
            let flag = done_before || required_done(s2);
            &&& 0 <= i < steps.len() && !steps[i].completed
            &&& forall|j: int| 0 <= j < i ==> (#[trigger] steps[j]).completed
            &&& (exists|j: int| 0 <= j < steps.len() && j != i && (#[trigger] steps[j]).required && !steps[j].completed)
                ==> flag == done_before
            &&& (forall|j: int| 0 <= j < steps.len() && j != i && (#[trigger] steps[j]).required ==> steps[j].completed)
                ==> flag
        }),
    decreases steps.len(),
{
    let i = first_incomplete(steps)->0;
    if first_incomplete(steps.drop_last()) is Some {
        law_project_completes_with_its_required_steps(steps.drop_last(), done_before);
        assert forall|j: int| 0 <= j < i implies (#[trigger] steps[j]).completed by {
            assert(steps.drop_last()[j] == steps[j]);
        }
    } else {
        lemma_no_incomplete(steps.drop_last());
        assert forall|j: int| 0 <= j < i implies (#[trigger] steps[j]).completed by {
            assert(steps.drop_last()[j] == steps[j]);
        }
    }
    let s2 = steps.update(i, StepV { completed: true, ..steps[i] });
    if exists|j: int| 0 <= j < steps.len() && j != i && (#[trigger] steps[j]).required && !steps[j].completed {
        let j = choose|j: int| 0 <= j < steps.len() && j != i && (#[trigger] steps[j]).required && !steps[j].completed;
        assert(s2[j] == steps[j]);
    }
}

proof fn lemma_no_incomplete(steps: Seq<StepV>)
    requires
        first_incomplete(steps) is None,
    ensures
        forall|j: int| 0 <= j < steps.len() ==> (#[trigger] steps[j]).completed,
    decreases steps.len(),
{
    if steps.len() > 0 {
        lemma_no_incomplete(steps.drop_last());
        assert forall|j: int| 0 <= j < steps.len() implies (#[trigger] steps[j]).completed by {
            if j < steps.len() - 1 {
                assert(steps.drop_last()[j] == steps[j]);
            }
        }
    }
}

} // verus!
