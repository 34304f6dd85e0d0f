//! Creating, updating and removing the entities of the planning store, with
//! the parent lists and the upstream/downstream links kept in step.

use vstd::prelude::*;
use crate::schedule::addressing::{first_index_of, lemma_first_index_of, lemma_first_index_of_prefix};
use crate::schedule::types::clone_strings;
use crate::text::str_eq;
use super::planning::{
    agent_opt, apply_all_list_mods, apply_list_mods, checklist_mods, list_mods, without, ListMods,
    PItemV, PObjectiveV, PTaskV, PlanningChecklistItem, PlanningStatus, PlanningStore, PlanningStoreV,
    Task, Objective,
};
use super::project_status::{Agent, AgentV};

verus! {

/// Why an edit of the planning store was refused.
#[derive(Debug)]
pub enum PlanError {
    /// A referenced entity does not exist.
    NotFound(String),
    /// The request is incomplete or malformed.
    Validation(String),
}

/// A refusal as plain values.
pub ghost enum PlanFailure {
    NotFound(Seq<char>),
    Validation(Seq<char>),
}

/// The error `e` is the refusal `f`.
pub open spec fn fails_as(e: PlanError, f: PlanFailure) -> bool {
    match (e, f) {
        (PlanError::NotFound(m), PlanFailure::NotFound(n)) => m@ == n,
        (PlanError::Validation(m), PlanFailure::Validation(n)) => m@ == n,
        _ => false,
    }
}

impl PlanError {
    /// The message shown for the error.
    pub fn message(&self) -> (r: &str)
        ensures
            r@ == match self {
                PlanError::NotFound(m) => m@,
                PlanError::Validation(m) => m@,
            },
    {
        match self {
            PlanError::NotFound(m) => m.as_str(),
            PlanError::Validation(m) => m.as_str(),
        }
    }
}

// ── agents ──────────────────────────────────────────────────────────────────

/// The value or the fallback.
pub open spec fn or_else<T>(o: Option<T>, d: T) -> T {
    match o {
        Some(x) => x,
        None => d,
    }
}

/// The agent after the agent fields of a request: unchanged when none is
/// given; otherwise each given field replaces the previous agent's, and a
/// missing agent starts as one run at high effort on sonnet.
pub open spec fn merged_agent(
    existing: Option<AgentV>,
    model: Option<Seq<char>>,
    effort: Option<Seq<char>>,
    skills: Seq<Seq<char>>,
    count: Option<u32>,
) -> Option<AgentV> {
    if model is None && effort is None && skills.len() == 0 && count is None {
        existing
    } else {
        match existing {
            Some(prev) => Some(
                AgentV {
                    count: or_else(count, prev.count),
                    effort: or_else(effort, prev.effort),
                    model: or_else(model, prev.model),
                    skills: if skills.len() == 0 {
                        prev.skills
                    } else {
                        skills
                    },
                },
            ),
            None => Some(
                AgentV {
                    count: or_else(count, 1u32),
                    effort: or_else(effort, "high"@),
                    model: or_else(model, "sonnet"@),
                    skills,
                },
            ),
        }
    }
}

impl Agent {
    /// A duplicate of the agent, with the same value.
    pub fn duplicate(&self) -> (r: Agent)
        ensures
            r@ == self@,
    {
        Agent {
            count: self.count,
            effort: self.effort.clone(),
            model: self.model.clone(),
            skills: clone_strings(&self.skills),
        }
    }
}

/// The agent of a task after the agent fields of a request.
pub fn build_agent(
    existing: Option<&Agent>,
    model: Option<String>,
    effort: Option<String>,
    skills: Vec<String>,
    count: Option<u32>,
) -> (r: Option<Agent>)
    ensures
        agent_opt(r) == merged_agent(
            match existing {
                Some(a) => Some(a@),
                None => None,
            },
            model.deep_view(),
            effort.deep_view(),
            skills.deep_view(),
            count,
        ),
{
    let has_input = model.is_some() || effort.is_some() || skills.len() > 0 || count.is_some();
    if !has_input {
        return match existing {
            Some(a) => Some(a.duplicate()),
            None => None,
        };
    }
    match existing {
        Some(prev) => {
            let count = match count {
                Some(c) => c,
                None => prev.count,
            };
            let effort = match effort {
                Some(e) => e,
                None => prev.effort.clone(),
            };
            let model = match model {
                Some(m) => m,
                None => prev.model.clone(),
            };
            let skills = if skills.len() == 0 {
                clone_strings(&prev.skills)
            } else {
                skills
            };
            Some(Agent { count, effort, model, skills })
        },
        None => {
            let count = match count {
                Some(c) => c,
                None => 1,
            };
            let effort = match effort {
                Some(e) => e,
                None => "high".to_owned(),
            };
            let model = match model {
                Some(m) => m,
                None => "sonnet".to_owned(),
            };
            Some(Agent { count, effort, model, skills })
        },
    }
}

// ── lookups ─────────────────────────────────────────────────────────────────

/// Ids of the tasks, in order.
pub open spec fn ptask_ids(ts: Seq<PTaskV>) -> Seq<Seq<char>> {
    ts.map_values(|t: PTaskV| t.id)
}

/// Ids of the objectives, in order.
pub open spec fn pobjective_ids(os: Seq<PObjectiveV>) -> Seq<Seq<char>> {
    os.map_values(|o: PObjectiveV| o.id)
}

/// Position of the first task with id `id`.
pub(crate) fn task_index(tasks: &Vec<Task>, id: &str) -> (r: Option<usize>)
    ensures
        match r {
            Some(k) => first_index_of(ptask_ids(tasks.deep_view()), id@) == Some(k as int),
            None => first_index_of(ptask_ids(tasks.deep_view()), id@) is None,
        },
{
    let ghost ids = ptask_ids(tasks.deep_view());
    let mut i: usize = 0;
    assert(ids.take(0) =~= Seq::<Seq<char>>::empty());
    while i < tasks.len()
        invariant
            ids == ptask_ids(tasks.deep_view()),
            i <= tasks@.len(),
            first_index_of(ids.take(i as int), id@) is None,
        decreases tasks.len() - i,
    {
        assert(ids.take(i + 1).drop_last() =~= ids.take(i as int));
        assert(ids[i as int] == tasks@[i as int].id@);
        if str_eq(tasks[i].id.as_str(), id) {
            assert(first_index_of(ids.take(i + 1), id@) == Some(i as int));
            proof { lemma_first_index_of_prefix(ids, id@, i as int + 1); }
            return Some(i);
        }
        i += 1;
    }
    assert(ids.take(i as int) =~= ids);
    None
}

/// Position of the first objective with id `id`.
pub(crate) fn objective_index(objectives: &Vec<Objective>, id: &str) -> (r: Option<usize>)
    ensures
        match r {
            Some(k) => first_index_of(pobjective_ids(objectives.deep_view()), id@) == Some(k as int),
            None => first_index_of(pobjective_ids(objectives.deep_view()), id@) is None,
        },
{
    let ghost ids = pobjective_ids(objectives.deep_view());
    let mut i: usize = 0;
    assert(ids.take(0) =~= Seq::<Seq<char>>::empty());
    while i < objectives.len()
        invariant
            ids == pobjective_ids(objectives.deep_view()),
            i <= objectives@.len(),
            first_index_of(ids.take(i as int), id@) is None,
        decreases objectives.len() - i,
    {
        assert(ids.take(i + 1).drop_last() =~= ids.take(i as int));
        assert(ids[i as int] == objectives@[i as int].id@);
        if str_eq(objectives[i].id.as_str(), id) {
            assert(first_index_of(ids.take(i + 1), id@) == Some(i as int));
            proof { lemma_first_index_of_prefix(ids, id@, i as int + 1); }
            return Some(i);
        }
        i += 1;
    }
    assert(ids.take(i as int) =~= ids);
    None
}

// ── id lists ────────────────────────────────────────────────────────────────

/// `l` with `x` appended, unless it holds `x` already.
pub open spec fn add_once(l: Seq<Seq<char>>, x: Seq<char>) -> Seq<Seq<char>> {
    if l.contains(x) {
        l
    } else {
        l.push(x)
    }
}

/// `l` without any entry `x`.
pub open spec fn drop_id(l: Seq<Seq<char>>, x: Seq<char>) -> Seq<Seq<char>> {
    without(l, seq![x])
}

/// Append `x` unless the list holds it.
pub(crate) fn push_once(v: &mut Vec<String>, x: &str)
    ensures
        final(v).deep_view() == add_once(old(v).deep_view(), x@),
{
    let ghost dv = v.deep_view();
    let mut i: usize = 0;
    while i < v.len()
        invariant
            dv == v.deep_view(),
            i <= dv.len(),
            forall|k: int| 0 <= k < i ==> dv[k] != x@,
        decreases v.len() - i,
    {
        if str_eq(v[i].as_str(), x) {
            assert(dv[i as int] == x@);
            return;
        }
        i += 1;
    }
    v.push(x.to_owned());
    assert(v.deep_view() =~= dv.push(x@));
}

/// Remove every entry `x`.
pub(crate) fn drop_all(v: &mut Vec<String>, x: &str)
    ensures
        final(v).deep_view() == drop_id(old(v).deep_view(), x@),
{
    let mut rm: Vec<String> = Vec::new();
    rm.push(x.to_owned());
    assert(rm.deep_view() =~= seq![x@]);
    let add: Vec<String> = Vec::new();
    assert(add.deep_view() =~= Seq::<Seq<char>>::empty());
    apply_list_mods(v, add.as_slice(), rm.as_slice());
}

// ── upstream/downstream links ───────────────────────────────────────────────

/// The links of an entity: its id and its upstream and downstream ids.
pub ghost struct LinkV {
    pub id: Seq<char>,
    pub upstream: Seq<Seq<char>>,
    pub downstream: Seq<Seq<char>>,
}

/// Ids of the entities, in order.
pub open spec fn link_ids(ls: Seq<LinkV>) -> Seq<Seq<char>> {
    ls.map_values(|l: LinkV| l.id)
}

/// `id` added to, or dropped from, a list of links.
pub open spec fn edit_link(l: Seq<Seq<char>>, id: Seq<char>, add: bool) -> Seq<Seq<char>> {
    if add {
        add_once(l, id)
    } else {
        drop_id(l, id)
    }
}

/// The entity with `id` added to, or dropped from, its downstream (`down`)
/// or upstream links.
pub open spec fn relinked(l: LinkV, id: Seq<char>, down: bool, add: bool) -> LinkV {
    if down {
        LinkV { downstream: edit_link(l.downstream, id, add), ..l }
    } else {
        LinkV { upstream: edit_link(l.upstream, id, add), ..l }
    }
}

/// The link edit applied to the first entity with id `target`; nothing when
/// there is none.
pub open spec fn link_one(ls: Seq<LinkV>, target: Seq<char>, id: Seq<char>, down: bool, add: bool) -> Seq<LinkV> {
    match first_index_of(link_ids(ls), target) {
        Some(k) => ls.update(k, relinked(ls[k], id, down, add)),
        None => ls,
    }
}

/// The link edit applied for each target in turn.
pub open spec fn link_all(ls: Seq<LinkV>, targets: Seq<Seq<char>>, id: Seq<char>, down: bool, add: bool) -> Seq<LinkV>
    decreases targets.len(),
{
    if targets.len() == 0 {
        ls
    } else {
        link_one(link_all(ls, targets.drop_last(), id, down, add), targets.last(), id, down, add)
    }
}

/// The other side of the links a request edits on entity `id`: each added
/// upstream entity lists `id` downstream, each removed one no longer does,
/// and the same for downstream entities and their upstream lists.
pub open spec fn mirror_links(ls: Seq<LinkV>, id: Seq<char>, m: ListMods) -> Seq<LinkV> {
    let a = link_all(ls, m.add_upstream.deep_view(), id, true, true);
    let b = link_all(a, m.remove_upstream.deep_view(), id, true, false);
    let c = link_all(b, m.add_downstream.deep_view(), id, false, true);
    link_all(c, m.remove_downstream.deep_view(), id, false, false)
}

/// A link edit keeps the ids of the entities.
pub proof fn lemma_link_one_ids(ls: Seq<LinkV>, t: Seq<char>, id: Seq<char>, down: bool, add: bool)
    ensures
        link_ids(link_one(ls, t, id, down, add)) == link_ids(ls),
{
    match first_index_of(link_ids(ls), t) {
        Some(k) => {
            lemma_first_index_of(link_ids(ls), t);
            assert(link_ids(link_one(ls, t, id, down, add)) =~= link_ids(ls));
        },
        None => {},
    }
}

/// Link edits keep the ids of the entities.
pub proof fn lemma_link_all_ids(ls: Seq<LinkV>, targets: Seq<Seq<char>>, id: Seq<char>, down: bool, add: bool)
    ensures
        link_ids(link_all(ls, targets, id, down, add)) == link_ids(ls),
    decreases targets.len(),
{
    if targets.len() > 0 {
        lemma_link_all_ids(ls, targets.drop_last(), id, down, add);
        lemma_link_one_ids(link_all(ls, targets.drop_last(), id, down, add), targets.last(), id, down, add);
    }
}

/// Mirroring keeps the ids of the entities.
pub proof fn lemma_mirror_ids(ls: Seq<LinkV>, id: Seq<char>, m: ListMods)
    ensures
        link_ids(mirror_links(ls, id, m)) == link_ids(ls),
{
    let a = link_all(ls, m.add_upstream.deep_view(), id, true, true);
    let b = link_all(a, m.remove_upstream.deep_view(), id, true, false);
    let c = link_all(b, m.add_downstream.deep_view(), id, false, true);
    lemma_link_all_ids(ls, m.add_upstream.deep_view(), id, true, true);
    lemma_link_all_ids(a, m.remove_upstream.deep_view(), id, true, false);
    lemma_link_all_ids(b, m.add_downstream.deep_view(), id, false, true);
    lemma_link_all_ids(c, m.remove_downstream.deep_view(), id, false, false);
}

/// The links of the tasks.
pub open spec fn task_links(ts: Seq<PTaskV>) -> Seq<LinkV> {
    ts.map_values(|t: PTaskV| LinkV { id: t.id, upstream: t.upstream, downstream: t.downstream })
}

/// The tasks with their links taken from `ls`.
pub open spec fn with_task_links(ts: Seq<PTaskV>, ls: Seq<LinkV>) -> Seq<PTaskV> {
    Seq::new(ts.len(), |i: int| PTaskV { upstream: ls[i].upstream, downstream: ls[i].downstream, ..ts[i] })
}

/// The tasks after mirroring the link edits of a request on task `id`.
pub open spec fn tasks_mirrored(ts: Seq<PTaskV>, id: Seq<char>, m: ListMods) -> Seq<PTaskV> {
    with_task_links(ts, mirror_links(task_links(ts), id, m))
}

/// The links of the tasks carry their ids.
proof fn lemma_task_links_ids(ts: Seq<PTaskV>)
    ensures
        link_ids(task_links(ts)) == ptask_ids(ts),
{
    assert(link_ids(task_links(ts)) =~= ptask_ids(ts));
}

/// Links with the same ids as the tasks can be put into them and read back;
/// putting in links twice keeps the second.
proof fn lemma_with_task_links(ts: Seq<PTaskV>, ls: Seq<LinkV>, ls2: Seq<LinkV>)
    requires
        link_ids(ls) == ptask_ids(ts),
    ensures
        task_links(with_task_links(ts, ls)) == ls,
        ptask_ids(with_task_links(ts, ls)) == ptask_ids(ts),
        with_task_links(with_task_links(ts, ls), ls2) == with_task_links(ts, ls2),
{
    assert(link_ids(ls).len() == ls.len());
    assert forall|i: int| 0 <= i < ls.len() implies ls[i].id == ts[i].id by {
        assert(link_ids(ls)[i] == ptask_ids(ts)[i]);
    }
    assert(task_links(with_task_links(ts, ls)) =~= ls);
    assert(ptask_ids(with_task_links(ts, ls)) =~= ptask_ids(ts));
    assert(with_task_links(with_task_links(ts, ls), ls2) =~= with_task_links(ts, ls2));
}

/// Apply the link edit for each target to the tasks.
fn relink_tasks(tasks: &mut Vec<Task>, targets: &Vec<String>, id: &str, down: bool, add: bool)
    ensures
        final(tasks).deep_view() == with_task_links(
            old(tasks).deep_view(),
            link_all(task_links(old(tasks).deep_view()), targets.deep_view(), id@, down, add),
        ),
{
    let ghost t0 = tasks.deep_view();
    let ghost l0 = task_links(t0);
    let ghost tv = targets.deep_view();
    let mut j: usize = 0;
    assert(tv.take(0) =~= Seq::<Seq<char>>::empty());
    assert(tasks.deep_view() =~= with_task_links(t0, l0));
    assert(link_ids(l0) =~= ptask_ids(t0));
    while j < targets.len()
        invariant
            t0 == old(tasks).deep_view(),
            l0 == task_links(t0),
            link_ids(l0) == ptask_ids(t0),
            tv == targets.deep_view(),
            j <= tv.len(),
            tasks.deep_view() == with_task_links(t0, link_all(l0, tv.take(j as int), id@, down, add)),
        decreases targets.len() - j,
    {
        assert(tv.take(j + 1).drop_last() =~= tv.take(j as int));
        assert(tv.take(j + 1).last() == targets@[j as int]@);
        let ghost ls = link_all(l0, tv.take(j as int), id@, down, add);
        proof { lemma_link_all_ids(l0, tv.take(j as int), id@, down, add); }
        let ghost before = tasks.deep_view();
        assert(ptask_ids(before) =~= link_ids(ls)) by {
            assert(link_ids(ls).len() == t0.len());
        }
        match task_index(tasks, targets[j].as_str()) {
            Some(k) => {
                proof { lemma_first_index_of(link_ids(ls), tv[j as int]); }
                if down {
                    if add {
                        push_once(&mut tasks[k].downstream, id);
                    } else {
                        drop_all(&mut tasks[k].downstream, id);
                    }
                } else {
                    if add {
                        push_once(&mut tasks[k].upstream, id);
                    } else {
                        drop_all(&mut tasks[k].upstream, id);
                    }
                }
                let ghost expected = with_task_links(t0, ls.update(k as int, relinked(ls[k as int], id@, down, add)));
                assert(0 <= k < before.len());
                assert(before[k as int].downstream == ls[k as int].downstream);
                assert(before[k as int].upstream == ls[k as int].upstream);
                assert forall|i: int| 0 <= i < before.len() implies tasks.deep_view()[i] == expected[i] by {
                    if i == k {
                    } else {
                        assert(tasks.deep_view()[i] == before[i]);
                    }
                }
                assert(tasks.deep_view() =~= expected);
            },
            None => {},
        }
        j += 1;
    }
    assert(tv.take(j as int) =~= tv);
}

// ── copies ──────────────────────────────────────────────────────────────────

/// A copy of a checklist with the same value.
pub(crate) fn clone_checklist(v: &Vec<PlanningChecklistItem>) -> (r: Vec<PlanningChecklistItem>)
    ensures
        r.deep_view() == v.deep_view(),
{
    let mut r: Vec<PlanningChecklistItem> = Vec::new();
    let mut i: usize = 0;
    while i < v.len()
        invariant
            i <= v@.len(),
            r.deep_view() =~= v.deep_view().take(i as int),
        decreases v.len() - i,
    {
        let c = PlanningChecklistItem { id: v[i].id.clone(), item: v[i].item.clone(), done: v[i].done };
        assert(c@ == v.deep_view()[i as int]);
        let ghost before = r.deep_view();
        r.push(c);
        assert(r.deep_view() =~= before.push(c@));
        assert(r.deep_view() =~= v.deep_view().take(i + 1));
        i += 1;
    }
    assert(v.deep_view().take(i as int) =~= v.deep_view());
    r
}

impl Task {
    /// A duplicate of the task, with the same value.
    pub fn duplicate(&self) -> (r: Task)
        ensures
            r@ == self@,
    {
        let agent = match &self.agent {
            Some(a) => Some(a.duplicate()),
            None => None,
        };
        Task {
            id: self.id.clone(),
            objective_id: self.objective_id.clone(),
            title: self.title.clone(),
            description: self.description.clone(),
            status: self.status,
            agent,
            references: clone_strings(&self.references),
            outputs: clone_strings(&self.outputs),
            checklist: clone_checklist(&self.checklist),
            upstream: clone_strings(&self.upstream),
            downstream: clone_strings(&self.downstream),
        }
    }
}

// ── tasks ───────────────────────────────────────────────────────────────────

/// The task after the list edits of a request, and the checklist error
/// that stops them, if any.
pub open spec fn task_with_mods(t: PTaskV, m: ListMods) -> (PTaskV, Option<Seq<char>>) {
    let (cl, e) = checklist_mods(
        t.checklist,
        m.add_checklist.deep_view(),
        m.remove_checklist.deep_view(),
        m.check.deep_view(),
        m.uncheck.deep_view(),
    );
    (
        PTaskV {
            references: list_mods(t.references, m.add_references.deep_view(), m.remove_references.deep_view()),
            outputs: list_mods(t.outputs, m.add_outputs.deep_view(), m.remove_outputs.deep_view()),
            upstream: list_mods(t.upstream, m.add_upstream.deep_view(), m.remove_upstream.deep_view()),
            downstream: list_mods(t.downstream, m.add_downstream.deep_view(), m.remove_downstream.deep_view()),
            checklist: cl,
            ..t
        },
        e,
    )
}

/// The message of a missing objective.
pub open spec fn objective_not_found(oid: Seq<char>) -> Seq<char> {
    "Objective \""@ + oid + "\" not found."@
}

/// `id` added to, or dropped from, the task list of the first objective
/// with id `oid`.
pub open spec fn objective_tasks_edit(os: Seq<PObjectiveV>, oid: Seq<char>, id: Seq<char>, add: bool) -> Seq<PObjectiveV> {
    match first_index_of(pobjective_ids(os), oid) {
        Some(k) => os.update(k, PObjectiveV { tasks: edit_link(os[k].tasks, id, add), ..os[k] }),
        None => os,
    }
}

/// A new task before its list edits: the given fields, status not started
/// unless given, the agent of the agent fields, and empty lists.
pub open spec fn fresh_task(
    id: Seq<char>,
    oid: Seq<char>,
    title: Seq<char>,
    description: Seq<char>,
    status: Option<PlanningStatus>,
    agent: Option<AgentV>,
) -> PTaskV {
    PTaskV {
        id,
        objective_id: oid,
        title,
        description,
        status: or_else(status, PlanningStatus::NotStarted),
        agent,
        references: seq![],
        outputs: seq![],
        checklist: seq![],
        upstream: seq![],
        downstream: seq![],
    }
}

/// A new task `id`: it needs an objective, a title and a description, and
/// its objective must exist; it is appended and listed under its objective.
pub open spec fn task_create(
    s: PlanningStoreV,
    id: Seq<char>,
    objective: Option<Seq<char>>,
    title: Option<Seq<char>>,
    description: Option<Seq<char>>,
    status: Option<PlanningStatus>,
    agent: Option<AgentV>,
    m: ListMods,
) -> Result<PlanningStoreV, PlanFailure> {
    if objective is None {
        Err(PlanFailure::Validation("--objective is required when creating a new task."@))
    } else if title is None {
        Err(PlanFailure::Validation("--title is required when creating a new task."@))
    } else if description is None {
        Err(PlanFailure::Validation("--description is required when creating a new task."@))
    } else if !pobjective_ids(s.objectives).contains(objective->0) {
        Err(PlanFailure::NotFound(objective_not_found(objective->0)))
    } else {
        let oid = objective->0;
        let (t, e) = task_with_mods(fresh_task(id, oid, title->0, description->0, status, agent), m);
        match e {
            Some(msg) => Err(PlanFailure::Validation(msg)),
            None => Ok(
                PlanningStoreV {
                    objectives: objective_tasks_edit(s.objectives, oid, id, true),
                    tasks: s.tasks.push(t),
                    ..s
                },
            ),
        }
    }
}

/// The existing task at `k` updated: it takes each given field; a different
/// objective, which must exist, moves it from the old objective's list to
/// the new one's.
pub open spec fn task_update(
    s: PlanningStoreV,
    k: int,
    objective: Option<Seq<char>>,
    title: Option<Seq<char>>,
    description: Option<Seq<char>>,
    status: Option<PlanningStatus>,
    model: Option<Seq<char>>,
    effort: Option<Seq<char>>,
    skills: Seq<Seq<char>>,
    count: Option<u32>,
    m: ListMods,
) -> Result<PlanningStoreV, PlanFailure> {
    let cur = s.tasks[k];
    let moves = objective matches Some(o) && o != cur.objective_id;
    if moves && !pobjective_ids(s.objectives).contains(objective->0) {
        Err(PlanFailure::NotFound(objective_not_found(objective->0)))
    } else {
        let t0 = PTaskV {
            objective_id: if moves { objective->0 } else { cur.objective_id },
            title: or_else(title, cur.title),
            description: or_else(description, cur.description),
            status: or_else(status, cur.status),
            agent: merged_agent(cur.agent, model, effort, skills, count),
            ..cur
        };
        let (t, e) = task_with_mods(t0, m);
        match e {
            Some(msg) => Err(PlanFailure::Validation(msg)),
            None => {
                let os = if moves {
                    objective_tasks_edit(
                        objective_tasks_edit(s.objectives, cur.objective_id, cur.id, false),
                        objective->0,
                        cur.id,
                        true,
                    )
                } else {
                    s.objectives
                };
                Ok(PlanningStoreV { objectives: os, tasks: s.tasks.update(k, t), ..s })
            },
        }
    }
}

/// Create or update the task `id` (`task_create`, `task_update`), then keep
/// the other side of each upstream/downstream edit in step. A refused
/// request leaves the store as it was. The flag tells whether the task was
/// created.
pub open spec fn task_upsert(
    s: PlanningStoreV,
    id: Seq<char>,
    objective: Option<Seq<char>>,
    title: Option<Seq<char>>,
    description: Option<Seq<char>>,
    status: Option<PlanningStatus>,
    model: Option<Seq<char>>,
    effort: Option<Seq<char>>,
    skills: Seq<Seq<char>>,
    count: Option<u32>,
    m: ListMods,
) -> Result<(PlanningStoreV, bool), PlanFailure> {
    let (edited, created) = match first_index_of(ptask_ids(s.tasks), id) {
        None => (
            task_create(s, id, objective, title, description, status, merged_agent(None, model, effort, skills, count), m),
            true,
        ),
        Some(k) => (task_update(s, k, objective, title, description, status, model, effort, skills, count, m), false),
    };
    match edited {
        Ok(s2) => Ok((PlanningStoreV { tasks: tasks_mirrored(s2.tasks, id, m), ..s2 }, created)),
        Err(f) => Err(f),
    }
}

/// Edit the task list of the first objective with id `oid`.
fn edit_objective_tasks(objectives: &mut Vec<Objective>, oid: &str, id: &str, add: bool)
    ensures
        final(objectives).deep_view() == objective_tasks_edit(old(objectives).deep_view(), oid@, id@, add),
{
    let ghost before = objectives.deep_view();
    match objective_index(objectives, oid) {
        Some(k) => {
            proof { lemma_first_index_of(pobjective_ids(before), oid@); }
            if add {
                push_once(&mut objectives[k].tasks, id);
            } else {
                drop_all(&mut objectives[k].tasks, id);
            }
            assert(objectives.deep_view() =~= before.update(
                k as int,
                PObjectiveV { tasks: edit_link(before[k as int].tasks, id@, add), ..before[k as int] },
            ));
        },
        None => {},
    }
}

/// Apply the list edits of a request to a task.
fn apply_task_mods(t: &mut Task, mods: &ListMods) -> (r: Result<(), PlanError>)
    ensures
        ({
            let (t2, e) = task_with_mods(old(t)@, *mods);
            match e {
                Some(msg) => r matches Err(PlanError::Validation(x)) && x@ == msg,
                None => r is Ok && final(t)@ == t2,
            }
        }),
{
    let res = apply_all_list_mods(
        &mut t.references,
        &mut t.outputs,
        &mut t.upstream,
        &mut t.downstream,
        &mut t.checklist,
        mods,
    );
    match res {
        Ok(()) => Ok(()),
        Err(msg) => Err(PlanError::Validation(msg)),
    }
}

/// Keep the other side of each upstream/downstream edit of task `id` in step.
fn mirror_task_links(tasks: &mut Vec<Task>, id: &str, mods: &ListMods)
    ensures
        final(tasks).deep_view() == tasks_mirrored(old(tasks).deep_view(), id@, *mods),
{
    let ghost t0 = tasks.deep_view();
    let ghost l0 = task_links(t0);
    proof { lemma_task_links_ids(t0); }
    let ghost a = link_all(l0, mods.add_upstream.deep_view(), id@, true, true);
    let ghost b = link_all(a, mods.remove_upstream.deep_view(), id@, true, false);
    let ghost c = link_all(b, mods.add_downstream.deep_view(), id@, false, true);
    let ghost d = link_all(c, mods.remove_downstream.deep_view(), id@, false, false);
    relink_tasks(tasks, &mods.add_upstream, id, true, true);
    proof {
        lemma_link_all_ids(l0, mods.add_upstream.deep_view(), id@, true, true);
        lemma_with_task_links(t0, a, b);
    }
    relink_tasks(tasks, &mods.remove_upstream, id, true, false);
    proof {
        lemma_link_all_ids(a, mods.remove_upstream.deep_view(), id@, true, false);
        lemma_with_task_links(t0, b, c);
    }
    relink_tasks(tasks, &mods.add_downstream, id, false, true);
    proof {
        lemma_link_all_ids(b, mods.add_downstream.deep_view(), id@, false, true);
        lemma_with_task_links(t0, c, d);
    }
    relink_tasks(tasks, &mods.remove_downstream, id, false, false);
}

/// Add the new task `id` (see `task_create`).
fn create_task(
    store: &mut PlanningStore,
    id: &str,
    objective: Option<String>,
    title: Option<String>,
    description: Option<String>,
    status: Option<PlanningStatus>,
    agent: Option<Agent>,
    mods: &ListMods,
) -> (r: Result<(), PlanError>)
    ensures
        match task_create(
            old(store)@,
            id@,
            objective.deep_view(),
            title.deep_view(),
            description.deep_view(),
            status,
            agent_opt(agent),
            *mods,
        ) {
            Ok(s2) => r is Ok && final(store)@ == s2,
            Err(f) => r matches Err(e) && fails_as(e, f) && final(store)@ == old(store)@,
        },
{
    let ghost s0 = store@;
    let oid = match objective {
        Some(o) => o,
        None => return Err(PlanError::Validation("--objective is required when creating a new task.".to_owned())),
    };
    let title = match title {
        Some(t) => t,
        None => return Err(PlanError::Validation("--title is required when creating a new task.".to_owned())),
    };
    let description = match description {
        Some(d) => d,
        None => return Err(PlanError::Validation("--description is required when creating a new task.".to_owned())),
    };
    proof { lemma_first_index_of(pobjective_ids(s0.objectives), oid@); }
    if objective_index(&store.objectives, oid.as_str()).is_none() {
        return Err(PlanError::NotFound("Objective \"".to_owned().concat(oid.as_str()).concat("\" not found.")));
    }
    let references: Vec<String> = Vec::new();
    let outputs: Vec<String> = Vec::new();
    let checklist: Vec<PlanningChecklistItem> = Vec::new();
    let upstream: Vec<String> = Vec::new();
    let downstream: Vec<String> = Vec::new();
    assert(references.deep_view() =~= Seq::<Seq<char>>::empty());
    assert(outputs.deep_view() =~= Seq::<Seq<char>>::empty());
    assert(checklist.deep_view() =~= Seq::<PItemV>::empty());
    assert(upstream.deep_view() =~= Seq::<Seq<char>>::empty());
    assert(downstream.deep_view() =~= Seq::<Seq<char>>::empty());
    let mut task = Task {
        id: id.to_owned(),
        objective_id: oid.clone(),
        title,
        description,
        status: match status {
            Some(s) => s,
            None => PlanningStatus::NotStarted,
        },
        agent,
        references,
        outputs,
        checklist,
        upstream,
        downstream,
    };
    apply_task_mods(&mut task, mods)?;
    let ghost tv = task@;
    store.tasks.push(task);
    assert(store.tasks.deep_view() =~= s0.tasks.push(tv));
    edit_objective_tasks(&mut store.objectives, oid.as_str(), id, true);
    Ok(())
}

/// Update the task at `k` (see `task_update`).
fn update_task(
    store: &mut PlanningStore,
    k: usize,
    objective: Option<String>,
    title: Option<String>,
    description: Option<String>,
    status: Option<PlanningStatus>,
    agent_model: Option<String>,
    agent_effort: Option<String>,
    agent_skills: Vec<String>,
    agent_count: Option<u32>,
    mods: &ListMods,
) -> (r: Result<(), PlanError>)
    requires
        k < old(store).tasks@.len(),
    ensures
        match task_update(
            old(store)@,
            k as int,
            objective.deep_view(),
            title.deep_view(),
            description.deep_view(),
            status,
            agent_model.deep_view(),
            agent_effort.deep_view(),
            agent_skills.deep_view(),
            agent_count,
            *mods,
        ) {
            Ok(s2) => r is Ok && final(store)@ == s2,
            Err(f) => r matches Err(e) && fails_as(e, f) && final(store)@ == old(store)@,
        },
{
    let ghost s0 = store@;
    let old_oid = store.tasks[k].objective_id.clone();
    let moves = match &objective {
        Some(o) => !str_eq(o.as_str(), old_oid.as_str()),
        None => false,
    };
    if moves {
        let o = objective.as_ref().unwrap();
        proof { lemma_first_index_of(pobjective_ids(s0.objectives), o@); }
        if objective_index(&store.objectives, o.as_str()).is_none() {
            return Err(PlanError::NotFound("Objective \"".to_owned().concat(o.as_str()).concat("\" not found.")));
        }
    }
    let mut task = store.tasks[k].duplicate();
    if moves {
        task.objective_id = objective.as_ref().unwrap().clone();
    }
    if let Some(t) = title {
        task.title = t;
    }
    if let Some(d) = description {
        task.description = d;
    }
    if let Some(st) = status {
        task.status = st;
    }
    let agent = build_agent(task.agent.as_ref(), agent_model, agent_effort, agent_skills, agent_count);
    task.agent = agent;
    apply_task_mods(&mut task, mods)?;
    if moves {
        let o = objective.as_ref().unwrap();
        edit_objective_tasks(&mut store.objectives, old_oid.as_str(), store.tasks[k].id.as_str(), false);
        edit_objective_tasks(&mut store.objectives, o.as_str(), store.tasks[k].id.as_str(), true);
    }
    let ghost tv = task@;
    store.tasks.set(k, task);
    assert(store.tasks.deep_view() =~= s0.tasks.update(k as int, tv));
    Ok(())
}

/// Create or update the task `id` (see `task_upsert`); `Ok(true)` when the
/// task was created.
pub fn upsert_task(
    store: &mut PlanningStore,
    id: &str,
    objective: Option<String>,
    title: Option<String>,
    description: Option<String>,
    status: Option<PlanningStatus>,
    agent_model: Option<String>,
    agent_effort: Option<String>,
    agent_skills: Vec<String>,
    agent_count: Option<u32>,
    mods: ListMods,
) -> (r: Result<bool, PlanError>)
    ensures
        match task_upsert(
            old(store)@,
            id@,
            objective.deep_view(),
            title.deep_view(),
            description.deep_view(),
            status,
            agent_model.deep_view(),
            agent_effort.deep_view(),
            agent_skills.deep_view(),
            agent_count,
            mods,
        ) {
            Ok((s2, created)) => r == Ok::<bool, PlanError>(created) && final(store)@ == s2,
            Err(f) => r matches Err(e) && fails_as(e, f) && final(store)@ == old(store)@,
        },
{
    let ghost s0 = store@;
    let created = match task_index(&store.tasks, id) {
        None => {
            let agent = build_agent(None, agent_model, agent_effort, agent_skills, agent_count);
            create_task(store, id, objective, title, description, status, agent, &mods)?;
            true
        },
        Some(k) => {
            proof { lemma_first_index_of(ptask_ids(s0.tasks), id@); }
            update_task(
                store,
                k,
                objective,
                title,
                description,
                status,
                agent_model,
                agent_effort,
                agent_skills,
                agent_count,
                &mods,
            )?;
            false
        },
    };
    mirror_task_links(&mut store.tasks, id, &mods);
    Ok(created)
}

/// A task with every link to `id` dropped.
pub open spec fn unlinked(t: PTaskV, id: Seq<char>) -> PTaskV {
    PTaskV { upstream: drop_id(t.upstream, id), downstream: drop_id(t.downstream, id), ..t }
}

/// The message of a missing task.
pub open spec fn task_not_found(id: Seq<char>) -> Seq<char> {
    "Task \""@ + id + "\" not found."@
}

/// Remove the task `id`: it leaves the store and its objective's list, and
/// no other task links to it any more.
pub open spec fn task_remove(s: PlanningStoreV, id: Seq<char>) -> Result<PlanningStoreV, PlanFailure> {
    match first_index_of(ptask_ids(s.tasks), id) {
        None => Err(PlanFailure::NotFound(task_not_found(id))),
        Some(k) => Ok(
            PlanningStoreV {
                objectives: objective_tasks_edit(s.objectives, s.tasks[k].objective_id, id, false),
                tasks: s.tasks.remove(k).map_values(|t: PTaskV| unlinked(t, id)),
                ..s
            },
        ),
    }
}

/// Remove the task `id` (see `task_remove`).
pub fn remove_task(store: &mut PlanningStore, id: &str) -> (r: Result<(), PlanError>)
    ensures
        match task_remove(old(store)@, id@) {
            Ok(s2) => r is Ok && final(store)@ == s2,
            Err(f) => r matches Err(e) && fails_as(e, f) && final(store)@ == old(store)@,
        },
{
    let ghost s0 = store@;
    let k = match task_index(&store.tasks, id) {
        Some(k) => k,
        None => return Err(PlanError::NotFound("Task \"".to_owned().concat(id).concat("\" not found."))),
    };
    proof { lemma_first_index_of(ptask_ids(s0.tasks), id@); }
    let removed = store.tasks.remove(k);
    assert(store.tasks.deep_view() =~= s0.tasks.remove(k as int));
    edit_objective_tasks(&mut store.objectives, removed.objective_id.as_str(), id, false);
    let ghost rest = s0.tasks.remove(k as int);
    let ghost objs = store.objectives.deep_view();
    assert(objs == objective_tasks_edit(s0.objectives, s0.tasks[k as int].objective_id, id@, false));
    let mut i: usize = 0;
    while i < store.tasks.len()
        invariant
            0 <= k < s0.tasks.len(),
            rest == s0.tasks.remove(k as int),
            objs == store.objectives.deep_view(),
            store.milestones.deep_view() == s0.milestones,
            store.tasks.deep_view().len() == rest.len(),
            i <= rest.len(),
            forall|j: int| 0 <= j < i ==> store.tasks.deep_view()[j] == unlinked(rest[j], id@),
            forall|j: int| i <= j < rest.len() ==> store.tasks.deep_view()[j] == rest[j],
        decreases store.tasks.len() - i,
    {
        let ghost before = store.tasks.deep_view();
        drop_all(&mut store.tasks[i].upstream, id);
        drop_all(&mut store.tasks[i].downstream, id);
        assert(store.tasks.deep_view() =~= before.update(i as int, unlinked(rest[i as int], id@)));
        i += 1;
    }
    assert(store.tasks.deep_view() =~= rest.map_values(|t: PTaskV| unlinked(t, id@)));
    Ok(())
}

// ── laws ────────────────────────────────────────────────────────────────────

/// The first entity with id `u` lists `id` among its downstream (`down`) or
/// upstream links.
pub open spec fn has_link(ls: Seq<LinkV>, u: Seq<char>, id: Seq<char>, down: bool) -> bool {
    match first_index_of(link_ids(ls), u) {
        Some(k) => if down {
            ls[k].downstream.contains(id)
        } else {
            ls[k].upstream.contains(id)
        },
        None => false,
    }
}

proof fn lemma_add_once_contains(l: Seq<Seq<char>>, x: Seq<char>)
    ensures
        add_once(l, x).contains(x),
{
    if !l.contains(x) {
        assert(l.push(x)[l.len() as int] == x);
    }
}

/// One link edit keeps a link of `u` unless it removes that very link.
proof fn lemma_link_one_keeps(
    ls: Seq<LinkV>,
    t: Seq<char>,
    id: Seq<char>,
    down: bool,
    add: bool,
    u: Seq<char>,
    side: bool,
)
    requires
        has_link(ls, u, id, side),
        side != down || add || t != u,
    ensures
        has_link(link_one(ls, t, id, down, add), u, id, side),
{
    lemma_link_one_ids(ls, t, id, down, add);
    lemma_first_index_of(link_ids(ls), u);
    lemma_first_index_of(link_ids(ls), t);
    let ku = first_index_of(link_ids(ls), u)->0;
    match first_index_of(link_ids(ls), t) {
        Some(k) => {
            assert(link_ids(ls)[k] == ls[k].id);
            assert(link_ids(ls)[ku] == ls[ku].id);
            if k == ku {
                if down && add {
                    lemma_add_once_contains(ls[k].downstream, id);
                } else if !down && add {
                    lemma_add_once_contains(ls[k].upstream, id);
                }
            }
        },
        None => {},
    }
}

/// Link edits keep a link of `u` unless one of them removes that very link.
proof fn lemma_link_all_keeps(
    ls: Seq<LinkV>,
    targets: Seq<Seq<char>>,
    id: Seq<char>,
    down: bool,
    add: bool,
    u: Seq<char>,
    side: bool,
)
    requires
        has_link(ls, u, id, side),
        side != down || add || !targets.contains(u),
    ensures
        has_link(link_all(ls, targets, id, down, add), u, id, side),
    decreases targets.len(),
{
    if targets.len() > 0 {
        let d = targets.drop_last();
        assert(!targets.contains(u) ==> !d.contains(u)) by {
            if d.contains(u) {
                let j = choose|j: int| 0 <= j < d.len() && d[j] == u;
                assert(targets[j] == u);
            }
        }
        assert(!targets.contains(u) ==> targets.last() != u) by {
            if targets.last() == u {
                assert(targets[targets.len() - 1] == u);
            }
        }
        lemma_link_all_keeps(ls, d, id, down, add, u, side);
        lemma_link_one_keeps(link_all(ls, d, id, down, add), targets.last(), id, down, add, u, side);
    }
}

/// Adding links for each target gives every existing target the link.
pub(crate) proof fn lemma_link_all_adds(ls: Seq<LinkV>, targets: Seq<Seq<char>>, id: Seq<char>, down: bool, u: Seq<char>)
    requires
        targets.contains(u),
        link_ids(ls).contains(u),
    ensures
        has_link(link_all(ls, targets, id, down, true), u, id, down),
    decreases targets.len(),
{
    let d = targets.drop_last();
    let r = link_all(ls, d, id, down, true);
    lemma_link_all_ids(ls, d, id, down, true);
    lemma_link_one_ids(r, targets.last(), id, down, true);
    if targets.last() == u {
        lemma_first_index_of(link_ids(r), u);
        let k = first_index_of(link_ids(r), u)->0;
        if down {
            lemma_add_once_contains(r[k].downstream, id);
        } else {
            lemma_add_once_contains(r[k].upstream, id);
        }
    } else {
        let j = choose|j: int| 0 <= j < targets.len() && targets[j] == u;
        assert(d[j] == u);
        lemma_link_all_adds(ls, d, id, down, u);
        lemma_link_one_keeps(r, targets.last(), id, down, true, u, down);
    }
}

/// The upstream/downstream links stay symmetric: after the link edits of a
/// request on entity `id` are mirrored, each existing entity named as added
/// upstream, and not removed again, lists `id` downstream; each existing
/// entity named as added downstream, and not removed again, lists `id`
/// upstream.
pub proof fn law_mirrored_links(ls: Seq<LinkV>, id: Seq<char>, m: ListMods)
    ensures
        forall|u: Seq<char>|
            #![trigger m.add_upstream.deep_view().contains(u), link_ids(ls).contains(u)]
            m.add_upstream.deep_view().contains(u) && !m.remove_upstream.deep_view().contains(u)
                && link_ids(ls).contains(u) ==> has_link(mirror_links(ls, id, m), u, id, true),
        forall|u: Seq<char>|
            #![trigger m.add_downstream.deep_view().contains(u), link_ids(ls).contains(u)]
            m.add_downstream.deep_view().contains(u) && !m.remove_downstream.deep_view().contains(u)
                && link_ids(ls).contains(u) ==> has_link(mirror_links(ls, id, m), u, id, false),
{
    let (au, ru) = (m.add_upstream.deep_view(), m.remove_upstream.deep_view());
    let (ad, rd) = (m.add_downstream.deep_view(), m.remove_downstream.deep_view());
    let a = link_all(ls, au, id, true, true);
    let b = link_all(a, ru, id, true, false);
    let c = link_all(b, ad, id, false, true);
    lemma_link_all_ids(ls, au, id, true, true);
    lemma_link_all_ids(a, ru, id, true, false);
    lemma_link_all_ids(b, ad, id, false, true);
    assert forall|u: Seq<char>|
        au.contains(u) && !ru.contains(u) && link_ids(ls).contains(u) implies has_link(mirror_links(ls, id, m), u, id, true) by {
        lemma_link_all_adds(ls, au, id, true, u);
        lemma_link_all_keeps(a, ru, id, true, false, u, true);
        lemma_link_all_keeps(b, ad, id, false, true, u, true);
        lemma_link_all_keeps(c, rd, id, false, false, u, true);
    }
    assert forall|u: Seq<char>|
        ad.contains(u) && !rd.contains(u) && link_ids(ls).contains(u) implies has_link(mirror_links(ls, id, m), u, id, false) by {
        lemma_link_all_adds(b, ad, id, false, u);
        lemma_link_all_keeps(c, rd, id, false, false, u, false);
    }
}

/// For tasks: after an upsert of task `id`, each existing task named as
/// added upstream, and not removed again, lists `id` downstream; each
/// existing task named as added downstream, and not removed again, lists
/// `id` upstream.
pub proof fn law_upsert_mirrors_links(
    s: PlanningStoreV,
    id: Seq<char>,
    objective: Option<Seq<char>>,
    title: Option<Seq<char>>,
    description: Option<Seq<char>>,
    status: Option<PlanningStatus>,
    model: Option<Seq<char>>,
    effort: Option<Seq<char>>,
    skills: Seq<Seq<char>>,
    count: Option<u32>,
    m: ListMods,
)
    ensures
        task_upsert(s, id, objective, title, description, status, model, effort, skills, count, m) matches Ok(
            (s2, _),
        ) ==> {
            &&& forall|u: Seq<char>|
                #![trigger m.add_upstream.deep_view().contains(u), ptask_ids(s2.tasks).contains(u)]
                m.add_upstream.deep_view().contains(u) && !m.remove_upstream.deep_view().contains(u)
                    && ptask_ids(s2.tasks).contains(u) ==> has_link(task_links(s2.tasks), u, id, true)
            &&& forall|u: Seq<char>|
                #![trigger m.add_downstream.deep_view().contains(u), ptask_ids(s2.tasks).contains(u)]
                m.add_downstream.deep_view().contains(u) && !m.remove_downstream.deep_view().contains(u)
                    && ptask_ids(s2.tasks).contains(u) ==> has_link(task_links(s2.tasks), u, id, false)
        },
{
    let edited = match first_index_of(ptask_ids(s.tasks), id) {
        None => task_create(s, id, objective, title, description, status, merged_agent(None, model, effort, skills, count), m),
        Some(k) => task_update(s, k, objective, title, description, status, model, effort, skills, count, m),
    };
    if edited is Ok {
        let ts = edited->Ok_0.tasks;
        let ls = task_links(ts);
        let ms = mirror_links(ls, id, m);
        law_mirrored_links(ls, id, m);
        lemma_mirror_ids(ls, id, m);
        let t2 = with_task_links(ts, ms);
        assert(task_links(t2) =~= ms) by {
            assert(link_ids(ms).len() == ts.len());
            assert forall|i: int| 0 <= i < ts.len() implies task_links(t2)[i] == ms[i] by {
                assert(link_ids(ms)[i] == link_ids(ls)[i]);
            }
        }
        assert(ptask_ids(t2) =~= link_ids(ls)) by {
            assert(link_ids(ms).len() == ts.len());
        }
    }
}

/// `drop_id` keeps exactly the other entries.
pub(crate) proof fn lemma_drop_id(l: Seq<Seq<char>>, x: Seq<char>)
    ensures
        forall|y: Seq<char>| #[trigger] drop_id(l, x).contains(y) <==> (l.contains(y) && y != x),
{
    super::planning::law_list_mods(l, seq![], seq![x]);
    assert(list_mods(l, seq![], seq![x]) == drop_id(l, x));
    assert forall|y: Seq<char>| seq![x].contains(y) <==> y == x by {
        if y == x {
            assert(seq![x][0] == y);
        }
    }
    assert forall|y: Seq<char>| !Seq::<Seq<char>>::empty().contains(y) by {}
}

/// Once task `id` is removed, no task links to it any more.
pub proof fn law_removed_task_unlinked(s: PlanningStoreV, id: Seq<char>)
    ensures
        task_remove(s, id) matches Ok(s2) ==> forall|j: int|
            0 <= j < s2.tasks.len() ==> !(#[trigger] s2.tasks[j]).upstream.contains(id) && !s2.tasks[j].downstream.contains(id),
{
    if let Ok(s2) = task_remove(s, id) {
        let k = first_index_of(ptask_ids(s.tasks), id)->0;
        let rest = s.tasks.remove(k);
        assert forall|j: int| 0 <= j < s2.tasks.len() implies !(#[trigger] s2.tasks[j]).upstream.contains(id)
            && !s2.tasks[j].downstream.contains(id) by {
            assert(s2.tasks[j] == unlinked(rest[j], id));
            lemma_drop_id(rest[j].upstream, id);
            lemma_drop_id(rest[j].downstream, id);
        }
    }
}

} // verus!
