//! Creating, updating and removing objectives, with their milestone's list
//! and their upstream and downstream links kept in step.

use vstd::prelude::*;
use crate::schedule::addressing::{first_index_of, lemma_first_index_of};
use crate::schedule::types::clone_strings;
use crate::text::str_eq;
use super::milestone_edit::{milestone_index, pmilestone_ids};
use super::plan_edit::{
    clone_checklist, drop_all, drop_id, edit_link, fails_as, lemma_drop_id, lemma_link_all_ids, link_all,
    link_ids, mirror_links, objective_index, or_else, pobjective_ids, push_once, relinked, LinkV, PlanError,
    PlanFailure,
};
use super::planning::{
    apply_all_list_mods, checklist_mods, list_mods, ListMods, Milestone, Objective, PItemV, PMilestoneV,
    PObjectiveV, PTaskV, PlanningChecklistItem, PlanningStatus, PlanningStore, PlanningStoreV,
};

verus! {

// ── links ───────────────────────────────────────────────────────────────────

/// The links of the objectives.
pub open spec fn objective_links(os: Seq<PObjectiveV>) -> Seq<LinkV> {
    os.map_values(|o: PObjectiveV| LinkV { id: o.id, upstream: o.upstream, downstream: o.downstream })
}

/// The objectives with their links taken from `ls`.
pub open spec fn with_objective_links(os: Seq<PObjectiveV>, ls: Seq<LinkV>) -> Seq<PObjectiveV> {
    Seq::new(os.len(), |i: int| PObjectiveV { upstream: ls[i].upstream, downstream: ls[i].downstream, ..os[i] })
}

/// The objectives after mirroring the link edits of a request on objective `id`.
pub open spec fn objectives_mirrored(os: Seq<PObjectiveV>, id: Seq<char>, m: ListMods) -> Seq<PObjectiveV> {
    with_objective_links(os, mirror_links(objective_links(os), id, m))
}

/// Links with the same ids as the objectives can be put into them and read
/// back; putting in links twice keeps the second.
proof fn lemma_with_objective_links(os: Seq<PObjectiveV>, ls: Seq<LinkV>, ls2: Seq<LinkV>)
    requires
        link_ids(ls) == pobjective_ids(os),
    ensures
        objective_links(with_objective_links(os, ls)) == ls,
        pobjective_ids(with_objective_links(os, ls)) == pobjective_ids(os),
        with_objective_links(with_objective_links(os, ls), ls2) == with_objective_links(os, ls2),
{
    assert(link_ids(ls).len() == ls.len());
    assert forall|i: int| 0 <= i < ls.len() implies ls[i].id == os[i].id by {
        assert(link_ids(ls)[i] == pobjective_ids(os)[i]);
    }
    assert(objective_links(with_objective_links(os, ls)) =~= ls);
    assert(pobjective_ids(with_objective_links(os, ls)) =~= pobjective_ids(os));
    assert(with_objective_links(with_objective_links(os, ls), ls2) =~= with_objective_links(os, ls2));
}

/// Apply the link edit for each target to the objectives.
fn relink_objectives(objectives: &mut Vec<Objective>, targets: &Vec<String>, id: &str, down: bool, add: bool)
    ensures
        final(objectives).deep_view() == with_objective_links(
            old(objectives).deep_view(),
            link_all(objective_links(old(objectives).deep_view()), targets.deep_view(), id@, down, add),
        ),
{
    let ghost o0 = objectives.deep_view();
    let ghost l0 = objective_links(o0);
    let ghost tv = targets.deep_view();
    let mut j: usize = 0;
    assert(tv.take(0) =~= Seq::<Seq<char>>::empty());
    assert(objectives.deep_view() =~= with_objective_links(o0, l0));
    assert(link_ids(l0) =~= pobjective_ids(o0));
    while j < targets.len()
        invariant
            o0 == old(objectives).deep_view(),
            l0 == objective_links(o0),
            link_ids(l0) == pobjective_ids(o0),
            tv == targets.deep_view(),
            j <= tv.len(),
            objectives.deep_view() == with_objective_links(o0, link_all(l0, tv.take(j as int), id@, down, add)),
        decreases targets.len() - j,
    {
        assert(tv.take(j + 1).drop_last() =~= tv.take(j as int));
        assert(tv.take(j + 1).last() == targets@[j as int]@);
        let ghost ls = link_all(l0, tv.take(j as int), id@, down, add);
        proof { lemma_link_all_ids(l0, tv.take(j as int), id@, down, add); }
        let ghost before = objectives.deep_view();
        assert(pobjective_ids(before) =~= link_ids(ls)) by {
            assert(link_ids(ls).len() == o0.len());
        }
        match objective_index(objectives, targets[j].as_str()) {
            Some(k) => {
                proof { lemma_first_index_of(link_ids(ls), tv[j as int]); }
                if down {
                    if add {
                        push_once(&mut objectives[k].downstream, id);
                    } else {
                        drop_all(&mut objectives[k].downstream, id);
                    }
                } else {
                    if add {
                        push_once(&mut objectives[k].upstream, id);
                    } else {
                        drop_all(&mut objectives[k].upstream, id);
                    }
                }
                let ghost expected = with_objective_links(o0, ls.update(k as int, relinked(ls[k as int], id@, down, add)));
                assert(0 <= k < before.len());
                assert(before[k as int].downstream == ls[k as int].downstream);
                assert(before[k as int].upstream == ls[k as int].upstream);
                assert forall|i: int| 0 <= i < before.len() implies objectives.deep_view()[i] == expected[i] by {
                    if i != k {
                        assert(objectives.deep_view()[i] == before[i]);
                    }
                }
                assert(objectives.deep_view() =~= expected);
            },
            None => {},
        }
        j += 1;
    }
    assert(tv.take(j as int) =~= tv);
}

/// Keep the other side of each upstream/downstream edit of objective `id` in step.
fn mirror_objective_links(objectives: &mut Vec<Objective>, id: &str, mods: &ListMods)
    ensures
        final(objectives).deep_view() == objectives_mirrored(old(objectives).deep_view(), id@, *mods),
{
    let ghost o0 = objectives.deep_view();
    let ghost l0 = objective_links(o0);
    assert(link_ids(l0) =~= pobjective_ids(o0));
    let ghost a = link_all(l0, mods.add_upstream.deep_view(), id@, true, true);
    let ghost b = link_all(a, mods.remove_upstream.deep_view(), id@, true, false);
    let ghost c = link_all(b, mods.add_downstream.deep_view(), id@, false, true);
    let ghost d = link_all(c, mods.remove_downstream.deep_view(), id@, false, false);
    relink_objectives(objectives, &mods.add_upstream, id, true, true);
    proof {
        lemma_link_all_ids(l0, mods.add_upstream.deep_view(), id@, true, true);
        lemma_with_objective_links(o0, a, b);
    }
    relink_objectives(objectives, &mods.remove_upstream, id, true, false);
    proof {
        lemma_link_all_ids(a, mods.remove_upstream.deep_view(), id@, true, false);
        lemma_with_objective_links(o0, b, c);
    }
    relink_objectives(objectives, &mods.add_downstream, id, false, true);
    proof {
        lemma_link_all_ids(b, mods.add_downstream.deep_view(), id@, false, true);
        lemma_with_objective_links(o0, c, d);
    }
    relink_objectives(objectives, &mods.remove_downstream, id, false, false);
}

// ── upsert ──────────────────────────────────────────────────────────────────

impl Objective {
    /// A duplicate of the objective, with the same value.
    pub fn duplicate(&self) -> (r: Objective)
        ensures
            r@ == self@,
    {
        Objective {
            id: self.id.clone(),
            milestone_id: self.milestone_id.clone(),
            title: self.title.clone(),
            description: self.description.clone(),
            status: self.status,
            references: clone_strings(&self.references),
            outputs: clone_strings(&self.outputs),
            checklist: clone_checklist(&self.checklist),
            tasks: clone_strings(&self.tasks),
            upstream: clone_strings(&self.upstream),
            downstream: clone_strings(&self.downstream),
        }
    }
}

/// The objective after the list edits of a request, and the checklist error
/// that stops them, if any.
pub open spec fn objective_with_mods(x: PObjectiveV, m: ListMods) -> (PObjectiveV, Option<Seq<char>>) {
    let (cl, e) = checklist_mods(
        x.checklist,
        m.add_checklist.deep_view(),
        m.remove_checklist.deep_view(),
        m.check.deep_view(),
        m.uncheck.deep_view(),
    );
    (
        PObjectiveV {
            references: list_mods(x.references, m.add_references.deep_view(), m.remove_references.deep_view()),
            outputs: list_mods(x.outputs, m.add_outputs.deep_view(), m.remove_outputs.deep_view()),
            upstream: list_mods(x.upstream, m.add_upstream.deep_view(), m.remove_upstream.deep_view()),
            downstream: list_mods(x.downstream, m.add_downstream.deep_view(), m.remove_downstream.deep_view()),
            checklist: cl,
            ..x
        },
        e,
    )
}

/// The message of a missing milestone.
pub open spec fn milestone_missing(mid: Seq<char>) -> Seq<char> {
    "Milestone \""@ + mid + "\" not found."@
}

/// `id` added to, or dropped from, the objective list of the first
/// milestone with id `mid`.
pub open spec fn milestone_objectives_edit(ms: Seq<PMilestoneV>, mid: Seq<char>, id: Seq<char>, add: bool) -> Seq<PMilestoneV> {
    match first_index_of(pmilestone_ids(ms), mid) {
        Some(k) => ms.update(k, PMilestoneV { objectives: edit_link(ms[k].objectives, id, add), ..ms[k] }),
        None => ms,
    }
}

/// A new objective `id`: it needs a milestone, a title and a description,
/// and its milestone must exist; it starts not started unless a status is
/// given, with empty lists, takes the list edits, is appended and is listed
/// under its milestone.
pub open spec fn objective_create(
    s: PlanningStoreV,
    id: Seq<char>,
    milestone: Option<Seq<char>>,
    title: Option<Seq<char>>,
    description: Option<Seq<char>>,
    status: Option<PlanningStatus>,
    m: ListMods,
) -> Result<PlanningStoreV, PlanFailure> {
    if milestone is None {
        Err(PlanFailure::Validation("--milestone is required when creating a new objective."@))
    } else if title is None {
        Err(PlanFailure::Validation("--title is required when creating a new objective."@))
    } else if description is None {
        Err(PlanFailure::Validation("--description is required when creating a new objective."@))
    } else if !pmilestone_ids(s.milestones).contains(milestone->0) {
        Err(PlanFailure::NotFound(milestone_missing(milestone->0)))
    } else {
        let mid = milestone->0;
        let x0 = PObjectiveV {
            id,
            milestone_id: mid,
            title: title->0,
            description: description->0,
            status: or_else(status, PlanningStatus::NotStarted),
            references: seq![],
            outputs: seq![],
            checklist: seq![],
            tasks: seq![],
            upstream: seq![],
            downstream: seq![],
        };
        let (x, e) = objective_with_mods(x0, m);
        match e {
            Some(msg) => Err(PlanFailure::Validation(msg)),
            None => Ok(
                PlanningStoreV {
                    milestones: milestone_objectives_edit(s.milestones, mid, id, true),
                    objectives: s.objectives.push(x),
                    ..s
                },
            ),
        }
    }
}

/// The existing objective at `k` updated with each given field; a different
/// milestone, which must exist, moves it from the old milestone's list to
/// the new one's; then the list edits.
pub open spec fn objective_update(
    s: PlanningStoreV,
    k: int,
    milestone: Option<Seq<char>>,
    title: Option<Seq<char>>,
    description: Option<Seq<char>>,
    status: Option<PlanningStatus>,
    m: ListMods,
) -> Result<PlanningStoreV, PlanFailure> {
    let cur = s.objectives[k];
    let moves = milestone matches Some(x) && x != cur.milestone_id;
    if moves && !pmilestone_ids(s.milestones).contains(milestone->0) {
        Err(PlanFailure::NotFound(milestone_missing(milestone->0)))
    } else {
        let x0 = PObjectiveV {
            milestone_id: if moves { milestone->0 } else { cur.milestone_id },
            title: or_else(title, cur.title),
            description: or_else(description, cur.description),
            status: or_else(status, cur.status),
            ..cur
        };
        let (x, e) = objective_with_mods(x0, m);
        match e {
            Some(msg) => Err(PlanFailure::Validation(msg)),
            None => {
                let ms = if moves {
                    milestone_objectives_edit(
                        milestone_objectives_edit(s.milestones, cur.milestone_id, cur.id, false),
                        milestone->0,
                        cur.id,
                        true,
                    )
                } else {
                    s.milestones
                };
                Ok(PlanningStoreV { milestones: ms, objectives: s.objectives.update(k, x), ..s })
            },
        }
    }
}

/// Create or update the objective `id`, then keep the other side of each
/// upstream/downstream edit in step. A refused request leaves the store as
/// it was. The flag tells whether the objective was created.
pub open spec fn objective_upsert(
    s: PlanningStoreV,
    id: Seq<char>,
    milestone: Option<Seq<char>>,
    title: Option<Seq<char>>,
    description: Option<Seq<char>>,
    status: Option<PlanningStatus>,
    m: ListMods,
) -> Result<(PlanningStoreV, bool), PlanFailure> {
    let (edited, created) = match first_index_of(pobjective_ids(s.objectives), id) {
        None => (objective_create(s, id, milestone, title, description, status, m), true),
        Some(k) => (objective_update(s, k, milestone, title, description, status, m), false),
    };
    match edited {
        Ok(s2) => Ok((PlanningStoreV { objectives: objectives_mirrored(s2.objectives, id, m), ..s2 }, created)),
        Err(f) => Err(f),
    }
}

/// Edit the objective list of the first milestone with id `mid`.
fn edit_milestone_objectives(milestones: &mut Vec<Milestone>, mid: &str, id: &str, add: bool)
    ensures
        final(milestones).deep_view() == milestone_objectives_edit(old(milestones).deep_view(), mid@, id@, add),
{
    let ghost before = milestones.deep_view();
    match milestone_index(milestones, mid) {
        Some(k) => {
            proof { lemma_first_index_of(pmilestone_ids(before), mid@); }
            if add {
                push_once(&mut milestones[k].objectives, id);
            } else {
                drop_all(&mut milestones[k].objectives, id);
            }
            assert(milestones.deep_view() =~= before.update(
                k as int,
                PMilestoneV { objectives: edit_link(before[k as int].objectives, id@, add), ..before[k as int] },
            ));
        },
        None => {},
    }
}

/// Apply the list edits of a request to an objective.
fn apply_objective_mods(x: &mut Objective, mods: &ListMods) -> (r: Result<(), PlanError>)
    ensures
        ({
            let (x2, e) = objective_with_mods(old(x)@, *mods);
            match e {
                Some(msg) => r matches Err(PlanError::Validation(y)) && y@ == msg,
                None => r is Ok && final(x)@ == x2,
            }
        }),
{
    match apply_all_list_mods(&mut x.references, &mut x.outputs, &mut x.upstream, &mut x.downstream, &mut x.checklist, mods) {
        Ok(()) => Ok(()),
        Err(msg) => Err(PlanError::Validation(msg)),
    }
}

/// Add the new objective `id` (see `objective_create`).
fn create_objective(
    store: &mut PlanningStore,
    id: &str,
    milestone: Option<String>,
    title: Option<String>,
    description: Option<String>,
    status: Option<PlanningStatus>,
    mods: &ListMods,
) -> (r: Result<(), PlanError>)
    ensures
        match objective_create(old(store)@, id@, milestone.deep_view(), title.deep_view(), description.deep_view(), status, *mods) {
            Ok(s2) => r is Ok && final(store)@ == s2,
            Err(f) => r matches Err(e) && fails_as(e, f) && final(store)@ == old(store)@,
        },
{
    let ghost s0 = store@;
    let mid = match milestone {
        Some(x) => x,
        None => return Err(PlanError::Validation("--milestone is required when creating a new objective.".to_owned())),
    };
    let title = match title {
        Some(t) => t,
        None => return Err(PlanError::Validation("--title is required when creating a new objective.".to_owned())),
    };
    let description = match description {
        Some(d) => d,
        None => return Err(PlanError::Validation("--description is required when creating a new objective.".to_owned())),
    };
    proof { lemma_first_index_of(pmilestone_ids(s0.milestones), mid@); }
    if milestone_index(&store.milestones, mid.as_str()).is_none() {
        return Err(PlanError::NotFound("Milestone \"".to_owned().concat(mid.as_str()).concat("\" not found.")));
    }
    let references: Vec<String> = Vec::new();
    let outputs: Vec<String> = Vec::new();
    let checklist: Vec<PlanningChecklistItem> = Vec::new();
    let tasks: Vec<String> = Vec::new();
    let upstream: Vec<String> = Vec::new();
    let downstream: Vec<String> = Vec::new();
    assert(references.deep_view() =~= Seq::<Seq<char>>::empty());
    assert(outputs.deep_view() =~= Seq::<Seq<char>>::empty());
    assert(checklist.deep_view() =~= Seq::<PItemV>::empty());
    assert(tasks.deep_view() =~= Seq::<Seq<char>>::empty());
    assert(upstream.deep_view() =~= Seq::<Seq<char>>::empty());
    assert(downstream.deep_view() =~= Seq::<Seq<char>>::empty());
    let mut x = Objective {
        id: id.to_owned(),
        milestone_id: mid.clone(),
        title,
        description,
        status: match status {
            Some(st) => st,
            None => PlanningStatus::NotStarted,
        },
        references,
        outputs,
        checklist,
        tasks,
        upstream,
        downstream,
    };
    apply_objective_mods(&mut x, mods)?;
    let ghost xv = x@;
    store.objectives.push(x);
    assert(store.objectives.deep_view() =~= s0.objectives.push(xv));
    edit_milestone_objectives(&mut store.milestones, mid.as_str(), id, true);
    Ok(())
}

/// Update the objective at `k` (see `objective_update`).
fn update_objective(
    store: &mut PlanningStore,
    k: usize,
    milestone: Option<String>,
    title: Option<String>,
    description: Option<String>,
    status: Option<PlanningStatus>,
    mods: &ListMods,
) -> (r: Result<(), PlanError>)
    requires
        k < old(store).objectives@.len(),
    ensures
        match objective_update(old(store)@, k as int, milestone.deep_view(), title.deep_view(), description.deep_view(), status, *mods) {
            Ok(s2) => r is Ok && final(store)@ == s2,
            Err(f) => r matches Err(e) && fails_as(e, f) && final(store)@ == old(store)@,
        },
{
    let ghost s0 = store@;
    let old_mid = store.objectives[k].milestone_id.clone();
    let moves = match &milestone {
        Some(x) => !str_eq(x.as_str(), old_mid.as_str()),
        None => false,
    };
    if moves {
        let x = milestone.as_ref().unwrap();
        proof { lemma_first_index_of(pmilestone_ids(s0.milestones), x@); }
        if milestone_index(&store.milestones, x.as_str()).is_none() {
            return Err(PlanError::NotFound("Milestone \"".to_owned().concat(x.as_str()).concat("\" not found.")));
        }
    }
    let mut x = store.objectives[k].duplicate();
    if moves {
        x.milestone_id = milestone.as_ref().unwrap().clone();
    }
    if let Some(t) = title {
        x.title = t;
    }
    if let Some(d) = description {
        x.description = d;
    }
    if let Some(st) = status {
        x.status = st;
    }
    apply_objective_mods(&mut x, mods)?;
    if moves {
        let target = milestone.as_ref().unwrap();
        edit_milestone_objectives(&mut store.milestones, old_mid.as_str(), store.objectives[k].id.as_str(), false);
        edit_milestone_objectives(&mut store.milestones, target.as_str(), store.objectives[k].id.as_str(), true);
    }
    let ghost xv = x@;
    store.objectives.set(k, x);
    assert(store.objectives.deep_view() =~= s0.objectives.update(k as int, xv));
    Ok(())
}

/// Create or update the objective `id` (see `objective_upsert`); `Ok(true)`
/// when the objective was created.
pub fn upsert_objective(
    store: &mut PlanningStore,
    id: &str,
    milestone: Option<String>,
    title: Option<String>,
    description: Option<String>,
    status: Option<PlanningStatus>,
    mods: ListMods,
) -> (r: Result<bool, PlanError>)
    ensures
        match objective_upsert(old(store)@, id@, milestone.deep_view(), title.deep_view(), description.deep_view(), status, mods) {
            Ok((s2, created)) => r == Ok::<bool, PlanError>(created) && final(store)@ == s2,
            Err(f) => r matches Err(e) && fails_as(e, f) && final(store)@ == old(store)@,
        },
{
    let ghost s0 = store@;
    let created = match objective_index(&store.objectives, id) {
        None => {
            create_objective(store, id, milestone, title, description, status, &mods)?;
            true
        },
        Some(k) => {
            proof { lemma_first_index_of(pobjective_ids(s0.objectives), id@); }
            update_objective(store, k, milestone, title, description, status, &mods)?;
            false
        },
    };
    mirror_objective_links(&mut store.objectives, id, &mods);
    Ok(created)
}

// ── removal ─────────────────────────────────────────────────────────────────

/// The message of a missing objective.
pub open spec fn objective_missing(id: Seq<char>) -> Seq<char> {
    "Objective \""@ + id + "\" not found."@
}

/// An objective with every link to `id` dropped.
pub open spec fn objective_unlinked(x: PObjectiveV, id: Seq<char>) -> PObjectiveV {
    PObjectiveV { upstream: drop_id(x.upstream, id), downstream: drop_id(x.downstream, id), ..x }
}

/// Ids of the tasks that belong to objective `id`, in order.
pub open spec fn orphaned_tasks(ts: Seq<PTaskV>, id: Seq<char>) -> Seq<Seq<char>>
    decreases ts.len(),
{
    if ts.len() == 0 {
        seq![]
    } else {
        let rest = orphaned_tasks(ts.drop_last(), id);
        if ts.last().objective_id == id {
            rest.push(ts.last().id)
        } else {
            rest
        }
    }
}

/// Remove the objective `id`: it leaves the store and its milestone's list,
/// and no other objective links to it any more. Its tasks stay; their ids
/// are reported.
pub open spec fn objective_remove(s: PlanningStoreV, id: Seq<char>) -> Result<(PlanningStoreV, Seq<Seq<char>>), PlanFailure> {
    match first_index_of(pobjective_ids(s.objectives), id) {
        None => Err(PlanFailure::NotFound(objective_missing(id))),
        Some(k) => Ok(
            (
                PlanningStoreV {
                    milestones: milestone_objectives_edit(s.milestones, s.objectives[k].milestone_id, id, false),
                    objectives: s.objectives.remove(k).map_values(|x: PObjectiveV| objective_unlinked(x, id)),
                    ..s
                },
                orphaned_tasks(s.tasks, id),
            ),
        ),
    }
}

/// Ids of the tasks that belong to objective `id`.
fn tasks_of(store: &PlanningStore, id: &str) -> (r: Vec<String>)
    ensures
        r.deep_view() == orphaned_tasks(store@.tasks, id@),
{
    let ghost ts = store@.tasks;
    let mut out: Vec<String> = Vec::new();
    let mut i: usize = 0;
    assert(ts.take(0) =~= Seq::<PTaskV>::empty());
    assert(out.deep_view() =~= Seq::<Seq<char>>::empty());
    while i < store.tasks.len()
        invariant
            ts == store@.tasks,
            i <= ts.len(),
            out.deep_view() == orphaned_tasks(ts.take(i as int), id@),
        decreases store.tasks.len() - i,
    {
        assert(ts.take(i + 1).drop_last() =~= ts.take(i as int));
        assert(ts.take(i + 1).last() == ts[i as int]);
        if str_eq(store.tasks[i].objective_id.as_str(), id) {
            let ghost before = out.deep_view();
            out.push(store.tasks[i].id.clone());
            assert(out.deep_view() =~= before.push(ts[i as int].id));
        }
        i += 1;
    }
    assert(ts.take(i as int) =~= ts);
    out
}

/// Remove the objective `id` (see `objective_remove`); the result lists the
/// tasks left without their objective.
pub fn remove_objective(store: &mut PlanningStore, id: &str) -> (r: Result<Vec<String>, PlanError>)
    ensures
        match objective_remove(old(store)@, id@) {
            Ok((s2, orphans)) => r matches Ok(v) && v.deep_view() == orphans && final(store)@ == s2,
            Err(f) => r matches Err(e) && fails_as(e, f) && final(store)@ == old(store)@,
        },
{
    let ghost s0 = store@;
    let k = match objective_index(&store.objectives, id) {
        Some(k) => k,
        None => return Err(PlanError::NotFound("Objective \"".to_owned().concat(id).concat("\" not found."))),
    };
    proof { lemma_first_index_of(pobjective_ids(s0.objectives), id@); }
    let orphans = tasks_of(store, id);
    let removed = store.objectives.remove(k);
    assert(store.objectives.deep_view() =~= s0.objectives.remove(k as int));
    edit_milestone_objectives(&mut store.milestones, removed.milestone_id.as_str(), id, false);
    let ghost rest = s0.objectives.remove(k as int);
    let ghost ms = store.milestones.deep_view();
    let mut i: usize = 0;
    while i < store.objectives.len()
        invariant
            0 <= k < s0.objectives.len(),
            rest == s0.objectives.remove(k as int),
            ms == store.milestones.deep_view(),
            ms == milestone_objectives_edit(s0.milestones, s0.objectives[k as int].milestone_id, id@, false),
            store.tasks.deep_view() == s0.tasks,
            store.objectives.deep_view().len() == rest.len(),
            i <= rest.len(),
            forall|j: int| 0 <= j < i ==> store.objectives.deep_view()[j] == objective_unlinked(rest[j], id@),
            forall|j: int| i <= j < rest.len() ==> store.objectives.deep_view()[j] == rest[j],
        decreases store.objectives.len() - i,
    {
        let ghost before = store.objectives.deep_view();
        drop_all(&mut store.objectives[i].upstream, id);
        drop_all(&mut store.objectives[i].downstream, id);
        assert(store.objectives.deep_view() =~= before.update(i as int, objective_unlinked(rest[i as int], id@)));
        i += 1;
    }
    assert(store.objectives.deep_view() =~= rest.map_values(|x: PObjectiveV| objective_unlinked(x, id@)));
    Ok(orphans)
}

/// Once objective `id` is removed, no objective links to it any more.
pub proof fn law_removed_objective_unlinked(s: PlanningStoreV, id: Seq<char>)
    ensures
        objective_remove(s, id) matches Ok((s2, _)) ==> forall|j: int|
            0 <= j < s2.objectives.len() ==> !(#[trigger] s2.objectives[j]).upstream.contains(id)
                && !s2.objectives[j].downstream.contains(id),
{
    if let Ok((s2, _)) = objective_remove(s, id) {
        let k = first_index_of(pobjective_ids(s.objectives), id)->0;
        let rest = s.objectives.remove(k);
        assert forall|j: int| 0 <= j < s2.objectives.len() implies !(#[trigger] s2.objectives[j]).upstream.contains(id)
            && !s2.objectives[j].downstream.contains(id) by {
            assert(s2.objectives[j] == objective_unlinked(rest[j], id));
            lemma_drop_id(rest[j].upstream, id);
            lemma_drop_id(rest[j].downstream, id);
        }
    }
}

} // verus!
