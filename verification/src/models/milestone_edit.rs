//! Creating, updating and removing milestones, with their upstream and
//! downstream links kept in step.

use vstd::prelude::*;
use crate::schedule::addressing::{first_index_of, lemma_first_index_of, lemma_first_index_of_prefix};
use crate::schedule::types::clone_strings;
use crate::text::str_eq;
use super::plan_edit::{
    clone_checklist, drop_all, drop_id, fails_as, lemma_drop_id, lemma_link_all_ids, link_all, link_ids,
    mirror_links, or_else, push_once, relinked, LinkV, PlanError, PlanFailure,
};
use super::planning::{
    apply_all_list_mods, checklist_mods, list_mods, ListMods, Milestone, PItemV, PMilestoneV, PObjectiveV,
    PlanningChecklistItem, PlanningStatus, PlanningStore, PlanningStoreV,
};

verus! {

/// Ids of the milestones, in order.
pub open spec fn pmilestone_ids(ms: Seq<PMilestoneV>) -> Seq<Seq<char>> {
    ms.map_values(|m: PMilestoneV| m.id)
}

/// Position of the first milestone with id `id`.
pub(crate) fn milestone_index(milestones: &Vec<Milestone>, id: &str) -> (r: Option<usize>)
    ensures
        match r {
            Some(k) => first_index_of(pmilestone_ids(milestones.deep_view()), id@) == Some(k as int),
            None => first_index_of(pmilestone_ids(milestones.deep_view()), id@) is None,
        },
{
    let ghost ids = pmilestone_ids(milestones.deep_view());
    let mut i: usize = 0;
    assert(ids.take(0) =~= Seq::<Seq<char>>::empty());
    while i < milestones.len()
        invariant
            ids == pmilestone_ids(milestones.deep_view()),
            i <= milestones@.len(),
            first_index_of(ids.take(i as int), id@) is None,
        decreases milestones.len() - i,
    {
        assert(ids.take(i + 1).drop_last() =~= ids.take(i as int));
        assert(ids[i as int] == milestones@[i as int].id@);
        if str_eq(milestones[i].id.as_str(), id) {
            assert(first_index_of(ids.take(i + 1), id@) == Some(i as int));
            proof { lemma_first_index_of_prefix(ids, id@, i as int + 1); }
            return Some(i);
        }
        i += 1;
    }
    assert(ids.take(i as int) =~= ids);
    None
}

// ── links ───────────────────────────────────────────────────────────────────

/// The links of the milestones.
pub open spec fn milestone_links(ms: Seq<PMilestoneV>) -> Seq<LinkV> {
    ms.map_values(|m: PMilestoneV| LinkV { id: m.id, upstream: m.upstream, downstream: m.downstream })
}

/// The milestones with their links taken from `ls`.
pub open spec fn with_milestone_links(ms: Seq<PMilestoneV>, ls: Seq<LinkV>) -> Seq<PMilestoneV> {
    Seq::new(ms.len(), |i: int| PMilestoneV { upstream: ls[i].upstream, downstream: ls[i].downstream, ..ms[i] })
}

/// The milestones after mirroring the link edits of a request on milestone `id`.
pub open spec fn milestones_mirrored(ms: Seq<PMilestoneV>, id: Seq<char>, m: ListMods) -> Seq<PMilestoneV> {
    with_milestone_links(ms, mirror_links(milestone_links(ms), id, m))
}

/// Links with the same ids as the milestones can be put into them and read
/// back; putting in links twice keeps the second.
proof fn lemma_with_milestone_links(ms: Seq<PMilestoneV>, ls: Seq<LinkV>, ls2: Seq<LinkV>)
    requires
        link_ids(ls) == pmilestone_ids(ms),
    ensures
        milestone_links(with_milestone_links(ms, ls)) == ls,
        pmilestone_ids(with_milestone_links(ms, ls)) == pmilestone_ids(ms),
        with_milestone_links(with_milestone_links(ms, ls), ls2) == with_milestone_links(ms, ls2),
{
    assert(link_ids(ls).len() == ls.len());
    assert forall|i: int| 0 <= i < ls.len() implies ls[i].id == ms[i].id by {
        assert(link_ids(ls)[i] == pmilestone_ids(ms)[i]);
    }
    assert(milestone_links(with_milestone_links(ms, ls)) =~= ls);
    assert(pmilestone_ids(with_milestone_links(ms, ls)) =~= pmilestone_ids(ms));
    assert(with_milestone_links(with_milestone_links(ms, ls), ls2) =~= with_milestone_links(ms, ls2));
}

/// Apply the link edit for each target to the milestones.
fn relink_milestones(milestones: &mut Vec<Milestone>, targets: &Vec<String>, id: &str, down: bool, add: bool)
    ensures
        final(milestones).deep_view() == with_milestone_links(
            old(milestones).deep_view(),
            link_all(milestone_links(old(milestones).deep_view()), targets.deep_view(), id@, down, add),
        ),
{
    let ghost m0 = milestones.deep_view();
    let ghost l0 = milestone_links(m0);
    let ghost tv = targets.deep_view();
    let mut j: usize = 0;
    assert(tv.take(0) =~= Seq::<Seq<char>>::empty());
    assert(milestones.deep_view() =~= with_milestone_links(m0, l0));
    assert(link_ids(l0) =~= pmilestone_ids(m0));
    while j < targets.len()
        invariant
            m0 == old(milestones).deep_view(),
            l0 == milestone_links(m0),
            link_ids(l0) == pmilestone_ids(m0),
            tv == targets.deep_view(),
            j <= tv.len(),
            milestones.deep_view() == with_milestone_links(m0, link_all(l0, tv.take(j as int), id@, down, add)),
        decreases targets.len() - j,
    {
        assert(tv.take(j + 1).drop_last() =~= tv.take(j as int));
        assert(tv.take(j + 1).last() == targets@[j as int]@);
        let ghost ls = link_all(l0, tv.take(j as int), id@, down, add);
        proof { lemma_link_all_ids(l0, tv.take(j as int), id@, down, add); }
        let ghost before = milestones.deep_view();
        assert(pmilestone_ids(before) =~= link_ids(ls)) by {
            assert(link_ids(ls).len() == m0.len());
        }
        match milestone_index(milestones, targets[j].as_str()) {
            Some(k) => {
                proof { lemma_first_index_of(link_ids(ls), tv[j as int]); }
                if down {
                    if add {
                        push_once(&mut milestones[k].downstream, id);
                    } else {
                        drop_all(&mut milestones[k].downstream, id);
                    }
                } else {
                    if add {
                        push_once(&mut milestones[k].upstream, id);
                    } else {
                        drop_all(&mut milestones[k].upstream, id);
                    }
                }
                let ghost expected = with_milestone_links(m0, ls.update(k as int, relinked(ls[k as int], id@, down, add)));
                assert(0 <= k < before.len());
                assert(before[k as int].downstream == ls[k as int].downstream);
                assert(before[k as int].upstream == ls[k as int].upstream);
                assert forall|i: int| 0 <= i < before.len() implies milestones.deep_view()[i] == expected[i] by {
                    if i != k {
                        assert(milestones.deep_view()[i] == before[i]);
                    }
                }
                assert(milestones.deep_view() =~= expected);
            },
            None => {},
        }
        j += 1;
    }
    assert(tv.take(j as int) =~= tv);
}

/// Keep the other side of each upstream/downstream edit of milestone `id` in step.
fn mirror_milestone_links(milestones: &mut Vec<Milestone>, id: &str, mods: &ListMods)
    ensures
        final(milestones).deep_view() == milestones_mirrored(old(milestones).deep_view(), id@, *mods),
{
    let ghost m0 = milestones.deep_view();
    let ghost l0 = milestone_links(m0);
    assert(link_ids(l0) =~= pmilestone_ids(m0));
    let ghost a = link_all(l0, mods.add_upstream.deep_view(), id@, true, true);
    let ghost b = link_all(a, mods.remove_upstream.deep_view(), id@, true, false);
    let ghost c = link_all(b, mods.add_downstream.deep_view(), id@, false, true);
    let ghost d = link_all(c, mods.remove_downstream.deep_view(), id@, false, false);
    relink_milestones(milestones, &mods.add_upstream, id, true, true);
    proof {
        lemma_link_all_ids(l0, mods.add_upstream.deep_view(), id@, true, true);
        lemma_with_milestone_links(m0, a, b);
    }
    relink_milestones(milestones, &mods.remove_upstream, id, true, false);
    proof {
        lemma_link_all_ids(a, mods.remove_upstream.deep_view(), id@, true, false);
        lemma_with_milestone_links(m0, b, c);
    }
    relink_milestones(milestones, &mods.add_downstream, id, false, true);
    proof {
        lemma_link_all_ids(b, mods.add_downstream.deep_view(), id@, false, true);
        lemma_with_milestone_links(m0, c, d);
    }
    relink_milestones(milestones, &mods.remove_downstream, id, false, false);
}

// ── upsert ──────────────────────────────────────────────────────────────────

impl Milestone {
    /// A duplicate of the milestone, with the same value.
    pub fn duplicate(&self) -> (r: Milestone)
        ensures
            r@ == self@,
    {
        Milestone {
            id: self.id.clone(),
            title: self.title.clone(),
            description: self.description.clone(),
            status: self.status,
            references: clone_strings(&self.references),
            outputs: clone_strings(&self.outputs),
            checklist: clone_checklist(&self.checklist),
            objectives: clone_strings(&self.objectives),
            upstream: clone_strings(&self.upstream),
            downstream: clone_strings(&self.downstream),
        }
    }
}

/// The milestone after the list edits of a request, and the checklist error
/// that stops them, if any.
pub open spec fn milestone_with_mods(x: PMilestoneV, m: ListMods) -> (PMilestoneV, Option<Seq<char>>) {
    let (cl, e) = checklist_mods(
        x.checklist,
        m.add_checklist.deep_view(),
        m.remove_checklist.deep_view(),
        m.check.deep_view(),
        m.uncheck.deep_view(),
    );
    (
        PMilestoneV {
            references: list_mods(x.references, m.add_references.deep_view(), m.remove_references.deep_view()),
            outputs: list_mods(x.outputs, m.add_outputs.deep_view(), m.remove_outputs.deep_view()),
            upstream: list_mods(x.upstream, m.add_upstream.deep_view(), m.remove_upstream.deep_view()),
            downstream: list_mods(x.downstream, m.add_downstream.deep_view(), m.remove_downstream.deep_view()),
            checklist: cl,
            ..x
        },
        e,
    )
}

/// A new milestone `id`: it needs a title and a description, starts not
/// started unless a status is given, with empty lists, then takes the list
/// edits and is appended.
pub open spec fn milestone_create(
    s: PlanningStoreV,
    id: Seq<char>,
    title: Option<Seq<char>>,
    description: Option<Seq<char>>,
    status: Option<PlanningStatus>,
    m: ListMods,
) -> Result<PlanningStoreV, PlanFailure> {
    if title is None {
        Err(PlanFailure::Validation("--title is required when creating a new milestone."@))
    } else if description is None {
        Err(PlanFailure::Validation("--description is required when creating a new milestone."@))
    } else {
        let x0 = PMilestoneV {
            id,
            title: title->0,
            description: description->0,
            status: or_else(status, PlanningStatus::NotStarted),
            references: seq![],
            outputs: seq![],
            checklist: seq![],
            objectives: seq![],
            upstream: seq![],
            downstream: seq![],
        };
        let (x, e) = milestone_with_mods(x0, m);
        match e {
            Some(msg) => Err(PlanFailure::Validation(msg)),
            None => Ok(PlanningStoreV { milestones: s.milestones.push(x), ..s }),
        }
    }
}

/// The existing milestone at `k` updated with each given field, then the
/// list edits.
pub open spec fn milestone_update(
    s: PlanningStoreV,
    k: int,
    title: Option<Seq<char>>,
    description: Option<Seq<char>>,
    status: Option<PlanningStatus>,
    m: ListMods,
) -> Result<PlanningStoreV, PlanFailure> {
    let cur = s.milestones[k];
    let x0 = PMilestoneV {
        title: or_else(title, cur.title),
        description: or_else(description, cur.description),
        status: or_else(status, cur.status),
        ..cur
    };
    let (x, e) = milestone_with_mods(x0, m);
    match e {
        Some(msg) => Err(PlanFailure::Validation(msg)),
        None => Ok(PlanningStoreV { milestones: s.milestones.update(k, x), ..s }),
    }
}

/// Create or update the milestone `id`, then keep the other side of each
/// upstream/downstream edit in step. A refused request leaves the store as
/// it was. The flag tells whether the milestone was created.
pub open spec fn milestone_upsert(
    s: PlanningStoreV,
    id: Seq<char>,
    title: Option<Seq<char>>,
    description: Option<Seq<char>>,
    status: Option<PlanningStatus>,
    m: ListMods,
) -> Result<(PlanningStoreV, bool), PlanFailure> {
    let (edited, created) = match first_index_of(pmilestone_ids(s.milestones), id) {
        None => (milestone_create(s, id, title, description, status, m), true),
        Some(k) => (milestone_update(s, k, title, description, status, m), false),
    };
    match edited {
        Ok(s2) => Ok((PlanningStoreV { milestones: milestones_mirrored(s2.milestones, id, m), ..s2 }, created)),
        Err(f) => Err(f),
    }
}

/// Apply the list edits of a request to a milestone.
fn apply_milestone_mods(x: &mut Milestone, mods: &ListMods) -> (r: Result<(), PlanError>)
    ensures
        ({
            let (x2, e) = milestone_with_mods(old(x)@, *mods);
            match e {
                Some(msg) => r matches Err(PlanError::Validation(y)) && y@ == msg,
                None => r is Ok && final(x)@ == x2,
            }
        }),
{
    match apply_all_list_mods(&mut x.references, &mut x.outputs, &mut x.upstream, &mut x.downstream, &mut x.checklist, mods) {
        Ok(()) => Ok(()),
        Err(msg) => Err(PlanError::Validation(msg)),
    }
}

/// Add the new milestone `id` (see `milestone_create`).
fn create_milestone(
    store: &mut PlanningStore,
    id: &str,
    title: Option<String>,
    description: Option<String>,
    status: Option<PlanningStatus>,
    mods: &ListMods,
) -> (r: Result<(), PlanError>)
    ensures
        match milestone_create(old(store)@, id@, title.deep_view(), description.deep_view(), status, *mods) {
            Ok(s2) => r is Ok && final(store)@ == s2,
            Err(f) => r matches Err(e) && fails_as(e, f) && final(store)@ == old(store)@,
        },
{
    let ghost s0 = store@;
    let title = match title {
        Some(t) => t,
        None => return Err(PlanError::Validation("--title is required when creating a new milestone.".to_owned())),
    };
    let description = match description {
        Some(d) => d,
        None => return Err(PlanError::Validation("--description is required when creating a new milestone.".to_owned())),
    };
    let references: Vec<String> = Vec::new();
    let outputs: Vec<String> = Vec::new();
    let checklist: Vec<PlanningChecklistItem> = Vec::new();
    let objectives: Vec<String> = Vec::new();
    let upstream: Vec<String> = Vec::new();
    let downstream: Vec<String> = Vec::new();
    assert(references.deep_view() =~= Seq::<Seq<char>>::empty());
    assert(outputs.deep_view() =~= Seq::<Seq<char>>::empty());
    assert(checklist.deep_view() =~= Seq::<PItemV>::empty());
    assert(objectives.deep_view() =~= Seq::<Seq<char>>::empty());
    assert(upstream.deep_view() =~= Seq::<Seq<char>>::empty());
    assert(downstream.deep_view() =~= Seq::<Seq<char>>::empty());
    let mut x = Milestone {
        id: id.to_owned(),
        title,
        description,
        status: match status {
            Some(st) => st,
            None => PlanningStatus::NotStarted,
        },
        references,
        outputs,
        checklist,
        objectives,
        upstream,
        downstream,
    };
    apply_milestone_mods(&mut x, mods)?;
    let ghost xv = x@;
    store.milestones.push(x);
    assert(store.milestones.deep_view() =~= s0.milestones.push(xv));
    Ok(())
}

/// Update the milestone at `k` (see `milestone_update`).
fn update_milestone(
    store: &mut PlanningStore,
    k: usize,
    title: Option<String>,
    description: Option<String>,
    status: Option<PlanningStatus>,
    mods: &ListMods,
) -> (r: Result<(), PlanError>)
    requires
        k < old(store).milestones@.len(),
    ensures
        match milestone_update(old(store)@, k as int, title.deep_view(), description.deep_view(), status, *mods) {
            Ok(s2) => r is Ok && final(store)@ == s2,
            Err(f) => r matches Err(e) && fails_as(e, f) && final(store)@ == old(store)@,
        },
{
    let ghost s0 = store@;
    let mut x = store.milestones[k].duplicate();
    if let Some(t) = title {
        x.title = t;
    }
    if let Some(d) = description {
        x.description = d;
    }
    if let Some(st) = status {
        x.status = st;
    }
    apply_milestone_mods(&mut x, mods)?;
    let ghost xv = x@;
    store.milestones.set(k, x);
    assert(store.milestones.deep_view() =~= s0.milestones.update(k as int, xv));
    Ok(())
}

/// Create or update the milestone `id` (see `milestone_upsert`); `Ok(true)`
/// when the milestone was created.
pub fn upsert_milestone(
    store: &mut PlanningStore,
    id: &str,
    title: Option<String>,
    description: Option<String>,
    status: Option<PlanningStatus>,
    mods: ListMods,
) -> (r: Result<bool, PlanError>)
    ensures
        match milestone_upsert(old(store)@, id@, title.deep_view(), description.deep_view(), status, mods) {
            Ok((s2, created)) => r == Ok::<bool, PlanError>(created) && final(store)@ == s2,
            Err(f) => r matches Err(e) && fails_as(e, f) && final(store)@ == old(store)@,
        },
{
    let ghost s0 = store@;
    let created = match milestone_index(&store.milestones, id) {
        None => {
            create_milestone(store, id, title, description, status, &mods)?;
            true
        },
        Some(k) => {
            proof { lemma_first_index_of(pmilestone_ids(s0.milestones), id@); }
            update_milestone(store, k, title, description, status, &mods)?;
            false
        },
    };
    mirror_milestone_links(&mut store.milestones, id, &mods);
    Ok(created)
}

// ── removal ─────────────────────────────────────────────────────────────────

/// The message of a missing milestone.
pub open spec fn milestone_not_found(id: Seq<char>) -> Seq<char> {
    "Milestone \""@ + id + "\" not found."@
}

/// A milestone with every link to `id` dropped.
pub open spec fn milestone_unlinked(x: PMilestoneV, id: Seq<char>) -> PMilestoneV {
    PMilestoneV { upstream: drop_id(x.upstream, id), downstream: drop_id(x.downstream, id), ..x }
}

/// Ids of the objectives that belong to milestone `id`, in order.
pub open spec fn orphaned_objectives(os: Seq<PObjectiveV>, id: Seq<char>) -> Seq<Seq<char>>
    decreases os.len(),
{
    if os.len() == 0 {
        seq![]
    } else {
        let rest = orphaned_objectives(os.drop_last(), id);
        if os.last().milestone_id == id {
            rest.push(os.last().id)
        } else {
            rest
        }
    }
}

/// Remove the milestone `id`: it leaves the store and no other milestone
/// links to it any more. Its objectives stay; their ids are reported.
pub open spec fn milestone_remove(s: PlanningStoreV, id: Seq<char>) -> Result<(PlanningStoreV, Seq<Seq<char>>), PlanFailure> {
    match first_index_of(pmilestone_ids(s.milestones), id) {
        None => Err(PlanFailure::NotFound(milestone_not_found(id))),
        Some(k) => Ok(
            (
                PlanningStoreV {
                    milestones: s.milestones.remove(k).map_values(|x: PMilestoneV| milestone_unlinked(x, id)),
                    ..s
                },
                orphaned_objectives(s.objectives, id),
            ),
        ),
    }
}

/// Ids of the objectives that belong to milestone `id`.
fn objectives_of(store: &PlanningStore, id: &str) -> (r: Vec<String>)
    ensures
        r.deep_view() == orphaned_objectives(store@.objectives, id@),
{
    let ghost os = store@.objectives;
    let mut out: Vec<String> = Vec::new();
    let mut i: usize = 0;
    assert(os.take(0) =~= Seq::<PObjectiveV>::empty());
    assert(out.deep_view() =~= Seq::<Seq<char>>::empty());
    while i < store.objectives.len()
        invariant
            os == store@.objectives,
            i <= os.len(),
            out.deep_view() == orphaned_objectives(os.take(i as int), id@),
        decreases store.objectives.len() - i,
    {
        assert(os.take(i + 1).drop_last() =~= os.take(i as int));
        assert(os.take(i + 1).last() == os[i as int]);
        if str_eq(store.objectives[i].milestone_id.as_str(), id) {
            let ghost before = out.deep_view();
            out.push(store.objectives[i].id.clone());
            assert(out.deep_view() =~= before.push(os[i as int].id));
        }
        i += 1;
    }
    assert(os.take(i as int) =~= os);
    out
}

/// Remove the milestone `id` (see `milestone_remove`); the result lists the
/// objectives left without their milestone.
pub fn remove_milestone(store: &mut PlanningStore, id: &str) -> (r: Result<Vec<String>, PlanError>)
    ensures
        match milestone_remove(old(store)@, id@) {
            Ok((s2, orphans)) => r matches Ok(v) && v.deep_view() == orphans && final(store)@ == s2,
            Err(f) => r matches Err(e) && fails_as(e, f) && final(store)@ == old(store)@,
        },
{
    let ghost s0 = store@;
    let k = match milestone_index(&store.milestones, id) {
        Some(k) => k,
        None => return Err(PlanError::NotFound("Milestone \"".to_owned().concat(id).concat("\" not found."))),
    };
    proof { lemma_first_index_of(pmilestone_ids(s0.milestones), id@); }
    let orphans = objectives_of(store, id);
    store.milestones.remove(k);
    assert(store.milestones.deep_view() =~= s0.milestones.remove(k as int));
    let ghost rest = s0.milestones.remove(k as int);
    let mut i: usize = 0;
    while i < store.milestones.len()
        invariant
            0 <= k < s0.milestones.len(),
            rest == s0.milestones.remove(k as int),
            store.objectives.deep_view() == s0.objectives,
            store.tasks.deep_view() == s0.tasks,
            store.milestones.deep_view().len() == rest.len(),
            i <= rest.len(),
            forall|j: int| 0 <= j < i ==> store.milestones.deep_view()[j] == milestone_unlinked(rest[j], id@),
            forall|j: int| i <= j < rest.len() ==> store.milestones.deep_view()[j] == rest[j],
        decreases store.milestones.len() - i,
    {
        let ghost before = store.milestones.deep_view();
        drop_all(&mut store.milestones[i].upstream, id);
        drop_all(&mut store.milestones[i].downstream, id);
        assert(store.milestones.deep_view() =~= before.update(i as int, milestone_unlinked(rest[i as int], id@)));
        i += 1;
    }
    assert(store.milestones.deep_view() =~= rest.map_values(|x: PMilestoneV| milestone_unlinked(x, id@)));
    Ok(orphans)
}

/// Once milestone `id` is removed, no milestone links to it any more.
pub proof fn law_removed_milestone_unlinked(s: PlanningStoreV, id: Seq<char>)
    ensures
        milestone_remove(s, id) matches Ok((s2, _)) ==> forall|j: int|
            0 <= j < s2.milestones.len() ==> !(#[trigger] s2.milestones[j]).upstream.contains(id)
                && !s2.milestones[j].downstream.contains(id),
{
    if let Ok((s2, _)) = milestone_remove(s, id) {
        let k = first_index_of(pmilestone_ids(s.milestones), id)->0;
        let rest = s.milestones.remove(k);
        assert forall|j: int| 0 <= j < s2.milestones.len() implies !(#[trigger] s2.milestones[j]).upstream.contains(id)
            && !s2.milestones[j].downstream.contains(id) by {
            assert(s2.milestones[j] == milestone_unlinked(rest[j], id));
            lemma_drop_id(rest[j].upstream, id);
            lemma_drop_id(rest[j].downstream, id);
        }
    }
}

} // verus!
