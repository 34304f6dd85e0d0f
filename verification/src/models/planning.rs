//! The planning store (milestones, objectives, tasks) and the list edits the
//! planning commands apply to their fields.

use vstd::prelude::*;
use super::project_status::{Agent, AgentV};

verus! {

/// Progress of a planning entity.
#[derive(Debug, Clone, Copy, PartialEq, Eq, Structural)]
pub enum PlanningStatus {
    NotStarted,
    InProgress,
    Completed,
    Blocked,
}

impl PlanningStatus {
    /// Kebab-case name, as shown and stored.
    pub fn name(&self) -> (r: &'static str)
        ensures
            r@ == match self {
                PlanningStatus::NotStarted => "not-started"@,
                PlanningStatus::InProgress => "in-progress"@,
                PlanningStatus::Completed => "completed"@,
                PlanningStatus::Blocked => "blocked"@,
            },
    {
        match self {
            PlanningStatus::NotStarted => "not-started",
            PlanningStatus::InProgress => "in-progress",
            PlanningStatus::Completed => "completed",
            PlanningStatus::Blocked => "blocked",
        }
    }
}

/// A definition-of-done entry of an entity.
#[derive(Debug)]
pub struct PlanningChecklistItem {
    pub id: String,
    pub item: String,
    pub done: bool,
}

/// Mathematical value of a definition-of-done entry.
pub ghost struct PItemV {
    pub id: Seq<char>,
    pub item: Seq<char>,
    pub done: bool,
}

impl View for PlanningChecklistItem {
    type V = PItemV;

    open spec fn view(&self) -> PItemV {
        PItemV { id: self.id@, item: self.item@, done: self.done }
    }
}

impl DeepView for PlanningChecklistItem {
    type V = PItemV;

    open spec fn deep_view(&self) -> PItemV {
        self@
    }
}

/// A milestone of the plan.
#[derive(Debug)]
pub struct Milestone {
    pub id: String,
    pub title: String,
    pub description: String,
    pub status: PlanningStatus,
    pub references: Vec<String>,
    pub outputs: Vec<String>,
    pub checklist: Vec<PlanningChecklistItem>,
    pub objectives: Vec<String>,
    pub upstream: Vec<String>,
    pub downstream: Vec<String>,
}

/// An objective of a milestone.
#[derive(Debug)]
pub struct Objective {
    pub id: String,
    pub milestone_id: String,
    pub title: String,
    pub description: String,
    pub status: PlanningStatus,
    pub references: Vec<String>,
    pub outputs: Vec<String>,
    pub checklist: Vec<PlanningChecklistItem>,
    pub tasks: Vec<String>,
    pub upstream: Vec<String>,
    pub downstream: Vec<String>,
}

/// A task of an objective.
#[derive(Debug)]
pub struct Task {
    pub id: String,
    pub objective_id: String,
    pub title: String,
    pub description: String,
    pub status: PlanningStatus,
    pub agent: Option<Agent>,
    pub references: Vec<String>,
    pub outputs: Vec<String>,
    pub checklist: Vec<PlanningChecklistItem>,
    pub upstream: Vec<String>,
    pub downstream: Vec<String>,
}

/// Every planning entity of a project.
#[derive(Debug, Default)]
pub struct PlanningStore {
    pub milestones: Vec<Milestone>,
    pub objectives: Vec<Objective>,
    pub tasks: Vec<Task>,
}

/// Mathematical value of a milestone.
pub ghost struct PMilestoneV {
    pub id: Seq<char>,
    pub title: Seq<char>,
    pub description: Seq<char>,
    pub status: PlanningStatus,
    pub references: Seq<Seq<char>>,
    pub outputs: Seq<Seq<char>>,
    pub checklist: Seq<PItemV>,
    pub objectives: Seq<Seq<char>>,
    pub upstream: Seq<Seq<char>>,
    pub downstream: Seq<Seq<char>>,
}

/// Mathematical value of an objective.
pub ghost struct PObjectiveV {
    pub id: Seq<char>,
    pub milestone_id: Seq<char>,
    pub title: Seq<char>,
    pub description: Seq<char>,
    pub status: PlanningStatus,
    pub references: Seq<Seq<char>>,
    pub outputs: Seq<Seq<char>>,
    pub checklist: Seq<PItemV>,
    pub tasks: Seq<Seq<char>>,
    pub upstream: Seq<Seq<char>>,
    pub downstream: Seq<Seq<char>>,
}

/// Mathematical value of a task.
pub ghost struct PTaskV {
    pub id: Seq<char>,
    pub objective_id: Seq<char>,
    pub title: Seq<char>,
    pub description: Seq<char>,
    pub status: PlanningStatus,
    pub agent: Option<AgentV>,
    pub references: Seq<Seq<char>>,
    pub outputs: Seq<Seq<char>>,
    pub checklist: Seq<PItemV>,
    pub upstream: Seq<Seq<char>>,
    pub downstream: Seq<Seq<char>>,
}

/// Mathematical value of the planning store.
pub ghost struct PlanningStoreV {
    pub milestones: Seq<PMilestoneV>,
    pub objectives: Seq<PObjectiveV>,
    pub tasks: Seq<PTaskV>,
}

/// The value of an optional agent.
pub open spec fn agent_opt(a: Option<Agent>) -> Option<AgentV> {
    match a {
        Some(x) => Some(x@),
        None => None,
    }
}

impl View for Milestone {
    type V = PMilestoneV;

    open spec fn view(&self) -> PMilestoneV {
        PMilestoneV {
            id: self.id@,
            title: self.title@,
            description: self.description@,
            status: self.status,
            references: self.references.deep_view(),
            outputs: self.outputs.deep_view(),
            checklist: self.checklist.deep_view(),
            objectives: self.objectives.deep_view(),
            upstream: self.upstream.deep_view(),
            downstream: self.downstream.deep_view(),
        }
    }
}

impl DeepView for Milestone {
    type V = PMilestoneV;

    open spec fn deep_view(&self) -> PMilestoneV {
        self@
    }
}

impl View for Objective {
    type V = PObjectiveV;

    open spec fn view(&self) -> PObjectiveV {
        PObjectiveV {
            id: self.id@,
            milestone_id: self.milestone_id@,
            title: self.title@,
            description: self.description@,
            status: self.status,
            references: self.references.deep_view(),
            outputs: self.outputs.deep_view(),
            checklist: self.checklist.deep_view(),
            tasks: self.tasks.deep_view(),
            upstream: self.upstream.deep_view(),
            downstream: self.downstream.deep_view(),
        }
    }
}

impl DeepView for Objective {
    type V = PObjectiveV;

    open spec fn deep_view(&self) -> PObjectiveV {
        self@
    }
}

impl View for Task {
    type V = PTaskV;

    open spec fn view(&self) -> PTaskV {
        PTaskV {
            id: self.id@,
            objective_id: self.objective_id@,
            title: self.title@,
            description: self.description@,
            status: self.status,
            agent: agent_opt(self.agent),
            references: self.references.deep_view(),
            outputs: self.outputs.deep_view(),
            checklist: self.checklist.deep_view(),
            upstream: self.upstream.deep_view(),
            downstream: self.downstream.deep_view(),
        }
    }
}

impl DeepView for Task {
    type V = PTaskV;

    open spec fn deep_view(&self) -> PTaskV {
        self@
    }
}

impl View for PlanningStore {
    type V = PlanningStoreV;

    open spec fn view(&self) -> PlanningStoreV {
        PlanningStoreV {
            milestones: self.milestones.deep_view(),
            objectives: self.objectives.deep_view(),
            tasks: self.tasks.deep_view(),
        }
    }
}

/// Additions and removals for each list field of an entity.
#[derive(Debug, Default)]
pub struct ListMods {
    pub add_references: Vec<String>,
    pub remove_references: Vec<String>,
    pub add_outputs: Vec<String>,
    pub remove_outputs: Vec<String>,
    pub add_upstream: Vec<String>,
    pub remove_upstream: Vec<String>,
    pub add_downstream: Vec<String>,
    pub remove_downstream: Vec<String>,
    pub add_checklist: Vec<String>,
    pub remove_checklist: Vec<String>,
    pub check: Vec<String>,
    pub uncheck: Vec<String>,
}

/// `list` without any entry that `remove` holds, in order.
pub open spec fn without(list: Seq<Seq<char>>, remove: Seq<Seq<char>>) -> Seq<Seq<char>> {
    list.filter(|x: Seq<char>| !remove.contains(x))
}

/// `list` with each entry of `add` appended in turn unless already present.
pub open spec fn with_added(list: Seq<Seq<char>>, add: Seq<Seq<char>>) -> Seq<Seq<char>>
    decreases add.len(),
{
    if add.len() == 0 {
        list
    } else {
        let l = with_added(list, add.drop_last());
        if l.contains(add.last()) {
            l
        } else {
            l.push(add.last())
        }
    }
}

/// The list after its edits: removals first, then additions.
pub open spec fn list_mods(list: Seq<Seq<char>>, add: Seq<Seq<char>>, remove: Seq<Seq<char>>) -> Seq<Seq<char>> {
    with_added(without(list, remove), add)
}

fn slice_contains(v: &[String], x: &String) -> (r: bool)
    ensures
        r == v.deep_view().contains(x@),
{
    let ghost dv = v.deep_view();
    let mut i: usize = 0;
    while i < v.len()
        invariant
            dv == v.deep_view(),
            i <= dv.len(),
            forall|k: int| 0 <= k < i ==> dv[k] != x@,
        decreases v.len() - i,
    {
        if v[i] == *x {
            assert(dv[i as int] == x@);
            return true;
        }
        i += 1;
    }
    false
}

fn vec_contains(v: &Vec<String>, x: &String) -> (r: bool)
    ensures
        r == v.deep_view().contains(x@),
{
    slice_contains(v.as_slice(), x)
}

/// Remove every entry that `remove` holds, then append each entry of `add`
/// that is not present yet.
pub fn apply_list_mods(list: &mut Vec<String>, add: &[String], remove: &[String])
    ensures
        final(list).deep_view() == list_mods(old(list).deep_view(), add.deep_view(), remove.deep_view()),
{
    let ghost lv = list.deep_view();
    let ghost rv = remove.deep_view();
    let ghost pred = |x: Seq<char>| !rv.contains(x);
    let mut kept: Vec<String> = Vec::new();
    let mut i: usize = 0;
    proof { reveal(Seq::filter); }
    assert(lv.take(0) =~= Seq::<Seq<char>>::empty());
    assert(kept.deep_view() =~= lv.take(0).filter(pred));
    while i < list.len()
        invariant
            lv == list.deep_view(),
            rv == remove.deep_view(),
            pred == (|x: Seq<char>| !rv.contains(x)),
            i <= lv.len(),
            kept.deep_view() == lv.take(i as int).filter(pred),
        decreases list.len() - i,
    {
        proof { reveal(Seq::filter); }
        let ghost before = kept.deep_view();
        assert(lv.take(i + 1).drop_last() =~= lv.take(i as int));
        assert(lv.take(i + 1).last() == list@[i as int]@);
        if !slice_contains(remove, &list[i]) {
            kept.push(list[i].clone());
            assert(kept.deep_view() =~= before.push(list@[i as int]@));
        }
        assert(kept.deep_view() =~= lv.take(i + 1).filter(pred));
        i += 1;
    }
    assert(lv.take(lv.len() as int) =~= lv);
    assert(kept.deep_view() == without(lv, rv));
    let ghost av = add.deep_view();
    let mut j: usize = 0;
    assert(av.take(0) =~= Seq::<Seq<char>>::empty());
    while j < add.len()
        invariant
            av == add.deep_view(),
            j <= av.len(),
            kept.deep_view() == with_added(without(lv, rv), av.take(j as int)),
        decreases add.len() - j,
    {
        let ghost before = kept.deep_view();
        assert(av.take(j + 1).drop_last() =~= av.take(j as int));
        assert(av.take(j + 1).last() == add@[j as int]@);
        if !vec_contains(&kept, &add[j]) {
            kept.push(add[j].clone());
            assert(kept.deep_view() =~= before.push(add@[j as int]@));
        }
        j += 1;
    }
    assert(av.take(av.len() as int) =~= av);
    *list = kept;
}


/// Index of the first `':'` in `s`.
pub open spec fn colon_at(s: Seq<char>) -> Option<int>
    decreases s.len(),
{
    if s.len() == 0 {
        None
    } else {
        match colon_at(s.drop_last()) {
            Some(i) => Some(i),
            None => if s.last() == ':' {
                Some(s.len() - 1)
            } else {
                None
            },
        }
    }
}

/// Index of the first entry with id `id`.
pub open spec fn item_index(l: Seq<PItemV>, id: Seq<char>) -> Option<int>
    decreases l.len(),
{
    if l.len() == 0 {
        None
    } else {
        match item_index(l.drop_last(), id) {
            Some(i) => Some(i),
            None => if l.last().id == id {
                Some(l.len() - 1)
            } else {
                None
            },
        }
    }
}

/// Add the `"id:text"` entries in turn; stop at the first malformed entry or
/// the first id already present, with its message.
pub open spec fn add_entries(l: Seq<PItemV>, add: Seq<Seq<char>>) -> (Seq<PItemV>, Option<Seq<char>>)
    decreases add.len(),
{
    if add.len() == 0 {
        (l, None)
    } else {
        let (l1, e) = add_entries(l, add.drop_last());
        if e is Some {
            (l1, e)
        } else {
            let entry = add.last();
            match colon_at(entry) {
                None => (l1, Some("Invalid checklist format: \""@ + entry + "\". Expected \"id:text\"."@)),
                Some(c) => {
                    let id = entry.take(c);
                    if item_index(l1, id) is Some {
                        (l1, Some("Checklist item \""@ + id + "\" already exists."@))
                    } else {
                        (l1.push(PItemV { id, item: entry.skip(c + 1), done: false }), None)
                    }
                },
            }
        }
    }
}

/// Set `done` on the entries with the given ids in turn; stop at the first
/// id that is absent, with its message.
pub open spec fn mark_entries(l: Seq<PItemV>, ids: Seq<Seq<char>>, done: bool) -> (Seq<PItemV>, Option<Seq<char>>)
    decreases ids.len(),
{
    if ids.len() == 0 {
        (l, None)
    } else {
        let (l1, e) = mark_entries(l, ids.drop_last(), done);
        if e is Some {
            (l1, e)
        } else {
            let id = ids.last();
            match item_index(l1, id) {
                None => (l1, Some("Checklist item \""@ + id + "\" not found."@)),
                Some(k) => (l1.update(k, PItemV { done, ..l1[k] }), None),
            }
        }
    }
}

/// The checklist after removals, additions, checks and unchecks, in that
/// order, and the message of the first failure if one stopped it.
pub open spec fn checklist_mods(
    l: Seq<PItemV>,
    add: Seq<Seq<char>>,
    remove: Seq<Seq<char>>,
    check: Seq<Seq<char>>,
    uncheck: Seq<Seq<char>>,
) -> (Seq<PItemV>, Option<Seq<char>>) {
    let l0 = l.filter(|it: PItemV| !remove.contains(it.id));
    let (l1, e1) = add_entries(l0, add);
    if e1 is Some {
        (l1, e1)
    } else {
        let (l2, e2) = mark_entries(l1, check, true);
        if e2 is Some {
            (l2, e2)
        } else {
            mark_entries(l2, uncheck, false)
        }
    }
}

proof fn lemma_item_index_prefix(l: Seq<PItemV>, id: Seq<char>, k: int)
    requires
        0 <= k <= l.len(),
        item_index(l.take(k), id) is Some,
    ensures
        item_index(l, id) == item_index(l.take(k), id),
    decreases l.len(),
{
    if k == l.len() {
        assert(l.take(k) =~= l);
    } else {
        assert(l.drop_last().take(k) =~= l.take(k));
        lemma_item_index_prefix(l.drop_last(), id, k);
    }
}

proof fn lemma_item_index_valid(l: Seq<PItemV>, id: Seq<char>)
    ensures
        item_index(l, id) matches Some(k) ==> 0 <= k < l.len() && l[k].id == id,
    decreases l.len(),
{
    if l.len() > 0 {
        lemma_item_index_valid(l.drop_last(), id);
    }
}

fn find_item(l: &Vec<PlanningChecklistItem>, id: &str) -> (r: Option<usize>)
    ensures
        match r {
            Some(k) => item_index(l.deep_view(), id@) == Some(k as int),
            None => item_index(l.deep_view(), id@) is None,
        },
{
    let ghost lv = l.deep_view();
    let target = id.to_owned();
    let mut i: usize = 0;
    assert(lv.take(0) =~= Seq::<PItemV>::empty());
    while i < l.len()
        invariant
            lv == l.deep_view(),
            target@ == id@,
            i <= lv.len(),
            item_index(lv.take(i as int), id@) is None,
        decreases l.len() - i,
    {
        assert(lv.take(i + 1).drop_last() =~= lv.take(i as int));
        assert(lv.take(i + 1).last() == l@[i as int]@);
        if l[i].id == target {
            proof { lemma_item_index_prefix(lv, id@, i + 1); }
            return Some(i);
        }
        i += 1;
    }
    assert(lv.take(lv.len() as int) =~= lv);
    None
}

fn find_colon(s: &str) -> (r: Option<usize>)
    ensures
        match r {
            Some(c) => colon_at(s@) == Some(c as int),
            None => colon_at(s@) is None,
        },
{
    let n = s.unicode_len();
    let mut i: usize = 0;
    assert(s@.take(0) =~= Seq::<char>::empty());
    while i < n
        invariant
            n == s@.len(),
            i <= n,
            colon_at(s@.take(i as int)) is None,
        decreases n - i,
    {
        assert(s@.take(i + 1).drop_last() =~= s@.take(i as int));
        if s.get_char(i) == ':' {
            proof { lemma_colon_prefix(s@, i + 1); }
            return Some(i);
        }
        i += 1;
    }
    assert(s@.take(n as int) =~= s@);
    None
}

proof fn lemma_colon_prefix(s: Seq<char>, k: int)
    requires
        0 <= k <= s.len(),
        colon_at(s.take(k)) is Some,
    ensures
        colon_at(s) == colon_at(s.take(k)),
    decreases s.len(),
{
    if k == s.len() {
        assert(s.take(k) =~= s);
    } else {
        assert(s.drop_last().take(k) =~= s.take(k));
        lemma_colon_prefix(s.drop_last(), k);
    }
}

proof fn lemma_colon_valid(s: Seq<char>)
    ensures
        colon_at(s) matches Some(c) ==> 0 <= c < s.len(),
    decreases s.len(),
{
    if s.len() > 0 {
        lemma_colon_valid(s.drop_last());
    }
}

fn remove_items(checklist: &mut Vec<PlanningChecklistItem>, remove: &[String])
    ensures
        final(checklist).deep_view() == old(checklist).deep_view().filter(|it: PItemV| !remove.deep_view().contains(it.id)),
{
    let ghost lv = checklist.deep_view();
    let ghost rv = remove.deep_view();
    let ghost pred = |it: PItemV| !rv.contains(it.id);
    let mut kept: Vec<PlanningChecklistItem> = Vec::new();
    let mut i: usize = 0;
    proof { reveal(Seq::filter); }
    assert(lv.take(0) =~= Seq::<PItemV>::empty());
    assert(kept.deep_view() =~= lv.take(0).filter(pred));
    while i < checklist.len()
        invariant
            lv == checklist.deep_view(),
            rv == remove.deep_view(),
            pred == (|it: PItemV| !rv.contains(it.id)),
            i <= lv.len(),
            kept.deep_view() == lv.take(i as int).filter(pred),
        decreases checklist.len() - i,
    {
        proof { reveal(Seq::filter); }
        let ghost before = kept.deep_view();
        assert(lv.take(i + 1).drop_last() =~= lv.take(i as int));
        assert(lv.take(i + 1).last() == checklist@[i as int]@);
        if !slice_contains(remove, &checklist[i].id) {
            let it = PlanningChecklistItem {
                id: checklist[i].id.clone(),
                item: checklist[i].item.clone(),
                done: checklist[i].done,
            };
            kept.push(it);
            assert(kept.deep_view() =~= before.push(checklist@[i as int]@));
        }
        assert(kept.deep_view() =~= lv.take(i + 1).filter(pred));
        i += 1;
    }
    assert(lv.take(lv.len() as int) =~= lv);
    *checklist = kept;
}

fn add_items(checklist: &mut Vec<PlanningChecklistItem>, add: &[String]) -> (r: Result<(), String>)
    ensures
        final(checklist).deep_view() == add_entries(old(checklist).deep_view(), add.deep_view()).0,
        match add_entries(old(checklist).deep_view(), add.deep_view()).1 {
            Some(m) => r matches Err(e) && e@ == m,
            None => r is Ok,
        },
{
    let ghost l0 = checklist.deep_view();
    let ghost av = add.deep_view();
    let mut j: usize = 0;
    assert(av.take(0) =~= Seq::<Seq<char>>::empty());
    while j < add.len()
        invariant
            av == add.deep_view(),
            l0 == old(checklist).deep_view(),
            j <= av.len(),
            add_entries(l0, av.take(j as int)).1 is None,
            checklist.deep_view() == add_entries(l0, av.take(j as int)).0,
        decreases add.len() - j,
    {
        let ghost before = checklist.deep_view();
        assert(av.take(j + 1).drop_last() =~= av.take(j as int));
        assert(av.take(j + 1).last() == add@[j as int]@);
        let entry = add[j].as_str();
        proof { lemma_colon_valid(entry@); }
        let c = match find_colon(entry) {
            Some(c) => c,
            None => {
                proof { reveal_strlit("Invalid checklist format: \""); reveal_strlit("\". Expected \"id:text\"."); }
                let m = "Invalid checklist format: \"".to_owned().concat(entry).concat("\". Expected \"id:text\".");
                assert(entry@ == av.take(j + 1).last());
                assert(colon_at(entry@) is None);
                assert(add_entries(l0, av.take(j + 1)).1 == Some(m@));
                assert(add_entries(l0, av.take(j + 1)).0 == checklist.deep_view());
                proof { lemma_add_entries_stops(l0, av, j as int + 1); }
                assert(add_entries(l0, av).1 == Some(m@));
                return Err(m);
            },
        };
        let n = entry.unicode_len();
        let id = entry.substring_char(0, c);
        let text = entry.substring_char(c + 1, n);
        assert(id@ =~= entry@.take(c as int));
        assert(text@ =~= entry@.skip(c + 1));
        if find_item(checklist, id).is_some() {
            proof { reveal_strlit("Checklist item \""); reveal_strlit("\" already exists."); }
            let m = "Checklist item \"".to_owned().concat(id).concat("\" already exists.");
            assert(add_entries(l0, av.take(j + 1)).1 == Some(m@));
            proof { lemma_add_entries_stops(l0, av, j as int + 1); }
            return Err(m);
        }
        checklist.push(PlanningChecklistItem { id: id.to_owned(), item: text.to_owned(), done: false });
        assert(checklist.deep_view() =~= before.push(PItemV { id: id@, item: text@, done: false }));
        j += 1;
    }
    assert(av.take(av.len() as int) =~= av);
    Ok(())
}

/// Once adding stops with a message, later entries change nothing.
proof fn lemma_add_entries_stops(l: Seq<PItemV>, add: Seq<Seq<char>>, k: int)
    requires
        0 <= k <= add.len(),
        add_entries(l, add.take(k)).1 is Some,
    ensures
        add_entries(l, add) == add_entries(l, add.take(k)),
    decreases add.len(),
{
    if k == add.len() {
        assert(add.take(k) =~= add);
    } else {
        assert(add.drop_last().take(k) =~= add.take(k));
        lemma_add_entries_stops(l, add.drop_last(), k);
    }
}

/// Once marking stops with a message, later ids change nothing.
proof fn lemma_mark_entries_stops(l: Seq<PItemV>, ids: Seq<Seq<char>>, done: bool, k: int)
    requires
        0 <= k <= ids.len(),
        mark_entries(l, ids.take(k), done).1 is Some,
    ensures
        mark_entries(l, ids, done) == mark_entries(l, ids.take(k), done),
    decreases ids.len(),
{
    if k == ids.len() {
        assert(ids.take(k) =~= ids);
    } else {
        assert(ids.drop_last().take(k) =~= ids.take(k));
        lemma_mark_entries_stops(l, ids.drop_last(), done, k);
    }
}

fn mark_items(checklist: &mut Vec<PlanningChecklistItem>, ids: &[String], done: bool) -> (r: Result<(), String>)
    ensures
        final(checklist).deep_view() == mark_entries(old(checklist).deep_view(), ids.deep_view(), done).0,
        match mark_entries(old(checklist).deep_view(), ids.deep_view(), done).1 {
            Some(m) => r matches Err(e) && e@ == m,
            None => r is Ok,
        },
{
    let ghost l0 = checklist.deep_view();
    let ghost iv = ids.deep_view();
    let mut j: usize = 0;
    assert(iv.take(0) =~= Seq::<Seq<char>>::empty());
    while j < ids.len()
        invariant
            iv == ids.deep_view(),
            l0 == old(checklist).deep_view(),
            j <= iv.len(),
            mark_entries(l0, iv.take(j as int), done).1 is None,
            checklist.deep_view() == mark_entries(l0, iv.take(j as int), done).0,
        decreases ids.len() - j,
    {
        let ghost before = checklist.deep_view();
        assert(iv.take(j + 1).drop_last() =~= iv.take(j as int));
        assert(iv.take(j + 1).last() == ids@[j as int]@);
        let id = ids[j].as_str();
        proof { lemma_item_index_valid(before, id@); }
        match find_item(checklist, id) {
            Some(k) => {
                checklist[k].done = done;
                assert(checklist.deep_view() =~= before.update(k as int, PItemV { done, ..before[k as int] }));
                assert(item_index(before, id@) == Some(k as int));
                assert(mark_entries(l0, iv.take(j + 1), done).0 == checklist.deep_view());
            },
            None => {
                proof { reveal_strlit("Checklist item \""); reveal_strlit("\" not found."); }
                let m = "Checklist item \"".to_owned().concat(id).concat("\" not found.");
                assert(mark_entries(l0, iv.take(j + 1), done).1 == Some(m@));
                proof { lemma_mark_entries_stops(l0, iv, done, j as int + 1); }
                return Err(m);
            },
        }
        j += 1;
    }
    assert(iv.take(iv.len() as int) =~= iv);
    Ok(())
}

/// Apply removals, then `"id:text"` additions, then checks, then unchecks to
/// a checklist. The first failure stops the edit with its message; the edits
/// made before it stay.
pub fn apply_checklist_mods(
    checklist: &mut Vec<PlanningChecklistItem>,
    add: &[String],
    remove: &[String],
    check: &[String],
    uncheck: &[String],
) -> (r: Result<(), String>)
    ensures
        ({
            let (l, e) = checklist_mods(
                old(checklist).deep_view(),
                add.deep_view(),
                remove.deep_view(),
                check.deep_view(),
                uncheck.deep_view(),
            );
            &&& final(checklist).deep_view() == l
            &&& match e {
                Some(m) => r matches Err(x) && x@ == m,
                None => r is Ok,
            }
        }),
{
    remove_items(checklist, remove);
    add_items(checklist, add)?;
    mark_items(checklist, check, true)?;
    mark_items(checklist, uncheck, false)
}

/// Apply the list edits of `mods` to the standard list fields of an entity,
/// then its checklist edits.
pub fn apply_all_list_mods(
    references: &mut Vec<String>,
    outputs: &mut Vec<String>,
    upstream: &mut Vec<String>,
    downstream: &mut Vec<String>,
    checklist: &mut Vec<PlanningChecklistItem>,
    mods: &ListMods,
) -> (r: Result<(), String>)
    ensures
        final(references).deep_view() == list_mods(old(references).deep_view(), mods.add_references.deep_view(), mods.remove_references.deep_view()),
        final(outputs).deep_view() == list_mods(old(outputs).deep_view(), mods.add_outputs.deep_view(), mods.remove_outputs.deep_view()),
        final(upstream).deep_view() == list_mods(old(upstream).deep_view(), mods.add_upstream.deep_view(), mods.remove_upstream.deep_view()),
        final(downstream).deep_view() == list_mods(old(downstream).deep_view(), mods.add_downstream.deep_view(), mods.remove_downstream.deep_view()),
        ({
            let (l, e) = checklist_mods(
                old(checklist).deep_view(),
                mods.add_checklist.deep_view(),
                mods.remove_checklist.deep_view(),
                mods.check.deep_view(),
                mods.uncheck.deep_view(),
            );
            &&& final(checklist).deep_view() == l
            &&& match e {
                Some(m) => r matches Err(x) && x@ == m,
                None => r is Ok,
            }
        }),
{
    apply_list_mods(references, mods.add_references.as_slice(), mods.remove_references.as_slice());
    apply_list_mods(outputs, mods.add_outputs.as_slice(), mods.remove_outputs.as_slice());
    apply_list_mods(upstream, mods.add_upstream.as_slice(), mods.remove_upstream.as_slice());
    apply_list_mods(downstream, mods.add_downstream.as_slice(), mods.remove_downstream.as_slice());
    apply_checklist_mods(
        checklist,
        mods.add_checklist.as_slice(),
        mods.remove_checklist.as_slice(),
        mods.check.as_slice(),
        mods.uncheck.as_slice(),
    )
}


/// Index of the first task with id `id`.
pub open spec fn task_position(ts: Seq<Task>, id: Seq<char>) -> Option<int>
    decreases ts.len(),
{
    if ts.len() == 0 {
        None
    } else {
        match task_position(ts.drop_last(), id) {
            Some(i) => Some(i),
            None => if ts.last().id@ == id {
                Some(ts.len() - 1)
            } else {
                None
            },
        }
    }
}

/// The downstream ids of the first task with id `id`; none when no task has it.
pub open spec fn successors(ts: Seq<Task>, id: Seq<char>) -> Seq<Seq<char>> {
    match task_position(ts, id) {
        Some(k) => ts[k].downstream.deep_view(),
        None => seq![],
    }
}

/// `p` is a chain of downstream links that starts below `start`.
pub open spec fn is_downstream_path(ts: Seq<Task>, start: Seq<char>, p: Seq<Seq<char>>) -> bool {
    &&& p.len() >= 1
    &&& successors(ts, start).contains(p[0])
    &&& forall|i: int| 0 <= i < p.len() - 1 ==> #[trigger] successors(ts, p[i]).contains(p[i + 1])
}

/// `x` lies transitively downstream of `start`.
pub open spec fn downstream_of(ts: Seq<Task>, start: Seq<char>, x: Seq<char>) -> bool {
    exists|p: Seq<Seq<char>>| is_downstream_path(ts, start, p) && p.last() == x
}

/// Number of distinct ids transitively downstream of `start`.
pub open spec fn downstream_count(ts: Seq<Task>, start: Seq<char>) -> nat {
    Set::new(|x: Seq<char>| downstream_of(ts, start, x)).len()
}

/// Every downstream id named by any task.
pub open spec fn all_downstream(ts: Seq<Task>) -> Seq<Seq<char>>
    decreases ts.len(),
{
    if ts.len() == 0 {
        seq![]
    } else {
        all_downstream(ts.drop_last()) + ts.last().downstream.deep_view()
    }
}

proof fn lemma_task_position_valid(ts: Seq<Task>, id: Seq<char>)
    ensures
        task_position(ts, id) matches Some(k) ==> 0 <= k < ts.len() && ts[k].id@ == id,
    decreases ts.len(),
{
    if ts.len() > 0 {
        lemma_task_position_valid(ts.drop_last(), id);
    }
}

proof fn lemma_task_position_prefix(ts: Seq<Task>, id: Seq<char>, k: int)
    requires
        0 <= k <= ts.len(),
        task_position(ts.take(k), id) is Some,
    ensures
        task_position(ts, id) == task_position(ts.take(k), id),
    decreases ts.len(),
{
    if k == ts.len() {
        assert(ts.take(k) =~= ts);
    } else {
        assert(ts.drop_last().take(k) =~= ts.take(k));
        lemma_task_position_prefix(ts.drop_last(), id, k);
    }
}

proof fn lemma_successors_named(ts: Seq<Task>, id: Seq<char>, y: Seq<char>)
    requires
        successors(ts, id).contains(y),
    ensures
        all_downstream(ts).contains(y),
    decreases ts.len(),
{
    lemma_task_position_valid(ts, id);
    let k = task_position(ts, id)->0;
    let n = ts.len() - 1;
    let d = ts.drop_last();
    if k < n {
        assert(task_position(d, id) == Some(k));
        assert(d[k] == ts[k]);
        lemma_successors_named(d, id, y);
        let j = choose|j: int| 0 <= j < all_downstream(d).len() && all_downstream(d)[j] == y;
        assert(all_downstream(ts)[j] == y);
    } else {
        let dv = ts.last().downstream.deep_view();
        let j = choose|j: int| 0 <= j < dv.len() && dv[j] == y;
        assert(all_downstream(ts)[all_downstream(d).len() + j] == y);
    }
}

proof fn lemma_push_contains(s: Seq<Seq<char>>, y: Seq<char>)
    ensures
        forall|x: Seq<char>| #[trigger] s.push(y).contains(x) <==> (s.contains(x) || x == y),
{
    assert forall|x: Seq<char>| #[trigger] s.push(y).contains(x) <==> (s.contains(x) || x == y) by {
        if s.push(y).contains(x) {
            let i = choose|i: int| 0 <= i < s.push(y).len() && s.push(y)[i] == x;
            if i < s.len() {
                assert(s[i] == x);
            }
        }
        if s.contains(x) {
            let i = choose|i: int| 0 <= i < s.len() && s[i] == x;
            assert(s.push(y)[i] == x);
        }
        if x == y {
            assert(s.push(y)[s.len() as int] == x);
        }
    }
}

proof fn lemma_visited_bound(vd: Seq<Seq<char>>, u: Seq<Seq<char>>)
    requires
        vd.no_duplicates(),
        forall|x: Seq<char>| vd.contains(x) ==> u.contains(x),
    ensures
        vd.len() <= u.len(),
{
    broadcast use vstd::seq_lib::seq_to_set_is_finite;
    vd.unique_seq_to_set();
    u.lemma_cardinality_of_set();
    assert(vd.to_set().subset_of(u.to_set()));
    vstd::set_lib::lemma_len_subset(vd.to_set(), u.to_set());
}

proof fn lemma_extend_path(ts: Seq<Task>, start: Seq<char>, cur: Seq<char>, y: Seq<char>)
    requires
        downstream_of(ts, start, cur),
        successors(ts, cur).contains(y),
    ensures
        downstream_of(ts, start, y),
{
    let p = choose|p: Seq<Seq<char>>| is_downstream_path(ts, start, p) && p.last() == cur;
    let q = p.push(y);
    assert forall|i: int| 0 <= i < q.len() - 1 implies #[trigger] successors(ts, q[i]).contains(q[i + 1]) by {
        if i < p.len() - 1 {
            assert(q[i] == p[i] && q[i + 1] == p[i + 1]);
        } else {
            assert(q[i] == cur && q[i + 1] == y);
        }
    }
    assert(q[0] == p[0]);
    assert(is_downstream_path(ts, start, q) && q.last() == y);
}

proof fn lemma_seed_path(ts: Seq<Task>, start: Seq<char>, y: Seq<char>)
    requires
        successors(ts, start).contains(y),
    ensures
        downstream_of(ts, start, y),
{
    let q = seq![y];
    assert(is_downstream_path(ts, start, q) && q.last() == y);
}

proof fn lemma_path_visited(ts: Seq<Task>, start: Seq<char>, vd: Seq<Seq<char>>, p: Seq<Seq<char>>, i: int)
    requires
        is_downstream_path(ts, start, p),
        0 <= i < p.len(),
        forall|y: Seq<char>| successors(ts, start).contains(y) ==> vd.contains(y),
        forall|x: Seq<char>, y: Seq<char>| vd.contains(x) && successors(ts, x).contains(y) ==> vd.contains(y),
    ensures
        vd.contains(p[i]),
    decreases i,
{
    if i > 0 {
        lemma_path_visited(ts, start, vd, p, i - 1);
        let j = i - 1;
        assert(successors(ts, p[j]).contains(p[j + 1]));
    }
}

pub(crate) fn find_task(tasks: &[Task], id: &String) -> (r: Option<usize>)
    ensures
        match r {
            Some(k) => task_position(tasks@, id@) == Some(k as int),
            None => task_position(tasks@, id@) is None,
        },
{
    let mut i: usize = 0;
    assert(tasks@.take(0) =~= Seq::<Task>::empty());
    while i < tasks.len()
        invariant
            i <= tasks@.len(),
            task_position(tasks@.take(i as int), id@) is None,
        decreases tasks.len() - i,
    {
        assert(tasks@.take(i + 1).drop_last() =~= tasks@.take(i as int));
        assert(tasks@.take(i + 1).last() == tasks@[i as int]);
        if tasks[i].id == *id {
            proof { lemma_task_position_prefix(tasks@, id@, i + 1); }
            return Some(i);
        }
        i += 1;
    }
    assert(tasks@.take(tasks@.len() as int) =~= tasks@);
    None
}

/// Add each downstream id of `ds` that is not visited yet.
fn visit_all(
    tasks: &[Task],
    start: &String,
    ds: &Vec<String>,
    visited: &mut Vec<String>,
)
    requires
        old(visited).deep_view().no_duplicates(),
        forall|x: Seq<char>| old(visited).deep_view().contains(x) ==> all_downstream(tasks@).contains(x),
        forall|x: Seq<char>| old(visited).deep_view().contains(x) ==> downstream_of(tasks@, start@, x),
        forall|y: Seq<char>| ds.deep_view().contains(y) ==> all_downstream(tasks@).contains(y),
        forall|y: Seq<char>| ds.deep_view().contains(y) ==> downstream_of(tasks@, start@, y),
    ensures
        final(visited).deep_view().no_duplicates(),
        old(visited).deep_view().is_prefix_of(final(visited).deep_view()),
        forall|x: Seq<char>| final(visited).deep_view().contains(x) ==> all_downstream(tasks@).contains(x),
        forall|x: Seq<char>| final(visited).deep_view().contains(x) ==> downstream_of(tasks@, start@, x),
        forall|y: Seq<char>| ds.deep_view().contains(y) ==> final(visited).deep_view().contains(y),
        forall|x: Seq<char>| old(visited).deep_view().contains(x) ==> final(visited).deep_view().contains(x),
{
    let ghost v0 = visited.deep_view();
    let ghost dv = ds.deep_view();
    let mut j: usize = 0;
    while j < ds.len()
        invariant
            dv == ds.deep_view(),
            v0 == old(visited).deep_view(),
            j <= dv.len(),
            visited.deep_view().no_duplicates(),
            v0.is_prefix_of(visited.deep_view()),
            forall|x: Seq<char>| visited.deep_view().contains(x) ==> all_downstream(tasks@).contains(x),
            forall|x: Seq<char>| visited.deep_view().contains(x) ==> downstream_of(tasks@, start@, x),
            forall|y: Seq<char>| dv.contains(y) ==> all_downstream(tasks@).contains(y),
            forall|y: Seq<char>| dv.contains(y) ==> downstream_of(tasks@, start@, y),
            forall|k: int| 0 <= k < j ==> visited.deep_view().contains(#[trigger] dv[k]),
            forall|x: Seq<char>| v0.contains(x) ==> visited.deep_view().contains(x),
        decreases ds.len() - j,
    {
        let ghost before = visited.deep_view();
        assert(dv.contains(dv[j as int]));
        if !vec_contains(visited, &ds[j]) {
            visited.push(ds[j].clone());
            assert(visited.deep_view() =~= before.push(dv[j as int]));
            proof {
                lemma_push_contains(before, dv[j as int]);
                assert(visited.deep_view().no_duplicates()) by {
                    let w = visited.deep_view();
                    assert forall|a: int, b: int| 0 <= a < w.len() && 0 <= b < w.len() && a != b implies w[a] != w[b] by {
                        if a < before.len() && b < before.len() {
                        } else if a == before.len() {
                            assert(w[b] == before[b]);
                        } else {
                            assert(w[a] == before[a]);
                        }
                    }
                }
                assert(v0.is_prefix_of(visited.deep_view())) by {
                    assert forall|k: int| 0 <= k < v0.len() implies v0[k] == visited.deep_view()[k] by {
                        assert(v0[k] == before[k]);
                    }
                }
            }
        }
        j += 1;
    }
    assert forall|y: Seq<char>| dv.contains(y) implies visited.deep_view().contains(y) by {
        let k = choose|k: int| 0 <= k < dv.len() && dv[k] == y;
    }
}

/// Number of distinct ids that lie transitively downstream of the task
/// `task_id`, following the downstream lists of the first task with each id.
pub fn transitive_downstream_count(task_id: &str, tasks: &[Task]) -> (r: usize)
    ensures
        r == downstream_count(tasks@, task_id@),
        exists|v: Seq<Seq<char>>| {
            &&& v.no_duplicates()
            &&& v.len() == r
            &&& forall|x: Seq<char>| v.contains(x) <==> downstream_of(tasks@, task_id@, x)
        },
{
    let start = task_id.to_owned();
    let ghost u = all_downstream(tasks@);
    let mut visited: Vec<String> = Vec::new();
    assert(visited.deep_view() =~= Seq::<Seq<char>>::empty());
    proof { lemma_task_position_valid(tasks@, start@); }
    if let Some(k) = find_task(tasks, &start) {
        let ds = &tasks[k].downstream;
        assert(ds.deep_view() == successors(tasks@, start@));
        proof {
            assert forall|y: Seq<char>| ds.deep_view().contains(y) implies all_downstream(tasks@).contains(y) by {
                lemma_successors_named(tasks@, start@, y);
            }
            assert forall|y: Seq<char>| ds.deep_view().contains(y) implies downstream_of(tasks@, start@, y) by {
                lemma_seed_path(tasks@, start@, y);
            }
        }
        visit_all(tasks, &start, ds, &mut visited);
    }
    let mut head: usize = 0;
    proof { lemma_visited_bound(visited.deep_view(), u); }
    while head < visited.len()
        invariant
            u == all_downstream(tasks@),
            start@ == task_id@,
            visited.deep_view().no_duplicates(),
            head <= visited.deep_view().len(),
            visited.deep_view().len() <= u.len(),
            forall|x: Seq<char>| visited.deep_view().contains(x) ==> u.contains(x),
            forall|x: Seq<char>| visited.deep_view().contains(x) ==> downstream_of(tasks@, start@, x),
            forall|y: Seq<char>| successors(tasks@, start@).contains(y) ==> visited.deep_view().contains(y),
            forall|i: int, y: Seq<char>|
                0 <= i < head && #[trigger] successors(tasks@, visited.deep_view()[i]).contains(y)
                    ==> visited.deep_view().contains(y),
        decreases u.len() - head,
    {
        let ghost before = visited.deep_view();
        let cur = visited[head].clone();
        assert(cur@ == before[head as int]);
        assert(before.contains(cur@));
        proof { lemma_task_position_valid(tasks@, cur@); }
        if let Some(k) = find_task(tasks, &cur) {
            let ds = &tasks[k].downstream;
            assert(ds.deep_view() == successors(tasks@, cur@));
            proof {
                assert forall|y: Seq<char>| ds.deep_view().contains(y) implies all_downstream(tasks@).contains(y) by {
                    lemma_successors_named(tasks@, cur@, y);
                }
                assert forall|y: Seq<char>| ds.deep_view().contains(y) implies downstream_of(tasks@, start@, y) by {
                    lemma_extend_path(tasks@, start@, cur@, y);
                }
            }
            visit_all(tasks, &start, ds, &mut visited);
        }
        proof {
            let after = visited.deep_view();
            lemma_visited_bound(after, u);
            assert forall|i: int, y: Seq<char>|
                0 <= i < head + 1 && #[trigger] successors(tasks@, after[i]).contains(y) implies after.contains(y) by {
                assert(after[i] == before[i]);
                assert(before.contains(before[i]));
            }
        }
        head += 1;
    }
    proof {
        let vd = visited.deep_view();
        assert forall|x: Seq<char>| downstream_of(tasks@, task_id@, x) implies vd.contains(x) by {
            let p = choose|p: Seq<Seq<char>>| is_downstream_path(tasks@, task_id@, p) && p.last() == x;
            assert forall|a: Seq<char>, y: Seq<char>| vd.contains(a) && successors(tasks@, a).contains(y) implies vd.contains(y) by {
                let i = choose|i: int| 0 <= i < vd.len() && vd[i] == a;
            }
            lemma_path_visited(tasks@, task_id@, vd, p, p.len() - 1);
        }
        vd.unique_seq_to_set();
        assert(vd.to_set() =~= Set::new(|x: Seq<char>| downstream_of(tasks@, task_id@, x)));
    }
    visited.len()
}


proof fn lemma_with_added(list: Seq<Seq<char>>, add: Seq<Seq<char>>)
    ensures
        forall|x: Seq<char>| #[trigger] with_added(list, add).contains(x) <==> (list.contains(x) || add.contains(x)),
        list.no_duplicates() ==> with_added(list, add).no_duplicates(),
    decreases add.len(),
{
    if add.len() > 0 {
        let a0 = add.drop_last();
        let y = add.last();
        lemma_with_added(list, a0);
        let l = with_added(list, a0);
        lemma_push_contains(l, y);
        assert forall|x: Seq<char>| add.contains(x) <==> (a0.contains(x) || x == y) by {
            assert(add =~= a0.push(y));
            lemma_push_contains(a0, y);
        }
        if !l.contains(y) && l.no_duplicates() {
            let w = l.push(y);
            assert forall|i: int, j: int| 0 <= i < w.len() && 0 <= j < w.len() && i != j implies w[i] != w[j] by {
                if i < l.len() && j < l.len() {
                } else if i == l.len() {
                    assert(w[j] == l[j]);
                } else {
                    assert(w[i] == l[i]);
                }
            }
        }
    }
}

/// After the list edits, an entry is present exactly when it was added, or
/// was present before and not removed; and adding never duplicates an entry.
pub proof fn law_list_mods(list: Seq<Seq<char>>, add: Seq<Seq<char>>, remove: Seq<Seq<char>>)
    ensures
        forall|x: Seq<char>|
            #[trigger] list_mods(list, add, remove).contains(x) <==> (add.contains(x) || (list.contains(x)
                && !remove.contains(x))),
        list.no_duplicates() ==> list_mods(list, add, remove).no_duplicates(),
{
    broadcast use vstd::seq_lib::group_filter_ensures;
    let pred = |x: Seq<char>| !remove.contains(x);
    let base = list.filter(pred);
    assert forall|x: Seq<char>| #[trigger] base.contains(x) <==> (list.contains(x) && !remove.contains(x)) by {
        if base.contains(x) {
            list.lemma_filter_contains_rev(pred, x);
            let k = choose|k: int| 0 <= k < base.len() && base[k] == x;
            assert(pred(base[k]));
        }
        if list.contains(x) && !remove.contains(x) {
            let k = choose|k: int| 0 <= k < list.len() && list[k] == x;
            assert(pred(list[k]));
        }
    }
    lemma_with_added(base, add);
    if list.no_duplicates() {
        lemma_filter_no_dup(list, pred);
    }
}

proof fn lemma_filter_no_dup(s: Seq<Seq<char>>, pred: spec_fn(Seq<char>) -> bool)
    requires
        s.no_duplicates(),
    ensures
        s.filter(pred).no_duplicates(),
    decreases s.len(),
{
    reveal(Seq::filter);
    if s.len() > 0 {
        let d = s.drop_last();
        assert(d.no_duplicates()) by {
            assert forall|i: int, j: int| 0 <= i < d.len() && 0 <= j < d.len() && i != j implies d[i] != d[j] by {
                assert(d[i] == s[i] && d[j] == s[j]);
            }
        }
        lemma_filter_no_dup(d, pred);
        if pred(s.last()) {
            let f = d.filter(pred);
            assert(!f.contains(s.last())) by {
                if f.contains(s.last()) {
                    d.lemma_filter_contains_rev(pred, s.last());
                    let k = choose|k: int| 0 <= k < d.len() && d[k] == s.last();
                    assert(s[k] == s[s.len() - 1]);
                }
            }
            let w = f.push(s.last());
            assert forall|i: int, j: int| 0 <= i < w.len() && 0 <= j < w.len() && i != j implies w[i] != w[j] by {
                if i < f.len() && j < f.len() {
                } else if i == f.len() {
                    assert(w[j] == f[j]);
                } else {
                    assert(w[i] == f[i]);
                }
            }
        }
    }
}

} // verus!
