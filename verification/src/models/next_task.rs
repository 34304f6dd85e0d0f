//! Choosing the task to work on next: eligibility by milestone, objective and
//! upstream tasks, then a priority order.

use vstd::prelude::*;
use super::planning::{
    downstream_count, find_task, task_position, transitive_downstream_count, Milestone, Objective,
    PlanningStatus, PlanningStore, Task,
};

verus! {

/// Why no task can be picked.
#[derive(Debug, Clone, Copy, PartialEq, Eq, Structural)]
pub enum PickError {
    /// The store holds no task at all.
    NoTasks,
    /// Every task is completed.
    AllDone,
    /// Tasks remain, but each is blocked or waits on unmet dependencies.
    NoneEligible,
}

impl PickError {
    /// The message shown for the error.
    pub fn message(&self) -> (r: &'static str)
        ensures
            r@ == match self {
                PickError::NoTasks => "No tasks exist in the planning store."@,
                PickError::AllDone => "NO TASKS - Please mark as item complete"@,
                PickError::NoneEligible => "No eligible tasks. Remaining tasks are blocked by unmet dependencies."@,
            },
    {
        match self {
            PickError::NoTasks => "No tasks exist in the planning store.",
            PickError::AllDone => "NO TASKS - Please mark as item complete",
            PickError::NoneEligible => "No eligible tasks. Remaining tasks are blocked by unmet dependencies.",
        }
    }
}

/// Index of the first milestone with id `id`.
pub open spec fn ms_position(ms: Seq<Milestone>, id: Seq<char>) -> Option<int>
    decreases ms.len(),
{
    if ms.len() == 0 {
        None
    } else {
        match ms_position(ms.drop_last(), id) {
            Some(i) => Some(i),
            None => if ms.last().id@ == id {
                Some(ms.len() - 1)
            } else {
                None
            },
        }
    }
}

/// Index of the first objective with id `id`.
pub open spec fn obj_position(os: Seq<Objective>, id: Seq<char>) -> Option<int>
    decreases os.len(),
{
    if os.len() == 0 {
        None
    } else {
        match obj_position(os.drop_last(), id) {
            Some(i) => Some(i),
            None => if os.last().id@ == id {
                Some(os.len() - 1)
            } else {
                None
            },
        }
    }
}

/// The first milestone with id `id` is completed, or there is none.
pub open spec fn ms_met(ms: Seq<Milestone>, id: Seq<char>) -> bool {
    match ms_position(ms, id) {
        Some(j) => ms[j].status == PlanningStatus::Completed,
        None => true,
    }
}

/// The first objective with id `id` is completed, or there is none.
pub open spec fn obj_met(os: Seq<Objective>, id: Seq<char>) -> bool {
    match obj_position(os, id) {
        Some(j) => os[j].status == PlanningStatus::Completed,
        None => true,
    }
}

/// The first task with id `id` is completed, or there is none.
pub open spec fn task_met(ts: Seq<Task>, id: Seq<char>) -> bool {
    match task_position(ts, id) {
        Some(j) => ts[j].status == PlanningStatus::Completed,
        None => true,
    }
}

/// A milestone can be worked on: not blocked, and its upstream milestones done.
pub open spec fn ms_eligible(ms: Seq<Milestone>, m: Milestone) -> bool {
    m.status != PlanningStatus::Blocked && forall|k: int|
        0 <= k < m.upstream@.len() ==> ms_met(ms, #[trigger] m.upstream@[k]@)
}

/// Some eligible milestone has id `id`.
pub open spec fn ms_id_eligible(ms: Seq<Milestone>, id: Seq<char>) -> bool {
    exists|i: int| 0 <= i < ms.len() && (#[trigger] ms[i]).id@ == id && ms_eligible(ms, ms[i])
}

/// An objective can be worked on: not blocked, its milestone eligible, and
/// its upstream objectives done.
pub open spec fn obj_eligible(ms: Seq<Milestone>, os: Seq<Objective>, o: Objective) -> bool {
    &&& o.status != PlanningStatus::Blocked
    &&& ms_id_eligible(ms, o.milestone_id@)
    &&& forall|k: int| 0 <= k < o.upstream@.len() ==> obj_met(os, #[trigger] o.upstream@[k]@)
}

/// Some eligible objective has id `id`.
pub open spec fn obj_id_eligible(ms: Seq<Milestone>, os: Seq<Objective>, id: Seq<char>) -> bool {
    exists|i: int| 0 <= i < os.len() && (#[trigger] os[i]).id@ == id && obj_eligible(ms, os, os[i])
}

/// A task can be picked: neither completed nor blocked, its objective
/// eligible, and, unless it is already in progress, its upstream tasks done.
pub open spec fn is_candidate(s: &PlanningStore, t: Task) -> bool {
    &&& t.status != PlanningStatus::Completed
    &&& t.status != PlanningStatus::Blocked
    &&& obj_id_eligible(s.milestones@, s.objectives@, t.objective_id@)
    &&& t.status == PlanningStatus::NotStarted ==> forall|k: int|
        0 <= k < t.upstream@.len() ==> task_met(s.tasks@, #[trigger] t.upstream@[k]@)
}

/// Status of the task's objective (not started when it has none).
pub open spec fn obj_status(s: &PlanningStore, t: Task) -> PlanningStatus {
    match obj_position(s.objectives@, t.objective_id@) {
        Some(j) => s.objectives@[j].status,
        None => PlanningStatus::NotStarted,
    }
}

/// Id of the task's milestone (empty when it has no objective).
pub open spec fn ms_id_of(s: &PlanningStore, t: Task) -> Seq<char> {
    match obj_position(s.objectives@, t.objective_id@) {
        Some(j) => s.objectives@[j].milestone_id@,
        None => Seq::empty(),
    }
}

/// Status of the task's milestone (not started when it has none).
pub open spec fn ms_status(s: &PlanningStore, t: Task) -> PlanningStatus {
    match ms_position(s.milestones@, ms_id_of(s, t)) {
        Some(j) => s.milestones@[j].status,
        None => PlanningStatus::NotStarted,
    }
}

/// Priority tier: resume the task in progress first, then finish current
/// work, continue the current milestone, finish scattered objectives, and
/// start fresh work last.
pub open spec fn tier(s: &PlanningStore, t: Task) -> int {
    if t.status == PlanningStatus::InProgress {
        0
    } else if obj_status(s, t) == PlanningStatus::InProgress && ms_status(s, t) == PlanningStatus::InProgress {
        1
    } else if ms_status(s, t) == PlanningStatus::InProgress {
        2
    } else if obj_status(s, t) == PlanningStatus::InProgress {
        3
    } else {
        4
    }
}

/// Position of the task's milestone, last when it has none.
pub open spec fn ms_rank(s: &PlanningStore, t: Task) -> int {
    match ms_position(s.milestones@, ms_id_of(s, t)) {
        Some(j) => j,
        None => usize::MAX as int,
    }
}

/// Position of the task's objective, last when it has none.
pub open spec fn obj_rank(s: &PlanningStore, t: Task) -> int {
    match obj_position(s.objectives@, t.objective_id@) {
        Some(j) => j,
        None => usize::MAX as int,
    }
}

/// Sort key of task `i`: tier, then more downstream impact first (the count
/// subtracted from the largest one sorts the same way), then milestone,
/// objective and task position.
pub open spec fn key(s: &PlanningStore, i: int) -> (int, int, int, int, int) {
    let t = s.tasks@[i];
    (tier(s, t), -(downstream_count(s.tasks@, t.id@) as int), ms_rank(s, t), obj_rank(s, t), i)
}

/// Lexicographic order on keys.
pub open spec fn key_lt(a: (int, int, int, int, int), b: (int, int, int, int, int)) -> bool {
    a.0 < b.0 || (a.0 == b.0 && (a.1 < b.1 || (a.1 == b.1 && (a.2 < b.2 || (a.2 == b.2 && (a.3 < b.3 || (a.3
        == b.3 && a.4 < b.4)))))))
}

/// Some task is a candidate.
pub open spec fn has_candidate(s: &PlanningStore) -> bool {
    exists|j: int| 0 <= j < s.tasks@.len() && is_candidate(s, #[trigger] s.tasks@[j])
}

proof fn lemma_ms_position(ms: Seq<Milestone>, id: Seq<char>, k: int)
    requires
        0 <= k <= ms.len(),
    ensures
        ms_position(ms.take(k), id) is Some ==> ms_position(ms, id) == ms_position(ms.take(k), id),
        ms_position(ms, id) matches Some(j) ==> 0 <= j < ms.len() && ms[j].id@ == id,
    decreases ms.len(),
{
    if ms.len() > 0 {
        if k == ms.len() {
            assert(ms.take(k) =~= ms);
            lemma_ms_position(ms.drop_last(), id, k - 1);
        } else {
            assert(ms.drop_last().take(k) =~= ms.take(k));
            lemma_ms_position(ms.drop_last(), id, k);
        }
    }
}

proof fn lemma_obj_position(os: Seq<Objective>, id: Seq<char>, k: int)
    requires
        0 <= k <= os.len(),
    ensures
        obj_position(os.take(k), id) is Some ==> obj_position(os, id) == obj_position(os.take(k), id),
        obj_position(os, id) matches Some(j) ==> 0 <= j < os.len() && os[j].id@ == id,
    decreases os.len(),
{
    if os.len() > 0 {
        if k == os.len() {
            assert(os.take(k) =~= os);
            lemma_obj_position(os.drop_last(), id, k - 1);
        } else {
            assert(os.drop_last().take(k) =~= os.take(k));
            lemma_obj_position(os.drop_last(), id, k);
        }
    }
}

fn find_ms(ms: &Vec<Milestone>, id: &String) -> (r: Option<usize>)
    ensures
        match r {
            Some(j) => ms_position(ms@, id@) == Some(j as int),
            None => ms_position(ms@, id@) is None,
        },
{
    let mut i: usize = 0;
    assert(ms@.take(0) =~= Seq::<Milestone>::empty());
    while i < ms.len()
        invariant
            i <= ms@.len(),
            ms_position(ms@.take(i as int), id@) is None,
        decreases ms.len() - i,
    {
        assert(ms@.take(i + 1).drop_last() =~= ms@.take(i as int));
        assert(ms@.take(i + 1).last() == ms@[i as int]);
        if ms[i].id == *id {
            proof { lemma_ms_position(ms@, id@, i + 1); }
            return Some(i);
        }
        i += 1;
    }
    assert(ms@.take(ms@.len() as int) =~= ms@);
    None
}

fn find_obj(os: &Vec<Objective>, id: &String) -> (r: Option<usize>)
    ensures
        match r {
            Some(j) => obj_position(os@, id@) == Some(j as int),
            None => obj_position(os@, id@) is None,
        },
{
    let mut i: usize = 0;
    assert(os@.take(0) =~= Seq::<Objective>::empty());
    while i < os.len()
        invariant
            i <= os@.len(),
            obj_position(os@.take(i as int), id@) is None,
        decreases os.len() - i,
    {
        assert(os@.take(i + 1).drop_last() =~= os@.take(i as int));
        assert(os@.take(i + 1).last() == os@[i as int]);
        if os[i].id == *id {
            proof { lemma_obj_position(os@, id@, i + 1); }
            return Some(i);
        }
        i += 1;
    }
    assert(os@.take(os@.len() as int) =~= os@);
    None
}

fn milestone_eligible(ms: &Vec<Milestone>, m: &Milestone) -> (r: bool)
    ensures
        r == ms_eligible(ms@, *m),
{
    if m.status == PlanningStatus::Blocked {
        return false;
    }
    let mut k: usize = 0;
    while k < m.upstream.len()
        invariant
            k <= m.upstream@.len(),
            forall|q: int| 0 <= q < k ==> ms_met(ms@, #[trigger] m.upstream@[q]@),
        decreases m.upstream.len() - k,
    {
        proof { lemma_ms_position(ms@, m.upstream@[k as int]@, 0); }
        match find_ms(ms, &m.upstream[k]) {
            Some(j) => {
                if ms[j].status != PlanningStatus::Completed {
                    return false;
                }
            },
            None => {},
        }
        k += 1;
    }
    true
}

fn milestone_id_eligible(ms: &Vec<Milestone>, id: &String) -> (r: bool)
    ensures
        r == ms_id_eligible(ms@, id@),
{
    let mut i: usize = 0;
    while i < ms.len()
        invariant
            i <= ms@.len(),
            forall|q: int| 0 <= q < i ==> !((#[trigger] ms@[q]).id@ == id@ && ms_eligible(ms@, ms@[q])),
        decreases ms.len() - i,
    {
        if ms[i].id == *id && milestone_eligible(ms, &ms[i]) {
            return true;
        }
        i += 1;
    }
    false
}

fn objective_eligible(s: &PlanningStore, o: &Objective) -> (r: bool)
    ensures
        r == obj_eligible(s.milestones@, s.objectives@, *o),
{
    if o.status == PlanningStatus::Blocked {
        return false;
    }
    if !milestone_id_eligible(&s.milestones, &o.milestone_id) {
        return false;
    }
    let mut k: usize = 0;
    while k < o.upstream.len()
        invariant
            k <= o.upstream@.len(),
            forall|q: int| 0 <= q < k ==> obj_met(s.objectives@, #[trigger] o.upstream@[q]@),
        decreases o.upstream.len() - k,
    {
        proof { lemma_obj_position(s.objectives@, o.upstream@[k as int]@, 0); }
        match find_obj(&s.objectives, &o.upstream[k]) {
            Some(j) => {
                if s.objectives[j].status != PlanningStatus::Completed {
                    return false;
                }
            },
            None => {},
        }
        k += 1;
    }
    true
}

fn objective_id_eligible(s: &PlanningStore, id: &String) -> (r: bool)
    ensures
        r == obj_id_eligible(s.milestones@, s.objectives@, id@),
{
    let os = &s.objectives;
    let mut i: usize = 0;
    while i < os.len()
        invariant
            os == &s.objectives,
            i <= os@.len(),
            forall|q: int|
                0 <= q < i ==> !((#[trigger] os@[q]).id@ == id@ && obj_eligible(s.milestones@, os@, os@[q])),
        decreases os.len() - i,
    {
        if os[i].id == *id && objective_eligible(s, &os[i]) {
            return true;
        }
        i += 1;
    }
    false
}

proof fn lemma_task_position_bounds(ts: Seq<Task>, id: Seq<char>)
    ensures
        task_position(ts, id) matches Some(j) ==> 0 <= j < ts.len(),
    decreases ts.len(),
{
    if ts.len() > 0 {
        lemma_task_position_bounds(ts.drop_last(), id);
    }
}

fn candidate(s: &PlanningStore, t: &Task) -> (r: bool)
    ensures
        r == is_candidate(s, *t),
{
    if t.status == PlanningStatus::Completed || t.status == PlanningStatus::Blocked {
        return false;
    }
    if !objective_id_eligible(s, &t.objective_id) {
        return false;
    }
    if t.status == PlanningStatus::NotStarted {
        let mut k: usize = 0;
        while k < t.upstream.len()
            invariant
                t.status == PlanningStatus::NotStarted,
                k <= t.upstream@.len(),
                forall|q: int| 0 <= q < k ==> task_met(s.tasks@, #[trigger] t.upstream@[q]@),
            decreases t.upstream.len() - k,
        {
            proof { lemma_task_position_bounds(s.tasks@, t.upstream@[k as int]@); }
            match find_task(s.tasks.as_slice(), &t.upstream[k]) {
                Some(j) => {
                    if s.tasks[j].status != PlanningStatus::Completed {
                        assert(!task_met(s.tasks@, t.upstream@[k as int]@));
                        return false;
                    }
                },
                None => {},
            }
            k += 1;
        }
    }
    true
}

/// The sort key of a task, with the downstream count as is (larger first).
struct Key {
    tier: u8,
    impact: usize,
    ms: usize,
    obj: usize,
    idx: usize,
}

spec fn key_view(k: Key) -> (int, int, int, int, int) {
    (k.tier as int, -(k.impact as int), k.ms as int, k.obj as int, k.idx as int)
}

fn key_of(s: &PlanningStore, i: usize) -> (r: Key)
    requires
        i < s.tasks@.len(),
    ensures
        key_view(r) == key(s, i as int),
{
    let t = &s.tasks[i];
    proof {
        lemma_obj_position(s.objectives@, t.objective_id@, 0);
    }
    let oi = find_obj(&s.objectives, &t.objective_id);
    let (ostat, ms_id) = match oi {
        Some(j) => (s.objectives[j].status, s.objectives[j].milestone_id.clone()),
        None => (PlanningStatus::NotStarted, String::new()),
    };
    assert(ms_id@ == ms_id_of(s, *t));
    proof {
        lemma_ms_position(s.milestones@, ms_id@, 0);
    }
    let mi = find_ms(&s.milestones, &ms_id);
    let mstat = match mi {
        Some(j) => s.milestones[j].status,
        None => PlanningStatus::NotStarted,
    };
    let tier: u8 = if t.status == PlanningStatus::InProgress {
        0
    } else if ostat == PlanningStatus::InProgress && mstat == PlanningStatus::InProgress {
        1
    } else if mstat == PlanningStatus::InProgress {
        2
    } else if ostat == PlanningStatus::InProgress {
        3
    } else {
        4
    };
    let impact = transitive_downstream_count(t.id.as_str(), s.tasks.as_slice());
    let ms = match mi {
        Some(j) => j,
        None => usize::MAX,
    };
    let obj = match oi {
        Some(j) => j,
        None => usize::MAX,
    };
    Key { tier, impact, ms, obj, idx: i }
}

fn key_less(a: &Key, b: &Key) -> (r: bool)
    ensures
        r == key_lt(key_view(*a), key_view(*b)),
{
    if a.tier != b.tier {
        return a.tier < b.tier;
    }
    if a.impact != b.impact {
        return a.impact > b.impact;
    }
    if a.ms != b.ms {
        return a.ms < b.ms;
    }
    if a.obj != b.obj {
        return a.obj < b.obj;
    }
    a.idx < b.idx
}

proof fn lemma_key_lt_trans(a: (int, int, int, int, int), b: (int, int, int, int, int), c: (int, int, int, int, int))
    requires
        key_lt(a, b),
        key_lt(b, c),
    ensures
        key_lt(a, c),
{
}

/// Pick the task to work on next: among the candidates, the one with the
/// lowest tier, then the most tasks transitively downstream, then the
/// earliest milestone, objective and task.
pub fn pick_next_task(s: &PlanningStore) -> (r: Result<usize, PickError>)
    ensures
        s.tasks@.len() == 0 ==> r == Err::<usize, PickError>(PickError::NoTasks),
        s.tasks@.len() > 0 && !has_candidate(s) ==> r == Err::<usize, PickError>(
            if forall|j: int| 0 <= j < s.tasks@.len() ==> (#[trigger] s.tasks@[j]).status == PlanningStatus::Completed {
                PickError::AllDone
            } else {
                PickError::NoneEligible
            },
        ),
        has_candidate(s) ==> (r matches Ok(i) && i < s.tasks@.len() && is_candidate(s, s.tasks@[i as int])
            && forall|j: int|
            0 <= j < s.tasks@.len() && j != i && is_candidate(s, #[trigger] s.tasks@[j]) ==> key_lt(
                key(s, i as int),
                key(s, j),
            )),
{
    if s.tasks.len() == 0 {
        return Err(PickError::NoTasks);
    }
    let mut best: Option<Key> = None;
    let mut i: usize = 0;
    while i < s.tasks.len()
        invariant
            i <= s.tasks@.len(),
            match best {
                None => forall|j: int| 0 <= j < i ==> !is_candidate(s, #[trigger] s.tasks@[j]),
                Some(b) => {
                    &&& b.idx < i
                    &&& is_candidate(s, s.tasks@[b.idx as int])
                    &&& key_view(b) == key(s, b.idx as int)
                    &&& forall|j: int|
                        0 <= j < i && j != b.idx && is_candidate(s, #[trigger] s.tasks@[j]) ==> key_lt(
                            key(s, b.idx as int),
                            key(s, j),
                        )
                },
            },
        decreases s.tasks.len() - i,
    {
        if candidate(s, &s.tasks[i]) {
            let k = key_of(s, i);
            match best {
                None => {
                    best = Some(k);
                },
                Some(b) => {
                    if key_less(&k, &b) {
                        proof {
                            assert forall|j: int|
                                0 <= j < i + 1 && j != i && is_candidate(s, #[trigger] s.tasks@[j]) implies key_lt(
                                key(s, i as int),
                                key(s, j),
                            ) by {
                                if j != b.idx {
                                    lemma_key_lt_trans(key(s, i as int), key(s, b.idx as int), key(s, j));
                                }
                            }
                        }
                        best = Some(k);
                    } else {
                        assert(key_lt(key(s, b.idx as int), key(s, i as int)));
                        best = Some(b);
                    }
                },
            }
        }
        i += 1;
    }
    match best {
        Some(b) => Ok(b.idx),
        None => {
            let mut all_done = true;
            let mut j: usize = 0;
            while j < s.tasks.len()
                invariant
                    j <= s.tasks@.len(),
                    all_done == forall|q: int| 0 <= q < j ==> (#[trigger] s.tasks@[q]).status
                        == PlanningStatus::Completed,
                decreases s.tasks.len() - j,
            {
                if s.tasks[j].status != PlanningStatus::Completed {
                    all_done = false;
                }
                j += 1;
            }
            if all_done {
                Err(PickError::AllDone)
            } else {
                Err(PickError::NoneEligible)
            }
        },
    }
}

/// Where the objective of task `i` stands (the first objective with its
/// objective id), and where that objective's milestone stands, as the pick
/// is reported with its parents.
pub open spec fn parents_of(s: &PlanningStore, i: int) -> (Option<int>, Option<int>) {
    let o = obj_position(s.objectives@, s.tasks@[i].objective_id@);
    (o, match o {
        Some(j) => ms_position(s.milestones@, s.objectives@[j].milestone_id@),
        None => None,
    })
}

/// An optional position as an integer.
pub open spec fn opt_pos(o: Option<usize>) -> Option<int> {
    match o {
        Some(k) => Some(k as int),
        None => None,
    }
}

/// The objective and milestone of task `i`, by position.
pub fn task_parents(s: &PlanningStore, i: usize) -> (r: (Option<usize>, Option<usize>))
    requires
        i < s.tasks@.len(),
    ensures
        (opt_pos(r.0), opt_pos(r.1)) == parents_of(s, i as int),
        r.0 matches Some(j) ==> j < s.objectives@.len(),
        r.1 matches Some(j) ==> j < s.milestones@.len(),
{
    let o = find_obj(&s.objectives, &s.tasks[i].objective_id);
    proof { lemma_obj_position(s.objectives@, s.tasks@[i as int].objective_id@, 0); }
    match o {
        Some(j) => {
            let m = find_ms(&s.milestones, &s.objectives[j].milestone_id);
            proof { lemma_ms_position(s.milestones@, s.objectives@[j as int].milestone_id@, 0); }
            (Some(j), m)
        },
        None => (None, None),
    }
}

/// The number of completed tasks among `ts`.
pub open spec fn completed_count(ts: Seq<Task>) -> nat
    decreases ts.len(),
{
    if ts.len() == 0 {
        0
    } else {
        completed_count(ts.drop_last()) + if ts.last().status == PlanningStatus::Completed { 1nat } else { 0nat }
    }
}

proof fn lemma_completed_count_le(ts: Seq<Task>)
    ensures
        completed_count(ts) <= ts.len(),
    decreases ts.len(),
{
    if ts.len() > 0 {
        lemma_completed_count_le(ts.drop_last());
    }
}

/// The completed tasks and all tasks of the store, as the chat shows a
/// project's progress.
pub fn task_counts(s: &PlanningStore) -> (r: (usize, usize))
    ensures
        r.0 == completed_count(s.tasks@),
        r.1 == s.tasks@.len(),
{
    let ghost ts = s.tasks@;
    let mut done: usize = 0;
    let mut i: usize = 0;
    assert(ts.take(0) =~= Seq::<Task>::empty());
    while i < s.tasks.len()
        invariant
            ts == s.tasks@,
            i <= ts.len(),
            done == completed_count(ts.take(i as int)),
        decreases s.tasks.len() - i,
    {
        assert(ts.take(i + 1).drop_last() =~= ts.take(i as int));
        assert(ts.take(i + 1).last() == ts[i as int]);
        proof { lemma_completed_count_le(ts.take(i as int)); }
        if s.tasks[i].status == PlanningStatus::Completed {
            done += 1;
        }
        i += 1;
    }
    assert(ts.take(i as int) =~= ts);
    (done, s.tasks.len())
}

} // verus!
