//! Autopilot advancement: locate the active chunk or task and mark work done.

use vstd::prelude::*;
use super::types::{
    state_open, Chunk, ChunkV, PhaseV, Schedule, ScheduleState, ScheduleV, TaskCompletion,
    TaskV,
};

verus! {

/// First index of an open chunk.
pub open spec fn first_open_in(cs: Seq<ChunkV>) -> Option<int>
    decreases cs.len(),
{
    if cs.len() == 0 {
        None
    } else {
        match first_open_in(cs.drop_last()) {
            Some(i) => Some(i),
            None => if state_open(cs.last().state) {
                Some(cs.len() - 1)
            } else {
                None
            },
        }
    }
}

/// Position of the first open chunk in phase-then-chunk order.
pub open spec fn next_open_position(ph: Seq<PhaseV>) -> Option<(int, int)>
    decreases ph.len(),
{
    if ph.len() == 0 {
        None
    } else {
        match next_open_position(ph.drop_last()) {
            Some(p) => Some(p),
            None => match first_open_in(ph.last().chunks) {
                Some(c) => Some((ph.len() - 1, c)),
                None => None,
            },
        }
    }
}

/// Last index of a `Done` chunk.
pub open spec fn last_done_in(cs: Seq<ChunkV>) -> Option<int>
    decreases cs.len(),
{
    if cs.len() == 0 {
        None
    } else if cs.last().state is Done {
        Some(cs.len() - 1)
    } else {
        last_done_in(cs.drop_last())
    }
}

/// Position of the last `Done` chunk in phase-then-chunk order.
pub open spec fn last_done_position(ph: Seq<PhaseV>) -> Option<(int, int)>
    decreases ph.len(),
{
    if ph.len() == 0 {
        None
    } else {
        match last_done_in(ph.last().chunks) {
            Some(c) => Some((ph.len() - 1, c)),
            None => last_done_position(ph.drop_last()),
        }
    }
}

/// First index of a task that is not `Done`.
pub open spec fn first_not_done(ts: Seq<TaskV>) -> Option<int>
    decreases ts.len(),
{
    if ts.len() == 0 {
        None
    } else {
        match first_not_done(ts.drop_last()) {
            Some(i) => Some(i),
            None => if !(ts.last().state is Done) {
                Some(ts.len() - 1)
            } else {
                None
            },
        }
    }
}

/// The task `mark_task_done` completes: the first not-done task of the
/// chunk `next_pending_chunk` reports; none when that chunk has no such
/// task or no chunk is open.
pub open spec fn current_task_position(ph: Seq<PhaseV>) -> Option<(int, int, int)> {
    match next_open_position(ph) {
        Some((pi, ci)) => match first_not_done(ph[pi].chunks[ci].tasks) {
            Some(ti) => Some((pi, ci, ti)),
            None => None,
        },
        None => None,
    }
}

/// Every task of a chunk is `Done`.
pub open spec fn all_tasks_done(ts: Seq<TaskV>) -> bool {
    forall|i: int| 0 <= i < ts.len() ==> (#[trigger] ts[i]).state is Done
}

/// Every chunk of a phase is `Done`.
pub open spec fn all_chunks_done(cs: Seq<ChunkV>) -> bool {
    forall|i: int| 0 <= i < cs.len() ==> (#[trigger] cs[i]).state is Done
}

/// The outcome of completing the task at `(pi, ci, ti)`: the new schedule,
/// the completed task, and the chunk and phase promotion flags.
pub open spec fn complete_task_at(s: ScheduleV, pi: int, ci: int, ti: int) -> (ScheduleV, TaskV, bool, bool) {
    let phase = s.phases[pi];
    let chunk = phase.chunks[ci];
    let task = TaskV { state: ScheduleState::Done, ..chunk.tasks[ti] };
    let tasks = chunk.tasks.update(ti, task);
    let chunk_promoted = all_tasks_done(tasks);
    let chunk2 = ChunkV {
        tasks,
        state: if chunk_promoted { ScheduleState::Done } else { chunk.state },
        ..chunk
    };
    let chunks = phase.chunks.update(ci, chunk2);
    let phase_promoted = chunk_promoted && all_chunks_done(chunks);
    let phase2 = PhaseV {
        chunks,
        state: if phase_promoted { ScheduleState::Done } else { phase.state },
        ..phase
    };
    (ScheduleV { phases: s.phases.update(pi, phase2), ..s }, task, chunk_promoted, phase_promoted)
}

pub proof fn lemma_first_open_in_take(cs: Seq<ChunkV>, k: int)
    requires
        0 <= k < cs.len(),
        first_open_in(cs.take(k)) is None,
    ensures
        first_open_in(cs.take(k + 1)) == if state_open(cs[k].state) {
            Some(k)
        } else {
            None::<int>
        },
{
    assert(cs.take(k + 1).drop_last() =~= cs.take(k));
}

pub proof fn lemma_first_open_in_prefix(cs: Seq<ChunkV>, k: int)
    requires
        0 <= k <= cs.len(),
        first_open_in(cs.take(k)) is Some,
    ensures
        first_open_in(cs) == first_open_in(cs.take(k)),
    decreases cs.len(),
{
    if k == cs.len() {
        assert(cs.take(k) =~= cs);
    } else {
        assert(cs.drop_last().take(k) =~= cs.take(k));
        lemma_first_open_in_prefix(cs.drop_last(), k);
    }
}

pub proof fn lemma_next_open_prefix(ph: Seq<PhaseV>, k: int)
    requires
        0 <= k <= ph.len(),
        next_open_position(ph.take(k)) is Some,
    ensures
        next_open_position(ph) == next_open_position(ph.take(k)),
    decreases ph.len(),
{
    if k == ph.len() {
        assert(ph.take(k) =~= ph);
    } else {
        assert(ph.drop_last().take(k) =~= ph.take(k));
        lemma_next_open_prefix(ph.drop_last(), k);
    }
}

/// Indices of the first open chunk, in phase-then-chunk order.
fn next_open_indices(schedule: &Schedule) -> (r: Option<(usize, usize)>)
    ensures
        match next_open_position(schedule@.phases) {
            Some((pi, ci)) => r matches Some((a, b)) && a == pi && b == ci && 0 <= pi < schedule.phases@.len()
                && 0 <= ci < schedule.phases@[pi].chunks@.len(),
            None => r is None,
        },
{
    let ghost ph = schedule@.phases;
    let mut pi: usize = 0;
    assert(ph.take(0) =~= Seq::<PhaseV>::empty());
    while pi < schedule.phases.len()
        invariant
            ph == schedule@.phases,
            pi <= ph.len(),
            next_open_position(ph.take(pi as int)) is None,
        decreases ph.len() - pi,
    {
        let chunks = &schedule.phases[pi].chunks;
        let ghost cs = ph[pi as int].chunks;
        let mut ci: usize = 0;
        assert(cs.take(0) =~= Seq::<ChunkV>::empty());
        assert(ph.take(pi + 1).drop_last() =~= ph.take(pi as int));
        assert(ph.take(pi + 1).last() == ph[pi as int]);
        while ci < chunks.len()
            invariant
                ph == schedule@.phases,
                pi < ph.len(),
                chunks == &schedule.phases@[pi as int].chunks,
                cs == chunks.deep_view(),
                cs == ph[pi as int].chunks,
                ci <= cs.len(),
                next_open_position(ph.take(pi as int)) is None,
                ph.take(pi + 1).drop_last() == ph.take(pi as int),
                ph.take(pi + 1).last() == ph[pi as int],
                first_open_in(cs.take(ci as int)) is None,
            decreases cs.len() - ci,
        {
            proof { lemma_first_open_in_take(cs, ci as int); }
            if chunks[ci].state.is_open() {
                proof {
                    lemma_first_open_in_prefix(cs, ci as int + 1);
                    assert(next_open_position(ph.take(pi + 1)) == Some((pi as int, ci as int)));
                    lemma_next_open_prefix(ph, pi as int + 1);
                }
                return Some((pi, ci));
            }
            ci += 1;
        }
        assert(cs.take(cs.len() as int) =~= cs);
        assert(next_open_position(ph.take(pi + 1)) is None);
        pi += 1;
    }
    assert(ph.take(ph.len() as int) =~= ph);
    None
}


/// Return the first chunk that is still open (`Pending` or `InProgress`),
/// in phase-then-chunk order, ignoring `blocked_by`.
pub fn next_pending_chunk(schedule: &Schedule) -> (r: Option<&Chunk>)
    ensures
        match next_open_position(schedule@.phases) {
            Some((pi, ci)) => r matches Some(c) && 0 <= pi < schedule.phases@.len()
                && 0 <= ci < schedule.phases@[pi].chunks@.len()
                && *c == schedule.phases@[pi].chunks@[ci],
            None => r is None,
        },
{
    match next_open_indices(schedule) {
        Some((pi, ci)) => Some(&schedule.phases[pi].chunks[ci]),
        None => None,
    }
}

pub proof fn lemma_last_done_in_take(cs: Seq<ChunkV>, k: int)
    requires
        0 <= k < cs.len(),
    ensures
        last_done_in(cs.take(k + 1)) == if cs[k].state is Done {
            Some(k)
        } else {
            last_done_in(cs.take(k))
        },
{
    assert(cs.take(k + 1).drop_last() =~= cs.take(k));
}

/// Return the last chunk with state `Done` across all phases, in
/// phase-then-chunk order.
pub fn prior_chunk(schedule: &Schedule) -> (r: Option<&Chunk>)
    ensures
        match last_done_position(schedule@.phases) {
            Some((pi, ci)) => r matches Some(c) && 0 <= pi < schedule.phases@.len()
                && 0 <= ci < schedule.phases@[pi].chunks@.len()
                && *c == schedule.phases@[pi].chunks@[ci],
            None => r is None,
        },
{
    let ghost ph = schedule@.phases;
    let mut found: Option<(usize, usize)> = None;
    let mut pi: usize = 0;
    assert(ph.take(0) =~= Seq::<PhaseV>::empty());
    while pi < schedule.phases.len()
        invariant
            ph == schedule@.phases,
            pi <= ph.len(),
            match last_done_position(ph.take(pi as int)) {
                Some((a, b)) => found matches Some((x, y)) && x == a && y == b && 0 <= a < pi
                    && 0 <= b < ph[a].chunks.len(),
                None => found is None,
            },
        decreases ph.len() - pi,
    {
        let chunks = &schedule.phases[pi].chunks;
        let ghost cs = ph[pi as int].chunks;
        let ghost before = found;
        let mut ci: usize = 0;
        assert(cs.take(0) =~= Seq::<ChunkV>::empty());
        assert(ph.take(pi + 1).drop_last() =~= ph.take(pi as int));
        while ci < chunks.len()
            invariant
                ph == schedule@.phases,
                pi < ph.len(),
                chunks == &schedule.phases@[pi as int].chunks,
                cs == chunks.deep_view(),
                cs == ph[pi as int].chunks,
                ci <= cs.len(),
                match last_done_position(ph.take(pi as int)) {
                    Some((a, b)) => before matches Some((x, y)) && x == a && y == b && 0 <= a < pi
                        && 0 <= b < ph[a].chunks.len(),
                    None => before is None,
                },
                match last_done_in(cs.take(ci as int)) {
                    Some(c) => found matches Some((x, y)) && x == pi && y == c && 0 <= c < ci,
                    None => found == before,
                },
            decreases cs.len() - ci,
        {
            proof { lemma_last_done_in_take(cs, ci as int); }
            if chunks[ci].state.is_done() {
                found = Some((pi, ci));
            }
            ci += 1;
        }
        assert(cs.take(cs.len() as int) =~= cs);
        assert(ph.take(pi + 1).last() == ph[pi as int]);
        pi += 1;
    }
    assert(ph.take(ph.len() as int) =~= ph);
    proof {
        if let Some((a, b)) = last_done_position(ph) {
            assert(ph[a].chunks.len() == schedule.phases@[a].chunks@.len());
        }
    }
    match found {
        Some((a, b)) => Some(&schedule.phases[a].chunks[b]),
        None => None,
    }
}

pub proof fn lemma_first_not_done_take(ts: Seq<TaskV>, k: int)
    requires
        0 <= k < ts.len(),
        first_not_done(ts.take(k)) is None,
    ensures
        first_not_done(ts.take(k + 1)) == if !(ts[k].state is Done) {
            Some(k)
        } else {
            None::<int>
        },
{
    assert(ts.take(k + 1).drop_last() =~= ts.take(k));
}

pub proof fn lemma_first_not_done_prefix(ts: Seq<TaskV>, k: int)
    requires
        0 <= k <= ts.len(),
        first_not_done(ts.take(k)) is Some,
    ensures
        first_not_done(ts) == first_not_done(ts.take(k)),
    decreases ts.len(),
{
    if k == ts.len() {
        assert(ts.take(k) =~= ts);
    } else {
        assert(ts.drop_last().take(k) =~= ts.take(k));
        lemma_first_not_done_prefix(ts.drop_last(), k);
    }
}

/// Indices of the task `mark_task_done` completes: the first not-done task
/// of the chunk `next_pending_chunk` reports, so that completing a task
/// advances exactly the chunk reported as next.
fn find_current_task_indices(schedule: &Schedule) -> (r: Option<(usize, usize, usize)>)
    ensures
        match current_task_position(schedule@.phases) {
            Some((pi, ci, ti)) => r matches Some((a, b, c)) && a == pi && b == ci && c == ti
                && 0 <= pi < schedule.phases@.len()
                && 0 <= ci < schedule.phases@[pi].chunks@.len()
                && 0 <= ti < schedule.phases@[pi].chunks@[ci].tasks@.len(),
            None => r is None,
        },
{
    let (pi, ci) = match next_open_indices(schedule) {
        Some(x) => x,
        None => return None,
    };
    let tasks = &schedule.phases[pi].chunks[ci].tasks;
    let ghost ts = tasks.deep_view();
    assert(ts == schedule@.phases[pi as int].chunks[ci as int].tasks);
    let mut ti: usize = 0;
    assert(ts.take(0) =~= Seq::<TaskV>::empty());
    while ti < tasks.len()
        invariant
            ts == tasks.deep_view(),
            ts == schedule@.phases[pi as int].chunks[ci as int].tasks,
            next_open_position(schedule@.phases) == Some((pi as int, ci as int)),
            pi < schedule.phases@.len(),
            ci < schedule.phases@[pi as int].chunks@.len(),
            tasks == &schedule.phases@[pi as int].chunks@[ci as int].tasks,
            ti <= ts.len(),
            first_not_done(ts.take(ti as int)) is None,
        decreases ts.len() - ti,
    {
        proof { lemma_first_not_done_take(ts, ti as int); }
        assert(ts[ti as int].state == tasks@[ti as int].state);
        if !tasks[ti].state.is_done() {
            proof { lemma_first_not_done_prefix(ts, ti as int + 1); }
            assert(first_not_done(ts) == Some(ti as int));
            assert(current_task_position(schedule@.phases) == Some((pi as int, ci as int, ti as int)));
            return Some((pi, ci, ti));
        }
        ti += 1;
    }
    assert(ts.take(ts.len() as int) =~= ts);
    assert(first_not_done(ts) is None);
    None
}

fn tasks_all_done(ts: &Vec<super::types::Task>) -> (r: bool)
    ensures
        r == all_tasks_done(ts.deep_view()),
{
    let mut i: usize = 0;
    while i < ts.len()
        invariant
            i <= ts@.len(),
            forall|k: int| 0 <= k < i ==> (#[trigger] ts.deep_view()[k]).state is Done,
        decreases ts.len() - i,
    {
        if !ts[i].state.is_done() {
            assert(!(ts.deep_view()[i as int].state is Done));
            return false;
        }
        i += 1;
    }
    true
}

fn chunks_all_done(cs: &Vec<Chunk>) -> (r: bool)
    ensures
        r == all_chunks_done(cs.deep_view()),
{
    let mut i: usize = 0;
    while i < cs.len()
        invariant
            i <= cs@.len(),
            forall|k: int| 0 <= k < i ==> (#[trigger] cs.deep_view()[k]).state is Done,
        decreases cs.len() - i,
    {
        if !cs[i].state.is_done() {
            assert(!(cs.deep_view()[i as int].state is Done));
            return false;
        }
        i += 1;
    }
    true
}

/// Mark the current task `Done`: the first not-done task of the chunk
/// `next_pending_chunk` reports. The parent chunk is promoted when all its
/// tasks are done and then the parent phase when all its chunks are done.
/// Returns `None`, leaving the schedule unchanged, when no chunk is open or
/// the reported chunk has no task left to complete.
pub fn mark_task_done(schedule: &mut Schedule) -> (r: Option<TaskCompletion>)
    ensures
        match current_task_position(old(schedule)@.phases) {
            None => r is None && final(schedule)@ == old(schedule)@,
            Some((pi, ci, ti)) => r matches Some(tc) && {
                let (s2, t, cp, pp) = complete_task_at(old(schedule)@, pi, ci, ti);
                &&& final(schedule)@ == s2
                &&& tc.task@ == t
                &&& tc.chunk_promoted == cp
                &&& tc.phase_promoted == pp
            },
        },
{
    let found = find_current_task_indices(schedule);
    let (pi, ci, ti) = match found {
        Some(x) => x,
        None => return None,
    };
    let ghost s0 = schedule@;
    let ghost (s2, t2, cp2, pp2) = complete_task_at(s0, pi as int, ci as int, ti as int);
    schedule.phases[pi].chunks[ci].tasks[ti].state = ScheduleState::Done;
    let ghost p0 = s0.phases[pi as int];
    let ghost c0 = p0.chunks[ci as int];
    let ghost tasks1 = c0.tasks.update(ti as int, t2);
    assert(schedule@.phases[pi as int].chunks[ci as int].tasks =~= tasks1);
    assert(schedule@.phases[pi as int].chunks =~= p0.chunks.update(ci as int, ChunkV { tasks: tasks1, ..c0 }));
    assert(schedule@.phases =~= s0.phases.update(pi as int, PhaseV {
        chunks: p0.chunks.update(ci as int, ChunkV { tasks: tasks1, ..c0 }),
        ..p0
    }));
    let task = schedule.phases[pi].chunks[ci].tasks[ti].duplicate();
    let chunk_promoted = tasks_all_done(&schedule.phases[pi].chunks[ci].tasks);
    if chunk_promoted {
        schedule.phases[pi].chunks[ci].state = ScheduleState::Done;
    }
    let ghost c2 = ChunkV {
        tasks: tasks1,
        state: if cp2 { ScheduleState::Done } else { c0.state },
        ..c0
    };
    assert(schedule@.phases[pi as int].chunks =~= p0.chunks.update(ci as int, c2));
    assert(schedule@.phases =~= s0.phases.update(pi as int, PhaseV {
        chunks: p0.chunks.update(ci as int, c2),
        ..p0
    }));
    let phase_promoted = if chunk_promoted && chunks_all_done(&schedule.phases[pi].chunks) {
        schedule.phases[pi].state = ScheduleState::Done;
        true
    } else {
        false
    };
    assert(schedule@.phases =~= s2.phases);
    Some(TaskCompletion { task, chunk_promoted, phase_promoted })
}

} // verus!
