//! Schedule invariant checks: blocked-by cycles, slug uniqueness and state regression.

use vstd::prelude::*;
use crate::error::RexError;
use super::addressing::phase_ids;
use super::cycles::{cycle_member, has_cycle, in_stuck_set, on_cycle};
use super::types::{clone_strings, Chunk, ChunkV, Phase, PhaseV, Schedule, Task, TaskV};
use super::addressing::task_ids;

verus! {

/// `blocked_by` lists of the phases.
pub open spec fn phase_deps(ph: Seq<PhaseV>) -> Seq<Seq<Seq<char>>> {
    ph.map_values(|p: PhaseV| p.blocked_by)
}

/// Ids of a list of chunks.
pub open spec fn chunk_id_list(cs: Seq<ChunkV>) -> Seq<Seq<char>> {
    cs.map_values(|c: ChunkV| c.id)
}

/// `blocked_by` lists of a list of chunks.
pub open spec fn chunk_deps(cs: Seq<ChunkV>) -> Seq<Seq<Seq<char>>> {
    cs.map_values(|c: ChunkV| c.blocked_by)
}

/// The phase-level references contain a cycle.
pub open spec fn phase_cycle(ph: Seq<PhaseV>) -> bool {
    has_cycle(phase_ids(ph), phase_deps(ph))
}

/// The chunk-level references of phase `p` contain a cycle.
#[verifier::opaque]
pub open spec fn chunk_cycle(p: PhaseV) -> bool {
    has_cycle(chunk_id_list(p.chunks), chunk_deps(p.chunks))
}

fn phase_graph(phases: &Vec<Phase>) -> (r: (Vec<String>, Vec<Vec<String>>))
    ensures
        r.0.deep_view() == phase_ids(phases.deep_view()),
        r.1.deep_view() == phase_deps(phases.deep_view()),
        r.0@.len() == r.1@.len(),
{
    let mut ids: Vec<String> = Vec::new();
    let mut deps: Vec<Vec<String>> = Vec::new();
    let mut i: usize = 0;
    while i < phases.len()
        invariant
            i <= phases@.len(),
            ids@.len() == i,
            deps@.len() == i,
            forall|k: int| 0 <= k < i ==> (#[trigger] ids@[k])@ == phases@[k].id@,
            forall|k: int| 0 <= k < i ==> (#[trigger] deps@[k]).deep_view() == phases@[k].blocked_by.deep_view(),
        decreases phases.len() - i,
    {
        ids.push(phases[i].id.clone());
        deps.push(clone_strings(&phases[i].blocked_by));
        i += 1;
    }
    assert(ids.deep_view() =~= phase_ids(phases.deep_view()));
    assert(deps.deep_view() =~= phase_deps(phases.deep_view()));
    (ids, deps)
}

fn chunk_graph(chunks: &Vec<Chunk>) -> (r: (Vec<String>, Vec<Vec<String>>))
    ensures
        r.0.deep_view() == chunk_id_list(chunks.deep_view()),
        r.1.deep_view() == chunk_deps(chunks.deep_view()),
        r.0@.len() == r.1@.len(),
{
    let mut ids: Vec<String> = Vec::new();
    let mut deps: Vec<Vec<String>> = Vec::new();
    let mut i: usize = 0;
    while i < chunks.len()
        invariant
            i <= chunks@.len(),
            ids@.len() == i,
            deps@.len() == i,
            forall|k: int| 0 <= k < i ==> (#[trigger] ids@[k])@ == chunks@[k].id@,
            forall|k: int| 0 <= k < i ==> (#[trigger] deps@[k]).deep_view() == chunks@[k].blocked_by.deep_view(),
        decreases chunks.len() - i,
    {
        ids.push(chunks[i].id.clone());
        deps.push(clone_strings(&chunks[i].blocked_by));
        i += 1;
    }
    assert(ids.deep_view() =~= chunk_id_list(chunks.deep_view()));
    assert(deps.deep_view() =~= chunk_deps(chunks.deep_view()));
    (ids, deps)
}

/// Check for cycles in phase-level `blocked_by` references; on failure the
/// error names a phase on a cycle.
pub fn validate_no_phase_cycles(s: &Schedule) -> (r: Result<(), RexError>)
    ensures
        r is Ok <==> !phase_cycle(s@.phases),
        r matches Err(e) ==> e matches RexError::BlockedByCycle { addr } && on_cycle(
            phase_ids(s@.phases),
            phase_deps(s@.phases),
            addr@,
        ) && in_stuck_set(phase_ids(s@.phases), phase_deps(s@.phases), addr@),
{
    let (ids, deps) = phase_graph(&s.phases);
    match cycle_member(&ids, &deps) {
        Some(m) => Err(RexError::BlockedByCycle { addr: m }),
        None => Ok(()),
    }
}

/// No phase before index `i` has a chunk-level cycle.
pub open spec fn chunks_acyclic_before(ph: Seq<PhaseV>, i: int) -> bool {
    forall|j: int| 0 <= j < i ==> !#[trigger] chunk_cycle(ph[j])
}

/// `addr` names a chunk on a cycle of the chunk references of phase `p`.
#[verifier::opaque]
pub open spec fn chunk_cycle_member(p: PhaseV, addr: Seq<char>) -> bool {
    on_cycle(chunk_id_list(p.chunks), chunk_deps(p.chunks), addr) && in_stuck_set(
        chunk_id_list(p.chunks),
        chunk_deps(p.chunks),
        addr,
    )
}

fn phase_chunk_cycle(p: &Phase) -> (r: Option<String>)
    ensures
        r is None <==> !chunk_cycle(p@),
        r matches Some(m) ==> chunk_cycle_member(p@, m@),
{
    let (ids, deps) = chunk_graph(&p.chunks);
    proof {
        reveal(chunk_cycle);
        reveal(chunk_cycle_member);
    }
    cycle_member(&ids, &deps)
}

/// Check for cycles in chunk-level `blocked_by` references within each phase,
/// reporting a chunk on a cycle of the first phase (in order) that has one.
pub fn validate_no_chunk_cycles(s: &Schedule) -> (r: Result<(), RexError>)
    ensures
        r is Ok <==> chunks_acyclic_before(s@.phases, s@.phases.len() as int),
        r matches Err(e) ==> exists|i: int|
            0 <= i < s@.phases.len() && #[trigger] chunks_acyclic_before(s@.phases, i) && chunk_cycle(s@.phases[i])
                && (e matches RexError::BlockedByCycle { addr } && chunk_cycle_member(s@.phases[i], addr@)),
{
    let mut i: usize = 0;
    while i < s.phases.len()
        invariant
            i <= s@.phases.len(),
            chunks_acyclic_before(s@.phases, i as int),
        decreases s.phases.len() - i,
    {
        let found = phase_chunk_cycle(&s.phases[i]);
        match found {
            Some(m) => {
                let e = RexError::BlockedByCycle { addr: m };
                assert(chunks_acyclic_before(s@.phases, i as int));
                assert(chunk_cycle(s@.phases[i as int]));
                assert(!chunks_acyclic_before(s@.phases, s@.phases.len() as int));
                return Err(e);
            },
            None => {},
        }
        assert(chunks_acyclic_before(s@.phases, i + 1));
        i += 1;
    }
    Ok(())
}


// ── slug uniqueness ─────────────────────────────────────────────────────────

/// First task id repeating an earlier one.
pub open spec fn task_dup(ts: Seq<TaskV>) -> Option<Seq<char>>
    decreases ts.len(),
{
    if ts.len() == 0 {
        None
    } else {
        match task_dup(ts.drop_last()) {
            Some(x) => Some(x),
            None => if task_ids(ts.drop_last()).contains(ts.last().id) {
                Some(ts.last().id)
            } else {
                None
            },
        }
    }
}

/// First repeated slug among the chunks of a phase, checking each chunk's id
/// and then its tasks, in order.
pub open spec fn chunk_dup(cs: Seq<ChunkV>) -> Option<Seq<char>>
    decreases cs.len(),
{
    if cs.len() == 0 {
        None
    } else {
        match chunk_dup(cs.drop_last()) {
            Some(x) => Some(x),
            None => if chunk_id_list(cs.drop_last()).contains(cs.last().id) {
                Some(cs.last().id)
            } else {
                task_dup(cs.last().tasks)
            },
        }
    }
}

/// First repeated slug of a schedule in phase, chunk, task order: phase ids
/// globally, chunk ids within their phase, task ids within their chunk.
pub open spec fn slug_dup(ph: Seq<PhaseV>) -> Option<Seq<char>>
    decreases ph.len(),
{
    if ph.len() == 0 {
        None
    } else {
        match slug_dup(ph.drop_last()) {
            Some(x) => Some(x),
            None => if phase_ids(ph.drop_last()).contains(ph.last().id) {
                Some(ph.last().id)
            } else {
                chunk_dup(ph.last().chunks)
            },
        }
    }
}

fn strings_contain(v: &Vec<String>, x: &String) -> (r: bool)
    ensures
        r == v.deep_view().contains(x@),
{
    let mut i: usize = 0;
    while i < v.len()
        invariant
            i <= v@.len(),
            forall|k: int| 0 <= k < i ==> v.deep_view()[k] != x@,
        decreases v.len() - i,
    {
        if v[i] == *x {
            assert(v.deep_view()[i as int] == x@);
            return true;
        }
        i += 1;
    }
    false
}

fn check_task_slugs(ts: &Vec<Task>) -> (r: Option<String>)
    ensures
        match task_dup(ts.deep_view()) {
            Some(x) => r matches Some(y) && y@ == x,
            None => r is None,
        },
{
    let ghost tv = ts.deep_view();
    let mut seen: Vec<String> = Vec::new();
    let mut i: usize = 0;
    assert(tv.take(0) =~= Seq::<TaskV>::empty());
    assert(seen.deep_view() =~= task_ids(tv.take(0)));
    while i < ts.len()
        invariant
            tv == ts.deep_view(),
            i <= tv.len(),
            seen.deep_view() == task_ids(tv.take(i as int)),
            task_dup(tv.take(i as int)) is None,
        decreases ts.len() - i,
    {
        assert(tv.take(i + 1).drop_last() =~= tv.take(i as int));
        assert(tv.take(i + 1).last() == tv[i as int]);
        if strings_contain(&seen, &ts[i].id) {
            proof { lemma_task_dup_prefix(tv, i as int + 1); }
            return Some(ts[i].id.clone());
        }
        let ghost before = seen.deep_view();
        seen.push(ts[i].id.clone());
        assert(seen.deep_view() =~= before.push(tv[i as int].id));
        assert(task_ids(tv.take(i + 1)) =~= task_ids(tv.take(i as int)).push(tv[i as int].id));
        i += 1;
    }
    assert(tv.take(tv.len() as int) =~= tv);
    None
}

pub proof fn lemma_task_dup_prefix(ts: Seq<TaskV>, k: int)
    requires
        0 <= k <= ts.len(),
        task_dup(ts.take(k)) is Some,
    ensures
        task_dup(ts) == task_dup(ts.take(k)),
    decreases ts.len(),
{
    if k == ts.len() {
        assert(ts.take(k) =~= ts);
    } else {
        assert(ts.drop_last().take(k) =~= ts.take(k));
        lemma_task_dup_prefix(ts.drop_last(), k);
    }
}

pub proof fn lemma_chunk_dup_prefix(cs: Seq<ChunkV>, k: int)
    requires
        0 <= k <= cs.len(),
        chunk_dup(cs.take(k)) is Some,
    ensures
        chunk_dup(cs) == chunk_dup(cs.take(k)),
    decreases cs.len(),
{
    if k == cs.len() {
        assert(cs.take(k) =~= cs);
    } else {
        assert(cs.drop_last().take(k) =~= cs.take(k));
        lemma_chunk_dup_prefix(cs.drop_last(), k);
    }
}

pub proof fn lemma_slug_dup_prefix(ph: Seq<PhaseV>, k: int)
    requires
        0 <= k <= ph.len(),
        slug_dup(ph.take(k)) is Some,
    ensures
        slug_dup(ph) == slug_dup(ph.take(k)),
    decreases ph.len(),
{
    if k == ph.len() {
        assert(ph.take(k) =~= ph);
    } else {
        assert(ph.drop_last().take(k) =~= ph.take(k));
        lemma_slug_dup_prefix(ph.drop_last(), k);
    }
}

fn check_chunk_slugs(cs: &Vec<Chunk>) -> (r: Option<String>)
    ensures
        match chunk_dup(cs.deep_view()) {
            Some(x) => r matches Some(y) && y@ == x,
            None => r is None,
        },
{
    let ghost cv = cs.deep_view();
    let mut seen: Vec<String> = Vec::new();
    let mut i: usize = 0;
    assert(cv.take(0) =~= Seq::<ChunkV>::empty());
    assert(seen.deep_view() =~= chunk_id_list(cv.take(0)));
    while i < cs.len()
        invariant
            cv == cs.deep_view(),
            i <= cv.len(),
            seen.deep_view() == chunk_id_list(cv.take(i as int)),
            chunk_dup(cv.take(i as int)) is None,
        decreases cs.len() - i,
    {
        assert(cv.take(i + 1).drop_last() =~= cv.take(i as int));
        assert(cv.take(i + 1).last() == cv[i as int]);
        if strings_contain(&seen, &cs[i].id) {
            proof { lemma_chunk_dup_prefix(cv, i as int + 1); }
            return Some(cs[i].id.clone());
        }
        match check_task_slugs(&cs[i].tasks) {
            Some(x) => {
                proof { lemma_chunk_dup_prefix(cv, i as int + 1); }
                return Some(x);
            },
            None => {},
        }
        let ghost before = seen.deep_view();
        seen.push(cs[i].id.clone());
        assert(seen.deep_view() =~= before.push(cv[i as int].id));
        assert(chunk_id_list(cv.take(i + 1)) =~= chunk_id_list(cv.take(i as int)).push(cv[i as int].id));
        i += 1;
    }
    assert(cv.take(cv.len() as int) =~= cv);
    None
}

/// Validate that phase slugs are globally unique, chunk slugs are unique
/// within their phase, and task slugs are unique within their chunk; the
/// error names the first repeated slug in schedule order.
pub fn validate_slug_uniqueness(s: &Schedule) -> (r: Result<(), RexError>)
    ensures
        match slug_dup(s@.phases) {
            Some(x) => r matches Err(RexError::DuplicateSlug { addr }) && addr@ == x,
            None => r is Ok,
        },
{
    let ghost pv = s@.phases;
    let mut seen: Vec<String> = Vec::new();
    let mut i: usize = 0;
    assert(pv.take(0) =~= Seq::<PhaseV>::empty());
    assert(seen.deep_view() =~= phase_ids(pv.take(0)));
    while i < s.phases.len()
        invariant
            pv == s@.phases,
            i <= pv.len(),
            seen.deep_view() == phase_ids(pv.take(i as int)),
            slug_dup(pv.take(i as int)) is None,
        decreases s.phases.len() - i,
    {
        assert(pv.take(i + 1).drop_last() =~= pv.take(i as int));
        assert(pv.take(i + 1).last() == pv[i as int]);
        if strings_contain(&seen, &s.phases[i].id) {
            proof { lemma_slug_dup_prefix(pv, i as int + 1); }
            return Err(RexError::DuplicateSlug { addr: s.phases[i].id.clone() });
        }
        match check_chunk_slugs(&s.phases[i].chunks) {
            Some(x) => {
                proof { lemma_slug_dup_prefix(pv, i as int + 1); }
                return Err(RexError::DuplicateSlug { addr: x });
            },
            None => {},
        }
        let ghost before = seen.deep_view();
        seen.push(s.phases[i].id.clone());
        assert(seen.deep_view() =~= before.push(pv[i as int].id));
        assert(phase_ids(pv.take(i + 1)) =~= phase_ids(pv.take(i as int)).push(pv[i as int].id));
        i += 1;
    }
    assert(pv.take(pv.len() as int) =~= pv);
    Ok(())
}


// ── state regression ────────────────────────────────────────────────────────

/// Some old phase with id `pid` is `Done`.
pub open spec fn was_done_phase(old: Seq<PhaseV>, pid: Seq<char>) -> bool {
    exists|i: int| 0 <= i < old.len() && old[i].id == pid && (#[trigger] old[i]).state is Done
}

/// Some old chunk `cid` in a phase with id `pid` is `Done`.
pub open spec fn was_done_chunk(old: Seq<PhaseV>, pid: Seq<char>, cid: Seq<char>) -> bool {
    exists|i: int, j: int|
        0 <= i < old.len() && old[i].id == pid && 0 <= j < old[i].chunks.len()
            && (#[trigger] old[i].chunks[j]).id == cid && old[i].chunks[j].state is Done
}

/// Some old task `tid` in chunk `cid` of a phase with id `pid` is `Done`.
pub open spec fn was_done_task(old: Seq<PhaseV>, pid: Seq<char>, cid: Seq<char>, tid: Seq<char>) -> bool {
    exists|i: int, j: int, k: int|
        0 <= i < old.len() && old[i].id == pid && 0 <= j < old[i].chunks.len()
            && old[i].chunks[j].id == cid && 0 <= k < old[i].chunks[j].tasks.len()
            && (#[trigger] old[i].chunks[j].tasks[k]).id == tid && old[i].chunks[j].tasks[k].state is Done
}

/// Labels of tasks of chunk `pid/cid` that were `Done` and no longer are.
pub open spec fn task_regressions(old: Seq<PhaseV>, pid: Seq<char>, cid: Seq<char>, ts: Seq<TaskV>) -> Seq<Seq<char>>
    decreases ts.len(),
{
    if ts.len() == 0 {
        seq![]
    } else {
        let t = ts.last();
        task_regressions(old, pid, cid, ts.drop_last()) + if was_done_task(old, pid, cid, t.id)
            && !(t.state is Done) {
            seq!["task:"@ + pid + "/"@ + cid + "/"@ + t.id]
        } else {
            seq![]
        }
    }
}

/// Labels of chunks (and their tasks) of phase `pid` that were `Done` and no longer are.
pub open spec fn chunk_regressions(old: Seq<PhaseV>, pid: Seq<char>, cs: Seq<ChunkV>) -> Seq<Seq<char>>
    decreases cs.len(),
{
    if cs.len() == 0 {
        seq![]
    } else {
        let c = cs.last();
        chunk_regressions(old, pid, cs.drop_last()) + (if was_done_chunk(old, pid, c.id) && !(c.state is Done) {
            seq!["chunk:"@ + pid + "/"@ + c.id]
        } else {
            seq![]
        }) + task_regressions(old, pid, c.id, c.tasks)
    }
}

/// Labels of every phase, chunk and task of `new` that is `Done` in `old`
/// (matched by id within its scope) but not in `new`, in schedule order.
pub open spec fn regressions(old: Seq<PhaseV>, new: Seq<PhaseV>) -> Seq<Seq<char>>
    decreases new.len(),
{
    if new.len() == 0 {
        seq![]
    } else {
        let p = new.last();
        regressions(old, new.drop_last()) + (if was_done_phase(old, p.id) && !(p.state is Done) {
            seq!["phase:"@ + p.id]
        } else {
            seq![]
        }) + chunk_regressions(old, p.id, p.chunks)
    }
}

/// Labels joined with `", "`.
pub open spec fn join_labels(s: Seq<Seq<char>>) -> Seq<char>
    decreases s.len(),
{
    if s.len() == 0 {
        seq![]
    } else if s.len() == 1 {
        s[0]
    } else {
        join_labels(s.drop_last()) + ", "@ + s.last()
    }
}

fn done_phase_in(old: &Vec<Phase>, pid: &String) -> (r: bool)
    ensures
        r == was_done_phase(old.deep_view(), pid@),
{
    let ghost ov = old.deep_view();
    let mut i: usize = 0;
    while i < old.len()
        invariant
            ov == old.deep_view(),
            i <= ov.len(),
            forall|a: int| 0 <= a < i ==> !(ov[a].id == pid@ && (#[trigger] ov[a]).state is Done),
        decreases old.len() - i,
    {
        if old[i].id == *pid && old[i].state.is_done() {
            assert(ov[i as int].id == pid@);
            return true;
        }
        i += 1;
    }
    false
}

fn done_chunk_in(old: &Vec<Phase>, pid: &String, cid: &String) -> (r: bool)
    ensures
        r == was_done_chunk(old.deep_view(), pid@, cid@),
{
    let ghost ov = old.deep_view();
    let mut i: usize = 0;
    while i < old.len()
        invariant
            ov == old.deep_view(),
            i <= ov.len(),
            forall|a: int, b: int|
                0 <= a < i && ov[a].id == pid@ && 0 <= b < ov[a].chunks.len() ==> !((#[trigger] ov[a].chunks[b]).id
                    == cid@ && ov[a].chunks[b].state is Done),
        decreases old.len() - i,
    {
        if old[i].id == *pid {
            let cs = &old[i].chunks;
            let mut j: usize = 0;
            while j < cs.len()
                invariant
                    ov == old.deep_view(),
                    i < ov.len(),
                    ov[i as int].id == pid@,
                    cs == &old@[i as int].chunks,
                    j <= cs@.len(),
                    forall|b: int| 0 <= b < j ==> !((#[trigger] ov[i as int].chunks[b]).id == cid@ && ov[i as int].chunks[b].state is Done),
                decreases cs.len() - j,
            {
                assert(ov[i as int].chunks[j as int] == cs@[j as int]@);
                if cs[j].id == *cid && cs[j].state.is_done() {
                    return true;
                }
                j += 1;
            }
        } else {
            assert(ov[i as int].id != pid@);
        }
        i += 1;
    }
    false
}

fn done_task_in(old: &Vec<Phase>, pid: &String, cid: &String, tid: &String) -> (r: bool)
    ensures
        r == was_done_task(old.deep_view(), pid@, cid@, tid@),
{
    let ghost ov = old.deep_view();
    let mut i: usize = 0;
    while i < old.len()
        invariant
            ov == old.deep_view(),
            i <= ov.len(),
            forall|a: int, b: int, c: int|
                0 <= a < i && ov[a].id == pid@ && 0 <= b < ov[a].chunks.len() && ov[a].chunks[b].id == cid@
                    && 0 <= c < ov[a].chunks[b].tasks.len() ==> !((#[trigger] ov[a].chunks[b].tasks[c]).id == tid@
                    && ov[a].chunks[b].tasks[c].state is Done),
        decreases old.len() - i,
    {
        if old[i].id == *pid {
            let cs = &old[i].chunks;
            let mut j: usize = 0;
            while j < cs.len()
                invariant
                    ov == old.deep_view(),
                    i < ov.len(),
                    ov[i as int].id == pid@,
                    cs == &old@[i as int].chunks,
                    j <= cs@.len(),
                    forall|b: int, c: int|
                        0 <= b < j && ov[i as int].chunks[b].id == cid@ && 0 <= c < ov[i as int].chunks[b].tasks.len()
                            ==> !((#[trigger] ov[i as int].chunks[b].tasks[c]).id == tid@
                            && ov[i as int].chunks[b].tasks[c].state is Done),
                decreases cs.len() - j,
            {
                assert(ov[i as int].chunks[j as int] == cs@[j as int]@);
                if cs[j].id == *cid {
                    let ts = &cs[j].tasks;
                    let mut k: usize = 0;
                    while k < ts.len()
                        invariant
                            ov == old.deep_view(),
                            i < ov.len(),
                            ov[i as int].id == pid@,
                            j < ov[i as int].chunks.len(),
                            ov[i as int].chunks[j as int].id == cid@,
                            ts == &cs@[j as int].tasks,
                            cs == &old@[i as int].chunks,
                            k <= ts@.len(),
                            forall|c: int| 0 <= c < k ==> !((#[trigger] ov[i as int].chunks[j as int].tasks[c]).id
                                == tid@ && ov[i as int].chunks[j as int].tasks[c].state is Done),
                        decreases ts.len() - k,
                    {
                        assert(ov[i as int].chunks[j as int].tasks[k as int] == ts@[k as int]@);
                        if ts[k].id == *tid && ts[k].state.is_done() {
                            return true;
                        }
                        k += 1;
                    }
                }
                j += 1;
            }
        } else {
            assert(ov[i as int].id != pid@);
        }
        i += 1;
    }
    false
}


/// `"task:p/c/t"`.
fn task_label(pid: &String, cid: &String, tid: &String) -> (r: String)
    ensures
        r@ == "task:"@ + pid@ + "/"@ + cid@ + "/"@ + tid@,
{
    "task:".to_owned().concat(pid.as_str()).concat("/").concat(cid.as_str()).concat("/").concat(tid.as_str())
}

/// `"chunk:p/c"`.
fn chunk_label(pid: &String, cid: &String) -> (r: String)
    ensures
        r@ == "chunk:"@ + pid@ + "/"@ + cid@,
{
    "chunk:".to_owned().concat(pid.as_str()).concat("/").concat(cid.as_str())
}

/// `"phase:p"`.
fn phase_label(pid: &String) -> (r: String)
    ensures
        r@ == "phase:"@ + pid@,
{
    "phase:".to_owned().concat(pid.as_str())
}

fn push_label(out: &mut Vec<String>, label: String)
    ensures
        final(out).deep_view() == old(out).deep_view().push(label@),
{
    let ghost before = out.deep_view();
    out.push(label);
    assert(out.deep_view() =~= before.push(label@)) by {
        assert(forall|i: int| 0 <= i < before.len() ==> #[trigger] out.deep_view()[i] == before[i]);
    }
}

fn task_labels(prev: &Vec<Phase>, pid: &String, cid: &String, ts: &Vec<Task>, out: &mut Vec<String>)
    ensures
        final(out).deep_view() == old(out).deep_view() + task_regressions(prev.deep_view(), pid@, cid@, ts.deep_view()),
{
    let ghost out0 = out.deep_view();
    let ghost tv = ts.deep_view();
    let mut k: usize = 0;
    assert(tv.take(0) =~= Seq::<TaskV>::empty());
    assert(out0 + task_regressions(prev.deep_view(), pid@, cid@, tv.take(0)) =~= out0);
    while k < ts.len()
        invariant
            tv == ts.deep_view(),
            k <= tv.len(),
            out.deep_view() == out0 + task_regressions(prev.deep_view(), pid@, cid@, tv.take(k as int)),
        decreases ts.len() - k,
    {
        let ghost pre = out.deep_view();
        assert(tv.take(k + 1).drop_last() =~= tv.take(k as int));
        assert(tv.take(k + 1).last() == ts@[k as int]@);
        let t = &ts[k];
        let was = done_task_in(prev, pid, cid, &t.id);
        if was && !t.state.is_done() {
            push_label(out, task_label(pid, cid, &t.id));
        }
        assert(out.deep_view() =~= out0 + task_regressions(prev.deep_view(), pid@, cid@, tv.take(k + 1)));
        k += 1;
    }
    assert(tv.take(tv.len() as int) =~= tv);
}

fn chunk_labels(prev: &Vec<Phase>, pid: &String, cs: &Vec<Chunk>, out: &mut Vec<String>)
    ensures
        final(out).deep_view() == old(out).deep_view() + chunk_regressions(prev.deep_view(), pid@, cs.deep_view()),
{
    let ghost out0 = out.deep_view();
    let ghost cv = cs.deep_view();
    let mut k: usize = 0;
    assert(cv.take(0) =~= Seq::<ChunkV>::empty());
    assert(out0 + chunk_regressions(prev.deep_view(), pid@, cv.take(0)) =~= out0);
    while k < cs.len()
        invariant
            cv == cs.deep_view(),
            k <= cv.len(),
            out.deep_view() == out0 + chunk_regressions(prev.deep_view(), pid@, cv.take(k as int)),
        decreases cs.len() - k,
    {
        assert(cv.take(k + 1).drop_last() =~= cv.take(k as int));
        assert(cv.take(k + 1).last() == cs@[k as int]@);
        let c = &cs[k];
        let ghost mid0 = out.deep_view();
        let was = done_chunk_in(prev, pid, &c.id);
        if was && !c.state.is_done() {
            push_label(out, chunk_label(pid, &c.id));
        }
        let ghost mid = out.deep_view();
        task_labels(prev, pid, &c.id, &c.tasks, out);
        assert(c.tasks.deep_view() == cs@[k as int]@.tasks);
        assert(out.deep_view() =~= out0 + chunk_regressions(prev.deep_view(), pid@, cv.take(k + 1)));
        k += 1;
    }
    assert(cv.take(cv.len() as int) =~= cv);
}

fn join_strings(v: &Vec<String>) -> (r: String)
    ensures
        r@ == join_labels(v.deep_view()),
{
    let ghost dv = v.deep_view();
    let mut out = String::new();
    let mut k: usize = 0;
    assert(dv.take(0) =~= Seq::<Seq<char>>::empty());
    while k < v.len()
        invariant
            dv == v.deep_view(),
            k <= dv.len(),
            out@ == join_labels(dv.take(k as int)),
        decreases v.len() - k,
    {
        proof { reveal_strlit(", "); }
        assert(dv.take(k + 1).drop_last() =~= dv.take(k as int));
        assert(dv.take(k + 1).last() == v@[k as int]@);
        if k > 0 {
            out = out.concat(", ");
        }
        out = out.concat(v[k].as_str());
        assert(out@ =~= join_labels(dv.take(k + 1)));
        k += 1;
    }
    assert(dv.take(dv.len() as int) =~= dv);
    out
}

/// Check that replacing `prev` with `next` would not take any `done` item back to a
/// state that is not done. Phases, chunks and tasks are matched by id within their
/// scopes; the error lists every offender in schedule order.
pub fn validate_no_state_regression(prev: &Schedule, next: &Schedule) -> (r: Result<(), RexError>)
    ensures
        match r {
            Ok(()) => regressions(prev@.phases, next@.phases).len() == 0,
            Err(e) => regressions(prev@.phases, next@.phases).len() > 0 && (e matches RexError::ReplaceWouldRegressState {
                offenders,
            } && offenders@ == join_labels(regressions(prev@.phases, next@.phases))),
        },
{
    let mut out: Vec<String> = Vec::new();
    let ghost pv = prev.phases.deep_view();
    let ghost nv = next.phases.deep_view();
    assert(pv == prev@.phases);
    assert(nv == next@.phases);
    let mut i: usize = 0;
    assert(nv.take(0) =~= Seq::<PhaseV>::empty());
    assert(out.deep_view() =~= Seq::<Seq<char>>::empty());
    while i < next.phases.len()
        invariant
            pv == prev.phases.deep_view(),
            nv == next.phases.deep_view(),
            i <= nv.len(),
            out.deep_view() == regressions(pv, nv.take(i as int)),
        decreases next.phases.len() - i,
    {
        assert(nv.take(i + 1).drop_last() =~= nv.take(i as int));
        assert(nv.take(i + 1).last() == next.phases@[i as int]@);
        let p = &next.phases[i];
        let was = done_phase_in(&prev.phases, &p.id);
        if was && !p.state.is_done() {
            push_label(&mut out, phase_label(&p.id));
        }
        chunk_labels(&prev.phases, &p.id, &p.chunks, &mut out);
        assert(p.chunks.deep_view() == next.phases@[i as int]@.chunks);
        assert(out.deep_view() =~= regressions(pv, nv.take(i + 1)));
        i += 1;
    }
    assert(nv.take(nv.len() as int) =~= nv);
    if out.len() == 0 {
        Ok(())
    } else {
        Err(RexError::ReplaceWouldRegressState { offenders: join_strings(&out) })
    }
}


/// Check that `next` may replace `prev` (`None` when no schedule exists yet):
/// slugs unique in every scope, then no phase cycle, then no chunk cycle,
/// then, against `prev`, no item that was done stops being done. The first
/// failing check gives the error.
pub fn validate_replacement(prev: Option<&Schedule>, next: &Schedule) -> (r: Result<(), RexError>)
    ensures
        slug_dup(next@.phases) matches Some(x) ==> (r matches Err(RexError::DuplicateSlug { addr }) && addr@ == x),
        slug_dup(next@.phases) is None && phase_cycle(next@.phases) ==> (r matches Err(RexError::BlockedByCycle {
            addr,
        }) && on_cycle(phase_ids(next@.phases), phase_deps(next@.phases), addr@) && in_stuck_set(
            phase_ids(next@.phases),
            phase_deps(next@.phases),
            addr@,
        )),
        slug_dup(next@.phases) is None && !phase_cycle(next@.phases) && !chunks_acyclic_before(
            next@.phases,
            next@.phases.len() as int,
        ) ==> exists|i: int|
            0 <= i < next@.phases.len() && #[trigger] chunks_acyclic_before(next@.phases, i) && chunk_cycle(
                next@.phases[i],
            ) && (r matches Err(RexError::BlockedByCycle { addr }) && chunk_cycle_member(next@.phases[i], addr@)),
        slug_dup(next@.phases) is None && !phase_cycle(next@.phases) && chunks_acyclic_before(
            next@.phases,
            next@.phases.len() as int,
        ) ==> match prev {
            None => r is Ok,
            Some(p) => match r {
                Ok(()) => regressions(p@.phases, next@.phases).len() == 0,
                Err(e) => regressions(p@.phases, next@.phases).len() > 0 && (e matches RexError::ReplaceWouldRegressState {
                    offenders,
                } && offenders@ == join_labels(regressions(p@.phases, next@.phases))),
            },
        },
{
    validate_slug_uniqueness(next)?;
    validate_no_phase_cycles(next)?;
    validate_no_chunk_cycles(next)?;
    match prev {
        Some(p) => validate_no_state_regression(p, next),
        None => Ok(()),
    }
}

} // verus!
