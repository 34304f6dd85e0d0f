//! Create, update, remove and move operations on phases, chunks and tasks.

use vstd::prelude::*;
use crate::error::RexError;
use crate::text::{decimal, usize_to_decimal};
use super::addressing::{
    find_chunk, find_phase, find_task, lookup_error, phase_ids, resolve_chunk,
    resolve_phase, resolve_task, rewrite_blocked_by_at_chunk_level,
    rewrite_blocked_by_at_phase_level, rewrite_chunk_deps, rewrite_deps, Resolved,
};
use super::types::{
    Chunk, ChunkEdit, ChunkV, Phase, PhaseEdit, PhaseV, Schedule, ScheduleV, Task, TaskEdit,
    TaskV,
};

verus! {

/// The value inside `o`, or `d` when absent.
pub open spec fn pick<A>(o: Option<A>, d: A) -> A {
    match o {
        Some(x) => x,
        None => d,
    }
}

/// Some entry other than the one at `skip` equals `id`.
pub open spec fn other_has_id(ids: Seq<Seq<char>>, skip: int, id: Seq<char>) -> bool {
    exists|i: int| 0 <= i < ids.len() && i != skip && ids[i] == id
}

/// Every phase with its `blocked_by` rewritten.
pub open spec fn rewrite_phases(ph: Seq<PhaseV>, old_id: Seq<char>, new_id: Option<Seq<char>>) -> Seq<PhaseV> {
    ph.map_values(|p: PhaseV| PhaseV { blocked_by: rewrite_deps(p.blocked_by, old_id, new_id), ..p })
}

/// Schedule after applying a phase edit to the phase at `idx`: a rename first
/// rewrites every phase-level reference, then the provided fields replace the
/// old ones.
pub open spec fn edited_phases(
    ph: Seq<PhaseV>,
    idx: int,
    description: Option<Seq<char>>,
    new_id: Option<Seq<char>>,
    state: Option<super::types::ScheduleState>,
    blocked_by: Option<Seq<Seq<char>>>,
) -> Seq<PhaseV> {
    let ph1 = match new_id {
        Some(n) => rewrite_phases(ph, ph[idx].id, Some(n)),
        None => ph,
    };
    let p = ph1[idx];
    ph1.update(idx, PhaseV {
        id: pick(new_id, p.id),
        description: pick(description, p.description),
        state: pick(state, p.state),
        blocked_by: pick(blocked_by, p.blocked_by),
        chunks: p.chunks,
    })
}

/// Append a new phase, returning it.
pub fn add_phase(s: &mut Schedule, phase: Phase) -> (r: Phase)
    ensures
        final(s)@ == (ScheduleV { phases: old(s)@.phases.push(phase@), ..old(s)@ }),
        r@ == phase@,
{
    let copy = phase.duplicate();
    s.phases.push(phase);
    assert(s@.phases =~= old(s)@.phases.push(copy@));
    copy
}

/// Some phase other than the one at `skip` has id `id`.
fn phase_id_taken(s: &Schedule, skip: usize, id: &String) -> (r: bool)
    ensures
        r == other_has_id(phase_ids(s@.phases), skip as int, id@),
{
    let mut i: usize = 0;
    while i < s.phases.len()
        invariant
            i <= s.phases@.len(),
            forall|k: int| 0 <= k < i && k != skip ==> phase_ids(s@.phases)[k] != id@,
        decreases s.phases.len() - i,
    {
        assert(phase_ids(s@.phases)[i as int] == s.phases@[i as int].id@);
        if i != skip && s.phases[i].id == *id {
            return true;
        }
        i += 1;
    }
    false
}

/// Update the phase identified by `addr`. A rename rewrites every phase-level
/// `blocked_by` reference.
pub fn update_phase(s: &mut Schedule, addr: &str, edit: PhaseEdit) -> (r: Result<Phase, RexError>)
    ensures
        match resolve_phase(old(s)@, addr@) {
            Resolved::Found(idx, _, _) => if edit.new_id is Some && other_has_id(
                phase_ids(old(s)@.phases),
                idx,
                edit.new_id.deep_view()->0,
            ) {
                r matches Err(RexError::DuplicateSlug { addr: a }) && a@ == edit.new_id.deep_view()->0
                    && final(s)@ == old(s)@
            } else {
                r matches Ok(p) && final(s)@ == (ScheduleV {
                    phases: edited_phases(
                        old(s)@.phases,
                        idx,
                        edit.description.deep_view(),
                        edit.new_id.deep_view(),
                        edit.state,
                        edit.blocked_by.deep_view(),
                    ),
                    ..old(s)@
                }) && p@ == final(s)@.phases[idx]
            },
            other => r matches Err(e) && lookup_error(other, addr@, e, false) && final(s)@ == old(s)@,
        },
{
    let idx = match find_phase(s, addr) {
        Ok((i, _)) => i,
        Err(e) => return Err(e),
    };
    let ghost s0 = s@;
    if let Some(ref new_id) = edit.new_id {
        if phase_id_taken(s, idx, new_id) {
            return Err(RexError::DuplicateSlug { addr: new_id.clone() });
        }
        let old_id = s.phases[idx].id.clone();
        rewrite_blocked_by_at_phase_level(s, old_id.as_str(), Some(new_id.as_str()));
        assert(s@.phases =~= rewrite_phases(s0.phases, s0.phases[idx as int].id, Some(new_id@)));
        let ghost s1 = s@;
        s.phases[idx].id = new_id.clone();
        assert(s@.phases =~= s1.phases.update(idx as int, PhaseV { id: new_id@, ..s1.phases[idx as int] }));
    }
    let ghost s2 = s@;
    if let Some(desc) = edit.description {
        s.phases[idx].description = desc;
    }
    assert(s@.phases =~= s2.phases.update(idx as int, PhaseV {
        description: pick(edit.description.deep_view(), s2.phases[idx as int].description),
        ..s2.phases[idx as int]
    }));
    let ghost s3 = s@;
    if let Some(state) = edit.state {
        s.phases[idx].state = state;
    }
    assert(s@.phases =~= s3.phases.update(idx as int, PhaseV {
        state: pick(edit.state, s3.phases[idx as int].state),
        ..s3.phases[idx as int]
    }));
    let ghost s4 = s@;
    if let Some(blocked_by) = edit.blocked_by {
        s.phases[idx].blocked_by = blocked_by;
    }
    assert(s@.phases =~= s4.phases.update(idx as int, PhaseV {
        blocked_by: pick(edit.blocked_by.deep_view(), s4.phases[idx as int].blocked_by),
        ..s4.phases[idx as int]
    }));
    assert(s@.phases =~= edited_phases(
        s0.phases,
        idx as int,
        edit.description.deep_view(),
        edit.new_id.deep_view(),
        edit.state,
        edit.blocked_by.deep_view(),
    ));
    Ok(s.phases[idx].duplicate())
}


/// Remove the phase identified by `addr`, dropping dangling phase-level
/// `blocked_by` references to it.
pub fn remove_phase(s: &mut Schedule, addr: &str) -> (r: Result<Phase, RexError>)
    ensures
        match resolve_phase(old(s)@, addr@) {
            Resolved::Found(idx, _, _) => r matches Ok(p) && p@ == old(s)@.phases[idx]
                && final(s)@ == (ScheduleV {
                    phases: rewrite_phases(old(s)@.phases.remove(idx), old(s)@.phases[idx].id, None),
                    ..old(s)@
                }),
            other => r matches Err(e) && lookup_error(other, addr@, e, false) && final(s)@ == old(s)@,
        },
{
    let idx = match find_phase(s, addr) {
        Ok((i, _)) => i,
        Err(e) => return Err(e),
    };
    let ghost s0 = s@;
    let removed = s.phases.remove(idx);
    assert(s@.phases =~= s0.phases.remove(idx as int));
    rewrite_blocked_by_at_phase_level(s, removed.id.as_str(), None);
    assert(s@.phases =~= rewrite_phases(s0.phases.remove(idx as int), s0.phases[idx as int].id, None));
    Ok(removed)
}

/// Move the phase identified by `addr` to 1-indexed position `to`; a
/// position outside `1..=len` is not found.
pub fn move_phase(s: &mut Schedule, addr: &str, to: usize) -> (r: Result<Phase, RexError>)
    ensures
        match resolve_phase(old(s)@, addr@) {
            Resolved::Found(from, _, _) => {
                if to == 0 || to > old(s)@.phases.len() {
                    r matches Err(RexError::ScheduleAddrNotFound { addr: a }) && a@ == decimal(to as nat)
                        && final(s)@ == old(s)@
                } else {
                    r matches Ok(p) && p@ == old(s)@.phases[from] && final(s)@ == (ScheduleV {
                        phases: old(s)@.phases.remove(from).insert(to - 1, old(s)@.phases[from]),
                        ..old(s)@
                    })
                }
            },
            other => r matches Err(e) && lookup_error(other, addr@, e, false) && final(s)@ == old(s)@,
        },
{
    let from_idx = match find_phase(s, addr) {
        Ok((i, _)) => i,
        Err(e) => return Err(e),
    };
    if to == 0 || to > s.phases.len() {
        return Err(RexError::ScheduleAddrNotFound { addr: usize_to_decimal(to) });
    }
    let target_idx = to - 1;
    let ghost s0 = s@;
    let phase = s.phases.remove(from_idx);
    assert(s@.phases =~= s0.phases.remove(from_idx as int));
    let ghost pv = phase@;
    s.phases.insert(target_idx, phase);
    assert(s@.phases =~= s0.phases.remove(from_idx as int).insert(target_idx as int, pv));
    Ok(s.phases[target_idx].duplicate())
}

// ── chunks ──────────────────────────────────────────────────────────────────

/// The phase at `pi` with its chunk list replaced.
pub open spec fn with_chunks(ph: Seq<PhaseV>, pi: int, chunks: Seq<ChunkV>) -> Seq<PhaseV> {
    ph.update(pi, PhaseV { chunks, ..ph[pi] })
}

/// Append `chunk` to the phase identified by `phase_addr`.
pub fn add_chunk(s: &mut Schedule, phase_addr: &str, chunk: Chunk) -> (r: Result<Chunk, RexError>)
    ensures
        match resolve_phase(old(s)@, phase_addr@) {
            Resolved::Found(pi, _, _) => r matches Ok(c) && c@ == chunk@ && final(s)@ == (ScheduleV {
                phases: with_chunks(old(s)@.phases, pi, old(s)@.phases[pi].chunks.push(chunk@)),
                ..old(s)@
            }),
            other => r matches Err(e) && lookup_error(other, phase_addr@, e, false)
                && final(s)@ == old(s)@,
        },
{
    let pi = match find_phase(s, phase_addr) {
        Ok((i, _)) => i,
        Err(e) => return Err(e),
    };
    let ghost s0 = s@;
    let copy = chunk.duplicate();
    s.phases[pi].chunks.push(chunk);
    assert(s@.phases[pi as int].chunks =~= s0.phases[pi as int].chunks.push(copy@));
    assert(s@.phases =~= with_chunks(s0.phases, pi as int, s0.phases[pi as int].chunks.push(copy@)));
    Ok(copy)
}

/// Chunk ids of a phase.
pub open spec fn chunk_ids_of(p: PhaseV) -> Seq<Seq<char>> {
    p.chunks.map_values(|c: ChunkV| c.id)
}

fn chunk_id_taken(chunks: &Vec<Chunk>, skip: usize, id: &String) -> (r: bool)
    ensures
        r == other_has_id(chunks.deep_view().map_values(|c: ChunkV| c.id), skip as int, id@),
{
    let ghost ids = chunks.deep_view().map_values(|c: ChunkV| c.id);
    let mut i: usize = 0;
    while i < chunks.len()
        invariant
            i <= chunks@.len(),
            ids == chunks.deep_view().map_values(|c: ChunkV| c.id),
            forall|k: int| 0 <= k < i && k != skip ==> ids[k] != id@,
        decreases chunks.len() - i,
    {
        assert(ids[i as int] == chunks@[i as int].id@);
        if i != skip && chunks[i].id == *id {
            return true;
        }
        i += 1;
    }
    false
}

/// Chunk list of a phase after applying a chunk edit at `ci`: a rename first
/// rewrites the phase's chunk-level references, then provided fields replace
/// the old ones.
pub open spec fn edited_chunks(cs: Seq<ChunkV>, ci: int, e: ChunkEdit) -> Seq<ChunkV> {
    let cs1 = match e.new_id.deep_view() {
        Some(n) => rewrite_chunk_deps(cs, cs[ci].id, Some(n)),
        None => cs,
    };
    let c = cs1[ci];
    cs1.update(ci, ChunkV {
        id: pick(e.new_id.deep_view(), c.id),
        description: pick(e.description.deep_view(), c.description),
        state: pick(e.state, c.state),
        blocked_by: pick(e.blocked_by.deep_view(), c.blocked_by),
        scenarios: pick(e.scenarios.deep_view(), c.scenarios),
        spec_refs: pick(e.spec_refs.deep_view(), c.spec_refs),
        tasks: c.tasks,
    })
}

/// Replace the provided fields of one chunk.
fn set_chunk_fields(
    c: &mut Chunk,
    description: Option<String>,
    state: Option<super::types::ScheduleState>,
    blocked_by: Option<Vec<String>>,
    scenarios: Option<Vec<String>>,
    spec_refs: Option<Vec<String>>,
)
    ensures
        final(c)@ == (ChunkV {
            description: pick(description.deep_view(), old(c)@.description),
            state: pick(state, old(c)@.state),
            blocked_by: pick(blocked_by.deep_view(), old(c)@.blocked_by),
            scenarios: pick(scenarios.deep_view(), old(c)@.scenarios),
            spec_refs: pick(spec_refs.deep_view(), old(c)@.spec_refs),
            ..old(c)@
        }),
{
    if let Some(d) = description {
        c.description = d;
    }
    if let Some(st) = state {
        c.state = st;
    }
    if let Some(b) = blocked_by {
        c.blocked_by = b;
    }
    if let Some(sc) = scenarios {
        c.scenarios = sc;
    }
    if let Some(sr) = spec_refs {
        c.spec_refs = sr;
    }
}

/// Update the chunk identified by `addr`. A rename rewrites the chunk-level
/// `blocked_by` references within the same phase.
pub fn update_chunk(s: &mut Schedule, addr: &str, edit: ChunkEdit) -> (r: Result<Chunk, RexError>)
    ensures
        match resolve_chunk(old(s)@, addr@) {
            Resolved::Found(pi, ci, _) => if edit.new_id is Some && other_has_id(
                chunk_ids_of(old(s)@.phases[pi]),
                ci,
                edit.new_id.deep_view()->0,
            ) {
                r matches Err(RexError::DuplicateSlug { addr: a }) && a@ == edit.new_id.deep_view()->0
                    && final(s)@ == old(s)@
            } else {
                r matches Ok(c) && final(s)@ == (ScheduleV {
                    phases: with_chunks(old(s)@.phases, pi, edited_chunks(old(s)@.phases[pi].chunks, ci, edit)),
                    ..old(s)@
                }) && c@ == final(s)@.phases[pi].chunks[ci]
            },
            other => r matches Err(e) && lookup_error(other, addr@, e, false) && final(s)@ == old(s)@,
        },
{
    let (pi, ci) = match find_chunk(s, addr) {
        Ok((p, c, _)) => (p, c),
        Err(e) => return Err(e),
    };
    let ghost s0 = s@;
    let ghost p0 = s0.phases[pi as int];
    if let Some(ref new_id) = edit.new_id {
        if chunk_id_taken(&s.phases[pi].chunks, ci, new_id) {
            assert(chunk_ids_of(p0) =~= s.phases@[pi as int].chunks.deep_view().map_values(|c: ChunkV| c.id));
            return Err(RexError::DuplicateSlug { addr: new_id.clone() });
        }
        assert(chunk_ids_of(p0) =~= s.phases@[pi as int].chunks.deep_view().map_values(|c: ChunkV| c.id));
        let old_id = s.phases[pi].chunks[ci].id.clone();
        rewrite_blocked_by_at_chunk_level(s, pi, old_id.as_str(), Some(new_id.as_str()));
        assert(s@.phases.len() == s0.phases.len());
        assert(s@.phases[pi as int].chunks.len() == s0.phases[pi as int].chunks.len());
        let ghost s1 = s@;
        s.phases[pi].chunks[ci].id = new_id.clone();
        assert(s@.phases[pi as int].chunks =~= s1.phases[pi as int].chunks.update(ci as int, ChunkV {
            id: new_id@,
            ..s1.phases[pi as int].chunks[ci as int]
        }));
        assert(s@.phases =~= s1.phases.update(pi as int, PhaseV { chunks: s@.phases[pi as int].chunks, ..s1.phases[pi as int] }));
    }
    let ghost s2 = s@;
    let ghost e_desc = edit.description.deep_view();
    let ghost e_bb = edit.blocked_by.deep_view();
    let ghost e_sc = edit.scenarios.deep_view();
    let ghost e_sr = edit.spec_refs.deep_view();
    set_chunk_fields(
        &mut s.phases[pi].chunks[ci],
        edit.description,
        edit.state,
        edit.blocked_by,
        edit.scenarios,
        edit.spec_refs,
    );
    assert(s@.phases[pi as int].chunks =~= s2.phases[pi as int].chunks.update(ci as int, ChunkV {
        description: pick(e_desc, s2.phases[pi as int].chunks[ci as int].description),
        state: pick(edit.state, s2.phases[pi as int].chunks[ci as int].state),
        blocked_by: pick(e_bb, s2.phases[pi as int].chunks[ci as int].blocked_by),
        scenarios: pick(e_sc, s2.phases[pi as int].chunks[ci as int].scenarios),
        spec_refs: pick(e_sr, s2.phases[pi as int].chunks[ci as int].spec_refs),
        ..s2.phases[pi as int].chunks[ci as int]
    }));
    assert(s@.phases =~= s2.phases.update(pi as int, PhaseV { chunks: s@.phases[pi as int].chunks, ..s2.phases[pi as int] }));
    let ghost cs_final = edited_chunks(p0.chunks, ci as int, edit);
    assert(s@.phases[pi as int].chunks =~= cs_final);
    assert(s@.phases =~= with_chunks(s0.phases, pi as int, cs_final));
    Ok(s.phases[pi].chunks[ci].duplicate())
}

/// Remove the chunk identified by `addr`, dropping dangling chunk-level
/// `blocked_by` references to it within its phase.
pub fn remove_chunk(s: &mut Schedule, addr: &str) -> (r: Result<Chunk, RexError>)
    ensures
        match resolve_chunk(old(s)@, addr@) {
            Resolved::Found(pi, ci, _) => r matches Ok(c) && c@ == old(s)@.phases[pi].chunks[ci]
                && final(s)@ == (ScheduleV {
                    phases: with_chunks(old(s)@.phases, pi, rewrite_chunk_deps(
                        old(s)@.phases[pi].chunks.remove(ci),
                        old(s)@.phases[pi].chunks[ci].id,
                        None,
                    )),
                    ..old(s)@
                }),
            other => r matches Err(e) && lookup_error(other, addr@, e, false) && final(s)@ == old(s)@,
        },
{
    let (pi, ci) = match find_chunk(s, addr) {
        Ok((p, c, _)) => (p, c),
        Err(e) => return Err(e),
    };
    let ghost s0 = s@;
    let removed = s.phases[pi].chunks.remove(ci);
    assert(s@.phases[pi as int].chunks =~= s0.phases[pi as int].chunks.remove(ci as int));
    assert(s@.phases =~= with_chunks(s0.phases, pi as int, s0.phases[pi as int].chunks.remove(ci as int)));
    rewrite_blocked_by_at_chunk_level(s, pi, removed.id.as_str(), None);
    assert(s@.phases =~= with_chunks(s0.phases, pi as int, rewrite_chunk_deps(
        s0.phases[pi as int].chunks.remove(ci as int),
        s0.phases[pi as int].chunks[ci as int].id,
        None,
    )));
    Ok(removed)
}


/// The phase a move targets: the phase addressed by `to_addr`, or the source
/// phase `src` when no destination is given.
pub open spec fn dest_phase(s: ScheduleV, src: int, to_addr: Option<&str>) -> Resolved {
    match to_addr {
        Some(pa) => resolve_phase(s, pa@),
        None => Resolved::Found(src, 0, 0),
    }
}

/// Insert position: `to - 1` clamped to the destination length, or the end.
pub open spec fn insert_pos(to: Option<usize>, dst_len: int) -> int {
    match to {
        Some(p) => if p - 1 < dst_len { p - 1 } else { dst_len },
        None => dst_len,
    }
}

/// Phases after moving chunk `(spi, sci)` into phase `dpi`, and the index
/// where it lands.
pub open spec fn moved_chunk(ph: Seq<PhaseV>, spi: int, sci: int, dpi: int, to: Option<usize>) -> (Seq<PhaseV>, int) {
    let c = ph[spi].chunks[sci];
    let ph1 = with_chunks(ph, spi, ph[spi].chunks.remove(sci));
    let ins = insert_pos(to, ph1[dpi].chunks.len() as int);
    (with_chunks(ph1, dpi, ph1[dpi].chunks.insert(ins, c)), ins)
}

/// Move a chunk to a new position and optionally a new parent phase. `to` is
/// a 1-indexed position in the destination, clamped to its end; with neither
/// a destination nor a position the call changes nothing.
pub fn move_chunk(
    s: &mut Schedule,
    addr: &str,
    to_phase_addr: Option<&str>,
    to: Option<usize>,
) -> (r: Result<Chunk, RexError>)
    requires
        to == Some(0usize) ==> !(resolve_chunk(old(s)@, addr@) is Found && (to_phase_addr matches Some(
            pa,
        ) ==> resolve_phase(old(s)@, pa@) is Found)),
    ensures
        match resolve_chunk(old(s)@, addr@) {
            Resolved::Found(spi, sci, _) => if to_phase_addr is None && to is None {
                r matches Ok(c) && c@ == old(s)@.phases[spi].chunks[sci] && final(s)@ == old(s)@
            } else {
                match dest_phase(old(s)@, spi, to_phase_addr) {
                    Resolved::Found(dpi, _, _) => {
                        let (ph2, ins) = moved_chunk(old(s)@.phases, spi, sci, dpi, to);
                        r matches Ok(c) && c@ == old(s)@.phases[spi].chunks[sci]
                            && final(s)@ == (ScheduleV { phases: ph2, ..old(s)@ })
                            && c@ == ph2[dpi].chunks[ins]
                    },
                    other => r matches Err(e) && lookup_error(other, to_phase_addr->0@, e, false)
                        && final(s)@ == old(s)@,
                }
            },
            other => r matches Err(e) && lookup_error(other, addr@, e, false) && final(s)@ == old(s)@,
        },
{
    let (spi, sci) = match find_chunk(s, addr) {
        Ok((p, c, _)) => (p, c),
        Err(e) => return Err(e),
    };
    if to_phase_addr.is_none() && to.is_none() {
        return Ok(s.phases[spi].chunks[sci].duplicate());
    }
    let dpi = match to_phase_addr {
        Some(pa) => match find_phase(s, pa) {
            Ok((i, _)) => i,
            Err(e) => return Err(e),
        },
        None => spi,
    };
    let ghost s0 = s@;
    let chunk = s.phases[spi].chunks.remove(sci);
    let ghost cv = chunk@;
    assert(s@.phases[spi as int].chunks =~= s0.phases[spi as int].chunks.remove(sci as int));
    assert(s@.phases =~= with_chunks(s0.phases, spi as int, s0.phases[spi as int].chunks.remove(sci as int)));
    let dst_len = s.phases[dpi].chunks.len();
    let insert_idx = match to {
        Some(pos) => if pos - 1 < dst_len { pos - 1 } else { dst_len },
        None => dst_len,
    };
    let ghost s1 = s@;
    s.phases[dpi].chunks.insert(insert_idx, chunk);
    assert(s@.phases[dpi as int].chunks =~= s1.phases[dpi as int].chunks.insert(insert_idx as int, cv));
    assert(s@.phases =~= with_chunks(s1.phases, dpi as int, s1.phases[dpi as int].chunks.insert(insert_idx as int, cv)));
    Ok(s.phases[dpi].chunks[insert_idx].duplicate())
}

// ── tasks ───────────────────────────────────────────────────────────────────

/// The chunk at `(pi, ci)` with its task list replaced.
pub open spec fn with_tasks(ph: Seq<PhaseV>, pi: int, ci: int, tasks: Seq<TaskV>) -> Seq<PhaseV> {
    with_chunks(ph, pi, ph[pi].chunks.update(ci, ChunkV { tasks, ..ph[pi].chunks[ci] }))
}

/// Append `task` to the chunk identified by `chunk_addr`.
pub fn add_task(s: &mut Schedule, chunk_addr: &str, task: Task) -> (r: Result<Task, RexError>)
    ensures
        match resolve_chunk(old(s)@, chunk_addr@) {
            Resolved::Found(pi, ci, _) => r matches Ok(t) && t@ == task@ && final(s)@ == (ScheduleV {
                phases: with_tasks(old(s)@.phases, pi, ci, old(s)@.phases[pi].chunks[ci].tasks.push(task@)),
                ..old(s)@
            }),
            other => r matches Err(e) && lookup_error(other, chunk_addr@, e, false)
                && final(s)@ == old(s)@,
        },
{
    let (pi, ci) = match find_chunk(s, chunk_addr) {
        Ok((p, c, _)) => (p, c),
        Err(e) => return Err(e),
    };
    let ghost s0 = s@;
    let copy = task.duplicate();
    s.phases[pi].chunks[ci].tasks.push(task);
    assert(s@.phases[pi as int].chunks[ci as int].tasks =~= s0.phases[pi as int].chunks[ci as int].tasks.push(copy@));
    assert(s@.phases[pi as int].chunks =~= s0.phases[pi as int].chunks.update(ci as int, ChunkV {
        tasks: s0.phases[pi as int].chunks[ci as int].tasks.push(copy@),
        ..s0.phases[pi as int].chunks[ci as int]
    }));
    assert(s@.phases =~= with_tasks(s0.phases, pi as int, ci as int, s0.phases[pi as int].chunks[ci as int].tasks.push(copy@)));
    Ok(copy)
}

/// Task ids of a chunk.
pub open spec fn task_ids_of(c: ChunkV) -> Seq<Seq<char>> {
    c.tasks.map_values(|t: TaskV| t.id)
}

fn task_id_taken(tasks: &Vec<Task>, skip: usize, id: &String) -> (r: bool)
    ensures
        r == other_has_id(tasks.deep_view().map_values(|t: TaskV| t.id), skip as int, id@),
{
    let ghost ids = tasks.deep_view().map_values(|t: TaskV| t.id);
    let mut i: usize = 0;
    while i < tasks.len()
        invariant
            i <= tasks@.len(),
            ids == tasks.deep_view().map_values(|t: TaskV| t.id),
            forall|k: int| 0 <= k < i && k != skip ==> ids[k] != id@,
        decreases tasks.len() - i,
    {
        assert(ids[i as int] == tasks@[i as int].id@);
        if i != skip && tasks[i].id == *id {
            return true;
        }
        i += 1;
    }
    false
}

/// A task after applying an edit; `Some(None)` clears an optional field.
pub open spec fn edited_task(t: TaskV, e: TaskEdit) -> TaskV {
    TaskV {
        id: pick(e.new_id.deep_view(), t.id),
        description: pick(e.description.deep_view(), t.description),
        state: pick(e.state, t.state),
        skill: pick(e.skill.deep_view(), t.skill),
        inputs: pick(e.inputs.deep_view(), t.inputs),
        outputs: pick(e.outputs.deep_view(), t.outputs),
    }
}

fn set_task_fields(t: &mut Task, e: TaskEdit)
    ensures
        final(t)@ == edited_task(old(t)@, e),
{
    if let Some(id) = e.new_id {
        t.id = id;
    }
    if let Some(d) = e.description {
        t.description = d;
    }
    if let Some(st) = e.state {
        t.state = st;
    }
    if let Some(x) = e.skill {
        t.skill = x;
    }
    if let Some(x) = e.inputs {
        t.inputs = x;
    }
    if let Some(x) = e.outputs {
        t.outputs = x;
    }
}

/// Update the task identified by `addr`.
pub fn update_task(s: &mut Schedule, addr: &str, edit: TaskEdit) -> (r: Result<Task, RexError>)
    ensures
        match resolve_task(old(s)@, addr@) {
            Resolved::Found(pi, ci, ti) => if edit.new_id is Some && other_has_id(
                task_ids_of(old(s)@.phases[pi].chunks[ci]),
                ti,
                edit.new_id.deep_view()->0,
            ) {
                r matches Err(RexError::DuplicateSlug { addr: a }) && a@ == edit.new_id.deep_view()->0
                    && final(s)@ == old(s)@
            } else {
                r matches Ok(t) && t@ == edited_task(old(s)@.phases[pi].chunks[ci].tasks[ti], edit)
                    && final(s)@ == (ScheduleV {
                        phases: with_tasks(old(s)@.phases, pi, ci, old(s)@.phases[pi].chunks[ci].tasks.update(
                            ti,
                            edited_task(old(s)@.phases[pi].chunks[ci].tasks[ti], edit),
                        )),
                        ..old(s)@
                    })
            },
            other => r matches Err(e) && lookup_error(other, addr@, e, true) && final(s)@ == old(s)@,
        },
{
    let (pi, ci, ti) = match find_task(s, addr) {
        Ok((p, c, t, _)) => (p, c, t),
        Err(e) => return Err(e),
    };
    let ghost s0 = s@;
    if let Some(ref new_id) = edit.new_id {
        if task_id_taken(&s.phases[pi].chunks[ci].tasks, ti, new_id) {
            assert(task_ids_of(s0.phases[pi as int].chunks[ci as int]) =~= s.phases@[pi as int].chunks@[ci as int].tasks.deep_view().map_values(|t: TaskV| t.id));
            return Err(RexError::DuplicateSlug { addr: new_id.clone() });
        }
        assert(task_ids_of(s0.phases[pi as int].chunks[ci as int]) =~= s.phases@[pi as int].chunks@[ci as int].tasks.deep_view().map_values(|t: TaskV| t.id));
    }
    let ghost tv = edited_task(s0.phases[pi as int].chunks[ci as int].tasks[ti as int], edit);
    set_task_fields(&mut s.phases[pi].chunks[ci].tasks[ti], edit);
    assert(s@.phases[pi as int].chunks[ci as int].tasks =~= s0.phases[pi as int].chunks[ci as int].tasks.update(ti as int, tv));
    assert(s@.phases[pi as int].chunks =~= s0.phases[pi as int].chunks.update(ci as int, ChunkV {
        tasks: s0.phases[pi as int].chunks[ci as int].tasks.update(ti as int, tv),
        ..s0.phases[pi as int].chunks[ci as int]
    }));
    assert(s@.phases =~= with_tasks(s0.phases, pi as int, ci as int, s0.phases[pi as int].chunks[ci as int].tasks.update(ti as int, tv)));
    Ok(s.phases[pi].chunks[ci].tasks[ti].duplicate())
}

/// Remove the task identified by `addr`.
pub fn remove_task(s: &mut Schedule, addr: &str) -> (r: Result<Task, RexError>)
    ensures
        match resolve_task(old(s)@, addr@) {
            Resolved::Found(pi, ci, ti) => r matches Ok(t) && t@ == old(s)@.phases[pi].chunks[ci].tasks[ti]
                && final(s)@ == (ScheduleV {
                    phases: with_tasks(old(s)@.phases, pi, ci, old(s)@.phases[pi].chunks[ci].tasks.remove(ti)),
                    ..old(s)@
                }),
            other => r matches Err(e) && lookup_error(other, addr@, e, true) && final(s)@ == old(s)@,
        },
{
    let (pi, ci, ti) = match find_task(s, addr) {
        Ok((p, c, t, _)) => (p, c, t),
        Err(e) => return Err(e),
    };
    let ghost s0 = s@;
    let removed = s.phases[pi].chunks[ci].tasks.remove(ti);
    assert(s@.phases[pi as int].chunks[ci as int].tasks =~= s0.phases[pi as int].chunks[ci as int].tasks.remove(ti as int));
    assert(s@.phases[pi as int].chunks =~= s0.phases[pi as int].chunks.update(ci as int, ChunkV {
        tasks: s0.phases[pi as int].chunks[ci as int].tasks.remove(ti as int),
        ..s0.phases[pi as int].chunks[ci as int]
    }));
    assert(s@.phases =~= with_tasks(s0.phases, pi as int, ci as int, s0.phases[pi as int].chunks[ci as int].tasks.remove(ti as int)));
    Ok(removed)
}

/// The chunk a task move targets: the chunk addressed by `to_addr`, or the
/// source chunk when no destination is given.
pub open spec fn dest_chunk(s: ScheduleV, spi: int, sci: int, to_addr: Option<&str>) -> Resolved {
    match to_addr {
        Some(ca) => resolve_chunk(s, ca@),
        None => Resolved::Found(spi, sci, 0),
    }
}

/// Phases after moving task `(spi, sci, sti)` into chunk `(dpi, dci)`, and
/// the index where it lands.
pub open spec fn moved_task(ph: Seq<PhaseV>, spi: int, sci: int, sti: int, dpi: int, dci: int, to: Option<usize>) -> (Seq<PhaseV>, int) {
    let t = ph[spi].chunks[sci].tasks[sti];
    let ph1 = with_tasks(ph, spi, sci, ph[spi].chunks[sci].tasks.remove(sti));
    let ins = insert_pos(to, ph1[dpi].chunks[dci].tasks.len() as int);
    (with_tasks(ph1, dpi, dci, ph1[dpi].chunks[dci].tasks.insert(ins, t)), ins)
}

/// Move a task to a new position and optionally a new parent chunk. `to` is a
/// 1-indexed position in the destination, clamped to its end; with neither a
/// destination nor a position the call changes nothing.
pub fn move_task(
    s: &mut Schedule,
    addr: &str,
    to_chunk_addr: Option<&str>,
    to: Option<usize>,
) -> (r: Result<Task, RexError>)
    requires
        to == Some(0usize) ==> !(resolve_task(old(s)@, addr@) is Found && (to_chunk_addr matches Some(
            ca,
        ) ==> resolve_chunk(old(s)@, ca@) is Found)),
    ensures
        match resolve_task(old(s)@, addr@) {
            Resolved::Found(spi, sci, sti) => if to_chunk_addr is None && to is None {
                r matches Ok(t) && t@ == old(s)@.phases[spi].chunks[sci].tasks[sti] && final(s)@ == old(s)@
            } else {
                match dest_chunk(old(s)@, spi, sci, to_chunk_addr) {
                    Resolved::Found(dpi, dci, _) => {
                        let (ph2, ins) = moved_task(old(s)@.phases, spi, sci, sti, dpi, dci, to);
                        r matches Ok(t) && t@ == old(s)@.phases[spi].chunks[sci].tasks[sti]
                            && final(s)@ == (ScheduleV { phases: ph2, ..old(s)@ })
                            && t@ == ph2[dpi].chunks[dci].tasks[ins]
                    },
                    other => r matches Err(e) && lookup_error(other, to_chunk_addr->0@, e, false)
                        && final(s)@ == old(s)@,
                }
            },
            other => r matches Err(e) && lookup_error(other, addr@, e, true) && final(s)@ == old(s)@,
        },
{
    let (spi, sci, sti) = match find_task(s, addr) {
        Ok((p, c, t, _)) => (p, c, t),
        Err(e) => return Err(e),
    };
    if to_chunk_addr.is_none() && to.is_none() {
        return Ok(s.phases[spi].chunks[sci].tasks[sti].duplicate());
    }
    let (dpi, dci) = match to_chunk_addr {
        Some(ca) => match find_chunk(s, ca) {
            Ok((p, c, _)) => (p, c),
            Err(e) => return Err(e),
        },
        None => (spi, sci),
    };
    let ghost s0 = s@;
    let task = s.phases[spi].chunks[sci].tasks.remove(sti);
    let ghost tv = task@;
    assert(s@.phases[spi as int].chunks[sci as int].tasks =~= s0.phases[spi as int].chunks[sci as int].tasks.remove(sti as int));
    assert(s@.phases[spi as int].chunks =~= s0.phases[spi as int].chunks.update(sci as int, ChunkV {
        tasks: s0.phases[spi as int].chunks[sci as int].tasks.remove(sti as int),
        ..s0.phases[spi as int].chunks[sci as int]
    }));
    assert(s@.phases =~= with_tasks(s0.phases, spi as int, sci as int, s0.phases[spi as int].chunks[sci as int].tasks.remove(sti as int)));
    let dst_len = s.phases[dpi].chunks[dci].tasks.len();
    let insert_idx = match to {
        Some(pos) => if pos - 1 < dst_len { pos - 1 } else { dst_len },
        None => dst_len,
    };
    let ghost s1 = s@;
    s.phases[dpi].chunks[dci].tasks.insert(insert_idx, task);
    assert(s@.phases[dpi as int].chunks[dci as int].tasks =~= s1.phases[dpi as int].chunks[dci as int].tasks.insert(insert_idx as int, tv));
    assert(s@.phases[dpi as int].chunks =~= s1.phases[dpi as int].chunks.update(dci as int, ChunkV {
        tasks: s1.phases[dpi as int].chunks[dci as int].tasks.insert(insert_idx as int, tv),
        ..s1.phases[dpi as int].chunks[dci as int]
    }));
    assert(s@.phases =~= with_tasks(s1.phases, dpi as int, dci as int, s1.phases[dpi as int].chunks[dci as int].tasks.insert(insert_idx as int, tv)));
    Ok(s.phases[dpi].chunks[dci].tasks[insert_idx].duplicate())
}

} // verus!
