//! Counter values derived from a schedule: required and completed chunks and tasks.

use vstd::prelude::*;
use super::types::{ChunkV, PhaseV, Schedule, ScheduleCounters, TaskV};

verus! {

/// Sum of `f` over a sequence.
pub open spec fn sum_of<A>(s: Seq<A>, f: spec_fn(A) -> nat) -> nat
    decreases s.len(),
{
    if s.len() == 0 {
        0
    } else {
        sum_of(s.drop_last(), f) + f(s.last())
    }
}

pub proof fn lemma_sum_of_take<A>(s: Seq<A>, f: spec_fn(A) -> nat, k: int)
    requires
        0 <= k < s.len(),
    ensures
        sum_of(s.take(k + 1), f) == sum_of(s.take(k), f) + f(s[k]),
{
    assert(s.take(k + 1).drop_last() =~= s.take(k));
}

pub proof fn lemma_sum_of_prefix<A>(s: Seq<A>, f: spec_fn(A) -> nat, k: int)
    requires
        0 <= k <= s.len(),
    ensures
        sum_of(s.take(k), f) <= sum_of(s, f),
    decreases s.len(),
{
    if k == s.len() {
        assert(s.take(k) =~= s);
    } else {
        assert(s.drop_last().take(k) =~= s.take(k));
        lemma_sum_of_prefix(s.drop_last(), f, k);
    }
}

pub proof fn lemma_sum_of_le<A>(s: Seq<A>, f: spec_fn(A) -> nat, g: spec_fn(A) -> nat)
    requires
        forall|i: int| 0 <= i < s.len() ==> f(#[trigger] s[i]) <= g(s[i]),
    ensures
        sum_of(s, f) <= sum_of(s, g),
    decreases s.len(),
{
    if s.len() > 0 {
        lemma_sum_of_le(s.drop_last(), f, g);
        assert(f(s[s.len() - 1]) <= g(s[s.len() - 1]));
    }
}

/// 1 for a `Done` task, else 0.
pub open spec fn task_done(t: TaskV) -> nat {
    if t.state is Done { 1 } else { 0 }
}

/// 1 for a `Done` chunk, else 0.
pub open spec fn chunk_done(c: ChunkV) -> nat {
    if c.state is Done { 1 } else { 0 }
}

/// Number of tasks in a chunk.
pub open spec fn chunk_task_count(c: ChunkV) -> nat {
    c.tasks.len()
}

/// Number of done tasks in a chunk.
pub open spec fn chunk_done_tasks(c: ChunkV) -> nat {
    sum_of(c.tasks, ht())
}

/// Number of chunks in a phase.
pub open spec fn phase_chunk_count(p: PhaseV) -> nat {
    p.chunks.len()
}

/// Number of done chunks in a phase.
pub open spec fn phase_done_chunks(p: PhaseV) -> nat {
    sum_of(p.chunks, gd())
}

/// Number of tasks in a phase.
pub open spec fn phase_task_count(p: PhaseV) -> nat {
    sum_of(p.chunks, gt())
}

/// Number of done tasks in a phase.
pub open spec fn phase_done_tasks(p: PhaseV) -> nat {
    sum_of(p.chunks, gdt())
}

pub open spec fn fcc() -> spec_fn(PhaseV) -> nat {
    |p: PhaseV| phase_chunk_count(p)
}

pub open spec fn fdc() -> spec_fn(PhaseV) -> nat {
    |p: PhaseV| phase_done_chunks(p)
}

pub open spec fn ftc() -> spec_fn(PhaseV) -> nat {
    |p: PhaseV| phase_task_count(p)
}

pub open spec fn fdt() -> spec_fn(PhaseV) -> nat {
    |p: PhaseV| phase_done_tasks(p)
}

pub open spec fn gd() -> spec_fn(ChunkV) -> nat {
    |c: ChunkV| chunk_done(c)
}

pub open spec fn gt() -> spec_fn(ChunkV) -> nat {
    |c: ChunkV| chunk_task_count(c)
}

pub open spec fn gdt() -> spec_fn(ChunkV) -> nat {
    |c: ChunkV| chunk_done_tasks(c)
}

pub open spec fn ht() -> spec_fn(TaskV) -> nat {
    |t: TaskV| task_done(t)
}

/// Total chunks of a schedule.
pub open spec fn total_chunks(ph: Seq<PhaseV>) -> nat {
    sum_of(ph, fcc())
}

/// Total tasks of a schedule.
pub open spec fn total_tasks(ph: Seq<PhaseV>) -> nat {
    sum_of(ph, ftc())
}

/// Done chunks of a schedule.
pub open spec fn done_chunks(ph: Seq<PhaseV>) -> nat {
    sum_of(ph, fdc())
}

/// Done tasks of a schedule.
pub open spec fn done_tasks(ph: Seq<PhaseV>) -> nat {
    sum_of(ph, fdt())
}

/// Derive the four counter values from the current schedule state.
pub fn counters_for(s: &Schedule) -> (r: ScheduleCounters)
    requires
        total_chunks(s@.phases) <= u32::MAX,
        total_tasks(s@.phases) <= u32::MAX,
    ensures
        r.chunks_required == total_chunks(s@.phases),
        r.tasks_required == total_tasks(s@.phases),
        r.chunks_completed == done_chunks(s@.phases),
        r.tasks_completed == done_tasks(s@.phases),
{
    let ghost ph = s@.phases;
    let mut chunks_required: u32 = 0;
    let mut tasks_required: u32 = 0;
    let mut chunks_completed: u32 = 0;
    let mut tasks_completed: u32 = 0;
    let mut pi: usize = 0;
    assert(ph.take(0) =~= Seq::<PhaseV>::empty());
    while pi < s.phases.len()
        invariant
            ph == s@.phases,
            pi <= ph.len(),
            sum_of(ph, fcc()) <= u32::MAX,
            sum_of(ph, ftc()) <= u32::MAX,
            chunks_required == sum_of(ph.take(pi as int), fcc()),
            chunks_completed == sum_of(ph.take(pi as int), fdc()),
            tasks_required == sum_of(ph.take(pi as int), ftc()),
            tasks_completed == sum_of(ph.take(pi as int), fdt()),
            chunks_completed <= chunks_required,
            tasks_completed <= tasks_required,
        decreases ph.len() - pi,
    {
        let chunks = &s.phases[pi].chunks;
        let ghost cs = ph[pi as int].chunks;
        proof {
            lemma_sum_of_take(ph, fcc(), pi as int);
            lemma_sum_of_take(ph, fdc(), pi as int);
            lemma_sum_of_take(ph, ftc(), pi as int);
            lemma_sum_of_take(ph, fdt(), pi as int);
            lemma_sum_of_prefix(ph, fcc(), pi as int + 1);
            lemma_sum_of_prefix(ph, ftc(), pi as int + 1);
        }
        let ghost base_cr = chunks_required;
        let ghost base_cc = chunks_completed;
        let ghost base_tr = tasks_required;
        let ghost base_tc = tasks_completed;
        let mut ci: usize = 0;
        assert(cs.take(0) =~= Seq::<ChunkV>::empty());
        while ci < chunks.len()
            invariant
                ph == s@.phases,
                pi < ph.len(),
                chunks == &s.phases@[pi as int].chunks,
                cs == chunks.deep_view(),
                cs == ph[pi as int].chunks,
                ci <= cs.len(),
                base_cr + cs.len() <= u32::MAX,
                base_tr + sum_of(cs, gt()) <= u32::MAX,
                chunks_required == base_cr + ci,
                chunks_completed == base_cc + sum_of(cs.take(ci as int), gd()),
                tasks_required == base_tr + sum_of(cs.take(ci as int), gt()),
                tasks_completed == base_tc + sum_of(cs.take(ci as int), gdt()),
                chunks_completed <= chunks_required,
                tasks_completed <= tasks_required,
            decreases cs.len() - ci,
        {
            let tasks = &chunks[ci].tasks;
            let ghost ts = cs[ci as int].tasks;
            proof {
                lemma_sum_of_take(cs, gd(), ci as int);
                lemma_sum_of_take(cs, gt(), ci as int);
                lemma_sum_of_take(cs, gdt(), ci as int);
                lemma_sum_of_prefix(cs, gt(), ci as int + 1);
            }
            chunks_required += 1;
            if chunks[ci].state.is_done() {
                chunks_completed += 1;
            }
            let ghost tr0 = tasks_required;
            let ghost tc0 = tasks_completed;
            let mut ti: usize = 0;
            assert(ts.take(0) =~= Seq::<TaskV>::empty());
            while ti < tasks.len()
                invariant
                    tasks == &chunks@[ci as int].tasks,
                    ts == tasks.deep_view(),
                    ti <= ts.len(),
                    tr0 + ts.len() <= u32::MAX,
                    tasks_required == tr0 + ti,
                    tasks_completed == tc0 + sum_of(ts.take(ti as int), ht()),
                    tasks_completed <= tasks_required,
                    tc0 <= tr0,
                decreases ts.len() - ti,
            {
                proof { lemma_sum_of_take(ts, ht(), ti as int); }
                tasks_required += 1;
                if tasks[ti].state.is_done() {
                    tasks_completed += 1;
                }
                ti += 1;
            }
            assert(ts.take(ts.len() as int) =~= ts);
            ci += 1;
        }
        assert(cs.take(cs.len() as int) =~= cs);
        pi += 1;
    }
    assert(ph.take(ph.len() as int) =~= ph);
    ScheduleCounters { chunks_required, tasks_required, chunks_completed, tasks_completed }
}

} // verus!
