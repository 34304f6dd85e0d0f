//! Properties that hold across the schedule operations.

use vstd::prelude::*;
use super::addressing::{
    chunk_pos_text, dotted_ok, dotted_spec, lemma_split_dots_len, phase_ids, resolve_chunk, resolve_phase, resolve_task,
    rewrite_chunk_deps, rewrite_deps, split_dots, task_ids, task_pos_text, Resolved,
};
use crate::text::{all_digits, decimal, digit_char, digit_val, digits_value, is_digit, parse_usize_spec};
use super::validation::{chunk_dup, chunk_id_list, chunk_regressions, regressions, slug_dup, task_dup, task_regressions, was_done_chunk, was_done_phase, was_done_task};
use super::counters::{done_chunks, done_tasks, fcc, fdc, fdt, ftc, gd, gdt, gt, ht, lemma_sum_of_le, sum_of, total_chunks, total_tasks};
use super::ops::{edited_chunks, edited_phases, edited_task, rewrite_phases};
use super::promotion::{complete_task_at, current_task_position, first_not_done, first_open_in, next_open_position};
use super::types::{state_open, ChunkEdit, ChunkV, PhaseV, ScheduleV, TaskEdit, TaskV};

verus! {

/// Replacing one element changes a sum by the difference of the two values.
pub proof fn lemma_sum_of_update<A>(s: Seq<A>, f: spec_fn(A) -> nat, i: int, x: A)
    requires
        0 <= i < s.len(),
    ensures
        sum_of(s.update(i, x), f) + f(s[i]) == sum_of(s, f) + f(x),
    decreases s.len(),
{
    let u = s.update(i, x);
    if i == s.len() - 1 {
        assert(u.drop_last() =~= s.drop_last());
    } else {
        assert(u.drop_last() =~= s.drop_last().update(i, x));
        lemma_sum_of_update(s.drop_last(), f, i, x);
    }
}

proof fn lemma_first_not_done_valid(ts: Seq<TaskV>)
    requires
        first_not_done(ts) is Some,
    ensures
        0 <= first_not_done(ts)->0 < ts.len(),
        !(ts[first_not_done(ts)->0].state is Done),
    decreases ts.len(),
{
    if first_not_done(ts.drop_last()) is Some {
        lemma_first_not_done_valid(ts.drop_last());
    }
}

proof fn lemma_first_open_in_valid(cs: Seq<ChunkV>)
    requires
        first_open_in(cs) is Some,
    ensures
        0 <= first_open_in(cs)->0 < cs.len(),
        state_open(cs[first_open_in(cs)->0].state),
    decreases cs.len(),
{
    if first_open_in(cs.drop_last()) is Some {
        lemma_first_open_in_valid(cs.drop_last());
    }
}

proof fn lemma_next_open_valid(ph: Seq<PhaseV>)
    requires
        next_open_position(ph) is Some,
    ensures
        ({
            let (p, c) = next_open_position(ph)->0;
            &&& 0 <= p < ph.len()
            &&& 0 <= c < ph[p].chunks.len()
            &&& state_open(ph[p].chunks[c].state)
        }),
    decreases ph.len(),
{
    if next_open_position(ph.drop_last()) is Some {
        lemma_next_open_valid(ph.drop_last());
    } else {
        lemma_first_open_in_valid(ph.last().chunks);
    }
}

/// The position `mark_task_done` completes names an existing, not yet done task
/// of an open chunk.
pub proof fn lemma_current_task_valid(ph: Seq<PhaseV>)
    requires
        current_task_position(ph) is Some,
    ensures
        ({
            let (p, c, t) = current_task_position(ph)->0;
            &&& 0 <= p < ph.len()
            &&& 0 <= c < ph[p].chunks.len()
            &&& state_open(ph[p].chunks[c].state)
            &&& 0 <= t < ph[p].chunks[c].tasks.len()
            &&& !(ph[p].chunks[c].tasks[t].state is Done)
        }),
{
    lemma_next_open_valid(ph);
    let (p, c) = next_open_position(ph)->0;
    lemma_first_not_done_valid(ph[p].chunks[c].tasks);
}

/// Marking the current task done raises the completed-task count by exactly
/// one, raises the completed-chunk count by one exactly when the chunk is
/// promoted, and leaves both required counts unchanged.
pub proof fn law_mark_task_done_counters(s: ScheduleV)
    requires
        current_task_position(s.phases) is Some,
    ensures
        ({
            let (pi, ci, ti) = current_task_position(s.phases)->0;
            let (s2, _t, cp, _pp) = complete_task_at(s, pi, ci, ti);
            &&& done_tasks(s2.phases) == done_tasks(s.phases) + 1
            &&& total_tasks(s2.phases) == total_tasks(s.phases)
            &&& total_chunks(s2.phases) == total_chunks(s.phases)
            &&& done_chunks(s2.phases) == done_chunks(s.phases) + if cp { 1nat } else { 0nat }
        }),
{
    lemma_current_task_valid(s.phases);
    let (pi, ci, ti) = current_task_position(s.phases)->0;
    let (s2, t2, cp, pp) = complete_task_at(s, pi, ci, ti);
    let phase = s.phases[pi];
    let chunk = phase.chunks[ci];
    let tasks2 = chunk.tasks.update(ti, t2);
    let chunk2 = s2.phases[pi].chunks[ci];
    let phase2 = s2.phases[pi];
    assert(chunk2.tasks == tasks2);
    assert(phase2.chunks == phase.chunks.update(ci, chunk2));
    assert(s2.phases == s.phases.update(pi, phase2));
    lemma_sum_of_update(chunk.tasks, ht(), ti, t2);
    lemma_sum_of_update(phase.chunks, gt(), ci, chunk2);
    lemma_sum_of_update(phase.chunks, gd(), ci, chunk2);
    lemma_sum_of_update(phase.chunks, gdt(), ci, chunk2);
    lemma_sum_of_update(s.phases, fcc(), pi, phase2);
    lemma_sum_of_update(s.phases, fdc(), pi, phase2);
    lemma_sum_of_update(s.phases, ftc(), pi, phase2);
    lemma_sum_of_update(s.phases, fdt(), pi, phase2);
}

/// After rewriting `old` to `new_id`, an id is referenced exactly when it was
/// referenced before and is not `old`, or it is `new_id` and `old` was referenced.
pub proof fn law_rewrite_deps_membership(
    deps: Seq<Seq<char>>,
    old_id: Seq<char>,
    new_id: Option<Seq<char>>,
    x: Seq<char>,
)
    ensures
        rewrite_deps(deps, old_id, new_id).contains(x) <==> ((deps.contains(x) && x != old_id) || (new_id
            == Some(x) && deps.contains(old_id))),
    decreases deps.len(),
{
    if deps.len() > 0 {
        let r = rewrite_deps(deps.drop_last(), old_id, new_id);
        law_rewrite_deps_membership(deps.drop_last(), old_id, new_id, x);
        assert(deps =~= deps.drop_last().push(deps.last()));
        assert(deps.contains(x) <==> (deps.drop_last().contains(x) || deps.last() == x));
        assert(deps.contains(old_id) <==> (deps.drop_last().contains(old_id) || deps.last() == old_id));
        if deps.last() == old_id {
            match new_id {
                Some(n) => {
                    assert(r.push(n).contains(x) <==> (r.contains(x) || n == x)) by {
                        if r.push(n).contains(x) {
                            let k = choose|k: int| 0 <= k < r.push(n).len() && r.push(n)[k] == x;
                            if k < r.len() {
                                assert(r[k] == x);
                            }
                        }
                        if n == x {
                            assert(r.push(n)[r.len() as int] == x);
                        }
                        if r.contains(x) {
                            let k = choose|k: int| 0 <= k < r.len() && r[k] == x;
                            assert(r.push(n)[k] == x);
                        }
                    }
                },
                None => {},
            }
        } else {
            let d = deps.last();
            assert(r.push(d).contains(x) <==> (r.contains(x) || d == x)) by {
                if r.push(d).contains(x) {
                    let k = choose|k: int| 0 <= k < r.push(d).len() && r.push(d)[k] == x;
                    if k < r.len() {
                        assert(r[k] == x);
                    }
                }
                if d == x {
                    assert(r.push(d)[r.len() as int] == x);
                }
                if r.contains(x) {
                    let k = choose|k: int| 0 <= k < r.len() && r[k] == x;
                    assert(r.push(d)[k] == x);
                }
            }
        }
    }
}

/// Once the phase `old_id` is removed or renamed, no phase-level `blocked_by`
/// refers to it any more.
pub proof fn law_rewrite_phases_drops_old(ph: Seq<PhaseV>, old_id: Seq<char>, new_id: Option<Seq<char>>)
    requires
        new_id != Some(old_id),
    ensures
        forall|i: int|
            0 <= i < ph.len() ==> !(#[trigger] rewrite_phases(ph, old_id, new_id)[i]).blocked_by.contains(old_id),
{
    assert forall|i: int| 0 <= i < ph.len() implies !(#[trigger] rewrite_phases(ph, old_id, new_id)[i]).blocked_by.contains(
        old_id,
    ) by {
        law_rewrite_deps_membership(ph[i].blocked_by, old_id, new_id, old_id);
    }
}


/// No two tasks of a chunk share an id.
pub open spec fn tasks_distinct(ts: Seq<TaskV>) -> bool {
    forall|i: int, j: int| 0 <= i < ts.len() && 0 <= j < ts.len() && i != j ==> (#[trigger] ts[i]).id != (#[trigger] ts[j]).id
}

/// No two chunks of a phase share an id, and each chunk's tasks are distinct.
pub open spec fn chunks_distinct(cs: Seq<ChunkV>) -> bool {
    &&& forall|i: int, j: int| 0 <= i < cs.len() && 0 <= j < cs.len() && i != j ==> (#[trigger] cs[i]).id != (#[trigger] cs[j]).id
    &&& forall|i: int| 0 <= i < cs.len() ==> tasks_distinct(#[trigger] cs[i].tasks)
}

/// Ids are unique in every scope: phases globally, chunks within their phase,
/// tasks within their chunk.
pub open spec fn ids_distinct(ph: Seq<PhaseV>) -> bool {
    &&& forall|i: int, j: int| 0 <= i < ph.len() && 0 <= j < ph.len() && i != j ==> (#[trigger] ph[i]).id != (#[trigger] ph[j]).id
    &&& forall|i: int| 0 <= i < ph.len() ==> chunks_distinct(#[trigger] ph[i].chunks)
}

proof fn lemma_task_dup_none(ts: Seq<TaskV>)
    requires
        task_dup(ts) is None,
    ensures
        tasks_distinct(ts),
    decreases ts.len(),
{
    if ts.len() > 0 {
        let d = ts.drop_last();
        lemma_task_dup_none(d);
        let n = ts.len() - 1;
        assert forall|i: int, j: int| 0 <= i < ts.len() && 0 <= j < ts.len() && i != j implies (#[trigger] ts[i]).id
            != (#[trigger] ts[j]).id by {
            if i < n && j < n {
                assert(d[i] == ts[i] && d[j] == ts[j]);
            } else if i == n {
                assert(task_ids(d)[j] == ts[j].id);
            } else {
                assert(task_ids(d)[i] == ts[i].id);
            }
        }
    }
}

proof fn lemma_chunk_dup_none(cs: Seq<ChunkV>)
    requires
        chunk_dup(cs) is None,
    ensures
        chunks_distinct(cs),
    decreases cs.len(),
{
    if cs.len() > 0 {
        let d = cs.drop_last();
        lemma_chunk_dup_none(d);
        lemma_task_dup_none(cs.last().tasks);
        let n = cs.len() - 1;
        assert forall|i: int, j: int| 0 <= i < cs.len() && 0 <= j < cs.len() && i != j implies (#[trigger] cs[i]).id
            != (#[trigger] cs[j]).id by {
            if i < n && j < n {
                assert(d[i] == cs[i] && d[j] == cs[j]);
            } else if i == n {
                assert(chunk_id_list(d)[j] == cs[j].id);
            } else {
                assert(chunk_id_list(d)[i] == cs[i].id);
            }
        }
        assert forall|i: int| 0 <= i < cs.len() implies tasks_distinct(#[trigger] cs[i].tasks) by {
            if i < n {
                assert(d[i] == cs[i]);
            }
        }
    }
}

/// A schedule that passes the slug check has unique ids in every scope.
pub proof fn lemma_slug_dup_none(ph: Seq<PhaseV>)
    requires
        slug_dup(ph) is None,
    ensures
        ids_distinct(ph),
    decreases ph.len(),
{
    if ph.len() > 0 {
        let d = ph.drop_last();
        lemma_slug_dup_none(d);
        lemma_chunk_dup_none(ph.last().chunks);
        let n = ph.len() - 1;
        assert forall|i: int, j: int| 0 <= i < ph.len() && 0 <= j < ph.len() && i != j implies (#[trigger] ph[i]).id
            != (#[trigger] ph[j]).id by {
            if i < n && j < n {
                assert(d[i] == ph[i] && d[j] == ph[j]);
            } else if i == n {
                assert(phase_ids(d)[j] == ph[j].id);
            } else {
                assert(phase_ids(d)[i] == ph[i].id);
            }
        }
        assert forall|i: int| 0 <= i < ph.len() implies chunks_distinct(#[trigger] ph[i].chunks) by {
            if i < n {
                assert(d[i] == ph[i]);
            }
        }
    }
}

proof fn lemma_no_task_regressions(ph: Seq<PhaseV>, pi: int, ci: int, k: int)
    requires
        ids_distinct(ph),
        0 <= pi < ph.len(),
        0 <= ci < ph[pi].chunks.len(),
        0 <= k <= ph[pi].chunks[ci].tasks.len(),
    ensures
        task_regressions(ph, ph[pi].id, ph[pi].chunks[ci].id, ph[pi].chunks[ci].tasks.take(k)).len() == 0,
    decreases k,
{
    let ts = ph[pi].chunks[ci].tasks;
    if k > 0 {
        lemma_no_task_regressions(ph, pi, ci, k - 1);
        assert(ts.take(k).drop_last() =~= ts.take(k - 1));
        let t = ts[k - 1];
        assert(ts.take(k).last() == t);
        if was_done_task(ph, ph[pi].id, ph[pi].chunks[ci].id, t.id) {
            let (a, b, c) = choose|a: int, b: int, c: int|
                0 <= a < ph.len() && ph[a].id == ph[pi].id && 0 <= b < ph[a].chunks.len()
                    && ph[a].chunks[b].id == ph[pi].chunks[ci].id && 0 <= c < ph[a].chunks[b].tasks.len()
                    && (#[trigger] ph[a].chunks[b].tasks[c]).id == t.id && ph[a].chunks[b].tasks[c].state is Done;
            assert(a == pi);
            assert(chunks_distinct(ph[pi].chunks));
            assert(b == ci);
            assert(tasks_distinct(ts));
            assert(c == k - 1);
        }
    } else {
        assert(ts.take(0) =~= Seq::<TaskV>::empty());
    }
}

proof fn lemma_no_chunk_regressions(ph: Seq<PhaseV>, pi: int, k: int)
    requires
        ids_distinct(ph),
        0 <= pi < ph.len(),
        0 <= k <= ph[pi].chunks.len(),
    ensures
        chunk_regressions(ph, ph[pi].id, ph[pi].chunks.take(k)).len() == 0,
    decreases k,
{
    let cs = ph[pi].chunks;
    if k > 0 {
        lemma_no_chunk_regressions(ph, pi, k - 1);
        assert(cs.take(k).drop_last() =~= cs.take(k - 1));
        let c = cs[k - 1];
        assert(cs.take(k).last() == c);
        if was_done_chunk(ph, ph[pi].id, c.id) {
            let (a, b) = choose|a: int, b: int|
                0 <= a < ph.len() && ph[a].id == ph[pi].id && 0 <= b < ph[a].chunks.len()
                    && (#[trigger] ph[a].chunks[b]).id == c.id && ph[a].chunks[b].state is Done;
            assert(a == pi);
            assert(chunks_distinct(cs));
            assert(b == k - 1);
        }
        lemma_no_task_regressions(ph, pi, k - 1, c.tasks.len() as int);
        assert(c.tasks.take(c.tasks.len() as int) =~= c.tasks);
    } else {
        assert(cs.take(0) =~= Seq::<ChunkV>::empty());
    }
}

proof fn lemma_no_regressions(ph: Seq<PhaseV>, k: int)
    requires
        ids_distinct(ph),
        0 <= k <= ph.len(),
    ensures
        regressions(ph, ph.take(k)).len() == 0,
    decreases k,
{
    if k > 0 {
        lemma_no_regressions(ph, k - 1);
        assert(ph.take(k).drop_last() =~= ph.take(k - 1));
        let p = ph[k - 1];
        assert(ph.take(k).last() == p);
        if was_done_phase(ph, p.id) {
            let a = choose|a: int| 0 <= a < ph.len() && ph[a].id == p.id && (#[trigger] ph[a]).state is Done;
            assert(a == k - 1);
        }
        lemma_no_chunk_regressions(ph, k - 1, p.chunks.len() as int);
        assert(p.chunks.take(p.chunks.len() as int) =~= p.chunks);
    } else {
        assert(ph.take(0) =~= Seq::<PhaseV>::empty());
    }
}

/// A schedule whose slugs are unique can always replace itself: nothing that
/// was done stops being done.
pub proof fn law_replace_with_self_never_regresses(ph: Seq<PhaseV>)
    requires
        slug_dup(ph) is None,
    ensures
        regressions(ph, ph).len() == 0,
{
    lemma_slug_dup_none(ph);
    lemma_no_regressions(ph, ph.len() as int);
    assert(ph.take(ph.len() as int) =~= ph);
}


/// Once the chunk `old_id` is removed or renamed, no chunk-level `blocked_by`
/// in its phase refers to it any more.
pub proof fn law_rewrite_chunks_drops_old(cs: Seq<ChunkV>, old_id: Seq<char>, new_id: Option<Seq<char>>)
    requires
        new_id != Some(old_id),
    ensures
        forall|i: int|
            0 <= i < cs.len() ==> !(#[trigger] rewrite_chunk_deps(cs, old_id, new_id)[i]).blocked_by.contains(old_id),
{
    assert forall|i: int| 0 <= i < cs.len() implies !(#[trigger] rewrite_chunk_deps(cs, old_id, new_id)[i]).blocked_by.contains(
        old_id,
    ) by {
        law_rewrite_deps_membership(cs[i].blocked_by, old_id, new_id, old_id);
    }
}

/// Completed counts never exceed required counts.
pub proof fn law_completed_within_required(ph: Seq<PhaseV>)
    ensures
        done_chunks(ph) <= total_chunks(ph),
        done_tasks(ph) <= total_tasks(ph),
{
    assert forall|i: int| 0 <= i < ph.len() implies fdc()(#[trigger] ph[i]) <= fcc()(ph[i]) && fdt()(ph[i]) <= ftc()(ph[i]) by {
        let cs = ph[i].chunks;
        assert forall|j: int| 0 <= j < cs.len() implies gd()(#[trigger] cs[j]) <= 1nat by {}
        lemma_sum_of_le(cs, gd(), |c: ChunkV| 1nat);
        lemma_sum_of_const(cs);
        assert forall|j: int| 0 <= j < cs.len() implies gdt()(#[trigger] cs[j]) <= gt()(cs[j]) by {
            let ts = cs[j].tasks;
            assert forall|k: int| 0 <= k < ts.len() implies ht()(#[trigger] ts[k]) <= 1nat by {}
            lemma_sum_of_le(ts, ht(), |t: TaskV| 1nat);
            lemma_sum_of_const(ts);
        }
        lemma_sum_of_le(cs, gdt(), gt());
    }
    lemma_sum_of_le(ph, fdc(), fcc());
    lemma_sum_of_le(ph, fdt(), ftc());
}

proof fn lemma_sum_of_const<A>(s: Seq<A>)
    ensures
        sum_of(s, |x: A| 1nat) == s.len(),
    decreases s.len(),
{
    if s.len() > 0 {
        lemma_sum_of_const(s.drop_last());
    }
}


/// Removing an element takes its value off the sum.
pub proof fn lemma_sum_of_remove<A>(s: Seq<A>, f: spec_fn(A) -> nat, i: int)
    requires
        0 <= i < s.len(),
    ensures
        sum_of(s.remove(i), f) + f(s[i]) == sum_of(s, f),
    decreases s.len(),
{
    if i == s.len() - 1 {
        assert(s.remove(i) =~= s.drop_last());
    } else {
        assert(s.remove(i).drop_last() =~= s.drop_last().remove(i));
        assert(s.remove(i).last() == s.last());
        lemma_sum_of_remove(s.drop_last(), f, i);
    }
}

/// Inserting an element adds its value to the sum.
pub proof fn lemma_sum_of_insert<A>(s: Seq<A>, f: spec_fn(A) -> nat, i: int, x: A)
    requires
        0 <= i <= s.len(),
    ensures
        sum_of(s.insert(i, x), f) == sum_of(s, f) + f(x),
    decreases s.len(),
{
    if i == s.len() {
        assert(s.insert(i, x) =~= s.push(x));
        assert(s.push(x).drop_last() =~= s);
    } else {
        assert(s.insert(i, x).drop_last() =~= s.drop_last().insert(i, x));
        assert(s.insert(i, x).last() == s.last());
        lemma_sum_of_insert(s.drop_last(), f, i, x);
    }
}

/// Moving a phase to another position only reorders the phases: the same
/// phases remain, and no counter of the schedule changes.
pub proof fn law_move_phase_keeps_phases_and_counters(ph: Seq<PhaseV>, from: int, target: int)
    requires
        0 <= from < ph.len(),
        0 <= target < ph.len(),
    ensures
        ph.remove(from).insert(target, ph[from]).to_multiset() == ph.to_multiset(),
        total_chunks(ph.remove(from).insert(target, ph[from])) == total_chunks(ph),
        total_tasks(ph.remove(from).insert(target, ph[from])) == total_tasks(ph),
        done_chunks(ph.remove(from).insert(target, ph[from])) == done_chunks(ph),
        done_tasks(ph.remove(from).insert(target, ph[from])) == done_tasks(ph),
{
    broadcast use vstd::seq_lib::to_multiset_remove, vstd::seq_lib::to_multiset_insert, vstd::multiset::group_multiset_axioms;
    let moved = ph.remove(from).insert(target, ph[from]);
    assert(ph.to_multiset().count(ph[from]) > 0) by {
        broadcast use vstd::seq_lib::to_multiset_contains;
        assert(ph.contains(ph[from]));
    }
    assert(moved.to_multiset() =~= ph.to_multiset());
    lemma_sum_of_remove(ph, fcc(), from);
    lemma_sum_of_insert(ph.remove(from), fcc(), target, ph[from]);
    lemma_sum_of_remove(ph, ftc(), from);
    lemma_sum_of_insert(ph.remove(from), ftc(), target, ph[from]);
    lemma_sum_of_remove(ph, fdc(), from);
    lemma_sum_of_insert(ph.remove(from), fdc(), target, ph[from]);
    lemma_sum_of_remove(ph, fdt(), from);
    lemma_sum_of_insert(ph.remove(from), fdt(), target, ph[from]);
}


proof fn lemma_digit_char_facts(k: int)
    requires
        0 <= k < 10,
    ensures
        digit_val(digit_char(k)) == k,
        is_digit(digit_char(k)),
        digit_char(k) != '.',
        digit_char(k) != '+',
{
}

proof fn lemma_decimal_facts(n: nat)
    ensures
        digits_value(decimal(n)) == n,
        all_digits(decimal(n)),
        decimal(n).len() >= 1,
        !decimal(n).contains('.'),
        decimal(n)[0] != '+',
    decreases n,
{
    if n < 10 {
        lemma_digit_char_facts(n as int);
        assert(decimal(n) == seq![digit_char(n as int)]);
        assert(decimal(n).drop_last() =~= Seq::<char>::empty());
        assert(decimal(n).last() == digit_char(n as int));
        assert(digits_value(decimal(n).drop_last()) == 0);
        assert(digits_value(decimal(n)) == digit_val(digit_char(n as int)));
        assert(!decimal(n).contains('.')) by {
            if decimal(n).contains('.') {
                let i = choose|i: int| 0 <= i < decimal(n).len() && decimal(n)[i] == '.';
                assert(i == 0);
            }
        }
    } else {
        lemma_decimal_facts(n / 10);
        lemma_digit_char_facts((n % 10) as int);
        let d = decimal(n / 10);
        let c = digit_char((n % 10) as int);
        assert(decimal(n) == d.push(c));
        assert(d.push(c).drop_last() =~= d);
        assert(n == (n / 10) * 10 + n % 10);
        assert(decimal(n).last() == c);
        assert(digits_value(decimal(n)) == digits_value(d) * 10 + digit_val(c));
        assert(decimal(n)[0] == d[0]);
        assert(!decimal(n).contains('.')) by {
            if decimal(n).contains('.') {
                let i = choose|i: int| 0 <= i < decimal(n).len() && decimal(n)[i] == '.';
                if i < d.len() {
                    assert(d[i] == '.');
                    assert(d.contains('.'));
                }
            }
        }
        assert forall|i: int| 0 <= i < decimal(n).len() implies is_digit(#[trigger] decimal(n)[i]) by {
            if i < d.len() {
                assert(decimal(n)[i] == d[i]);
            }
        }
    }
}

proof fn lemma_split_no_dot(s: Seq<char>)
    requires
        !s.contains('.'),
    ensures
        split_dots(s) == seq![s],
    decreases s.len(),
{
    if s.len() > 0 {
        assert(!s.drop_last().contains('.')) by {
            if s.drop_last().contains('.') {
                let i = choose|i: int| 0 <= i < s.drop_last().len() && s.drop_last()[i] == '.';
                assert(s[i] == '.');
            }
        }
        lemma_split_no_dot(s.drop_last());
        assert(s.last() != '.') by {
            assert(s[s.len() - 1] == s.last());
        }
        assert(s.drop_last().push(s.last()) =~= s);
        assert(seq![s.drop_last()].update(0, s.drop_last().push(s.last())) =~= seq![s]);
    } else {
        assert(s =~= Seq::<char>::empty());
    }
}

proof fn lemma_split_join(a: Seq<char>, b: Seq<char>)
    ensures
        split_dots(a + seq!['.'] + b) == split_dots(a) + split_dots(b),
    decreases b.len(),
{
    lemma_split_dots_len(a);
    if b.len() == 0 {
        assert(a + seq!['.'] + b =~= (a + seq!['.']));
        assert((a + seq!['.']).drop_last() =~= a);
        assert(split_dots(b) =~= seq![Seq::<char>::empty()]);
        assert(split_dots(a).push(Seq::<char>::empty()) =~= split_dots(a) + split_dots(b));
    } else {
        let b0 = b.drop_last();
        let c = b.last();
        lemma_split_join(a, b0);
        lemma_split_dots_len(b0);
        let whole = a + seq!['.'] + b;
        assert(whole.drop_last() =~= a + seq!['.'] + b0);
        assert(whole.last() == c);
        assert(b0.push(c) =~= b);
        let r = split_dots(a) + split_dots(b0);
        if c == '.' {
            assert(r.push(Seq::<char>::empty()) =~= split_dots(a) + split_dots(b0).push(Seq::<char>::empty()));
        } else {
            let q = split_dots(b0);
            assert(r.update(r.len() - 1, r.last().push(c)) =~= split_dots(a) + q.update(q.len() - 1, q.last().push(c)));
        }
    }
}

proof fn lemma_parse_decimal(n: nat)
    requires
        1 <= n <= usize::MAX,
    ensures
        parse_usize_spec(decimal(n)) == Some(n as int),
{
    lemma_decimal_facts(n);
}

/// The 1-indexed text of a phase's position addresses that phase.
pub proof fn law_position_addresses_phase(s: ScheduleV, p: int)
    requires
        0 <= p < s.phases.len(),
        p + 1 <= usize::MAX,
    ensures
        resolve_phase(s, decimal((p + 1) as nat)) == Resolved::Found(p, 0, 0),
{
    let d = decimal((p + 1) as nat);
    lemma_decimal_facts((p + 1) as nat);
    lemma_split_no_dot(d);
    lemma_parse_decimal((p + 1) as nat);
    assert(dotted_ok(d));
    assert(dotted_spec(d) matches Some(parts) && parts[0] == p + 1);
}

/// The `"p.c"` text of a chunk's position, as an ambiguity error lists it,
/// addresses that chunk.
pub proof fn law_position_addresses_chunk(s: ScheduleV, p: int, c: int)
    requires
        0 <= p < s.phases.len(),
        0 <= c < s.phases[p].chunks.len(),
        p + 1 <= usize::MAX,
        c + 1 <= usize::MAX,
    ensures
        resolve_chunk(s, chunk_pos_text((p, c, 0))) == Resolved::Found(p, c, 0),
{
    let a = decimal((p + 1) as nat);
    let b = decimal((c + 1) as nat);
    lemma_decimal_facts((p + 1) as nat);
    lemma_decimal_facts((c + 1) as nat);
    lemma_split_no_dot(a);
    lemma_split_no_dot(b);
    lemma_split_join(a, b);
    lemma_parse_decimal((p + 1) as nat);
    lemma_parse_decimal((c + 1) as nat);
    let parts = split_dots(a + seq!['.'] + b);
    assert(parts =~= seq![a, b]);
    assert(dotted_ok(a + seq!['.'] + b));
}

/// The `"p.c.t"` text of a task's position, as an ambiguity error lists it,
/// addresses that task.
pub proof fn law_position_addresses_task(s: ScheduleV, p: int, c: int, t: int)
    requires
        0 <= p < s.phases.len(),
        0 <= c < s.phases[p].chunks.len(),
        0 <= t < s.phases[p].chunks[c].tasks.len(),
        p + 1 <= usize::MAX,
        c + 1 <= usize::MAX,
        t + 1 <= usize::MAX,
    ensures
        resolve_task(s, task_pos_text((p, c, t))) == Resolved::Found(p, c, t),
{
    let a = decimal((p + 1) as nat);
    let b = decimal((c + 1) as nat);
    let e = decimal((t + 1) as nat);
    lemma_decimal_facts((p + 1) as nat);
    lemma_decimal_facts((c + 1) as nat);
    lemma_decimal_facts((t + 1) as nat);
    lemma_split_no_dot(a);
    lemma_split_no_dot(b);
    lemma_split_no_dot(e);
    lemma_split_join(a, b);
    lemma_split_join(a + seq!['.'] + b, e);
    lemma_parse_decimal((p + 1) as nat);
    lemma_parse_decimal((c + 1) as nat);
    lemma_parse_decimal((t + 1) as nat);
    let parts = split_dots(a + seq!['.'] + b + seq!['.'] + e);
    assert(parts =~= seq![a, b, e]);
    assert(dotted_ok(a + seq!['.'] + b + seq!['.'] + e));
}

/// `task complete` advances exactly the chunk `chunk-next` reports: the task
/// it completes, if any, lies in the first open chunk, and when that chunk
/// has no task left to complete, nothing is completed.
pub proof fn law_completion_stays_in_reported_chunk(ph: Seq<PhaseV>)
    ensures
        current_task_position(ph) matches Some((p, c, t)) ==> next_open_position(ph) == Some((p, c)),
        next_open_position(ph) matches Some((p, c)) ==> (current_task_position(ph) is None <==> first_not_done(
            ph[p].chunks[c].tasks,
        ) is None),
        next_open_position(ph) is None ==> current_task_position(ph) is None,
{
}

/// A task edit sets every field it gives and keeps every field it leaves
/// out; an optional field given as `Some(None)` is cleared.
pub proof fn law_task_edit_sets_given_fields(t: TaskV, e: TaskEdit)
    ensures
        ({
            let t2 = edited_task(t, e);
            &&& (e.description matches Some(d) ==> t2.description == d@)
            &&& (e.description is None ==> t2.description == t.description)
            &&& (e.new_id matches Some(n) ==> t2.id == n@)
            &&& (e.new_id is None ==> t2.id == t.id)
            &&& (e.state matches Some(st) ==> t2.state == st)
            &&& (e.state is None ==> t2.state == t.state)
            &&& (e.skill matches Some(x) ==> t2.skill == x.deep_view())
            &&& (e.skill is None ==> t2.skill == t.skill)
            &&& (e.inputs matches Some(x) ==> t2.inputs == x.deep_view())
            &&& (e.inputs is None ==> t2.inputs == t.inputs)
            &&& (e.outputs matches Some(x) ==> t2.outputs == x.deep_view())
            &&& (e.outputs is None ==> t2.outputs == t.outputs)
        }),
{
}

/// A chunk edit sets every field it gives on the edited chunk and keeps
/// the others (its tasks always); without a rename, no other chunk changes.
pub proof fn law_chunk_edit_sets_given_fields(cs: Seq<ChunkV>, ci: int, e: ChunkEdit)
    requires
        0 <= ci < cs.len(),
    ensures
        ({
            let cs2 = edited_chunks(cs, ci, e);
            let c = cs[ci];
            let c2 = cs2[ci];
            &&& cs2.len() == cs.len()
            &&& c2.tasks == c.tasks
            &&& (e.description matches Some(d) ==> c2.description == d@)
            &&& (e.description is None ==> c2.description == c.description)
            &&& (e.new_id matches Some(n) ==> c2.id == n@)
            &&& (e.new_id is None ==> c2.id == c.id)
            &&& (e.state matches Some(st) ==> c2.state == st)
            &&& (e.state is None ==> c2.state == c.state)
            &&& (e.blocked_by matches Some(b) ==> c2.blocked_by == b.deep_view())
            &&& (e.scenarios matches Some(x) ==> c2.scenarios == x.deep_view())
            &&& (e.scenarios is None ==> c2.scenarios == c.scenarios)
            &&& (e.spec_refs matches Some(x) ==> c2.spec_refs == x.deep_view())
            &&& (e.spec_refs is None ==> c2.spec_refs == c.spec_refs)
            &&& (e.new_id is None ==> (e.blocked_by is None ==> c2.blocked_by == c.blocked_by) && forall|j: int|
                0 <= j < cs.len() && j != ci ==> #[trigger] cs2[j] == cs[j])
        }),
{
}

/// A phase edit sets every field it gives on the edited phase and keeps the
/// others (its chunks always); without a rename, no other phase changes.
pub proof fn law_phase_edit_sets_given_fields(
    ph: Seq<PhaseV>,
    idx: int,
    description: Option<Seq<char>>,
    new_id: Option<Seq<char>>,
    state: Option<super::types::ScheduleState>,
    blocked_by: Option<Seq<Seq<char>>>,
)
    requires
        0 <= idx < ph.len(),
    ensures
        ({
            let ph2 = edited_phases(ph, idx, description, new_id, state, blocked_by);
            let p = ph[idx];
            let p2 = ph2[idx];
            &&& ph2.len() == ph.len()
            &&& p2.chunks == p.chunks
            &&& (description matches Some(d) ==> p2.description == d)
            &&& (description is None ==> p2.description == p.description)
            &&& (new_id matches Some(n) ==> p2.id == n)
            &&& (new_id is None ==> p2.id == p.id)
            &&& (state matches Some(st) ==> p2.state == st)
            &&& (state is None ==> p2.state == p.state)
            &&& (blocked_by matches Some(b) ==> p2.blocked_by == b)
            &&& (new_id is None ==> (blocked_by is None ==> p2.blocked_by == p.blocked_by) && forall|j: int|
                0 <= j < ph.len() && j != idx ==> #[trigger] ph2[j] == ph[j])
        }),
{
}

} // verus!
