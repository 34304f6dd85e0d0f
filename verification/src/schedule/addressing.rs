//! Address resolution: dotted positions (`1`, `1.2`, `1.2.3`) and bare slugs.

use vstd::prelude::*;
use crate::error::RexError;
use crate::text::{decimal, lemma_decimal_injective, parse_usize_chars, parse_usize_spec, str_chars, str_eq, usize_to_decimal};
use super::types::{Chunk, ChunkV, Phase, PhaseV, Schedule, ScheduleV, Task, TaskV};

verus! {

// ── dotted positions ────────────────────────────────────────────────────────

/// `s.split('.')`: the pieces between dots, in order (always at least one).
pub open spec fn split_dots(s: Seq<char>) -> Seq<Seq<char>>
    decreases s.len(),
{
    if s.len() == 0 {
        seq![Seq::<char>::empty()]
    } else {
        let r = split_dots(s.drop_last());
        if s.last() == '.' {
            r.push(Seq::<char>::empty())
        } else {
            r.update(r.len() - 1, r.last().push(s.last()))
        }
    }
}

pub proof fn lemma_split_dots_len(s: Seq<char>)
    ensures
        split_dots(s).len() >= 1,
    decreases s.len(),
{
    if s.len() > 0 {
        lemma_split_dots_len(s.drop_last());
    }
}

/// Every piece is a positive number that `str::parse::<usize>` accepts.
pub open spec fn dotted_ok(addr: Seq<char>) -> bool {
    let parts = split_dots(addr);
    forall|i: int|
        0 <= i < parts.len() ==> #[trigger] parse_usize_spec(parts[i]) is Some
            && parse_usize_spec(parts[i])->0 != 0
}

/// The 1-indexed positions of a dotted address, or `None` when `addr` is not one.
pub open spec fn dotted_spec(addr: Seq<char>) -> Option<Seq<int>> {
    let parts = split_dots(addr);
    if dotted_ok(addr) {
        Some(Seq::new(parts.len(), |i: int| parse_usize_spec(parts[i])->0))
    } else {
        None
    }
}

/// The positions of a parsed dotted address as integers.
pub open spec fn ints(v: Seq<usize>) -> Seq<int> {
    v.map_values(|x: usize| x as int)
}

fn split_on_dots(chars: &Vec<char>) -> (r: Vec<Vec<char>>)
    ensures
        r.deep_view() == split_dots(chars@),
{
    let mut done: Vec<Vec<char>> = Vec::new();
    let mut cur: Vec<char> = Vec::new();
    let mut i: usize = 0;
    assert(chars@.take(0) =~= Seq::<char>::empty());
    assert(done.deep_view() =~= Seq::<Seq<char>>::empty());
    assert(cur.deep_view() =~= Seq::<char>::empty());
    assert(done.deep_view().push(cur.deep_view()) =~= split_dots(chars@.take(0)));
    while i < chars.len()
        invariant
            i <= chars.len(),
            done.deep_view().push(cur.deep_view()) == split_dots(chars@.take(i as int)),
        decreases chars.len() - i,
    {
        let c = chars[i];
        let ghost prev = chars@.take(i as int);
        assert(chars@.take(i + 1).drop_last() =~= prev);
        assert(chars@.take(i + 1).last() == c);
        let ghost before = done.deep_view();
        if c == '.' {
            let finished = cur;
            done.push(finished);
            cur = Vec::new();
            assert(done.deep_view() =~= before.push(finished.deep_view()));
            assert(cur.deep_view() =~= Seq::<char>::empty());
            assert(done.deep_view().push(cur.deep_view()) =~= split_dots(chars@.take(i + 1)));
        } else {
            let ghost old_cur = cur.deep_view();
            cur.push(c);
            assert(cur.deep_view() =~= old_cur.push(c));
            assert(done.deep_view() =~= before);
            assert(done.deep_view().push(cur.deep_view()) =~= split_dots(chars@.take(i + 1)));
        }
        i += 1;
    }
    assert(chars@.take(chars.len() as int) =~= chars@);
    let ghost before = done.deep_view();
    let last = cur;
    done.push(last);
    assert(done.deep_view() =~= before.push(last.deep_view()));
    done
}

/// Parse a dotted position string into its 1-indexed parts.
pub fn parse_dotted(addr: &str) -> (r: Option<Vec<usize>>)
    ensures
        r is None <==> dotted_spec(addr@) is None,
        r matches Some(v) ==> dotted_spec(addr@) == Some(ints(v@)) && v@.len() >= 1
            && forall|i: int| 0 <= i < v@.len() ==> #[trigger] v@[i] >= 1,
{
    let chars = str_chars(addr);
    let parts = split_on_dots(&chars);
    proof { lemma_split_dots_len(addr@); }
    let mut out: Vec<usize> = Vec::new();
    let mut k: usize = 0;
    while k < parts.len()
        invariant
            k <= parts.len(),
            parts.deep_view() == split_dots(addr@),
            split_dots(addr@).len() >= 1,
            out@.len() == k,
            forall|j: int|
                0 <= j < k ==> parse_usize_spec(#[trigger] split_dots(addr@)[j]) is Some
                    && parse_usize_spec(split_dots(addr@)[j])->0 != 0
                    && out@[j] as int == parse_usize_spec(split_dots(addr@)[j])->0
                    && out@[j] >= 1,
        decreases parts.len() - k,
    {
        assert(parts@[k as int].deep_view() =~= parts@[k as int]@);
        assert(parts@[k as int]@ == split_dots(addr@)[k as int]);
        let v = parse_usize_chars(&parts[k]);
        match v {
            None => {
                assert(parse_usize_spec(split_dots(addr@)[k as int]) is None);
                assert(!dotted_ok(addr@));
                return None;
            },
            Some(n) => {
                if n == 0 {
                    assert(!dotted_ok(addr@));
                    return None;
                }
                out.push(n);
            },
        }
        k += 1;
    }
    assert(dotted_ok(addr@));
    assert forall|i: int| 0 <= i < out@.len() implies #[trigger] out@[i] >= 1 by {
        let _ = parse_usize_spec(split_dots(addr@)[i]);
    }
    assert(ints(out@) =~= Seq::new(
        split_dots(addr@).len(),
        |i: int| parse_usize_spec(split_dots(addr@)[i])->0,
    ));
    Some(out)
}

// ── lookups ─────────────────────────────────────────────────────────────────

/// First index of `x` in `ids`.
pub open spec fn first_index_of(ids: Seq<Seq<char>>, x: Seq<char>) -> Option<int>
    decreases ids.len(),
{
    if ids.len() == 0 {
        None
    } else {
        match first_index_of(ids.drop_last(), x) {
            Some(i) => Some(i),
            None => if ids.last() == x {
                Some(ids.len() - 1)
            } else {
                None
            },
        }
    }
}

pub proof fn lemma_first_index_of(ids: Seq<Seq<char>>, x: Seq<char>)
    ensures
        first_index_of(ids, x) matches Some(i) ==> 0 <= i < ids.len() && ids[i] == x
            && forall|j: int| 0 <= j < i ==> ids[j] != x,
        first_index_of(ids, x) is None ==> forall|j: int| 0 <= j < ids.len() ==> ids[j] != x,
    decreases ids.len(),
{
    if ids.len() > 0 {
        let d = ids.drop_last();
        lemma_first_index_of(d, x);
        assert(forall|j: int| 0 <= j < d.len() ==> d[j] == ids[j]);
    }
}

pub open spec fn phase_ids(ph: Seq<PhaseV>) -> Seq<Seq<char>> {
    ph.map_values(|p: PhaseV| p.id)
}

pub open spec fn task_ids(ts: Seq<TaskV>) -> Seq<Seq<char>> {
    ts.map_values(|t: TaskV| t.id)
}

/// Outcome of resolving an address.
pub ghost enum Resolved {
    /// Exactly one item: its phase, chunk and task indices (unused levels are 0).
    Found(int, int, int),
    /// No item matches.
    Missing,
    /// A bare slug that matches several items, listed in schedule order.
    Ambiguous(Seq<(int, int, int)>),
}

/// Phase index addressed by `addr`: a 1-indexed position, else the first
/// phase whose id equals `addr`.
pub open spec fn resolve_phase(s: ScheduleV, addr: Seq<char>) -> Resolved {
    match dotted_spec(addr) {
        Some(parts) => if parts[0] - 1 < s.phases.len() {
            Resolved::Found(parts[0] - 1, 0, 0)
        } else {
            Resolved::Missing
        },
        None => match first_index_of(phase_ids(s.phases), addr) {
            Some(i) => Resolved::Found(i, 0, 0),
            None => Resolved::Missing,
        },
    }
}

/// Chunks of one phase whose id equals `addr`, as (phase, chunk, 0) triples.
pub open spec fn chunk_matches_in(chunks: Seq<ChunkV>, pi: int, addr: Seq<char>) -> Seq<(int, int, int)>
    decreases chunks.len(),
{
    if chunks.len() == 0 {
        seq![]
    } else {
        let r = chunk_matches_in(chunks.drop_last(), pi, addr);
        if chunks.last().id == addr {
            r.push((pi, chunks.len() - 1, 0))
        } else {
            r
        }
    }
}

/// All chunks whose id equals `addr`, in phase-then-chunk order.
pub open spec fn chunk_matches(phases: Seq<PhaseV>, addr: Seq<char>) -> Seq<(int, int, int)>
    decreases phases.len(),
{
    if phases.len() == 0 {
        seq![]
    } else {
        chunk_matches(phases.drop_last(), addr) + chunk_matches_in(
            phases.last().chunks,
            phases.len() - 1,
            addr,
        )
    }
}

/// Tasks of one chunk whose id equals `addr`.
pub open spec fn task_matches_in(tasks: Seq<TaskV>, pi: int, ci: int, addr: Seq<char>) -> Seq<(int, int, int)>
    decreases tasks.len(),
{
    if tasks.len() == 0 {
        seq![]
    } else {
        let r = task_matches_in(tasks.drop_last(), pi, ci, addr);
        if tasks.last().id == addr {
            r.push((pi, ci, tasks.len() - 1))
        } else {
            r
        }
    }
}

/// Tasks of the chunks of one phase whose id equals `addr`.
pub open spec fn task_matches_phase(chunks: Seq<ChunkV>, pi: int, addr: Seq<char>) -> Seq<(int, int, int)>
    decreases chunks.len(),
{
    if chunks.len() == 0 {
        seq![]
    } else {
        task_matches_phase(chunks.drop_last(), pi, addr) + task_matches_in(
            chunks.last().tasks,
            pi,
            chunks.len() - 1,
            addr,
        )
    }
}

/// All tasks whose id equals `addr`, in schedule order.
pub open spec fn task_matches(phases: Seq<PhaseV>, addr: Seq<char>) -> Seq<(int, int, int)>
    decreases phases.len(),
{
    if phases.len() == 0 {
        seq![]
    } else {
        task_matches(phases.drop_last(), addr) + task_matches_phase(
            phases.last().chunks,
            phases.len() - 1,
            addr,
        )
    }
}

/// Resolution of a bare slug from its list of matches.
pub open spec fn resolve_matches(m: Seq<(int, int, int)>) -> Resolved {
    if m.len() == 0 {
        Resolved::Missing
    } else if m.len() == 1 {
        Resolved::Found(m[0].0, m[0].1, m[0].2)
    } else {
        Resolved::Ambiguous(m)
    }
}

/// Chunk addressed by `addr`: dotted `phase.chunk` (extra parts ignored), or
/// a bare slug that must be unique across all phases.
pub open spec fn resolve_chunk(s: ScheduleV, addr: Seq<char>) -> Resolved {
    match dotted_spec(addr) {
        Some(parts) => if parts.len() < 2 {
            Resolved::Missing
        } else if parts[0] - 1 < s.phases.len() && parts[1] - 1 < s.phases[parts[0]
            - 1].chunks.len() {
            Resolved::Found(parts[0] - 1, parts[1] - 1, 0)
        } else {
            Resolved::Missing
        },
        None => resolve_matches(chunk_matches(s.phases, addr)),
    }
}

/// Task addressed by `addr`: dotted `phase.chunk.task` (extra parts ignored),
/// or a bare slug that must be unique across all chunks.
pub open spec fn resolve_task(s: ScheduleV, addr: Seq<char>) -> Resolved {
    match dotted_spec(addr) {
        Some(parts) => if parts.len() < 3 {
            Resolved::Missing
        } else if parts[0] - 1 < s.phases.len() && parts[1] - 1 < s.phases[parts[0]
            - 1].chunks.len() && parts[2] - 1 < s.phases[parts[0] - 1].chunks[parts[1]
            - 1].tasks.len() {
            Resolved::Found(parts[0] - 1, parts[1] - 1, parts[2] - 1)
        } else {
            Resolved::Missing
        },
        None => resolve_matches(task_matches(s.phases, addr)),
    }
}

/// `"p.c"` for a chunk position (1-indexed).
pub open spec fn chunk_pos_text(m: (int, int, int)) -> Seq<char> {
    decimal((m.0 + 1) as nat) + seq!['.'] + decimal((m.1 + 1) as nat)
}

/// `"p.c.t"` for a task position (1-indexed).
pub open spec fn task_pos_text(m: (int, int, int)) -> Seq<char> {
    chunk_pos_text(m) + seq!['.'] + decimal((m.2 + 1) as nat)
}

/// Positions joined with `", "`.
pub open spec fn join_positions(m: Seq<(int, int, int)>, with_task: bool) -> Seq<char>
    decreases m.len(),
{
    let text = if with_task { task_pos_text(m.last()) } else { chunk_pos_text(m.last()) };
    if m.len() == 0 {
        Seq::empty()
    } else if m.len() == 1 {
        text
    } else {
        join_positions(m.drop_last(), with_task) + seq![',', ' '] + text
    }
}

/// The error a failed lookup of `addr` reports.
pub open spec fn lookup_error(r: Resolved, addr: Seq<char>, e: RexError, with_task: bool) -> bool {
    match r {
        Resolved::Missing => e matches RexError::ScheduleAddrNotFound { addr: a } && a@ == addr,
        Resolved::Ambiguous(m) => e matches RexError::AmbiguousAddr { addr: a, candidates: c }
            && a@ == addr && c@ == join_positions(m, with_task),
        _ => false,
    }
}

fn not_found(addr: &str) -> (e: RexError)
    ensures
        e matches RexError::ScheduleAddrNotFound { addr: a } && a@ == addr@,
{
    RexError::ScheduleAddrNotFound { addr: addr.to_owned() }
}

/// Find a phase by slug id or 1-indexed position.
pub fn find_phase<'s>(s: &'s Schedule, addr: &str) -> (r: Result<(usize, &'s Phase), RexError>)
    ensures
        match resolve_phase(s@, addr@) {
            Resolved::Found(i, _, _) => r matches Ok((idx, p)) && idx == i && i < s.phases@.len()
                && *p == s.phases@[i],
            other => r matches Err(e) && lookup_error(other, addr@, e, false),
        },
{
    if let Some(parts) = parse_dotted(addr) {
        let idx = parts[0] - 1;
        if idx < s.phases.len() {
            return Ok((idx, &s.phases[idx]));
        }
        return Err(not_found(addr));
    }
    let a = addr.to_owned();
    let mut i: usize = 0;
    while i < s.phases.len()
        invariant
            i <= s.phases@.len(),
            a@ == addr@,
            dotted_spec(addr@) is None,
            first_index_of(phase_ids(s@.phases).take(i as int), addr@) is None,
        decreases s.phases.len() - i,
    {
        assert(phase_ids(s@.phases).take(i + 1).drop_last() =~= phase_ids(s@.phases).take(
            i as int,
        ));
        assert(phase_ids(s@.phases)[i as int] == s.phases@[i as int].id@);
        if s.phases[i].id == a {
            assert(phase_ids(s@.phases).take(i + 1).last() == addr@);
            assert(first_index_of(phase_ids(s@.phases).take(i + 1), addr@) == Some(i as int));
            proof { lemma_first_index_of_prefix(phase_ids(s@.phases), addr@, i as int + 1); }
            assert(dotted_spec(addr@) is None);
            assert(first_index_of(phase_ids(s@.phases), addr@) == Some(i as int));
            assert(resolve_phase(s@, addr@) == Resolved::Found(i as int, 0, 0));
            return Ok((i, &s.phases[i]));
        }
        i += 1;
    }
    assert(phase_ids(s@.phases).take(i as int) =~= phase_ids(s@.phases));
    Err(not_found(addr))
}

/// A first occurrence inside a prefix is the first occurrence overall.
pub proof fn lemma_first_index_of_prefix(ids: Seq<Seq<char>>, x: Seq<char>, k: int)
    requires
        0 <= k <= ids.len(),
        first_index_of(ids.take(k), x) is Some,
    ensures
        first_index_of(ids, x) == first_index_of(ids.take(k), x),
    decreases ids.len(),
{
    if k == ids.len() {
        assert(ids.take(k) =~= ids);
    } else {
        assert(ids.drop_last().take(k) =~= ids.take(k));
        lemma_first_index_of_prefix(ids.drop_last(), x, k);
    }
}

/// Integer view of a list of index triples.
pub open spec fn triples(v: Seq<(usize, usize, usize)>) -> Seq<(int, int, int)> {
    v.map_values(|t: (usize, usize, usize)| (t.0 as int, t.1 as int, t.2 as int))
}

/// Text of one position, `"p.c"` or `"p.c.t"`.
fn position_text(m: (usize, usize, usize), with_task: bool) -> (r: String)
    requires
        m.0 < usize::MAX,
        m.1 < usize::MAX,
        m.2 < usize::MAX,
    ensures
        r@ == (if with_task {
            task_pos_text((m.0 as int, m.1 as int, m.2 as int))
        } else {
            chunk_pos_text((m.0 as int, m.1 as int, m.2 as int))
        }),
{
    proof { reveal_strlit("."); }
    let r = usize_to_decimal(m.0 + 1).concat(".").concat(usize_to_decimal(m.1 + 1).as_str());
    if with_task {
        let r = r.concat(".").concat(usize_to_decimal(m.2 + 1).as_str());
        assert(r@ =~= task_pos_text((m.0 as int, m.1 as int, m.2 as int)));
        r
    } else {
        assert(r@ =~= chunk_pos_text((m.0 as int, m.1 as int, m.2 as int)));
        r
    }
}

/// The candidate list of an ambiguous address.
fn candidates_text(m: &Vec<(usize, usize, usize)>, with_task: bool) -> (r: String)
    requires
        forall|i: int|
            0 <= i < m@.len() ==> (#[trigger] m@[i]).0 < usize::MAX && m@[i].1 < usize::MAX
                && m@[i].2 < usize::MAX,
    ensures
        r@ == join_positions(triples(m@), with_task),
{
    proof { reveal_strlit(", "); }
    let mut out = String::new();
    let mut k: usize = 0;
    assert(triples(m@).take(0) =~= Seq::<(int, int, int)>::empty());
    while k < m.len()
        invariant
            k <= m@.len(),
            forall|i: int|
                0 <= i < m@.len() ==> (#[trigger] m@[i]).0 < usize::MAX && m@[i].1
                    < usize::MAX && m@[i].2 < usize::MAX,
            out@ == join_positions(triples(m@).take(k as int), with_task),
        decreases m.len() - k,
    {
        let t = position_text(m[k], with_task);
        let ghost prefix = triples(m@).take(k + 1);
        assert(prefix.drop_last() =~= triples(m@).take(k as int));
        assert(prefix.last() == (m@[k as int].0 as int, m@[k as int].1 as int, m@[k as int].2 as int));
        proof { reveal_strlit(", "); }
        if k > 0 {
            out = out.concat(", ");
        }
        out = out.concat(t.as_str());
        assert(out@ =~= join_positions(prefix, with_task));
        k += 1;
    }
    assert(triples(m@).take(m@.len() as int) =~= triples(m@));
    out
}

pub proof fn lemma_take_push<A>(s: Seq<A>, k: int)
    requires
        0 <= k < s.len(),
    ensures
        s.take(k + 1) == s.take(k).push(s[k]),
        s.take(k + 1).drop_last() == s.take(k),
        s.take(k + 1).last() == s[k],
{
    assert(s.take(k + 1) =~= s.take(k).push(s[k]));
    assert(s.take(k + 1).drop_last() =~= s.take(k));
}

/// All chunk matches of a bare slug, in schedule order.
fn collect_chunk_matches(s: &Schedule, a: &String) -> (r: Vec<(usize, usize, usize)>)
    ensures
        triples(r@) == chunk_matches(s@.phases, a@),
        forall|i: int|
            0 <= i < r@.len() ==> (#[trigger] r@[i]).0 < s.phases@.len() && r@[i].1
                < s.phases@[r@[i].0 as int].chunks@.len() && r@[i].2 == 0,
{
    let mut out: Vec<(usize, usize, usize)> = Vec::new();
    let mut pi: usize = 0;
    assert(s@.phases.take(0) =~= Seq::<PhaseV>::empty());
    assert(triples(out@) =~= chunk_matches(s@.phases.take(0), a@));
    while pi < s.phases.len()
        invariant
            pi <= s.phases@.len(),
            triples(out@) == chunk_matches(s@.phases.take(pi as int), a@),
            forall|i: int|
                0 <= i < out@.len() ==> (#[trigger] out@[i]).0 < s.phases@.len() && out@[i].1
                    < s.phases@[out@[i].0 as int].chunks@.len() && out@[i].2 == 0,
        decreases s.phases.len() - pi,
    {
        let chunks = &s.phases[pi].chunks;
        let ghost cv = s@.phases[pi as int].chunks;
        assert(cv == chunks.deep_view());
        let ghost base = triples(out@);
        let mut ci: usize = 0;
        assert(cv.take(0) =~= Seq::<ChunkV>::empty());
        assert(triples(out@) =~= base + chunk_matches_in(cv.take(0), pi as int, a@));
        while ci < chunks.len()
            invariant
                pi < s.phases@.len(),
                chunks == &s.phases@[pi as int].chunks,
                cv == chunks.deep_view(),
                ci <= chunks@.len(),
                triples(out@) == base + chunk_matches_in(cv.take(ci as int), pi as int, a@),
                forall|i: int|
                    0 <= i < out@.len() ==> (#[trigger] out@[i]).0 < s.phases@.len()
                        && out@[i].1 < s.phases@[out@[i].0 as int].chunks@.len() && out@[i].2
                        == 0,
            decreases chunks.len() - ci,
        {
            proof { lemma_take_push(cv, ci as int); }
            assert(cv[ci as int].id == chunks@[ci as int].id@);
            let ghost before = triples(out@);
            if chunks[ci].id == *a {
                out.push((pi, ci, 0));
                assert(triples(out@) =~= before.push((pi as int, ci as int, 0)));
            } else {
                assert(triples(out@) =~= before);
            }
            assert(triples(out@) =~= base + chunk_matches_in(cv.take(ci + 1), pi as int, a@));
            ci += 1;
        }
        assert(cv.take(chunks@.len() as int) =~= cv);
        proof { lemma_take_push(s@.phases, pi as int); }
        pi += 1;
    }
    assert(s@.phases.take(s.phases@.len() as int) =~= s@.phases);
    out
}

/// Find a chunk by slug id or dotted position (`"1.2"`). A bare slug must be
/// unique across all phases.
pub fn find_chunk<'s>(s: &'s Schedule, addr: &str) -> (r: Result<(usize, usize, &'s Chunk), RexError>)
    ensures
        match resolve_chunk(s@, addr@) {
            Resolved::Found(pi, ci, _) => r matches Ok((p, c, ch)) && p == pi && c == ci
                && pi < s.phases@.len() && ci < s.phases@[pi].chunks@.len()
                && *ch == s.phases@[pi].chunks@[ci],
            other => r matches Err(e) && lookup_error(other, addr@, e, false),
        },
{
    if let Some(parts) = parse_dotted(addr) {
        if parts.len() < 2 {
            return Err(not_found(addr));
        }
        let pi = parts[0] - 1;
        let ci = parts[1] - 1;
        assert(ints(parts@)[0] == parts@[0] as int && ints(parts@)[1] == parts@[1] as int);
        if pi < s.phases.len() && ci < s.phases[pi].chunks.len() {
            return Ok((pi, ci, &s.phases[pi].chunks[ci]));
        }
        return Err(not_found(addr));
    }
    let a = addr.to_owned();
    let m = collect_chunk_matches(s, &a);
    if m.len() == 0 {
        return Err(not_found(addr));
    } else if m.len() == 1 {
        let (pi, ci, _) = m[0];
        return Ok((pi, ci, &s.phases[pi].chunks[ci]));
    }
    proof {
        broadcast use vstd::std_specs::vec::axiom_spec_len;
        assert forall|i: int| 0 <= i < m@.len() implies (#[trigger] m@[i]).0 < usize::MAX
            && m@[i].1 < usize::MAX && m@[i].2 < usize::MAX by {
            assert(s.phases.len() == s.phases@.len());
            assert(s.phases@[m@[i].0 as int].chunks.len() == s.phases@[m@[i].0 as int].chunks@.len());
        }
    }
    let candidates = candidates_text(&m, false);
    Err(RexError::AmbiguousAddr { addr: addr.to_owned(), candidates })
}

/// Task matches of a bare slug within one phase.
fn collect_task_matches_phase(
    s: &Schedule,
    pi: usize,
    a: &String,
    out: &mut Vec<(usize, usize, usize)>,
)
    requires
        pi < s.phases@.len(),
        forall|i: int|
            0 <= i < old(out)@.len() ==> (#[trigger] old(out)@[i]).0 < s.phases@.len()
                && old(out)@[i].1 < s.phases@[old(out)@[i].0 as int].chunks@.len()
                && old(out)@[i].2 < s.phases@[old(out)@[i].0 as int].chunks@[old(out)@[i].1 as int].tasks@.len(),
    ensures
        triples(final(out)@) == triples(old(out)@) + task_matches_phase(
            s@.phases[pi as int].chunks,
            pi as int,
            a@,
        ),
        forall|i: int|
            0 <= i < final(out)@.len() ==> (#[trigger] final(out)@[i]).0 < s.phases@.len()
                && final(out)@[i].1 < s.phases@[final(out)@[i].0 as int].chunks@.len()
                && final(out)@[i].2 < s.phases@[final(out)@[i].0 as int].chunks@[final(out)@[i].1 as int].tasks@.len(),
{
    let chunks = &s.phases[pi].chunks;
    let ghost cv = s@.phases[pi as int].chunks;
    let ghost base = triples(out@);
    let mut ci: usize = 0;
    assert(cv.take(0) =~= Seq::<ChunkV>::empty());
    assert(triples(out@) =~= base + task_matches_phase(cv.take(0), pi as int, a@));
    while ci < chunks.len()
        invariant
            pi < s.phases@.len(),
            chunks == &s.phases@[pi as int].chunks,
            cv == chunks.deep_view(),
            ci <= chunks@.len(),
            triples(out@) == base + task_matches_phase(cv.take(ci as int), pi as int, a@),
            forall|i: int|
                0 <= i < out@.len() ==> (#[trigger] out@[i]).0 < s.phases@.len()
                    && out@[i].1 < s.phases@[out@[i].0 as int].chunks@.len()
                    && out@[i].2 < s.phases@[out@[i].0 as int].chunks@[out@[i].1 as int].tasks@.len(),
        decreases chunks.len() - ci,
    {
        proof { lemma_take_push(cv, ci as int); }
        let tasks = &chunks[ci].tasks;
        let ghost tv = cv[ci as int].tasks;
        assert(tv == tasks.deep_view());
        let ghost mid = triples(out@);
        let mut ti: usize = 0;
        assert(tv.take(0) =~= Seq::<TaskV>::empty());
        assert(triples(out@) =~= mid + task_matches_in(tv.take(0), pi as int, ci as int, a@));
        while ti < tasks.len()
            invariant
                pi < s.phases@.len(),
                ci < s.phases@[pi as int].chunks@.len(),
                tasks == &s.phases@[pi as int].chunks@[ci as int].tasks,
                tv == tasks.deep_view(),
                ti <= tasks@.len(),
                triples(out@) == mid + task_matches_in(tv.take(ti as int), pi as int, ci as int, a@),
                forall|i: int|
                    0 <= i < out@.len() ==> (#[trigger] out@[i]).0 < s.phases@.len()
                        && out@[i].1 < s.phases@[out@[i].0 as int].chunks@.len()
                        && out@[i].2 < s.phases@[out@[i].0 as int].chunks@[out@[i].1 as int].tasks@.len(),
            decreases tasks.len() - ti,
        {
            proof { lemma_take_push(tv, ti as int); }
            assert(tv[ti as int].id == tasks@[ti as int].id@);
            let ghost before = triples(out@);
            if tasks[ti].id == *a {
                out.push((pi, ci, ti));
                assert(triples(out@) =~= before.push((pi as int, ci as int, ti as int)));
            } else {
                assert(triples(out@) =~= before);
            }
            assert(triples(out@) =~= mid + task_matches_in(tv.take(ti + 1), pi as int, ci as int, a@));
            ti += 1;
        }
        assert(tv.take(tasks@.len() as int) =~= tv);
        assert(triples(out@) =~= base + task_matches_phase(cv.take(ci + 1), pi as int, a@));
        ci += 1;
    }
    assert(cv.take(chunks@.len() as int) =~= cv);
}

/// All task matches of a bare slug, in schedule order.
fn collect_task_matches(s: &Schedule, a: &String) -> (r: Vec<(usize, usize, usize)>)
    ensures
        triples(r@) == task_matches(s@.phases, a@),
        forall|i: int|
            0 <= i < r@.len() ==> (#[trigger] r@[i]).0 < s.phases@.len() && r@[i].1
                < s.phases@[r@[i].0 as int].chunks@.len()
                && r@[i].2 < s.phases@[r@[i].0 as int].chunks@[r@[i].1 as int].tasks@.len(),
{
    let mut out: Vec<(usize, usize, usize)> = Vec::new();
    let mut pi: usize = 0;
    assert(s@.phases.take(0) =~= Seq::<PhaseV>::empty());
    assert(triples(out@) =~= task_matches(s@.phases.take(0), a@));
    while pi < s.phases.len()
        invariant
            pi <= s.phases@.len(),
            triples(out@) == task_matches(s@.phases.take(pi as int), a@),
            forall|i: int|
                0 <= i < out@.len() ==> (#[trigger] out@[i]).0 < s.phases@.len() && out@[i].1
                    < s.phases@[out@[i].0 as int].chunks@.len()
                    && out@[i].2 < s.phases@[out@[i].0 as int].chunks@[out@[i].1 as int].tasks@.len(),
        decreases s.phases.len() - pi,
    {
        proof { lemma_take_push(s@.phases, pi as int); }
        collect_task_matches_phase(s, pi, a, &mut out);
        pi += 1;
    }
    assert(s@.phases.take(s.phases@.len() as int) =~= s@.phases);
    out
}

/// Find a task by slug id or dotted position (`"1.2.3"`). A bare slug must be
/// unique across all chunks.
pub fn find_task<'s>(s: &'s Schedule, addr: &str) -> (r: Result<(usize, usize, usize, &'s Task), RexError>)
    ensures
        match resolve_task(s@, addr@) {
            Resolved::Found(pi, ci, ti) => r matches Ok((p, c, t, tk)) && p == pi && c == ci
                && t == ti && pi < s.phases@.len() && ci < s.phases@[pi].chunks@.len()
                && ti < s.phases@[pi].chunks@[ci].tasks@.len()
                && *tk == s.phases@[pi].chunks@[ci].tasks@[ti],
            other => r matches Err(e) && lookup_error(other, addr@, e, true),
        },
{
    if let Some(parts) = parse_dotted(addr) {
        if parts.len() < 3 {
            return Err(not_found(addr));
        }
        let pi = parts[0] - 1;
        let ci = parts[1] - 1;
        let ti = parts[2] - 1;
        assert(ints(parts@)[0] == parts@[0] as int && ints(parts@)[1] == parts@[1] as int
            && ints(parts@)[2] == parts@[2] as int);
        if pi < s.phases.len() && ci < s.phases[pi].chunks.len()
            && ti < s.phases[pi].chunks[ci].tasks.len() {
            return Ok((pi, ci, ti, &s.phases[pi].chunks[ci].tasks[ti]));
        }
        return Err(not_found(addr));
    }
    let a = addr.to_owned();
    let m = collect_task_matches(s, &a);
    if m.len() == 0 {
        return Err(not_found(addr));
    } else if m.len() == 1 {
        let (pi, ci, ti) = m[0];
        return Ok((pi, ci, ti, &s.phases[pi].chunks[ci].tasks[ti]));
    }
    proof {
        broadcast use vstd::std_specs::vec::axiom_spec_len;
        assert forall|i: int| 0 <= i < m@.len() implies (#[trigger] m@[i]).0 < usize::MAX
            && m@[i].1 < usize::MAX && m@[i].2 < usize::MAX by {
            assert(s.phases.len() == s.phases@.len());
            assert(s.phases@[m@[i].0 as int].chunks.len() == s.phases@[m@[i].0 as int].chunks@.len());
            assert(s.phases@[m@[i].0 as int].chunks@[m@[i].1 as int].tasks.len()
                == s.phases@[m@[i].0 as int].chunks@[m@[i].1 as int].tasks@.len());
        }
    }
    let candidates = candidates_text(&m, true);
    Err(RexError::AmbiguousAddr { addr: addr.to_owned(), candidates })
}

// ── slugs ───────────────────────────────────────────────────────────────────

/// Character views of a list of string slices.
pub open spec fn str_views(e: Seq<&str>) -> Seq<Seq<char>> {
    e.map_values(|x: &str| x@)
}

/// `desired-n`.
pub open spec fn suffixed(desired: Seq<char>, n: nat) -> Seq<char> {
    desired + seq!['-'] + decimal(n)
}

/// `r` is the slug `unique_slug` picks: `desired` itself when free, otherwise
/// `desired-n` for the least `n >= 2` that is free.
pub open spec fn is_unique_slug(existing: Seq<Seq<char>>, desired: Seq<char>, r: Seq<char>) -> bool {
    if !existing.contains(desired) {
        r == desired
    } else {
        exists|n: nat|
            n >= 2 && r == suffixed(desired, n) && !existing.contains(r) && forall|m: nat|
                2 <= m < n ==> existing.contains(#[trigger] suffixed(desired, m))
    }
}

pub proof fn lemma_suffixed_injective(desired: Seq<char>, a: nat, b: nat)
    requires
        suffixed(desired, a) == suffixed(desired, b),
    ensures
        a == b,
{
    let k: int = desired.len() as int + 1;
    assert(suffixed(desired, a).subrange(k, suffixed(desired, a).len() as int) =~= decimal(a));
    assert(suffixed(desired, b).subrange(k, suffixed(desired, b).len() as int) =~= decimal(b));
    lemma_decimal_injective(a, b);
}

/// If every suffix `2..n` is taken, there are at least `n - 2` taken names.
pub proof fn lemma_taken_suffixes_bound(existing: Seq<Seq<char>>, desired: Seq<char>, n: int)
    requires
        n >= 2,
        forall|m: nat| 2 <= m < n ==> existing.contains(#[trigger] suffixed(desired, m)),
    ensures
        n - 2 <= existing.len(),
{
    let sr = vstd::set_lib::set_int_range(2, n);
    let f = |m: int| suffixed(desired, m as nat);
    vstd::set_lib::lemma_int_range(2, n);
    assert(vstd::relations::injective_on(f, sr)) by {
        assert forall|x: int, y: int| sr.contains(x) && sr.contains(y) && #[trigger] f(x) == #[trigger] f(y)
            implies x == y by {
            lemma_suffixed_injective(desired, x as nat, y as nat);
        }
    }
    vstd::set_lib::lemma_map_size(sr, sr.map(f), f);
    assert(sr.map(f).subset_of(existing.to_set())) by {
        assert forall|y: Seq<char>| sr.map(f).contains(y) implies existing.to_set().contains(y) by {
            let x = choose|x: int| sr.contains(x) && f(x) == y;
            assert(existing.contains(suffixed(desired, x as nat)));
        }
    }
    vstd::seq_lib::seq_to_set_is_finite(existing);
    vstd::set_lib::lemma_len_subset(sr.map(f), existing.to_set());
    existing.lemma_cardinality_of_set();
}

fn slice_contains(existing: &[&str], x: &str) -> (r: bool)
    ensures
        r == str_views(existing@).contains(x@),
{
    let mut i: usize = 0;
    while i < existing.len()
        invariant
            i <= existing@.len(),
            forall|k: int| 0 <= k < i ==> existing@[k]@ != x@,
        decreases existing.len() - i,
    {
        if str_eq(existing[i], x) {
            assert(str_views(existing@)[i as int] == x@);
            return true;
        }
        i += 1;
    }
    assert forall|k: int| 0 <= k < str_views(existing@).len() implies str_views(existing@)[k] != x@ by {
        assert(str_views(existing@)[k] == existing@[k]@);
    }
    false
}

/// Return a slug for `desired` that does not collide with `existing`:
/// `desired` itself if free, otherwise `desired-2`, `desired-3`, … skipping
/// any already taken.
pub fn unique_slug(existing: &[&str], desired: &str) -> (r: String)
    requires
        existing@.len() < usize::MAX - 2,
    ensures
        is_unique_slug(str_views(existing@), desired@, r@),
        !str_views(existing@).contains(r@),
{
    if !slice_contains(existing, desired) {
        return desired.to_owned();
    }
    let ghost ex = str_views(existing@);
    let mut n: usize = 2;
    proof { reveal_strlit("-"); }
    loop
        invariant
            2 <= n <= existing@.len() + 2,
            existing@.len() < usize::MAX - 2,
            ex == str_views(existing@),
            ex.contains(desired@),
            forall|m: nat| 2 <= m < n ==> ex.contains(#[trigger] suffixed(desired@, m)),
        decreases existing@.len() + 2 - n,
    {
        proof { reveal_strlit("-"); }
        let candidate = desired.to_owned().concat("-").concat(usize_to_decimal(n).as_str());
        assert(candidate@ =~= suffixed(desired@, n as nat));
        if !slice_contains(existing, candidate.as_str()) {
            return candidate;
        }
        proof { lemma_taken_suffixes_bound(ex, desired@, n + 1); }
        n += 1;
    }
}

/// What `slug::slugify` returns for a given text.
pub uninterp spec fn slugify_spec(s: Seq<char>) -> Seq<char>;

/// A character `slug::slugify` may emit.
pub open spec fn slug_char(c: char) -> bool {
    ('a' <= c && c <= 'z') || ('0' <= c && c <= '9') || c == '-'
}

/// Calls `slug::slugify`. Its documentation and source show that the result
/// consists of `a-z`, `0-9` and `-` only and never starts or ends with `-`;
/// the exact result for a given text is named by `slugify_spec`.
#[verifier::external_body]
fn slugify(s: &str) -> (r: String)
    ensures
        r@ == slugify_spec(s@),
        forall|i: int| 0 <= i < r@.len() ==> slug_char(#[trigger] r@[i]),
        r@.len() > 0 ==> r@[0] != '-' && r@.last() != '-',
{
    slug::slugify(s)
}

/// Derive a slug from a description and make it unique within `existing`.
pub fn slug_from_description(existing: &[&str], description: &str) -> (r: String)
    requires
        existing@.len() < usize::MAX - 2,
    ensures
        is_unique_slug(str_views(existing@), slugify_spec(description@), r@),
        !str_views(existing@).contains(r@),
{
    let base = slugify(description);
    unique_slug(existing, base.as_str())
}

/// The id of a new phase, chunk or task: the id given, or else the slug of
/// its description, made unique among `existing`.
pub fn fresh_slug(existing: &[&str], id: Option<&str>, description: &str) -> (r: String)
    requires
        existing@.len() < usize::MAX - 2,
    ensures
        match id {
            Some(x) => is_unique_slug(str_views(existing@), x@, r@),
            None => is_unique_slug(str_views(existing@), slugify_spec(description@), r@),
        },
        !str_views(existing@).contains(r@),
{
    match id {
        Some(x) => unique_slug(existing, x),
        None => slug_from_description(existing, description),
    }
}

// ── blocked-by rewriting ────────────────────────────────────────────────────

/// Character view of an optional string slice.
pub open spec fn opt_str_view(o: Option<&str>) -> Option<Seq<char>> {
    match o {
        Some(s) => Some(s@),
        None => None,
    }
}

/// Replace every `old` in `deps` by `new_id`, or drop it when `new_id` is `None`.
pub open spec fn rewrite_deps(deps: Seq<Seq<char>>, old: Seq<char>, new_id: Option<Seq<char>>) -> Seq<Seq<char>>
    decreases deps.len(),
{
    if deps.len() == 0 {
        seq![]
    } else {
        let r = rewrite_deps(deps.drop_last(), old, new_id);
        if deps.last() == old {
            match new_id {
                Some(n) => r.push(n),
                None => r,
            }
        } else {
            r.push(deps.last())
        }
    }
}

fn rewrite_list(deps: &Vec<String>, old: &str, new_id: Option<&str>) -> (r: Vec<String>)
    ensures
        r.deep_view() == rewrite_deps(deps.deep_view(), old@, opt_str_view(new_id)),
{
    let o = old.to_owned();
    let mut out: Vec<String> = Vec::new();
    let mut i: usize = 0;
    assert(deps.deep_view().take(0) =~= Seq::<Seq<char>>::empty());
    assert(out.deep_view() =~= Seq::<Seq<char>>::empty());
    while i < deps.len()
        invariant
            i <= deps@.len(),
            o@ == old@,
            out.deep_view() == rewrite_deps(deps.deep_view().take(i as int), old@, opt_str_view(new_id)),
        decreases deps.len() - i,
    {
        proof { lemma_take_push(deps.deep_view(), i as int); }
        let ghost before = out.deep_view();
        if deps[i] == o {
            match new_id {
                Some(n) => {
                    let c = n.to_owned();
                    out.push(c);
                    assert(out.deep_view() =~= before.push(n@));
                },
                None => {},
            }
        } else {
            let c = deps[i].clone();
            out.push(c);
            assert(out.deep_view() =~= before.push(deps@[i as int]@));
        }
        i += 1;
    }
    assert(deps.deep_view().take(deps@.len() as int) =~= deps.deep_view());
    out
}

/// Rewrite every phase-level `blocked_by` entry: rename `old_id` to `new_id`,
/// or drop it when `new_id` is `None` (used on phase removal).
pub fn rewrite_blocked_by_at_phase_level(s: &mut Schedule, old_id: &str, new_id: Option<&str>)
    ensures
        final(s)@.project == old(s)@.project,
        final(s)@.phases.len() == old(s)@.phases.len(),
        forall|i: int|
            0 <= i < final(s)@.phases.len() ==> #[trigger] final(s)@.phases[i] == (PhaseV {
                blocked_by: rewrite_deps(old(s)@.phases[i].blocked_by, old_id@, opt_str_view(new_id)),
                ..old(s)@.phases[i]
            }),
{
    let mut i: usize = 0;
    while i < s.phases.len()
        invariant
            i <= s.phases@.len(),
            s@.project == old(s)@.project,
            s.phases@.len() == old(s).phases@.len(),
            forall|k: int|
                0 <= k < s.phases@.len() ==> #[trigger] s@.phases[k] == if k < i {
                    PhaseV {
                        blocked_by: rewrite_deps(old(s)@.phases[k].blocked_by, old_id@, opt_str_view(new_id)),
                        ..old(s)@.phases[k]
                    }
                } else {
                    old(s)@.phases[k]
                },
        decreases s.phases.len() - i,
    {
        let nb = rewrite_list(&s.phases[i].blocked_by, old_id, new_id);
        let ghost pre = s@.phases;
        let ghost nbv = nb.deep_view();
        s.phases[i].blocked_by = nb;
        assert(s@.phases =~= pre.update(i as int, PhaseV { blocked_by: nbv, ..pre[i as int] }));
        i += 1;
    }
}

/// Rewrite every chunk-level `blocked_by` entry within the phase at
/// `phase_idx`; `new_id = None` drops occurrences. An out-of-range phase
/// index leaves the schedule unchanged.
pub fn rewrite_blocked_by_at_chunk_level(
    s: &mut Schedule,
    phase_idx: usize,
    old_id: &str,
    new_id: Option<&str>,
)
    ensures
        phase_idx >= old(s)@.phases.len() ==> final(s)@ == old(s)@,
        phase_idx < old(s)@.phases.len() ==> final(s)@ == (ScheduleV {
            phases: old(s)@.phases.update(phase_idx as int, PhaseV {
                chunks: rewrite_chunk_deps(old(s)@.phases[phase_idx as int].chunks, old_id@, opt_str_view(new_id)),
                ..old(s)@.phases[phase_idx as int]
            }),
            ..old(s)@
        }),
{
    if phase_idx >= s.phases.len() {
        return;
    }
    let ghost start = s@;
    let mut i: usize = 0;
    while i < s.phases[phase_idx].chunks.len()
        invariant
            phase_idx < s.phases@.len(),
            i <= s.phases@[phase_idx as int].chunks@.len(),
            s@.project == start.project,
            s@.phases.len() == start.phases.len(),
            forall|k: int| 0 <= k < s@.phases.len() && k != phase_idx ==> #[trigger] s@.phases[k] == start.phases[k],
            s@.phases[phase_idx as int].id == start.phases[phase_idx as int].id,
            s@.phases[phase_idx as int].description == start.phases[phase_idx as int].description,
            s@.phases[phase_idx as int].blocked_by == start.phases[phase_idx as int].blocked_by,
            s@.phases[phase_idx as int].state == start.phases[phase_idx as int].state,
            s@.phases[phase_idx as int].chunks.len() == start.phases[phase_idx as int].chunks.len(),
            forall|k: int|
                0 <= k < s@.phases[phase_idx as int].chunks.len() ==> #[trigger] s@.phases[phase_idx as int].chunks[k]
                    == if k < i {
                    rewrite_chunk(start.phases[phase_idx as int].chunks[k], old_id@, opt_str_view(new_id))
                } else {
                    start.phases[phase_idx as int].chunks[k]
                },
        decreases s.phases@[phase_idx as int].chunks@.len() - i,
    {
        let nb = rewrite_list(&s.phases[phase_idx].chunks[i].blocked_by, old_id, new_id);
        let ghost pre = s@.phases;
        let ghost nbv = nb.deep_view();
        s.phases[phase_idx].chunks[i].blocked_by = nb;
        assert(s@.phases[phase_idx as int].chunks =~= pre[phase_idx as int].chunks.update(
            i as int,
            ChunkV { blocked_by: nbv, ..pre[phase_idx as int].chunks[i as int] },
        ));
        assert(s@.phases =~= pre.update(phase_idx as int, PhaseV {
            chunks: s@.phases[phase_idx as int].chunks,
            ..pre[phase_idx as int]
        }));
        i += 1;
    }
    assert(s@.phases[phase_idx as int].chunks =~= rewrite_chunk_deps(start.phases[phase_idx as int].chunks, old_id@, opt_str_view(new_id)));
    assert(s@.phases =~= start.phases.update(phase_idx as int, PhaseV {
        chunks: rewrite_chunk_deps(start.phases[phase_idx as int].chunks, old_id@, opt_str_view(new_id)),
        ..start.phases[phase_idx as int]
    }));
}

/// A chunk with its `blocked_by` rewritten.
pub open spec fn rewrite_chunk(c: ChunkV, old: Seq<char>, new_id: Option<Seq<char>>) -> ChunkV {
    ChunkV { blocked_by: rewrite_deps(c.blocked_by, old, new_id), ..c }
}

/// Every chunk of a phase with its `blocked_by` rewritten.
pub open spec fn rewrite_chunk_deps(cs: Seq<ChunkV>, old: Seq<char>, new_id: Option<Seq<char>>) -> Seq<ChunkV> {
    cs.map_values(|c: ChunkV| rewrite_chunk(c, old, new_id))
}

} // verus!
