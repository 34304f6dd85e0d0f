//! Cycle detection over `blocked_by` references between items of one level.
//!
//! Items are identified by id; an item's `blocked_by` entries that name no
//! item are ignored. The items can be ordered so that every item follows the
//! items blocking it exactly when no non-empty set of items is "stuck", each
//! member being blocked by another member; a stuck set exists exactly when the
//! references contain a cycle.

use vstd::prelude::*;

verus! {

/// `x` blocks `y`: `x` is an item id and some item with id `y` lists `x`.
pub open spec fn blocks(ids: Seq<Seq<char>>, deps: Seq<Seq<Seq<char>>>, x: Seq<char>, y: Seq<char>) -> bool {
    ids.contains(x) && exists|k: int| 0 <= k < ids.len() && ids[k] == y && #[trigger] deps[k].contains(x)
}

/// Every member of `set` is an item id blocked by another member of `set`.
pub open spec fn is_stuck(ids: Seq<Seq<char>>, deps: Seq<Seq<Seq<char>>>, set: Set<Seq<char>>) -> bool {
    &&& exists|y: Seq<char>| set.contains(y)
    &&& forall|y: Seq<char>|
        #![trigger set.contains(y)]
        set.contains(y) ==> ids.contains(y) && exists|x: Seq<char>| set.contains(x) && blocks(ids, deps, x, y)
}

/// The `blocked_by` references contain a cycle.
pub open spec fn has_cycle(ids: Seq<Seq<char>>, deps: Seq<Seq<Seq<char>>>) -> bool {
    exists|set: Set<Seq<char>>| is_stuck(ids, deps, set)
}

/// `x` belongs to a stuck set of items.
pub open spec fn in_stuck_set(ids: Seq<Seq<char>>, deps: Seq<Seq<Seq<char>>>, x: Seq<char>) -> bool {
    exists|set: Set<Seq<char>>| is_stuck(ids, deps, set) && set.contains(x)
}

/// `x` lies on a cycle: a path of at least one step leads from `x` back to
/// `x`, each item on it blocked by the next.
pub open spec fn on_cycle(ids: Seq<Seq<char>>, deps: Seq<Seq<Seq<char>>>, x: Seq<char>) -> bool {
    exists|path: Seq<Seq<char>>|
        #![trigger path.len()]
        path.len() >= 2 && path[0] == x && path[path.len() - 1] == x && forall|i: int|
            0 <= i < path.len() - 1 ==> blocks(ids, deps, #[trigger] path[i + 1], path[i])
}

/// `v` occurs in `s`.
pub open spec fn has_idx(s: Seq<usize>, v: int) -> bool {
    exists|t: int| 0 <= t < s.len() && s[t] as int == v
}

/// Number of `false` entries.
pub open spec fn count_false(s: Seq<bool>) -> nat
    decreases s.len(),
{
    if s.len() == 0 {
        0
    } else {
        count_false(s.drop_last()) + if s.last() { 0nat } else { 1nat }
    }
}

pub proof fn lemma_count_false_update(s: Seq<bool>, u: int)
    requires
        0 <= u < s.len(),
        !s[u],
    ensures
        count_false(s.update(u, true)) + 1 == count_false(s),
    decreases s.len(),
{
    if u == s.len() - 1 {
        assert(s.update(u, true).drop_last() =~= s.drop_last());
    } else {
        assert(s.update(u, true).drop_last() =~= s.drop_last().update(u, true));
        lemma_count_false_update(s.drop_last(), u);
    }
}

fn index_of(nodes: &Vec<String>, x: &String) -> (r: Option<usize>)
    requires
        nodes.deep_view().no_duplicates(),
    ensures
        r matches Some(v) ==> v < nodes@.len() && nodes@[v as int]@ == x@,
        r is None ==> !nodes.deep_view().contains(x@),
{
    let mut i: usize = 0;
    while i < nodes.len()
        invariant
            i <= nodes@.len(),
            forall|k: int| 0 <= k < i ==> nodes@[k]@ != x@,
        decreases nodes.len() - i,
    {
        if nodes[i] == *x {
            return Some(i);
        }
        i += 1;
    }
    assert forall|k: int| 0 <= k < nodes.deep_view().len() implies nodes.deep_view()[k] != x@ by {
        assert(nodes.deep_view()[k] == nodes@[k]@);
    }
    proof { false_contains(nodes.deep_view(), x@); }
    None
}

proof fn false_contains(s: Seq<Seq<char>>, x: Seq<char>)
    requires
        forall|k: int| 0 <= k < s.len() ==> s[k] != x,
    ensures
        !s.contains(x),
{
}

/// The distinct ids, in first-occurrence order.
fn distinct_ids(ids: &Vec<String>) -> (nodes: Vec<String>)
    ensures
        nodes.deep_view().no_duplicates(),
        forall|x: Seq<char>| nodes.deep_view().contains(x) <==> ids.deep_view().contains(x),
{
    let mut nodes: Vec<String> = Vec::new();
    let mut i: usize = 0;
    while i < ids.len()
        invariant
            i <= ids@.len(),
            nodes.deep_view().no_duplicates(),
            forall|x: Seq<char>| nodes.deep_view().contains(x) <==> ids.deep_view().take(i as int).contains(x),
        decreases ids.len() - i,
    {
        let ghost before = nodes.deep_view();
        let ghost x = ids@[i as int]@;
        let ghost pre = ids.deep_view().take(i as int);
        assert(ids.deep_view().take(i + 1) =~= pre.push(x));
        match index_of(&nodes, &ids[i]) {
            Some(v) => {
                assert(before[v as int] == x);
                assert forall|y: Seq<char>| nodes.deep_view().contains(y) <==> ids.deep_view().take(i + 1).contains(y) by {
                    if pre.push(x).contains(y) && y != x {
                        let t = choose|t: int| 0 <= t < pre.push(x).len() && pre.push(x)[t] == y;
                        assert(pre[t] == y);
                    }
                    if pre.contains(y) {
                        let t = choose|t: int| 0 <= t < pre.len() && pre[t] == y;
                        assert(pre.push(x)[t] == y);
                    }
                }
            },
            None => {
                nodes.push(ids[i].clone());
                assert(nodes.deep_view() =~= before.push(x));
                assert forall|y: Seq<char>| nodes.deep_view().contains(y) <==> ids.deep_view().take(i + 1).contains(y) by {
                    if pre.push(x).contains(y) && y != x {
                        let t = choose|t: int| 0 <= t < pre.push(x).len() && pre.push(x)[t] == y;
                        assert(pre[t] == y);
                    }
                    if pre.contains(y) {
                        let t = choose|t: int| 0 <= t < pre.len() && pre[t] == y;
                        assert(pre.push(x)[t] == y);
                    }
                    if before.push(x).contains(y) && y != x {
                        let t = choose|t: int| 0 <= t < before.push(x).len() && before.push(x)[t] == y;
                        assert(before[t] == y);
                    }
                    if before.contains(y) {
                        let t = choose|t: int| 0 <= t < before.len() && before[t] == y;
                        assert(before.push(x)[t] == y);
                    }
                    if y == x {
                        assert(before.push(x)[before.len() as int] == x);
                        assert(pre.push(x)[pre.len() as int] == x);
                    }
                }
            },
        }
        i += 1;
    }
    assert(ids.deep_view().take(ids@.len() as int) =~= ids.deep_view());
    nodes
}

/// Predecessor lists: `v` is in `preds[u]` exactly when `nodes[v]` blocks `nodes[u]`.
pub open spec fn preds_ok(
    ids: Seq<Seq<char>>,
    deps: Seq<Seq<Seq<char>>>,
    nodes: Seq<Seq<char>>,
    preds: Seq<Seq<usize>>,
) -> bool {
    &&& preds.len() == nodes.len()
    &&& forall|u: int, t: int| 0 <= u < preds.len() && 0 <= t < preds[u].len() ==> #[trigger] preds[u][t] < nodes.len()
    &&& forall|u: int, v: int|
        0 <= u < nodes.len() && 0 <= v < nodes.len() ==> (#[trigger] has_idx(preds[u], v)
            <==> blocks(ids, deps, nodes[v], nodes[u]))
}

fn preds_of(
    ids: &Vec<String>,
    deps: &Vec<Vec<String>>,
    nodes: &Vec<String>,
    u: usize,
) -> (out: Vec<usize>)
    requires
        ids@.len() == deps@.len(),
        u < nodes@.len(),
        nodes.deep_view().no_duplicates(),
        forall|x: Seq<char>| nodes.deep_view().contains(x) <==> ids.deep_view().contains(x),
    ensures
        forall|t: int| 0 <= t < out@.len() ==> #[trigger] out@[t] < nodes@.len(),
        forall|v: int|
            0 <= v < nodes@.len() ==> (#[trigger] has_idx(out@, v) <==> blocks(
                ids.deep_view(),
                deps.deep_view(),
                nodes.deep_view()[v],
                nodes.deep_view()[u as int],
            )),
{
    let ghost iv = ids.deep_view();
    let ghost dv = deps.deep_view();
    let ghost nv = nodes.deep_view();
    let mut out: Vec<usize> = Vec::new();
    let mut k: usize = 0;
    while k < ids.len()
        invariant
            ids@.len() == deps@.len(),
            iv == ids.deep_view(),
            dv == deps.deep_view(),
            nv == nodes.deep_view(),
            u < nodes@.len(),
            nv.no_duplicates(),
            k <= ids@.len(),
            forall|t: int| 0 <= t < out@.len() ==> #[trigger] out@[t] < nodes@.len(),
            forall|v: int|
                0 <= v < nodes@.len() ==> (#[trigger] has_idx(out@, v) <==> exists|kk: int|
                    0 <= kk < k && iv[kk] == nv[u as int] && #[trigger] dv[kk].contains(nv[v])),
        decreases ids.len() - k,
    {
        if ids[k] == nodes[u] {
            let ds = &deps[k];
            let mut j: usize = 0;
            while j < ds.len()
                invariant
                    ids@.len() == deps@.len(),
                    iv == ids.deep_view(),
                    dv == deps.deep_view(),
                    nv == nodes.deep_view(),
                    u < nodes@.len(),
                    nv.no_duplicates(),
                    k < ids@.len(),
                    iv[k as int] == nv[u as int],
                    ds == &deps@[k as int],
                    j <= ds@.len(),
                    forall|t: int| 0 <= t < out@.len() ==> #[trigger] out@[t] < nodes@.len(),
                    forall|v: int|
                        0 <= v < nodes@.len() ==> (#[trigger] has_idx(out@, v) <==> (exists|kk: int|
                            0 <= kk < k && iv[kk] == nv[u as int] && #[trigger] dv[kk].contains(nv[v]))
                            || exists|jj: int| 0 <= jj < j && ds@[jj]@ == nv[v]),
                decreases ds.len() - j,
            {
                let ghost before = out@;
                match index_of(nodes, &ds[j]) {
                    Some(v) => {
                        out.push(v);
                        assert forall|w: int| 0 <= w < nodes@.len() implies (#[trigger] has_idx(out@, w) <==> (exists|kk: int|
                            0 <= kk < k && iv[kk] == nv[u as int] && #[trigger] dv[kk].contains(nv[w]))
                            || exists|jj: int| 0 <= jj < j + 1 && ds@[jj]@ == nv[w]) by {
                            if has_idx(out@, w) && !has_idx(before, w) {
                                let t = choose|t: int| 0 <= t < out@.len() && out@[t] as int == w;
                                if t < before.len() {
                                    assert(before[t] == out@[t]);
                                }
                                assert(w == v);
                                assert(ds@[j as int]@ == nv[w]);
                            }
                            if exists|jj: int| 0 <= jj < j + 1 && ds@[jj]@ == nv[w] {
                                let jj = choose|jj: int| 0 <= jj < j + 1 && ds@[jj]@ == nv[w];
                                if jj == j {
                                    assert(nv[v as int] == nv[w]);
                                    assert(v as int == w) by {
                                        assert(nv[v as int] == nv[w]);
                                    }
                                    assert(out@[before.len() as int] == v);
                                    assert(has_idx(out@, w));
                                } else {
                                    assert(has_idx(before, w));
                                    let t = choose|t: int| 0 <= t < before.len() && before[t] as int == w;
                                    assert(out@[t] == before[t]);
                                }
                            }
                            if has_idx(before, w) {
                                let t = choose|t: int| 0 <= t < before.len() && before[t] as int == w;
                                assert(out@[t] == before[t]);
                            }
                        }
                    },
                    None => {
                        assert forall|w: int| 0 <= w < nodes@.len() implies (#[trigger] has_idx(out@, w) <==> (exists|kk: int|
                            0 <= kk < k && iv[kk] == nv[u as int] && #[trigger] dv[kk].contains(nv[w]))
                            || exists|jj: int| 0 <= jj < j + 1 && ds@[jj]@ == nv[w]) by {
                            if exists|jj: int| 0 <= jj < j + 1 && ds@[jj]@ == nv[w] {
                                let jj = choose|jj: int| 0 <= jj < j + 1 && ds@[jj]@ == nv[w];
                                if jj == j {
                                    assert(nv.contains(nv[w]));
                                }
                            }
                        }
                    },
                }
                j += 1;
            }
            assert forall|v: int| 0 <= v < nodes@.len() implies (#[trigger] has_idx(out@, v) <==> exists|kk: int|
                0 <= kk < k + 1 && iv[kk] == nv[u as int] && #[trigger] dv[kk].contains(nv[v])) by {
                assert(dv[k as int] == ds.deep_view());
                if exists|jj: int| 0 <= jj < ds@.len() && ds@[jj]@ == nv[v] {
                    let jj = choose|jj: int| 0 <= jj < ds@.len() && ds@[jj]@ == nv[v];
                    assert(ds.deep_view()[jj] == nv[v]);
                    assert(dv[k as int].contains(nv[v]));
                }
                if dv[k as int].contains(nv[v]) {
                    let jj = choose|jj: int| 0 <= jj < dv[k as int].len() && dv[k as int][jj] == nv[v];
                    assert(ds@[jj]@ == nv[v]);
                }
            }
        } else {
            assert forall|v: int| 0 <= v < nodes@.len() implies (#[trigger] has_idx(out@, v) <==> exists|kk: int|
                0 <= kk < k + 1 && iv[kk] == nv[u as int] && #[trigger] dv[kk].contains(nv[v])) by {
                assert(iv[k as int] == ids@[k as int]@);
            }
        }
        k += 1;
    }
    assert forall|v: int| 0 <= v < nodes@.len() implies (#[trigger] has_idx(out@, v) <==> blocks(iv, dv, nv[v], nv[u as int])) by {
        assert(nv.contains(nv[v]));
    }
    out
}


pub proof fn lemma_count_false_all(s: Seq<bool>)
    requires
        forall|k: int| 0 <= k < s.len() ==> !#[trigger] s[k],
    ensures
        count_false(s) == s.len(),
    decreases s.len(),
{
    if s.len() > 0 {
        lemma_count_false_all(s.drop_last());
    }
}

/// Every predecessor of `u` is removed.
pub open spec fn ready(preds: Seq<Seq<usize>>, removed: Seq<bool>, u: int) -> bool {
    forall|t: int| 0 <= t < preds[u].len() ==> removed[#[trigger] preds[u][t] as int]
}

/// Removed nodes were removed after all their predecessors.
pub open spec fn ranked(preds: Seq<Seq<usize>>, removed: Seq<bool>, rank: Seq<int>, step: int) -> bool {
    &&& rank.len() == removed.len()
    &&& forall|u: int|
        0 <= u < removed.len() && #[trigger] removed[u] ==> 0 <= rank[u] < step && forall|t: int|
            0 <= t < preds[u].len() ==> removed[#[trigger] preds[u][t] as int] && rank[preds[u][t] as int]
                < rank[u]
}

fn find_ready(preds: &Vec<Vec<usize>>, removed: &Vec<bool>) -> (r: Option<usize>)
    requires
        preds@.len() == removed@.len(),
        forall|u: int, t: int|
            0 <= u < preds@.len() && 0 <= t < preds@[u]@.len() ==> #[trigger] preds@[u]@[t] < removed@.len(),
    ensures
        r matches Some(u) ==> u < removed@.len() && !removed@[u as int] && ready(preds.deep_view(), removed@, u as int),
        r is None ==> forall|u: int| 0 <= u < removed@.len() && !removed@[u] ==> !ready(preds.deep_view(), removed@, u),
{
    let mut u: usize = 0;
    while u < removed.len()
        invariant
            preds@.len() == removed@.len(),
            forall|a: int, t: int|
                0 <= a < preds@.len() && 0 <= t < preds@[a]@.len() ==> #[trigger] preds@[a]@[t] < removed@.len(),
            u <= removed@.len(),
            forall|w: int| 0 <= w < u && !removed@[w] ==> !ready(preds.deep_view(), removed@, w),
        decreases removed.len() - u,
    {
        if !removed[u] {
            let ps = &preds[u];
            let mut t: usize = 0;
            let mut ok = true;
            while t < ps.len()
                invariant
                    preds@.len() == removed@.len(),
                    u < removed@.len(),
                    ps == &preds@[u as int],
                    forall|a: int, tt: int|
                        0 <= a < preds@.len() && 0 <= tt < preds@[a]@.len() ==> #[trigger] preds@[a]@[tt] < removed@.len(),
                    t <= ps@.len(),
                    ok == forall|k: int| 0 <= k < t ==> removed@[#[trigger] ps@[k] as int],
                decreases ps.len() - t,
            {
                let v = ps[t];
                if !removed[v] {
                    ok = false;
                }
                t += 1;
            }
            assert(preds.deep_view()[u as int] == ps@);
            if ok {
                return Some(u);
            }
        }
        u += 1;
    }
    None
}

/// No stuck set exists when every node was removed after its predecessors.
pub proof fn lemma_all_removed_no_stuck(
    ids: Seq<Seq<char>>,
    deps: Seq<Seq<Seq<char>>>,
    nodes: Seq<Seq<char>>,
    preds: Seq<Seq<usize>>,
    removed: Seq<bool>,
    rank: Seq<int>,
    step: int,
    set: Set<Seq<char>>,
)
    requires
        preds_ok(ids, deps, nodes, preds),
        removed.len() == nodes.len(),
        forall|x: Seq<char>| nodes.contains(x) <==> ids.contains(x),
        forall|u: int| 0 <= u < removed.len() ==> #[trigger] removed[u],
        ranked(preds, removed, rank, step),
    ensures
        !is_stuck(ids, deps, set),
{
    if is_stuck(ids, deps, set) {
        let y = choose|y: Seq<char>| set.contains(y);
        assert(nodes.contains(y));
        let u = choose|u: int| 0 <= u < nodes.len() && nodes[u] == y;
        assert(removed[u]);
        lemma_rank_excludes(ids, deps, nodes, preds, removed, rank, step, set, rank[u]);
    }
}

#[verifier::spinoff_prover]
proof fn lemma_rank_excludes(
    ids: Seq<Seq<char>>,
    deps: Seq<Seq<Seq<char>>>,
    nodes: Seq<Seq<char>>,
    preds: Seq<Seq<usize>>,
    removed: Seq<bool>,
    rank: Seq<int>,
    step: int,
    set: Set<Seq<char>>,
    r: int,
)
    requires
        preds_ok(ids, deps, nodes, preds),
        removed.len() == nodes.len(),
        forall|x: Seq<char>| nodes.contains(x) <==> ids.contains(x),
        forall|u: int| 0 <= u < removed.len() ==> #[trigger] removed[u],
        ranked(preds, removed, rank, step),
        is_stuck(ids, deps, set),
        r >= 0,
    ensures
        forall|u: int| 0 <= u < nodes.len() && rank[u] <= r ==> !set.contains(#[trigger] nodes[u]),
    decreases r,
{
    assert forall|u: int| 0 <= u < nodes.len() && rank[u] <= r implies !set.contains(#[trigger] nodes[u]) by {
        if set.contains(nodes[u]) {
            let x = choose|x: Seq<char>| set.contains(x) && blocks(ids, deps, x, nodes[u]);
            assert(nodes.contains(x));
            let v = choose|v: int| 0 <= v < nodes.len() && nodes[v] == x;
            assert(has_idx(preds[u], v));
            let t = choose|t: int| 0 <= t < preds[u].len() && preds[u][t] as int == v;
            assert(removed[u]);
            assert(rank[preds[u][t] as int] < rank[u]);
            if r > 0 {
                lemma_rank_excludes(ids, deps, nodes, preds, removed, rank, step, set, r - 1);
            }
            assert(removed[v]);
        }
    }
}

/// When no unremoved node is ready, the unremoved nodes form a stuck set.
proof fn lemma_unremoved_stuck(
    iv: Seq<Seq<char>>,
    dv: Seq<Seq<Seq<char>>>,
    nv: Seq<Seq<char>>,
    pv: Seq<Seq<usize>>,
    removed: Seq<bool>,
    k: int,
)
    requires
        preds_ok(iv, dv, nv, pv),
        removed.len() == nv.len(),
        forall|x: Seq<char>| nv.contains(x) <==> iv.contains(x),
        0 <= k < nv.len(),
        !removed[k],
        forall|w: int| 0 <= w < nv.len() && !removed[w] ==> !ready(pv, removed, w),
    ensures
        in_stuck_set(iv, dv, nv[k]),
{
    let n = nv.len();
    let stuck = Set::new(|y: Seq<char>| exists|j: int| 0 <= j < n && !removed[j] && nv[j] == y);
    assert(stuck.contains(nv[k]));
    assert forall|y: Seq<char>| #[trigger] stuck.contains(y) implies iv.contains(y)
        && exists|x: Seq<char>| stuck.contains(x) && blocks(iv, dv, x, y) by {
        let j = choose|j: int| 0 <= j < n && !removed[j] && nv[j] == y;
        assert(nv.contains(nv[j]));
        assert(!ready(pv, removed, j));
        let t = choose|t: int| 0 <= t < pv[j].len() && !removed[pv[j][t] as int];
        let v = pv[j][t] as int;
        assert(has_idx(pv[j], v));
        assert(stuck.contains(nv[v]));
    }
    assert(is_stuck(iv, dv, stuck));
}

/// Walk from the unremoved node `k` to an unremoved predecessor, again and
/// again, until a node repeats: that node lies on a cycle.
fn cycle_node(
    preds: &Vec<Vec<usize>>,
    removed: &Vec<bool>,
    k: usize,
    Ghost(iv): Ghost<Seq<Seq<char>>>,
    Ghost(dv): Ghost<Seq<Seq<Seq<char>>>>,
    Ghost(nv): Ghost<Seq<Seq<char>>>,
) -> (c: usize)
    requires
        preds_ok(iv, dv, nv, preds.deep_view()),
        preds@.len() == nv.len(),
        removed@.len() == nv.len(),
        k < nv.len(),
        !removed@[k as int],
        forall|w: int| 0 <= w < nv.len() && !removed@[w] ==> !ready(preds.deep_view(), removed@, w),
    ensures
        c < nv.len(),
        !removed@[c as int],
        on_cycle(iv, dv, nv[c as int]),
{
    let ghost pv = preds.deep_view();
    let n = removed.len();
    let mut seen: Vec<bool> = Vec::new();
    let mut at: Vec<usize> = Vec::new();
    let mut i: usize = 0;
    while i < n
        invariant
            n == removed@.len(),
            i <= n,
            seen@.len() == i,
            at@.len() == i,
            forall|j: int| 0 <= j < i ==> !#[trigger] seen@[j],
        decreases n - i,
    {
        seen.push(false);
        at.push(0);
        i += 1;
    }
    proof { lemma_count_false_all(seen@); }
    let mut cur = k;
    let mut steps: usize = 0;
    let ghost mut walk: Seq<int> = seq![k as int];
    loop
        invariant
            n == removed@.len(),
            n == nv.len(),
            preds@.len() == n,
            pv == preds.deep_view(),
            preds_ok(iv, dv, nv, pv),
            forall|w: int| 0 <= w < n && !removed@[w] ==> !ready(pv, removed@, w),
            seen@.len() == n,
            at@.len() == n,
            cur < n,
            walk.len() == steps + 1,
            walk[steps as int] == cur as int,
            count_false(seen@) + steps == n,
            forall|t: int| 0 <= t < walk.len() ==> 0 <= #[trigger] walk[t] < n && !removed@[walk[t]],
            forall|t: int| 0 <= t < walk.len() - 1 ==> has_idx(pv[walk[t]], #[trigger] walk[t + 1]),
            forall|v: int| 0 <= v < n && #[trigger] seen@[v] ==> (at@[v] as int) < steps && walk[at@[v] as int] == v,
        decreases count_false(seen@),
    {
        if seen[cur] {
            let p = at[cur];
            proof {
                let path = walk.subrange(p as int, walk.len() as int).map_values(|j: int| nv[j]);
                assert(path.len() >= 2);
                assert(path[0] == nv[cur as int]);
                assert(path[path.len() - 1] == nv[cur as int]);
                assert forall|i: int| 0 <= i < path.len() - 1 implies blocks(iv, dv, #[trigger] path[i + 1], path[i]) by {
                    let a = walk[p + i];
                    let b = walk[p + i + 1];
                    assert(has_idx(pv[a], b));
                    assert(path[i] == nv[a] && path[i + 1] == nv[b]);
                }
            }
            return cur;
        }
        proof {
            assert(!ready(pv, removed@, cur as int));
            lemma_count_false_update(seen@, cur as int);
        }
        let ps = &preds[cur];
        assert(ps@ == pv[cur as int]);
        let mut t: usize = 0;
        let mut next: usize = n;
        while t < ps.len()
            invariant
                ps@ == pv[cur as int],
                n == removed@.len(),
                cur < n,
                preds_ok(iv, dv, nv, pv),
                pv.len() == n,
                t <= ps@.len(),
                next <= n,
                next == n ==> forall|j: int| 0 <= j < t ==> removed@[#[trigger] ps@[j] as int],
                next < n ==> !removed@[next as int] && has_idx(ps@, next as int),
            decreases ps.len() - t,
        {
            if next == n {
                let v = ps[t];
                assert(v < n);
                if !removed[v] {
                    next = v;
                }
            }
            t += 1;
        }
        if next == n {
            assert(ready(pv, removed@, cur as int));
            assert(false);
        }
        assert(next < n);
        assert(has_idx(pv[cur as int], next as int));
        let ghost seen0 = seen@;
        let ghost at0 = at@;
        seen.set(cur, true);
        at.set(cur, steps);
        proof {
            let w0 = walk;
            walk = walk.push(next as int);
            assert(walk[steps as int] == cur as int);
            assert forall|t: int| 0 <= t < walk.len() implies 0 <= #[trigger] walk[t] < n && !removed@[walk[t]] by {
                if t < w0.len() {
                    assert(walk[t] == w0[t]);
                }
            }
            assert forall|t: int| 0 <= t < walk.len() - 1 implies has_idx(pv[walk[t]], #[trigger] walk[t + 1]) by {
                if t < w0.len() - 1 {
                    assert(walk[t] == w0[t] && walk[t + 1] == w0[t + 1]);
                } else {
                    assert(walk[t] == cur as int && walk[t + 1] == next as int);
                }
            }
            assert forall|v: int| 0 <= v < n && #[trigger] seen@[v] implies (at@[v] as int) < steps + 1 && walk[at@[v] as int] == v by {
                if v != cur as int {
                    assert(seen0[v]);
                    assert(walk[at0[v] as int] == w0[at0[v] as int]);
                }
            }
        }
        cur = next;
        steps += 1;
    }
}

/// The id of an item on a `blocked_by` cycle, or `None` when the references
/// are acyclic.
pub fn cycle_member(ids: &Vec<String>, deps: &Vec<Vec<String>>) -> (r: Option<String>)
    requires
        ids@.len() == deps@.len(),
    ensures
        r is None <==> !has_cycle(ids.deep_view(), deps.deep_view()),
        r matches Some(x) ==> in_stuck_set(ids.deep_view(), deps.deep_view(), x@) && on_cycle(
            ids.deep_view(),
            deps.deep_view(),
            x@,
        ),
{
    let ghost iv = ids.deep_view();
    let ghost dv = deps.deep_view();
    let nodes = distinct_ids(ids);
    let ghost nv = nodes.deep_view();
    let mut preds: Vec<Vec<usize>> = Vec::new();
    let mut u: usize = 0;
    while u < nodes.len()
        invariant
            ids@.len() == deps@.len(),
            iv == ids.deep_view(),
            dv == deps.deep_view(),
            nv == nodes.deep_view(),
            nv.no_duplicates(),
            forall|x: Seq<char>| nv.contains(x) <==> iv.contains(x),
            u <= nodes@.len(),
            preds@.len() == u,
            forall|a: int, t: int| 0 <= a < u && 0 <= t < preds@[a]@.len() ==> #[trigger] preds@[a]@[t] < nodes@.len(),
            forall|a: int, v: int|
                0 <= a < u && 0 <= v < nodes@.len() ==> (#[trigger] has_idx(preds@[a]@, v) <==> blocks(iv, dv, nv[v], nv[a])),
        decreases nodes.len() - u,
    {
        let p = preds_of(ids, deps, &nodes, u);
        preds.push(p);
        u += 1;
    }
    let ghost pv = preds.deep_view();
    assert(preds_ok(iv, dv, nv, pv)) by {
        assert forall|a: int| 0 <= a < pv.len() implies pv[a] == preds@[a]@ by {}
    }
    let n = nodes.len();
    let mut removed: Vec<bool> = Vec::new();
    let mut i: usize = 0;
    while i < n
        invariant
            n == nodes@.len(),
            i <= n,
            removed@.len() == i,
            forall|k: int| 0 <= k < i ==> !#[trigger] removed@[k],
        decreases n - i,
    {
        removed.push(false);
        i += 1;
    }
    proof { lemma_count_false_all(removed@); }
    let ghost mut rank: Seq<int> = Seq::new(n as nat, |k: int| 0);
    let mut step: usize = 0;
    loop
        invariant_except_break
            preds_ok(iv, dv, nv, pv),
            pv == preds.deep_view(),
            preds@.len() == n,
            removed@.len() == n,
            n == nodes@.len(),
            forall|a: int, t: int| 0 <= a < preds@.len() && 0 <= t < preds@[a]@.len() ==> #[trigger] preds@[a]@[t] < removed@.len(),
            ranked(pv, removed@, rank, step as int),
            step <= n,
            count_false(removed@) + step == n,
        ensures
            preds_ok(iv, dv, nv, pv),
            removed@.len() == n,
            ranked(pv, removed@, rank, step as int),
            forall|w: int| 0 <= w < n && !removed@[w] ==> !ready(pv, removed@, w),
        decreases count_false(removed@),
    {
        match find_ready(&preds, &removed) {
            None => break,
            Some(w) => {
                proof {
                    lemma_count_false_update(removed@, w as int);
                    rank = rank.update(w as int, step as int);
                }
                let ghost before = removed@;
                removed.set(w, true);
                assert(ranked(pv, removed@, rank, step + 1)) by {
                    assert forall|a: int| 0 <= a < removed@.len() && #[trigger] removed@[a] implies 0 <= rank[a] < step + 1
                        && forall|t: int| 0 <= t < pv[a].len() ==> removed@[#[trigger] pv[a][t] as int]
                            && rank[pv[a][t] as int] < rank[a] by {
                        if a != w {
                            assert(before[a]);
                            assert forall|t: int| 0 <= t < pv[a].len() implies removed@[#[trigger] pv[a][t] as int]
                                && rank[pv[a][t] as int] < rank[a] by {
                                assert(before[pv[a][t] as int]);
                            }
                        } else {
                            assert forall|t: int| 0 <= t < pv[a].len() implies removed@[#[trigger] pv[a][t] as int]
                                && rank[pv[a][t] as int] < rank[a] by {
                                assert(before[pv[a][t] as int]);
                            }
                        }
                    }
                }
                step += 1;
            },
        }
    }
    let mut k: usize = 0;
    while k < n
        invariant
            k <= n,
            removed@.len() == n,
            n == nodes@.len(),
            nv == nodes.deep_view(),
            iv == ids.deep_view(),
            dv == deps.deep_view(),
            forall|x: Seq<char>| nv.contains(x) <==> iv.contains(x),
            preds_ok(iv, dv, nv, pv),
            ranked(pv, removed@, rank, step as int),
            forall|w: int| 0 <= w < n && !removed@[w] ==> !ready(pv, removed@, w),
            forall|j: int| 0 <= j < k ==> #[trigger] removed@[j],
            pv == preds.deep_view(),
            preds@.len() == n,
        decreases n - k,
    {
        if !removed[k] {
            let c = cycle_node(&preds, &removed, k, Ghost(iv), Ghost(dv), Ghost(nv));
            proof { lemma_unremoved_stuck(iv, dv, nv, pv, removed@, c as int); }
            assert(nodes@[c as int]@ == nv[c as int]);
            return Some(nodes[c].clone());
        }
        k += 1;
    }
    proof {
        assert forall|set: Set<Seq<char>>| !is_stuck(iv, dv, set) by {
            lemma_all_removed_no_stuck(iv, dv, nv, pv, removed@, rank, step as int, set);
        }
    }
    None
}

} // verus!
