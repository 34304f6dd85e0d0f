//! The shared registry of running autoruns: for each project id, the run's
//! process, its project directory and the chat message it awaits a reply to.
//! Reading and writing the registry file, and asking which processes are
//! alive, happen around these functions.

use vstd::prelude::*;
use crate::schedule::addressing::{first_index_of, lemma_first_index_of};
use crate::text::str_eq;
use crate::triage::{Peer, PeerV};
use crate::autorun::{escape_html, html_escaped};

verus! {

/// One running autorun.
#[derive(Debug)]
pub struct AutorunEntry {
    pub pid: u32,
    pub project_dir: String,
    /// The chat message this run waits for a reply to.
    pub expected_message_id: Option<i64>,
}

/// An entry as plain values.
pub ghost struct AutorunEntryV {
    pub pid: u32,
    pub project_dir: Seq<char>,
    pub expected_message_id: Option<i64>,
}

impl View for AutorunEntry {
    type V = AutorunEntryV;

    open spec fn view(&self) -> AutorunEntryV {
        AutorunEntryV { pid: self.pid, project_dir: self.project_dir@, expected_message_id: self.expected_message_id }
    }
}

impl AutorunEntry {
    /// A copy of the entry.
    pub fn duplicate(&self) -> (r: AutorunEntry)
        ensures
            r@ == self@,
    {
        AutorunEntry {
            pid: self.pid,
            project_dir: self.project_dir.clone(),
            expected_message_id: self.expected_message_id,
        }
    }
}

/// The registry: project ids with their runs, in the order they came.
#[derive(Debug)]
pub struct AutorunRegistry {
    pub autoruns: Vec<(String, AutorunEntry)>,
}

/// The registry as plain values.
pub open spec fn reg_view(s: Seq<(String, AutorunEntry)>) -> Seq<(Seq<char>, AutorunEntryV)> {
    s.map_values(|x: (String, AutorunEntry)| (x.0@, x.1@))
}

impl View for AutorunRegistry {
    type V = Seq<(Seq<char>, AutorunEntryV)>;

    open spec fn view(&self) -> Seq<(Seq<char>, AutorunEntryV)> {
        reg_view(self.autoruns@)
    }
}

/// The project ids of a registry, in order.
pub open spec fn reg_keys(s: Seq<(Seq<char>, AutorunEntryV)>) -> Seq<Seq<char>> {
    s.map_values(|x: (Seq<char>, AutorunEntryV)| x.0)
}

/// No project id occurs twice, as in a map.
pub open spec fn distinct_keys(s: Seq<(Seq<char>, AutorunEntryV)>) -> bool {
    forall|i: int, j: int| 0 <= i < j < s.len() ==> (#[trigger] s[i]).0 != (#[trigger] s[j]).0
}

/// Where project `k` stands.
pub open spec fn key_index(s: Seq<(Seq<char>, AutorunEntryV)>, k: Seq<char>) -> Option<int> {
    first_index_of(reg_keys(s), k)
}

/// The run registered for project `k`.
pub open spec fn lookup(s: Seq<(Seq<char>, AutorunEntryV)>, k: Seq<char>) -> Option<AutorunEntryV> {
    match key_index(s, k) {
        Some(i) => Some(s[i].1),
        None => None,
    }
}

/// The registry after registering `e` for `p`: it takes the place of an
/// earlier entry for `p`, else it is added at the end.
pub open spec fn registered(s: Seq<(Seq<char>, AutorunEntryV)>, p: Seq<char>, e: AutorunEntryV) -> Seq<(Seq<char>, AutorunEntryV)> {
    match key_index(s, p) {
        Some(i) => s.update(i, (p, e)),
        None => s.push((p, e)),
    }
}

/// The registry without the entry for `p`.
pub open spec fn deregistered(s: Seq<(Seq<char>, AutorunEntryV)>, p: Seq<char>) -> Seq<(Seq<char>, AutorunEntryV)> {
    match key_index(s, p) {
        Some(i) => s.remove(i),
        None => s,
    }
}

/// The registry with the awaited message of `p`'s run set to `m`; unchanged
/// when `p` has no run.
pub open spec fn expectation_set(s: Seq<(Seq<char>, AutorunEntryV)>, p: Seq<char>, m: Option<i64>) -> Seq<(Seq<char>, AutorunEntryV)> {
    match key_index(s, p) {
        Some(i) => s.update(i, (p, AutorunEntryV { expected_message_id: m, ..s[i].1 })),
        None => s,
    }
}

/// Whether the process of an entry is among the live ones.
pub open spec fn is_alive(alive: Seq<u32>) -> spec_fn((Seq<char>, AutorunEntryV)) -> bool {
    |x: (Seq<char>, AutorunEntryV)| alive.contains(x.1.pid)
}

/// The registry with only the runs whose process is alive.
pub open spec fn alive_only(s: Seq<(Seq<char>, AutorunEntryV)>, alive: Seq<u32>) -> Seq<(Seq<char>, AutorunEntryV)> {
    s.filter(is_alive(alive))
}

/// The registry as the peers that triage routes messages to.
pub open spec fn peers_of(s: Seq<(Seq<char>, AutorunEntryV)>) -> Seq<PeerV> {
    s.map_values(|x: (Seq<char>, AutorunEntryV)| PeerV { project_id: x.0, expected_message_id: x.1.expected_message_id })
}

proof fn lemma_keys(s: Seq<(Seq<char>, AutorunEntryV)>)
    ensures
        reg_keys(s).len() == s.len(),
        forall|i: int| 0 <= i < s.len() ==> #[trigger] reg_keys(s)[i] == s[i].0,
{
}

/// In a registry without repeated ids, the run found for `k` is the one at
/// the place that holds `k`, and none is found where no place holds it.
pub proof fn lemma_lookup_distinct(s: Seq<(Seq<char>, AutorunEntryV)>, k: Seq<char>)
    requires
        distinct_keys(s),
    ensures
        forall|j: int| 0 <= j < s.len() && (#[trigger] s[j]).0 == k ==> lookup(s, k) == Some(s[j].1),
        (forall|j: int| 0 <= j < s.len() ==> (#[trigger] s[j]).0 != k) ==> lookup(s, k) is None,
{
    lemma_keys(s);
    lemma_first_index_of(reg_keys(s), k);
    assert forall|j: int| 0 <= j < s.len() && (#[trigger] s[j]).0 == k implies lookup(s, k) == Some(s[j].1) by {
        assert(reg_keys(s)[j] == k);
        let i = first_index_of(reg_keys(s), k)->0;
        if i != j {
            if i < j {
                assert(s[i].0 != s[j].0);
            } else {
                assert(s[j].0 != s[i].0);
            }
        }
    }
}

fn entry_index(v: &Vec<(String, AutorunEntry)>, p: &str) -> (r: Option<usize>)
    ensures
        match r {
            Some(k) => key_index(reg_view(v@), p@) == Some(k as int) && (k as int) < v@.len() && v@[k as int].0@ == p@,
            None => key_index(reg_view(v@), p@) is None,
        },
{
    let ghost ids = reg_keys(reg_view(v@));
    proof { lemma_keys(reg_view(v@)); }
    let mut i: usize = 0;
    assert(ids.take(0) =~= Seq::<Seq<char>>::empty());
    while i < v.len()
        invariant
            ids == reg_keys(reg_view(v@)),
            ids.len() == v@.len(),
            forall|j: int| 0 <= j < v@.len() ==> #[trigger] ids[j] == v@[j].0@,
            i <= v@.len(),
            first_index_of(ids.take(i as int), p@) is None,
        decreases v.len() - i,
    {
        assert(ids.take(i + 1).drop_last() =~= ids.take(i as int));
        assert(ids[i as int] == v@[i as int].0@);
        if str_eq(v[i].0.as_str(), p) {
            assert(first_index_of(ids.take(i + 1), p@) == Some(i as int));
            proof { crate::schedule::addressing::lemma_first_index_of_prefix(ids, p@, i as int + 1); }
            assert(v@[i as int].0@ == p@);
            return Some(i);
        }
        i += 1;
    }
    assert(ids.take(i as int) =~= ids);
    None
}

impl AutorunRegistry {
    /// An empty registry.
    pub fn new() -> (r: AutorunRegistry)
        ensures
            r@ == Seq::<(Seq<char>, AutorunEntryV)>::empty(),
    {
        let r = AutorunRegistry { autoruns: Vec::new() };
        assert(r@ =~= Seq::<(Seq<char>, AutorunEntryV)>::empty());
        r
    }

    /// The run registered for `project_id`.
    pub fn get(&self, project_id: &str) -> (r: Option<&AutorunEntry>)
        ensures
            match r {
                Some(e) => lookup(self@, project_id@) == Some(e@),
                None => lookup(self@, project_id@) is None,
            },
    {
        match entry_index(&self.autoruns, project_id) {
            Some(i) => Some(&self.autoruns[i].1),
            None => None,
        }
    }

    /// The registered runs as peers for triage, in registry order.
    pub fn peers(&self) -> (r: Vec<Peer>)
        ensures
            r@.map_values(|p: Peer| p@) == peers_of(self@),
    {
        let ghost sv = self@;
        let mut out: Vec<Peer> = Vec::new();
        let mut i: usize = 0;
        while i < self.autoruns.len()
            invariant
                sv == self@,
                sv.len() == self.autoruns@.len(),
                i <= sv.len(),
                out@.map_values(|p: Peer| p@) == peers_of(sv).take(i as int),
                out@.len() == i,
            decreases self.autoruns.len() - i,
        {
            let x = &self.autoruns[i];
            let ghost before = out@;
            let peer = Peer { project_id: x.0.clone(), expected_message_id: x.1.expected_message_id };
            assert(peer@ == peers_of(sv)[i as int]);
            out.push(peer);
            assert(out@ =~= before.push(peer));
            assert(out@.map_values(|p: Peer| p@) =~= peers_of(sv).take(i + 1));
            i += 1;
        }
        assert(peers_of(sv).take(i as int) =~= peers_of(sv));
        out
    }
}

/// Register `entry` as the run of `project_id`, replacing an earlier one.
pub fn register_autorun(registry: &mut AutorunRegistry, project_id: &str, entry: AutorunEntry)
    ensures
        final(registry)@ == registered(old(registry)@, project_id@, entry@),
        distinct_keys(old(registry)@) ==> distinct_keys(final(registry)@),
{
    let ghost s = registry@;
    proof {
        lemma_keys(s);
        lemma_first_index_of(reg_keys(s), project_id@);
    }
    match entry_index(&registry.autoruns, project_id) {
        Some(i) => {
            registry.autoruns.set(i, (project_id.to_owned(), entry));
            assert(registry@ =~= s.update(i as int, (project_id@, entry@)));
        },
        None => {
            let ghost ev = entry@;
            registry.autoruns.push((project_id.to_owned(), entry));
            assert(registry@ =~= s.push((project_id@, ev)));
            assert forall|a: int, b: int| 0 <= a < b < registry@.len() && distinct_keys(s) implies (#[trigger] registry@[a]).0
                != (#[trigger] registry@[b]).0 by {
                if b == s.len() {
                    assert(reg_keys(s)[a] != project_id@);
                } else {
                    assert(registry@[a] == s[a] && registry@[b] == s[b]);
                }
            }
        },
    }
}

/// Remove the run of `project_id`, if one is registered.
pub fn deregister_autorun(registry: &mut AutorunRegistry, project_id: &str)
    ensures
        final(registry)@ == deregistered(old(registry)@, project_id@),
        distinct_keys(old(registry)@) ==> distinct_keys(final(registry)@),
{
    let ghost s = registry@;
    match entry_index(&registry.autoruns, project_id) {
        Some(i) => {
            let ghost raw = registry.autoruns@;
            let _gone = registry.autoruns.remove(i);
            assert(registry.autoruns@ =~= raw.remove(i as int));
            assert(registry@ =~= s.remove(i as int));
            assert forall|a: int, b: int| 0 <= a < b < registry@.len() && distinct_keys(s) implies (#[trigger] registry@[a]).0
                != (#[trigger] registry@[b]).0 by {
                let a2 = if a < i { a } else { a + 1 };
                let b2 = if b < i { b } else { b + 1 };
                assert(registry@[a] == s[a2] && registry@[b] == s[b2]);
            }
        },
        None => {},
    }
}

/// Set the message the run of `project_id` awaits a reply to; nothing
/// changes when no run is registered for it.
pub fn update_expected_message_id(registry: &mut AutorunRegistry, project_id: &str, msg_id: Option<i64>)
    ensures
        final(registry)@ == expectation_set(old(registry)@, project_id@, msg_id),
        distinct_keys(old(registry)@) ==> distinct_keys(final(registry)@),
{
    let ghost s = registry@;
    match entry_index(&registry.autoruns, project_id) {
        Some(i) => {
            proof {
                lemma_keys(s);
                lemma_first_index_of(reg_keys(s), project_id@);
            }
            let old_entry = &registry.autoruns[i].1;
            let e = AutorunEntry {
                pid: old_entry.pid,
                project_dir: old_entry.project_dir.clone(),
                expected_message_id: msg_id,
            };
            let ghost ev = e@;
            registry.autoruns.set(i, (project_id.to_owned(), e));
            assert(ev == AutorunEntryV { expected_message_id: msg_id, ..s[i as int].1 });
            assert(registry@ =~= s.update(i as int, (project_id@, ev)));
        },
        None => {},
    }
}

proof fn lemma_alive_distinct(s: Seq<(Seq<char>, AutorunEntryV)>, alive: Seq<u32>)
    requires
        distinct_keys(s),
    ensures
        distinct_keys(alive_only(s, alive)),
    decreases s.len(),
{
    reveal(Seq::filter);
    if s.len() > 0 {
        let d = s.drop_last();
        assert(distinct_keys(d)) by {
            assert forall|i: int, j: int| 0 <= i < j < d.len() implies (#[trigger] d[i]).0 != (#[trigger] d[j]).0 by {
                assert(d[i] == s[i] && d[j] == s[j]);
            }
        }
        lemma_alive_distinct(d, alive);
        let f = alive_only(d, alive);
        if is_alive(alive)(s.last()) {
            assert(alive_only(s, alive) == f.push(s.last()));
            assert forall|a: int| 0 <= a < f.len() implies (#[trigger] f[a]).0 != s.last().0 by {
                assert(f.contains(f[a]));
                d.lemma_filter_contains_rev(is_alive(alive), f[a]);
                let j = choose|j: int| 0 <= j < d.len() && d[j] == f[a];
                assert(s[j] == d[j]);
                assert(s[j].0 != s[s.len() - 1].0);
            }
            let g = f.push(s.last());
            assert forall|i: int, j: int| 0 <= i < j < g.len() implies (#[trigger] g[i]).0 != (#[trigger] g[j]).0 by {
                if j == f.len() {
                    assert(g[i] == f[i]);
                } else {
                    assert(g[i] == f[i] && g[j] == f[j]);
                }
            }
        }
    }
}

/// Drop the runs whose process is not among `alive`; the result says
/// whether any was dropped, so that the caller writes the registry back
/// only then.
pub fn prune_dead(registry: &mut AutorunRegistry, alive: &[u32]) -> (removed: bool)
    ensures
        final(registry)@ == alive_only(old(registry)@, alive@),
        removed == (final(registry)@.len() != old(registry)@.len()),
        distinct_keys(old(registry)@) ==> distinct_keys(final(registry)@),
{
    let ghost s = registry@;
    let ghost pred = is_alive(alive@);
    let old_len = registry.autoruns.len();
    let mut kept: Vec<(String, AutorunEntry)> = Vec::new();
    proof { reveal(Seq::filter); }
    assert(s.take(0) =~= Seq::<(Seq<char>, AutorunEntryV)>::empty());
    assert(reg_view(kept@) =~= s.take(0).filter(pred));
    let mut i: usize = 0;
    let n = registry.autoruns.len();
    while i < n
        invariant
            n == s.len(),
            s == registry@,
            n == registry.autoruns@.len(),
            pred == is_alive(alive@),
            i <= n,
            reg_view(kept@) == s.take(i as int).filter(pred),
        decreases n - i,
    {
        proof { reveal(Seq::filter); }
        let x = &registry.autoruns[i];
        assert(s.take(i + 1).drop_last() =~= s.take(i as int));
        assert(s.take(i + 1).last() == (x.0@, x.1@));
        let mut live = false;
        let mut k: usize = 0;
        while k < alive.len()
            invariant
                k <= alive@.len(),
                live == (exists|j: int| 0 <= j < k && alive@[j] == x.1.pid),
            decreases alive.len() - k,
        {
            if alive[k] == x.1.pid {
                live = true;
            }
            k += 1;
        }
        assert(live == alive@.contains(x.1.pid));
        let ghost before = reg_view(kept@);
        if live {
            kept.push((x.0.clone(), x.1.duplicate()));
            assert(reg_view(kept@) =~= before.push((x.0@, x.1@)));
        }
        assert(reg_view(kept@) =~= s.take(i + 1).filter(pred));
        i += 1;
    }
    assert(s.take(n as int) =~= s);
    registry.autoruns = kept;
    proof {
        if distinct_keys(s) {
            lemma_alive_distinct(s, alive@);
        }
    }
    registry.autoruns.len() != old_len
}

/// Registering a run makes it the one found for its project, and leaves
/// what is found for every other project as it was.
pub proof fn law_register_then_lookup(s: Seq<(Seq<char>, AutorunEntryV)>, p: Seq<char>, e: AutorunEntryV, k: Seq<char>)
    ensures
        lookup(registered(s, p, e), k) == if k == p { Some(e) } else { lookup(s, k) },
{
    lemma_keys(s);
    lemma_first_index_of(reg_keys(s), p);
    lemma_first_index_of(reg_keys(s), k);
    let t = registered(s, p, e);
    lemma_keys(t);
    match key_index(s, p) {
        Some(i) => {
            assert(reg_keys(t) =~= reg_keys(s));
            match key_index(s, k) {
                Some(j) => {
                    if k == p {
                        assert(j == i);
                    } else {
                        assert(reg_keys(s)[j] != reg_keys(s)[i]);
                        assert(t[j] == s[j]);
                    }
                },
                None => {},
            }
        },
        None => {
            assert(reg_keys(t) =~= reg_keys(s).push(p));
            assert(reg_keys(t).drop_last() =~= reg_keys(s));
            assert(reg_keys(t).last() == p);
            match key_index(s, k) {
                Some(j) => {
                    assert(t[j] == s[j]);
                },
                None => {},
            }
        },
    }
}

/// After deregistering a project no run is found for it, and what is found
/// for every other project stays as it was.
pub proof fn law_deregister_then_lookup(s: Seq<(Seq<char>, AutorunEntryV)>, p: Seq<char>, k: Seq<char>)
    requires
        distinct_keys(s),
    ensures
        lookup(deregistered(s, p), k) == if k == p { None } else { lookup(s, k) },
{
    lemma_keys(s);
    lemma_first_index_of(reg_keys(s), p);
    lemma_lookup_distinct(s, k);
    match key_index(s, p) {
        Some(i) => {
            let t = s.remove(i);
            assert(distinct_keys(t)) by {
                assert forall|a: int, b: int| 0 <= a < b < t.len() implies (#[trigger] t[a]).0 != (#[trigger] t[b]).0 by {
                    let a2 = if a < i { a } else { a + 1 };
                    let b2 = if b < i { b } else { b + 1 };
                    assert(t[a] == s[a2] && t[b] == s[b2]);
                }
            }
            lemma_lookup_distinct(t, k);
            if k == p {
                assert forall|j: int| 0 <= j < t.len() implies (#[trigger] t[j]).0 != k by {
                    let j2 = if j < i { j } else { j + 1 };
                    assert(t[j] == s[j2]);
                    assert(reg_keys(s)[i] == p);
                    if j2 < i {
                        assert(s[j2].0 != s[i].0);
                    } else {
                        assert(s[i].0 != s[j2].0);
                    }
                }
            } else {
                if exists|j: int| 0 <= j < s.len() && (#[trigger] s[j]).0 == k {
                    let j = choose|j: int| 0 <= j < s.len() && (#[trigger] s[j]).0 == k;
                    assert(reg_keys(s)[i] == p);
                    assert(j != i);
                    let j2 = if j < i { j } else { j - 1 };
                    assert(t[j2] == s[j]);
                } else {
                    assert forall|j: int| 0 <= j < t.len() implies (#[trigger] t[j]).0 != k by {
                        let j2 = if j < i { j } else { j + 1 };
                        assert(t[j] == s[j2]);
                    }
                }
            }
        },
        None => {},
    }
}

/// Setting the awaited message of a project's run changes that run's
/// awaited message and nothing else that is found.
pub proof fn law_update_expected_then_lookup(s: Seq<(Seq<char>, AutorunEntryV)>, p: Seq<char>, m: Option<i64>, k: Seq<char>)
    ensures
        lookup(expectation_set(s, p, m), k) == if k == p {
            match lookup(s, p) {
                Some(e) => Some(AutorunEntryV { expected_message_id: m, ..e }),
                None => None,
            }
        } else {
            lookup(s, k)
        },
{
    lemma_keys(s);
    lemma_first_index_of(reg_keys(s), p);
    lemma_first_index_of(reg_keys(s), k);
    let t = expectation_set(s, p, m);
    lemma_keys(t);
    assert(reg_keys(t) =~= reg_keys(s));
}

/// Pruning keeps a project's run exactly when its process is alive.
pub proof fn law_prune_keeps_live_runs(s: Seq<(Seq<char>, AutorunEntryV)>, alive: Seq<u32>, k: Seq<char>)
    requires
        distinct_keys(s),
    ensures
        lookup(alive_only(s, alive), k) == match lookup(s, k) {
            Some(e) => if alive.contains(e.pid) { Some(e) } else { None },
            None => None,
        },
{
    broadcast use Seq::lemma_filter_contains, Seq::lemma_filter_contains_rev, Seq::lemma_filter_pred;
    let t = alive_only(s, alive);
    lemma_alive_distinct(s, alive);
    lemma_lookup_distinct(s, k);
    lemma_lookup_distinct(t, k);
    if exists|j: int| 0 <= j < s.len() && (#[trigger] s[j]).0 == k {
        let j = choose|j: int| 0 <= j < s.len() && (#[trigger] s[j]).0 == k;
        if alive.contains(s[j].1.pid) {
            assert(t.contains(s[j]));
            let a = choose|a: int| 0 <= a < t.len() && t[a] == s[j];
            assert(t[a].0 == k);
        } else {
            assert forall|a: int| 0 <= a < t.len() implies (#[trigger] t[a]).0 != k by {
                assert(t.contains(t[a]));
                assert(s.contains(t[a]));
                let b = choose|b: int| 0 <= b < s.len() && s[b] == t[a];
                assert(is_alive(alive)(t[a]));
                if t[a].0 == k {
                    if b < j {
                        assert(s[b].0 != s[j].0);
                    } else if j < b {
                        assert(s[j].0 != s[b].0);
                    }
                }
            }
        }
    } else {
        assert forall|a: int| 0 <= a < t.len() implies (#[trigger] t[a]).0 != k by {
            assert(t.contains(t[a]));
            assert(s.contains(t[a]));
        }
    }
}

/// The lines listing the registered projects.
pub open spec fn run_lines(s: Seq<(Seq<char>, AutorunEntryV)>) -> Seq<char>
    decreases s.len(),
{
    if s.len() == 0 {
        seq![]
    } else {
        run_lines(s.drop_last()) + "  <code>"@ + html_escaped(s.last().0) + "</code>\n"@
    }
}

/// The answer to a message that is neither a reply nor a command: how to
/// address a run, and the runs there are.
pub open spec fn unprocessed_text(s: Seq<(Seq<char>, AutorunEntryV)>) -> Seq<char> {
    "⚠️ <b>Unprocessed</b>\n\nPlease reply to a specific message, or use:\n<code>/kill &lt;project-id&gt;</code>\n<code>/query &lt;project-id&gt;</code>\n"@
        + if s.len() == 0 {
        "\n<i>No active autoruns.</i>"@
    } else {
        "\n<b>Active autoruns:</b>\n"@ + run_lines(s)
    }
}

impl AutorunRegistry {
    /// The answer to an unprocessed message, listing the runs in registry
    /// order.
    pub fn unprocessed_response(&self) -> (r: String)
        ensures
            r@ == unprocessed_text(self@),
    {
        let head = "⚠️ <b>Unprocessed</b>\n\nPlease reply to a specific message, or use:\n<code>/kill &lt;project-id&gt;</code>\n<code>/query &lt;project-id&gt;</code>\n";
        if self.autoruns.len() == 0 {
            return head.to_owned().concat("\n<i>No active autoruns.</i>");
        }
        let ghost sv = self@;
        let mut lines = String::new();
        let mut i: usize = 0;
        assert(sv.take(0) =~= Seq::<(Seq<char>, AutorunEntryV)>::empty());
        while i < self.autoruns.len()
            invariant
                sv == self@,
                sv.len() == self.autoruns@.len(),
                i <= sv.len(),
                lines@ == run_lines(sv.take(i as int)),
            decreases self.autoruns.len() - i,
        {
            assert(sv.take(i + 1).drop_last() =~= sv.take(i as int));
            assert(sv.take(i + 1).last() == sv[i as int]);
            let esc = escape_html(self.autoruns[i].0.as_str());
            lines = lines.concat("  <code>").concat(esc.as_str()).concat("</code>\n");
            i += 1;
        }
        assert(sv.take(i as int) =~= sv);
        head.to_owned().concat("\n<b>Active autoruns:</b>\n").concat(lines.as_str())
    }
}

} // verus!
