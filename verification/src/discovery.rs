//! Decisions of the project scan: which directories the scan descends into,
//! how deep it goes, and which found projects it keeps (the first found per
//! id). Walking the file system and reading registries happen around these.

use vstd::prelude::*;
use crate::text::{contains_str, str_eq};

verus! {

/// How deep below the scan root the scan descends.
pub const MAX_DEPTH: usize = 8;

/// Directories the scan never enters besides hidden ones.
pub open spec fn skip_dirs() -> Seq<Seq<char>> {
    seq![
        "node_modules"@, "target"@, ".git"@, ".cargo"@, ".rustup"@, ".cache"@, ".local"@, ".npm"@, ".nvm"@,
        ".pyenv"@, ".venv"@, "venv"@, "vendor"@, "__pycache__"@, "Library"@, "Applications"@, ".Trash"@,
    ]
}

/// Whether the scan enters a directory named `name`: not a hidden one and
/// none of the skipped ones.
pub open spec fn descends_into(name: Seq<char>) -> bool {
    !(name.len() > 0 && name[0] == '.') && !skip_dirs().contains(name)
}

fn is_skipped(name: &str) -> (r: bool)
    ensures
        r == skip_dirs().contains(name@),
{
    let names: [&str; 17] = [
        "node_modules", "target", ".git", ".cargo", ".rustup", ".cache", ".local", ".npm", ".nvm", ".pyenv", ".venv",
        "venv", "vendor", "__pycache__", "Library", "Applications", ".Trash",
    ];
    let ghost sd = skip_dirs();
    assert(names@.map_values(|s: &str| s@) =~= sd);
    let mut i: usize = 0;
    while i < 17
        invariant
            names@.map_values(|s: &str| s@) == sd,
            sd == skip_dirs(),
            sd.len() == 17,
            i <= 17,
            forall|k: int| 0 <= k < i ==> sd[k] != name@,
        decreases 17 - i,
    {
        assert(sd[i as int] == names@[i as int]@);
        if str_eq(names[i], name) {
            assert(sd[i as int] == name@);
            return true;
        }
        i += 1;
    }
    false
}

/// Whether the scan enters the subdirectory `name`.
pub fn should_descend(name: &str) -> (r: bool)
    ensures
        r == descends_into(name@),
{
    if name.unicode_len() > 0 && name.get_char(0) == '.' {
        return false;
    }
    !is_skipped(name)
}

/// Whether a directory at `depth` below the root is scanned at all.
pub fn within_depth(depth: usize) -> (r: bool)
    ensures
        r == (depth <= MAX_DEPTH),
{
    depth <= MAX_DEPTH
}

/// The ids seen after the ids `ids` were found in order.
pub open spec fn seen_after(seen: Seq<Seq<char>>, ids: Seq<Seq<char>>) -> Seq<Seq<char>>
    decreases ids.len(),
{
    if ids.len() == 0 {
        seen
    } else {
        let s = seen_after(seen, ids.drop_last());
        if s.contains(ids.last()) {
            s
        } else {
            s.push(ids.last())
        }
    }
}

/// Places in `ids` of the projects kept: those whose id was not seen yet.
pub open spec fn kept_places(seen: Seq<Seq<char>>, ids: Seq<Seq<char>>) -> Seq<int>
    decreases ids.len(),
{
    if ids.len() == 0 {
        seq![]
    } else {
        let k = kept_places(seen, ids.drop_last());
        if seen_after(seen, ids.drop_last()).contains(ids.last()) {
            k
        } else {
            k.push(ids.len() - 1)
        }
    }
}

/// Take the ids of the projects of one registry, in order, and return the
/// places of those to keep: the first project found with an id wins.
pub fn keep_unseen(seen: &mut Vec<String>, ids: &[String]) -> (r: Vec<usize>)
    ensures
        final(seen).deep_view() == seen_after(old(seen).deep_view(), ids.deep_view()),
        r@.map_values(|k: usize| k as int) == kept_places(old(seen).deep_view(), ids.deep_view()),
{
    let ghost s0 = seen.deep_view();
    let ghost iv = ids.deep_view();
    let mut kept: Vec<usize> = Vec::new();
    let mut i: usize = 0;
    assert(iv.take(0) =~= Seq::<Seq<char>>::empty());
    assert(kept@.map_values(|k: usize| k as int) =~= kept_places(s0, iv.take(0)));
    while i < ids.len()
        invariant
            iv == ids.deep_view(),
            i <= iv.len(),
            seen.deep_view() == seen_after(s0, iv.take(i as int)),
            kept@.map_values(|k: usize| k as int) == kept_places(s0, iv.take(i as int)),
        decreases ids.len() - i,
    {
        assert(iv.take(i + 1).drop_last() =~= iv.take(i as int));
        assert(iv.take(i + 1).last() == ids@[i as int]@);
        assert(iv.take(i + 1).len() - 1 == i);
        let ghost kb = kept@.map_values(|k: usize| k as int);
        if !contains_str(seen.as_slice(), ids[i].as_str()) {
            let ghost sb = seen.deep_view();
            seen.push(ids[i].clone());
            assert(seen.deep_view() =~= sb.push(iv[i as int]));
            kept.push(i);
            assert(kept@.map_values(|k: usize| k as int) =~= kb.push(i as int));
        }
        i += 1;
    }
    assert(iv.take(i as int) =~= iv);
    kept
}

/// No id occurs twice.
pub open spec fn no_dups(s: Seq<Seq<char>>) -> bool {
    forall|i: int, j: int| 0 <= i < j < s.len() ==> s[i] != s[j]
}

/// The scan keeps each id once: the ids seen stay, in their order, every
/// found id ends up seen, and no id is seen twice.
pub proof fn law_first_found_wins(seen: Seq<Seq<char>>, ids: Seq<Seq<char>>)
    requires
        no_dups(seen),
    ensures
        no_dups(seen_after(seen, ids)),
        seen_after(seen, ids).take(seen.len() as int) == seen,
        seen.len() <= seen_after(seen, ids).len(),
        forall|i: int| 0 <= i < ids.len() ==> seen_after(seen, ids).contains(#[trigger] ids[i]),
    decreases ids.len(),
{
    if ids.len() == 0 {
        assert(seen.take(seen.len() as int) =~= seen);
    } else {
        let d = ids.drop_last();
        law_first_found_wins(seen, d);
        let s = seen_after(seen, d);
        if !s.contains(ids.last()) {
            let t = s.push(ids.last());
            assert forall|i: int, j: int| 0 <= i < j < t.len() implies t[i] != t[j] by {
                if j == s.len() {
                    assert(t[i] == s[i]);
                    assert(s.contains(s[i]));
                }
            }
            assert(t.take(seen.len() as int) =~= s.take(seen.len() as int));
            assert forall|i: int| 0 <= i < ids.len() implies t.contains(#[trigger] ids[i]) by {
                if i < d.len() {
                    assert(d[i] == ids[i]);
                    assert(s.contains(d[i]));
                    let k = choose|k: int| 0 <= k < s.len() && s[k] == d[i];
                    assert(t[k] == ids[i]);
                } else {
                    assert(t[s.len() as int] == ids[i]);
                }
            }
        } else {
            assert forall|i: int| 0 <= i < ids.len() implies s.contains(#[trigger] ids[i]) by {
                if i < d.len() {
                    assert(d[i] == ids[i]);
                    assert(s.contains(d[i]));
                }
            }
        }
    }
}

} // verus!
