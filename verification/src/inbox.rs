//! The inbox of an autorun is a directory of message files named by the
//! time they were written; the oldest message is the `.json` file whose
//! name sorts first. Listing, reading and deleting the files happen around
//! `oldest_inbox_entry`.

use vstd::prelude::*;

verus! {

/// The name has the extension `json`: it ends in `.json` after a
/// non-empty stem.
pub open spec fn is_json_name(n: Seq<char>) -> bool {
    n.len() > 5 && n.skip(n.len() - 5) == ".json"@
}

/// `a` sorts before `b`, comparing characters by code point and a proper
/// prefix first.
pub open spec fn name_before(a: Seq<char>, b: Seq<char>) -> bool
    decreases a.len(),
{
    if a.len() == 0 {
        b.len() > 0
    } else if b.len() == 0 {
        false
    } else if a[0] != b[0] {
        (a[0] as int) < (b[0] as int)
    } else {
        name_before(a.skip(1), b.skip(1))
    }
}

/// The order is strict.
pub proof fn lemma_name_before_irreflexive(a: Seq<char>)
    ensures
        !name_before(a, a),
    decreases a.len(),
{
    if a.len() > 0 {
        lemma_name_before_irreflexive(a.skip(1));
    }
}

/// The order is transitive.
pub proof fn lemma_name_before_transitive(a: Seq<char>, b: Seq<char>, c: Seq<char>)
    requires
        name_before(a, b),
        name_before(b, c),
    ensures
        name_before(a, c),
    decreases a.len(),
{
    if a.len() > 0 && b.len() > 0 && c.len() > 0 && a[0] == b[0] && b[0] == c[0] {
        lemma_name_before_transitive(a.skip(1), b.skip(1), c.skip(1));
    }
}

/// Of two different names one sorts before the other.
pub proof fn lemma_name_before_total(a: Seq<char>, b: Seq<char>)
    requires
        a != b,
    ensures
        name_before(a, b) || name_before(b, a),
    decreases a.len(),
{
    if a.len() > 0 && b.len() > 0 && a[0] == b[0] {
        if a.skip(1) == b.skip(1) {
            assert(a =~= seq![a[0]] + a.skip(1));
            assert(b =~= seq![b[0]] + b.skip(1));
        }
        lemma_name_before_total(a.skip(1), b.skip(1));
    } else if a.len() > 0 && b.len() > 0 {
        let x = a[0] as int;
        let y = b[0] as int;
        assert(x != y);
    } else if a.len() == 0 && b.len() == 0 {
        assert(a =~= b);
    }
}

/// Whether `a` sorts before `b`.
pub fn name_lt(a: &str, b: &str) -> (r: bool)
    ensures
        r == name_before(a@, b@),
{
    let n = a.unicode_len();
    let m = b.unicode_len();
    let mut i: usize = 0;
    assert(a@.skip(0) =~= a@);
    assert(b@.skip(0) =~= b@);
    while i < n && i < m
        invariant
            n == a@.len(),
            m == b@.len(),
            i <= n,
            i <= m,
            a@.take(i as int) == b@.take(i as int),
            name_before(a@, b@) == name_before(a@.skip(i as int), b@.skip(i as int)),
        decreases n - i,
    {
        let x = a.get_char(i);
        let y = b.get_char(i);
        assert(a@.skip(i as int)[0] == x);
        assert(b@.skip(i as int)[0] == y);
        if x != y {
            return (x as u32) < (y as u32);
        }
        assert(a@.skip(i as int).skip(1) =~= a@.skip(i + 1));
        assert(b@.skip(i as int).skip(1) =~= b@.skip(i + 1));
        assert(a@.take(i + 1) =~= a@.take(i as int).push(x));
        assert(b@.take(i + 1) =~= b@.take(i as int).push(y));
        i += 1;
    }
    assert(a@.skip(i as int).len() == n - i);
    assert(b@.skip(i as int).len() == m - i);
    i < m
}

/// Whether the name has the extension `json`.
pub fn is_json_file(name: &str) -> (r: bool)
    ensures
        r == is_json_name(name@),
{
    let n = name.unicode_len();
    if n <= 5 {
        return false;
    }
    let tail = name.substring_char(n - 5, n);
    assert(tail@ =~= name@.skip(n - 5));
    crate::text::str_eq(tail, ".json")
}

/// Place of the oldest message among the directory entries `names`: the
/// `.json` entry that sorts first, the first of equal ones; `None` when
/// there is no `.json` entry.
pub fn oldest_inbox_entry(names: &[String]) -> (r: Option<usize>)
    ensures
        match r {
            None => forall|j: int| 0 <= j < names@.len() ==> !is_json_name(#[trigger] names@[j]@),
            Some(k) => {
                &&& (k as int) < names@.len()
                &&& is_json_name(names@[k as int]@)
                &&& forall|j: int|
                    0 <= j < k && is_json_name(#[trigger] names@[j]@) ==> name_before(names@[k as int]@, names@[j]@)
                &&& forall|j: int|
                    k < j < names@.len() && is_json_name(#[trigger] names@[j]@) ==> !name_before(
                        names@[j]@,
                        names@[k as int]@,
                    )
            },
        },
{
    let mut best: Option<usize> = None;
    let mut i: usize = 0;
    while i < names.len()
        invariant
            i <= names@.len(),
            match best {
                None => forall|j: int| 0 <= j < i ==> !is_json_name(#[trigger] names@[j]@),
                Some(k) => {
                    &&& k < i
                    &&& is_json_name(names@[k as int]@)
                    &&& forall|j: int|
                        0 <= j < k && is_json_name(#[trigger] names@[j]@) ==> name_before(
                            names@[k as int]@,
                            names@[j]@,
                        )
                    &&& forall|j: int|
                        k < j < i && is_json_name(#[trigger] names@[j]@) ==> !name_before(
                            names@[j]@,
                            names@[k as int]@,
                        )
                },
            },
        decreases names.len() - i,
    {
        let name = names[i].as_str();
        if is_json_file(name) {
            match best {
                None => {
                    best = Some(i);
                },
                Some(k) => {
                    if name_lt(name, names[k].as_str()) {
                        let ghost c = names@[i as int]@;
                        let ghost b = names@[k as int]@;
                        assert forall|j: int| 0 <= j < i && is_json_name(#[trigger] names@[j]@) implies name_before(
                            c,
                            names@[j]@,
                        ) by {
                            if j == k {
                            } else if j < k {
                                lemma_name_before_transitive(c, b, names@[j]@);
                            } else {
                                if names@[j]@ != b {
                                    lemma_name_before_total(names@[j]@, b);
                                    lemma_name_before_transitive(c, b, names@[j]@);
                                }
                            }
                        }
                        best = Some(i);
                    }
                },
            }
        }
        i += 1;
    }
    best
}

} // verus!
