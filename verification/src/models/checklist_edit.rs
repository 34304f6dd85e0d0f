//! The edits the checklist commands make: adding, updating, completing and
//! removing items, and choosing the items a listing shows.

use vstd::prelude::*;
use crate::schedule::addressing::{first_index_of, lemma_first_index_of, lemma_first_index_of_prefix};
use crate::text::str_eq;
use super::checklist::{category_at, category_rank, Checklist, ChecklistCategory, ChecklistItem, ItemV, Phase};

verus! {

/// Ids of the items, in order.
pub open spec fn item_ids(items: Seq<ItemV>) -> Seq<Seq<char>> {
    items.map_values(|i: ItemV| i.id)
}

/// The first category, from position `i` on in display order, that holds an
/// item with id `id`.
pub open spec fn home_from(cl: Checklist, id: Seq<char>, i: int) -> Option<ChecklistCategory>
    decreases 8 - i,
{
    if i >= 8 || i < 0 {
        None
    } else if cl.holds(category_at(i), id) {
        Some(category_at(i))
    } else {
        home_from(cl, id, i + 1)
    }
}

/// The first category, in display order, that holds an item with id `id`.
pub open spec fn home_of(cl: Checklist, id: Seq<char>) -> Option<ChecklistCategory> {
    home_from(cl, id, 0)
}

proof fn lemma_home_from(cl: Checklist, id: Seq<char>, i: int, c: ChecklistCategory)
    requires
        0 <= i <= category_rank(c),
        cl.holds(c, id),
        forall|j: int| 0 <= j < category_rank(c) ==> !cl.holds(#[trigger] category_at(j), id),
    ensures
        home_from(cl, id, i) == Some(c),
    decreases 8 - i,
{
    assert(category_at(category_rank(c)) == c);
    if i < category_rank(c) {
        lemma_home_from(cl, id, i + 1, c);
    }
}

proof fn lemma_home_none(cl: Checklist, id: Seq<char>, i: int)
    requires
        forall|c: ChecklistCategory| !cl.holds(c, id),
    ensures
        home_from(cl, id, i) is None,
    decreases 8 - i,
{
    if 0 <= i < 8 {
        lemma_home_none(cl, id, i + 1);
    }
}

/// The category that holds an item with id `id` (see `home_of`).
fn home(cl: &Checklist, id: &str) -> (r: Option<ChecklistCategory>)
    ensures
        r == home_of(*cl, id@),
        r matches Some(c) ==> cl.holds(c, id@),
{
    let r = cl.find_category(id);
    proof {
        match r {
            Some(c) => lemma_home_from(*cl, id@, 0, c),
            None => lemma_home_none(*cl, id@, 0),
        }
    }
    r
}

/// Position of the first item with id `id`.
fn item_index(items: &Vec<ChecklistItem>, id: &str) -> (r: Option<usize>)
    ensures
        match r {
            Some(k) => first_index_of(item_ids(items.deep_view()), id@) == Some(k as int),
            None => first_index_of(item_ids(items.deep_view()), id@) is None,
        },
{
    let ghost ids = item_ids(items.deep_view());
    let mut i: usize = 0;
    assert(ids.take(0) =~= Seq::<Seq<char>>::empty());
    while i < items.len()
        invariant
            ids == item_ids(items.deep_view()),
            i <= items@.len(),
            first_index_of(ids.take(i as int), id@) is None,
        decreases items.len() - i,
    {
        assert(ids.take(i + 1).drop_last() =~= ids.take(i as int));
        assert(ids[i as int] == items@[i as int].id@);
        if str_eq(items[i].id.as_str(), id) {
            assert(first_index_of(ids.take(i + 1), id@) == Some(i as int));
            proof { lemma_first_index_of_prefix(ids, id@, i as int + 1); }
            return Some(i);
        }
        i += 1;
    }
    assert(ids.take(i as int) =~= ids);
    None
}

/// A category's list holds an item with id `id` exactly when the id occurs
/// among its ids.
proof fn lemma_holds_index(cl: Checklist, c: ChecklistCategory, id: Seq<char>)
    ensures
        cl.holds(c, id) <==> first_index_of(item_ids(cl.items_of(c)), id) is Some,
{
    let ids = item_ids(cl.items_of(c));
    lemma_first_index_of(ids, id);
    if cl.holds(c, id) {
        let k = choose|k: int| 0 <= k < cl.items_of(c).len() && (#[trigger] cl.items_of(c)[k]).id == id;
        assert(ids[k] == id);
    }
    if let Some(k) = first_index_of(ids, id) {
        assert(cl.items_of(c)[k].id == id);
    }
}

/// Only the list of `c` changed; the date and context stayed.
pub open spec fn only_changed(before: Checklist, after: Checklist, c: ChecklistCategory) -> bool {
    &&& forall|d: ChecklistCategory| d != c ==> after.items_of(d) == before.items_of(d)
    &&& after.project_checklist.date == before.project_checklist.date
    &&& after.project_checklist.context == before.project_checklist.context
}

/// The message of a missing item.
pub open spec fn item_not_found(id: Seq<char>) -> Seq<char> {
    "Item \""@ + id + "\" not found in checklist."@
}

// ── add ─────────────────────────────────────────────────────────────────────

/// Add an item to `category`. The id must be new to the whole checklist; an
/// out-of-scope item takes no phase and no completion flag, any other item
/// needs a phase and starts incomplete.
pub fn add_item(
    cl: &mut Checklist,
    category: ChecklistCategory,
    id: &str,
    title: &str,
    description: &str,
    phase: Option<Phase>,
) -> (r: Result<(), String>)
    ensures
        if exists|c: ChecklistCategory| old(cl).holds(c, id@) {
            r matches Err(m) && m@ == "Item with ID \""@ + id@ + "\" already exists in the checklist."@ && *final(cl)
                == *old(cl)
        } else if category == ChecklistCategory::OutOfScope && phase is Some {
            r matches Err(m) && m@ == "Out-of-scope items should not have a phase."@ && *final(cl) == *old(cl)
        } else if category != ChecklistCategory::OutOfScope && phase is None {
            r matches Err(m) && m@ == "--phase (design or planning) is required for non out-of-scope items."@
                && *final(cl) == *old(cl)
        } else {
            &&& r is Ok
            &&& final(cl).items_of(category) == old(cl).items_of(category).push(
                ItemV {
                    id: id@,
                    title: title@,
                    description: description@,
                    complete: if category == ChecklistCategory::OutOfScope {
                        None
                    } else {
                        Some(false)
                    },
                    phase,
                },
            )
            &&& only_changed(*old(cl), *final(cl), category)
        },
{
    if cl.has_id(id) {
        return Err("Item with ID \"".to_owned().concat(id).concat("\" already exists in the checklist."));
    }
    let oos = category == ChecklistCategory::OutOfScope;
    if oos && phase.is_some() {
        return Err("Out-of-scope items should not have a phase.".to_owned());
    }
    if !oos && phase.is_none() {
        return Err("--phase (design or planning) is required for non out-of-scope items.".to_owned());
    }
    let item = ChecklistItem {
        id: id.to_owned(),
        title: title.to_owned(),
        description: description.to_owned(),
        complete: if oos {
            None
        } else {
            Some(false)
        },
        phase,
    };
    let list = cl.items_mut(category);
    let ghost before = list.deep_view();
    let ghost iv = item@;
    list.push(item);
    assert(list.deep_view() =~= before.push(iv));
    Ok(())
}

// ── update ──────────────────────────────────────────────────────────────────

/// Name of a phase, or `none`.
pub open spec fn phase_text(p: Option<Phase>) -> Seq<char> {
    match p {
        Some(Phase::Design) => "design"@,
        Some(Phase::Planning) => "planning"@,
        None => "none"@,
    }
}

/// The lines describing an update of `item`: the title change, a note for
/// the description, and the phase change, for the fields given.
pub open spec fn update_notes(item: ItemV, title: Option<Seq<char>>, description: Option<Seq<char>>, phase: Option<Phase>) -> Seq<Seq<char>> {
    let t = match title {
        Some(nt) => seq!["title: \""@ + item.title + "\" → \""@ + nt + "\""@],
        None => seq![],
    };
    let d = match description {
        Some(_) => seq!["description updated"@],
        None => seq![],
    };
    let p = match phase {
        Some(np) => seq!["phase: "@ + phase_text(item.phase) + " → "@ + phase_text(Some(np))],
        None => seq![],
    };
    t + d + p
}

/// The item with each given field replaced.
pub open spec fn updated_item(item: ItemV, title: Option<Seq<char>>, description: Option<Seq<char>>, phase: Option<Phase>) -> ItemV {
    ItemV {
        title: match title {
            Some(t) => t,
            None => item.title,
        },
        description: match description {
            Some(d) => d,
            None => item.description,
        },
        phase: match phase {
            Some(p) => Some(p),
            None => item.phase,
        },
        ..item
    }
}

/// Name of a phase, or `none`.
fn phase_label(p: Option<Phase>) -> (r: &'static str)
    ensures
        r@ == phase_text(p),
{
    match p {
        Some(ph) => ph.name(),
        None => "none",
    }
}

/// Update the title, description or phase of item `id`, in the first
/// category that holds it; at least one must be given, and an out-of-scope
/// item takes no phase. The result lists the changes made.
pub fn update_item(
    cl: &mut Checklist,
    id: &str,
    title: Option<String>,
    description: Option<String>,
    phase: Option<Phase>,
) -> (r: Result<Vec<String>, String>)
    ensures
        if title is None && description is None && phase is None {
            r matches Err(m) && m@ == "At least one of --title, --description, or --phase must be provided."@
                && *final(cl) == *old(cl)
        } else {
            match home_of(*old(cl), id@) {
                None => r matches Err(m) && m@ == item_not_found(id@) && *final(cl) == *old(cl),
                Some(c) => if phase is Some && c == ChecklistCategory::OutOfScope {
                    r matches Err(m) && m@ == "Cannot set phase on out-of-scope items."@ && *final(cl) == *old(cl)
                } else {
                    let items = old(cl).items_of(c);
                    let k = first_index_of(item_ids(items), id@)->0;
                    let t = title.deep_view();
                    let d = description.deep_view();
                    &&& r matches Ok(notes) && notes.deep_view() == update_notes(items[k], t, d, phase)
                    &&& final(cl).items_of(c) == items.update(k, updated_item(items[k], t, d, phase))
                    &&& only_changed(*old(cl), *final(cl), c)
                }
            }
        },
{
    if title.is_none() && description.is_none() && phase.is_none() {
        return Err("At least one of --title, --description, or --phase must be provided.".to_owned());
    }
    let c = match home(cl, id) {
        Some(c) => c,
        None => return Err("Item \"".to_owned().concat(id).concat("\" not found in checklist.")),
    };
    if phase.is_some() && c == ChecklistCategory::OutOfScope {
        return Err("Cannot set phase on out-of-scope items.".to_owned());
    }
    proof { lemma_holds_index(*cl, c, id@); }
    let k = item_index(cl.items(c), id).unwrap();
    proof { lemma_first_index_of(item_ids(cl.items_of(c)), id@); }
    let ghost items = cl.items_of(c);
    let list = cl.items_mut(c);
    let mut notes: Vec<String> = Vec::new();
    let ghost t = title.deep_view();
    let ghost d = description.deep_view();
    assert(list@[k as int]@ == items[k as int]);
    if let Some(nt) = title {
        let line = "title: \"".to_owned().concat(list[k].title.as_str()).concat("\" → \"").concat(nt.as_str()).concat("\"");
        notes.push(line);
        list[k].title = nt;
    }
    let ghost after_title = notes.deep_view();
    if let Some(nd) = description {
        notes.push("description updated".to_owned());
        list[k].description = nd;
    }
    let ghost after_desc = notes.deep_view();
    if let Some(np) = phase {
        let line = "phase: ".to_owned().concat(phase_label(list[k].phase)).concat(" → ").concat(phase_label(Some(np)));
        notes.push(line);
        list[k].phase = Some(np);
    }
    proof {
        let tn = match t {
            Some(nt) => seq!["title: \""@ + items[k as int].title + "\" → \""@ + nt + "\""@],
            None => seq![],
        };
        let dn = match d {
            Some(_) => seq!["description updated"@],
            None => seq![],
        };
        assert(after_title =~= tn);
        assert(after_desc =~= tn + dn);
        assert(notes.deep_view() =~= update_notes(items[k as int], t, d, phase));
        assert(list.deep_view() =~= items.update(k as int, updated_item(items[k as int], t, d, phase)));
    }
    Ok(notes)
}

// ── completion ──────────────────────────────────────────────────────────────

/// Mark item `id` complete (`done`) or incomplete; an out-of-scope item has
/// no completion to change.
pub fn set_complete(cl: &mut Checklist, id: &str, done: bool) -> (r: Result<(), String>)
    ensures
        match home_of(*old(cl), id@) {
            None => r matches Err(m) && m@ == item_not_found(id@) && *final(cl) == *old(cl),
            Some(c) => if c == ChecklistCategory::OutOfScope {
                r matches Err(m) && m@ == (if done {
                    "Cannot mark out-of-scope items as complete."@
                } else {
                    "Cannot toggle completion on out-of-scope items."@
                }) && *final(cl) == *old(cl)
            } else {
                let items = old(cl).items_of(c);
                let k = first_index_of(item_ids(items), id@)->0;
                &&& r is Ok
                &&& final(cl).items_of(c) == items.update(k, ItemV { complete: Some(done), ..items[k] })
                &&& only_changed(*old(cl), *final(cl), c)
            },
        },
{
    let c = match home(cl, id) {
        Some(c) => c,
        None => return Err("Item \"".to_owned().concat(id).concat("\" not found in checklist.")),
    };
    if c == ChecklistCategory::OutOfScope {
        return Err(
            if done {
                "Cannot mark out-of-scope items as complete.".to_owned()
            } else {
                "Cannot toggle completion on out-of-scope items.".to_owned()
            },
        );
    }
    proof { lemma_holds_index(*cl, c, id@); }
    let k = item_index(cl.items(c), id).unwrap();
    proof { lemma_first_index_of(item_ids(cl.items_of(c)), id@); }
    let ghost items = cl.items_of(c);
    let list = cl.items_mut(c);
    list[k].complete = Some(done);
    assert(list.deep_view() =~= items.update(k as int, ItemV { complete: Some(done), ..items[k as int] }));
    Ok(())
}

// ── removal ─────────────────────────────────────────────────────────────────

/// The items without any item with id `id`.
pub open spec fn without_item(items: Seq<ItemV>, id: Seq<char>) -> Seq<ItemV> {
    items.filter(|i: ItemV| i.id != id)
}

/// Remove every item with id `id` from the first category that holds it,
/// and tell which category that was.
pub fn remove_item(cl: &mut Checklist, id: &str) -> (r: Result<ChecklistCategory, String>)
    ensures
        match home_of(*old(cl), id@) {
            None => r matches Err(m) && m@ == item_not_found(id@) && *final(cl) == *old(cl),
            Some(c) => {
                &&& r == Ok::<ChecklistCategory, String>(c)
                &&& final(cl).items_of(c) == without_item(old(cl).items_of(c), id@)
                &&& only_changed(*old(cl), *final(cl), c)
            },
        },
{
    let c = match home(cl, id) {
        Some(c) => c,
        None => return Err("Item \"".to_owned().concat(id).concat("\" not found in checklist.")),
    };
    let ghost items = cl.items_of(c);
    let ghost pred = |i: ItemV| i.id != id@;
    let list = cl.items_mut(c);
    let mut kept: Vec<ChecklistItem> = Vec::new();
    let mut i: usize = 0;
    proof { reveal(Seq::filter); }
    assert(items.take(0) =~= Seq::<ItemV>::empty());
    assert(kept.deep_view() =~= items.take(0).filter(pred));
    let n = list.len();
    while i < n
        invariant
            n == items.len(),
            list.deep_view() == items,
            pred == (|i: ItemV| i.id != id@),
            i <= n,
            kept.deep_view() == items.take(i as int).filter(pred),
        decreases n - i,
    {
        proof { reveal(Seq::filter); }
        assert(items.take(i + 1).drop_last() =~= items.take(i as int));
        assert(items.take(i + 1).last() == list@[i as int]@);
        if !str_eq(list[i].id.as_str(), id) {
            let x = ChecklistItem {
                id: list[i].id.clone(),
                title: list[i].title.clone(),
                description: list[i].description.clone(),
                complete: list[i].complete,
                phase: list[i].phase,
            };
            let ghost before = kept.deep_view();
            kept.push(x);
            assert(kept.deep_view() =~= before.push(items[i as int]));
        }
        assert(kept.deep_view() =~= items.take(i + 1).filter(pred));
        i += 1;
    }
    assert(items.take(n as int) =~= items);
    *list = kept;
    Ok(c)
}

// ── listing ─────────────────────────────────────────────────────────────────

/// An item shows in a listing: of the given phase, if one is given; complete
/// only, or incomplete only, if asked.
pub open spec fn shown(item: ItemV, phase: Option<Phase>, only_complete: bool, only_incomplete: bool) -> bool {
    &&& phase matches Some(p) ==> item.phase == Some(p)
    &&& only_complete ==> item.complete == Some(true)
    &&& only_incomplete ==> item.complete != Some(true)
}

/// Positions of the items that show, in order.
pub open spec fn shown_positions(items: Seq<ItemV>, phase: Option<Phase>, only_complete: bool, only_incomplete: bool, n: int) -> Seq<int>
    decreases n,
{
    if n <= 0 {
        seq![]
    } else if shown(items[n - 1], phase, only_complete, only_incomplete) {
        shown_positions(items, phase, only_complete, only_incomplete, n - 1).push(n - 1)
    } else {
        shown_positions(items, phase, only_complete, only_incomplete, n - 1)
    }
}

/// The positions of the items of a list that a listing shows, in order.
pub fn select_items(items: &[ChecklistItem], phase: Option<Phase>, only_complete: bool, only_incomplete: bool) -> (r: Vec<usize>)
    ensures
        r@.map_values(|k: usize| k as int) == shown_positions(
            items.deep_view(),
            phase,
            only_complete,
            only_incomplete,
            items@.len() as int,
        ),
{
    let ghost iv = items.deep_view();
    let mut out: Vec<usize> = Vec::new();
    let mut i: usize = 0;
    assert(out@.map_values(|k: usize| k as int) =~= Seq::<int>::empty());
    while i < items.len()
        invariant
            iv == items.deep_view(),
            i <= items@.len(),
            out@.map_values(|k: usize| k as int) == shown_positions(iv, phase, only_complete, only_incomplete, i as int),
        decreases items.len() - i,
    {
        let it = &items[i];
        assert(iv[i as int] == it@);
        let phase_ok = match phase {
            Some(p) => it.phase == Some(p),
            None => true,
        };
        let ok = phase_ok && (!only_complete || it.complete == Some(true)) && (!only_incomplete || it.complete
            != Some(true));
        if ok {
            let ghost before = out@;
            out.push(i);
            assert(out@.map_values(|k: usize| k as int) =~= before.map_values(|k: usize| k as int).push(i as int));
        }
        i += 1;
    }
    out
}

/// The categories a listing covers: the one asked for, or all in display order.
pub fn listed_categories(filter: Option<ChecklistCategory>) -> (r: Vec<ChecklistCategory>)
    ensures
        match filter {
            Some(c) => r@ == seq![c],
            None => r@.len() == 8 && forall|i: int| 0 <= i < 8 ==> r@[i] == category_at(i),
        },
{
    match filter {
        Some(c) => {
            let v = vec![c];
            assert(v@ =~= seq![c]);
            v
        },
        None => ChecklistCategory::all(),
    }
}

/// The category and position of item `id`, for showing it.
pub fn locate_item(cl: &Checklist, id: &str) -> (r: Result<(ChecklistCategory, usize), String>)
    ensures
        match home_of(*cl, id@) {
            None => r matches Err(m) && m@ == item_not_found(id@),
            Some(c) => r matches Ok((c2, k)) && c2 == c && first_index_of(item_ids(cl.items_of(c)), id@) == Some(
                k as int,
            ),
        },
{
    let c = match home(cl, id) {
        Some(c) => c,
        None => return Err("Item \"".to_owned().concat(id).concat("\" not found in checklist.")),
    };
    proof { lemma_holds_index(*cl, c, id@); }
    let k = item_index(cl.items(c), id).unwrap();
    Ok((c, k))
}

/// No id occurs twice in the whole checklist.
pub open spec fn ids_unique(cl: Checklist) -> bool {
    forall|c1: ChecklistCategory, c2: ChecklistCategory, k1: int, k2: int|
        0 <= k1 < cl.items_of(c1).len() && 0 <= k2 < cl.items_of(c2).len() && (#[trigger] cl.items_of(c1)[k1]).id
            == (#[trigger] cl.items_of(c2)[k2]).id ==> c1 == c2 && k1 == k2
}

/// Adding keeps ids unique: an add that succeeds appends an item whose id no
/// category held, and changes no other list.
pub proof fn law_add_keeps_ids_unique(before: Checklist, after: Checklist, category: ChecklistCategory, item: ItemV)
    requires
        ids_unique(before),
        forall|c: ChecklistCategory| !before.holds(c, item.id),
        after.items_of(category) == before.items_of(category).push(item),
        only_changed(before, after, category),
    ensures
        ids_unique(after),
{
    assert forall|c1: ChecklistCategory, c2: ChecklistCategory, k1: int, k2: int|
        0 <= k1 < after.items_of(c1).len() && 0 <= k2 < after.items_of(c2).len() && (#[trigger] after.items_of(
            c1,
        )[k1]).id == (#[trigger] after.items_of(c2)[k2]).id implies c1 == c2 && k1 == k2 by {
        let n = before.items_of(category).len();
        let new1 = c1 == category && k1 == n;
        let new2 = c2 == category && k2 == n;
        if new1 && !new2 {
            assert(after.items_of(c2)[k2] == before.items_of(c2)[k2]);
            assert(before.holds(c2, item.id));
        } else if new2 && !new1 {
            assert(after.items_of(c1)[k1] == before.items_of(c1)[k1]);
            assert(before.holds(c1, item.id));
        } else if !new1 && !new2 {
            assert(after.items_of(c1)[k1] == before.items_of(c1)[k1]);
            assert(after.items_of(c2)[k2] == before.items_of(c2)[k2]);
        }
    }
}

} // verus!
