//! Plain-value helpers of the command handlers: id checks, optional fields,
//! the markdown the create command writes and the history entries.

use vstd::prelude::*;
use crate::error::RexError;
use crate::project::{prune_steps, step_kept, str_names, ProjectId, ProjectYaml};
use crate::schedule::types::ScheduleState;
use crate::text::str_has_char;

verus! {

/// Input of a chunk update: the address and the fields to change.
pub struct ChunkUpdateInput<'a> {
    pub addr: &'a str,
    pub description: Option<&'a str>,
    pub new_id: Option<&'a str>,
    pub state: Option<ScheduleState>,
    pub scenarios: Option<&'a [String]>,
    pub spec_refs: Option<&'a [String]>,
    pub blocked_by: Option<&'a [String]>,
}

/// Input of a task update: the address and the fields to change.
pub struct TaskUpdateInput<'a> {
    pub addr: &'a str,
    pub description: Option<&'a str>,
    pub new_id: Option<&'a str>,
    pub state: Option<ScheduleState>,
    pub skill: Option<Option<String>>,
    pub inputs: Option<Option<String>>,
    pub outputs: Option<Option<String>>,
}

/// Reject an id with a dot: dotted text is reserved for position addresses.
pub fn validate_no_dot_in_id(id: &str) -> (r: Result<(), RexError>)
    ensures
        r is Ok <==> !id@.contains('.'),
        r matches Err(e) ==> (e matches RexError::InvalidSlug { reason } && reason@ == "id '"@ + id@
            + "' must not contain dots — reserved for dotted position addressing"@),
{
    if str_has_char(id, '.') {
        return Err(RexError::InvalidSlug {
            reason: "id '".to_owned().concat(id).concat(
                "' must not contain dots — reserved for dotted position addressing",
            ),
        });
    }
    Ok(())
}

/// `None` for an empty string, else the string.
pub fn nullable(s: String) -> (r: Option<String>)
    ensures
        s@.len() == 0 ==> r is None,
        s@.len() > 0 ==> (r matches Some(x) && x@ == s@),
{
    if s.unicode_len() == 0 {
        None
    } else {
        Some(s)
    }
}

/// A line break character becomes a space.
pub open spec fn flat_char(c: char) -> char {
    if c == '\n' || c == '\r' {
        ' '
    } else {
        c
    }
}

/// `s` with every `\n` and `\r` replaced by a space.
pub open spec fn flattened(s: Seq<char>) -> Seq<char> {
    s.map_values(|c: char| flat_char(c))
}

/// Replace line breaks by spaces, so a field stays on its bullet line.
pub fn sanitize_field(s: &str) -> (r: String)
    ensures
        r@ == flattened(s@),
{
    proof { reveal_strlit(" "); }
    let n = s.unicode_len();
    let mut out = String::new();
    let mut i: usize = 0;
    while i < n
        invariant
            n == s@.len(),
            i <= n,
            out@ == flattened(s@.take(i as int)),
        decreases n - i,
    {
        proof { reveal_strlit(" "); }
        let c = s.get_char(i);
        if c == '\n' || c == '\r' {
            out = out.concat(" ");
        } else {
            let one = s.substring_char(i, i + 1);
            assert(one@ =~= seq![c]);
            out = out.concat(one);
        }
        assert(out@ =~= flattened(s@.take(i + 1)));
        i += 1;
    }
    assert(s@.take(n as int) =~= s@);
    out
}

/// An API the research step should explore.
pub struct ResearchApiRow {
    /// Short display name, e.g. `"Binance Spot"`.
    pub name: String,
    /// Docs URL the research step will explore.
    pub url: String,
}

/// An external resource of the project.
pub struct ResourceRow {
    /// Human label, e.g. `"Design spec"`.
    pub label: String,
    /// URL or file path to the resource.
    pub url: String,
}

/// Options of a new project, collected from the prompts.
pub struct CreateOpts {
    /// Human-readable project title.
    pub title: String,
    /// Optional subtitle.
    pub subtitle: Option<String>,
    /// Optional description.
    pub description: Option<String>,
    /// Project category, e.g. `feature`, `refactor`.
    pub category: String,
    /// Project complexity, e.g. `low`, `medium`, `high`.
    pub complexity: String,
    /// Slug identifier for the project.
    pub project_id: ProjectId,
    /// Names of optional pipeline steps the user opted into.
    pub selected_optional_steps: Vec<String>,
}

/// The bullet lines of a markdown list of (name, url) pairs.
pub open spec fn bullets(rows: Seq<(Seq<char>, Seq<char>)>) -> Seq<char>
    decreases rows.len(),
{
    if rows.len() == 0 {
        seq![]
    } else {
        bullets(rows.drop_last()) + "\n- **"@ + flattened(rows.last().0) + "** — "@ + flattened(rows.last().1)
    }
}

/// (name, url) pairs of research rows.
pub open spec fn research_pairs(rows: Seq<ResearchApiRow>) -> Seq<(Seq<char>, Seq<char>)> {
    rows.map_values(|r: ResearchApiRow| (r.name@, r.url@))
}

/// (label, url) pairs of resource rows.
pub open spec fn resource_pairs(rows: Seq<ResourceRow>) -> Seq<(Seq<char>, Seq<char>)> {
    rows.map_values(|r: ResourceRow| (r.label@, r.url@))
}

fn bullet(name: &str, url: &str) -> (r: String)
    ensures
        r@ == "\n- **"@ + flattened(name@) + "** — "@ + flattened(url@),
{
    "\n- **".to_owned().concat(sanitize_field(name).as_str()).concat("** — ").concat(sanitize_field(url).as_str())
}

/// The markdown list of APIs to research.
pub fn render_research_api_md(rows: &[ResearchApiRow]) -> (r: String)
    ensures
        r@ == "# APIs to research\n"@ + bullets(research_pairs(rows@)) + "\n"@,
{
    let ghost pv = research_pairs(rows@);
    let mut out = "# APIs to research\n".to_owned();
    let mut i: usize = 0;
    assert(pv.take(0) =~= Seq::<(Seq<char>, Seq<char>)>::empty());
    assert(out@ =~= "# APIs to research\n"@ + bullets(pv.take(0)));
    while i < rows.len()
        invariant
            pv == research_pairs(rows@),
            i <= pv.len(),
            out@ == "# APIs to research\n"@ + bullets(pv.take(i as int)),
        decreases rows.len() - i,
    {
        assert(pv.take(i + 1).drop_last() =~= pv.take(i as int));
        assert(pv.take(i + 1).last() == (rows@[i as int].name@, rows@[i as int].url@));
        let b = bullet(rows[i].name.as_str(), rows[i].url.as_str());
        out = out.concat(b.as_str());
        assert(out@ =~= "# APIs to research\n"@ + bullets(pv.take(i + 1)));
        i += 1;
    }
    assert(pv.take(pv.len() as int) =~= pv);
    out.concat("\n")
}

/// The markdown list of resources.
pub fn render_resources_md(rows: &[ResourceRow]) -> (r: String)
    ensures
        r@ == "# Resources\n"@ + bullets(resource_pairs(rows@)) + "\n"@,
{
    let ghost pv = resource_pairs(rows@);
    let mut out = "# Resources\n".to_owned();
    let mut i: usize = 0;
    assert(pv.take(0) =~= Seq::<(Seq<char>, Seq<char>)>::empty());
    assert(out@ =~= "# Resources\n"@ + bullets(pv.take(0)));
    while i < rows.len()
        invariant
            pv == resource_pairs(rows@),
            i <= pv.len(),
            out@ == "# Resources\n"@ + bullets(pv.take(i as int)),
        decreases rows.len() - i,
    {
        assert(pv.take(i + 1).drop_last() =~= pv.take(i as int));
        assert(pv.take(i + 1).last() == (rows@[i as int].label@, rows@[i as int].url@));
        let b = bullet(rows[i].label.as_str(), rows[i].url.as_str());
        out = out.concat(b.as_str());
        assert(out@ =~= "# Resources\n"@ + bullets(pv.take(i + 1)));
        i += 1;
    }
    assert(pv.take(pv.len() as int) =~= pv);
    out.concat("\n")
}

/// One entry of the recent or archived history.
pub struct HistoryEntry {
    /// Unique identifier of the entry (kebab-case).
    pub id: String,
    /// ISO-8601 timestamp of when the entry was recorded.
    pub timestamp: String,
    /// Brief summary of what was done.
    pub summary: String,
    /// Entities (milestone, objective or task ids) that were affected.
    pub entities: Vec<String>,
    /// Files that were created or modified.
    pub files: Vec<String>,
    /// The agent session identifier, if available.
    pub session: Option<String>,
}

/// The history store: recent entries and compacted archived ones.
#[derive(Default)]
pub struct History {
    pub recent: Vec<HistoryEntry>,
    pub archived: Vec<HistoryEntry>,
}

/// A history entry from its fields.
pub fn build_entry(
    id: &str,
    timestamp: &str,
    summary: &str,
    entities: Vec<String>,
    files: Vec<String>,
    session: Option<String>,
) -> (r: HistoryEntry)
    ensures
        r.id@ == id@,
        r.timestamp@ == timestamp@,
        r.summary@ == summary@,
        r.entities == entities,
        r.files == files,
        r.session == session,
{
    HistoryEntry {
        id: id.to_owned(),
        timestamp: timestamp.to_owned(),
        summary: summary.to_owned(),
        entities,
        files,
        session,
    }
}

/// A history entry as plain values.
pub ghost struct EntryV {
    pub id: Seq<char>,
    pub timestamp: Seq<char>,
    pub summary: Seq<char>,
    pub entities: Seq<Seq<char>>,
    pub files: Seq<Seq<char>>,
    pub session: Option<Seq<char>>,
}

impl View for HistoryEntry {
    type V = EntryV;

    open spec fn view(&self) -> EntryV {
        EntryV {
            id: self.id@,
            timestamp: self.timestamp@,
            summary: self.summary@,
            entities: self.entities.deep_view(),
            files: self.files.deep_view(),
            session: self.session.deep_view(),
        }
    }
}

impl DeepView for HistoryEntry {
    type V = EntryV;

    open spec fn deep_view(&self) -> EntryV {
        self@
    }
}

/// Why a history edit was refused.
#[derive(Debug)]
pub enum HistoryError {
    AlreadyExists(String),
    NotFound(String),
}

/// The section name used in messages.
pub open spec fn section_title(archived: bool) -> Seq<char> {
    if archived {
        "Archived"@
    } else {
        "Recent"@
    }
}

/// The section an edit works on.
pub open spec fn section_of(h: History, archived: bool) -> Seq<EntryV> {
    if archived {
        h.archived.deep_view()
    } else {
        h.recent.deep_view()
    }
}

/// The section holds an entry with id `id`.
pub open spec fn section_has(entries: Seq<EntryV>, id: Seq<char>) -> bool {
    exists|k: int| 0 <= k < entries.len() && (#[trigger] entries[k]).id == id
}

fn entries_have(entries: &Vec<HistoryEntry>, id: &str) -> (r: bool)
    ensures
        r == section_has(entries.deep_view(), id@),
{
    let ghost ev = entries.deep_view();
    let mut i: usize = 0;
    while i < entries.len()
        invariant
            ev == entries.deep_view(),
            i <= ev.len(),
            forall|k: int| 0 <= k < i ==> (#[trigger] ev[k]).id != id@,
        decreases entries.len() - i,
    {
        assert(ev[i as int].id == entries@[i as int].id@);
        if crate::text::str_eq(entries[i].id.as_str(), id) {
            return true;
        }
        i += 1;
    }
    false
}

/// Append an entry to the recent or the archived section; its id must be
/// new to that section.
pub fn insert_entry(h: &mut History, entry: HistoryEntry, archived: bool) -> (r: Result<(), HistoryError>)
    ensures
        if section_has(section_of(*old(h), archived), entry.id@) {
            &&& r matches Err(HistoryError::AlreadyExists(m)) && m@ == section_title(archived) + " entry \""@
                + entry.id@ + "\" already exists."@
            &&& section_of(*final(h), true) == section_of(*old(h), true)
            &&& section_of(*final(h), false) == section_of(*old(h), false)
        } else {
            &&& r is Ok
            &&& section_of(*final(h), archived) == section_of(*old(h), archived).push(entry@)
            &&& section_of(*final(h), !archived) == section_of(*old(h), !archived)
        },
{
    let section = if archived {
        &h.archived
    } else {
        &h.recent
    };
    if entries_have(section, entry.id.as_str()) {
        let title = if archived {
            "Archived"
        } else {
            "Recent"
        };
        return Err(HistoryError::AlreadyExists(title.to_owned().concat(" entry \"").concat(entry.id.as_str()).concat("\" already exists.")));
    }
    let ghost ev = entry@;
    if archived {
        let ghost before = h.archived.deep_view();
        h.archived.push(entry);
        assert(h.archived.deep_view() =~= before.push(ev));
    } else {
        let ghost before = h.recent.deep_view();
        h.recent.push(entry);
        assert(h.recent.deep_view() =~= before.push(ev));
    }
    Ok(())
}

/// The entries without those with id `id`.
pub open spec fn without_entry(entries: Seq<EntryV>, id: Seq<char>) -> Seq<EntryV> {
    entries.filter(|e: EntryV| e.id != id)
}

/// Remove every entry with id `id` from the recent or archived section;
/// there must be one.
pub fn remove_entry(h: &mut History, id: &str, archived: bool) -> (r: Result<(), HistoryError>)
    ensures
        if section_has(section_of(*old(h), archived), id@) {
            &&& r is Ok
            &&& section_of(*final(h), archived) == without_entry(section_of(*old(h), archived), id@)
            &&& section_of(*final(h), !archived) == section_of(*old(h), !archived)
        } else {
            &&& r matches Err(HistoryError::NotFound(m)) && m@ == section_title(archived) + " entry \""@ + id@
                + "\" not found."@
            &&& section_of(*final(h), true) == section_of(*old(h), true)
            &&& section_of(*final(h), false) == section_of(*old(h), false)
        },
{
    let present = if archived {
        entries_have(&h.archived, id)
    } else {
        entries_have(&h.recent, id)
    };
    if !present {
        let title = if archived {
            "Archived"
        } else {
            "Recent"
        };
        return Err(HistoryError::NotFound(title.to_owned().concat(" entry \"").concat(id).concat("\" not found.")));
    }
    if archived {
        drop_entries(&mut h.archived, id);
    } else {
        drop_entries(&mut h.recent, id);
    }
    Ok(())
}

/// Remove every entry with id `id`.
fn drop_entries(entries: &mut Vec<HistoryEntry>, id: &str)
    ensures
        final(entries).deep_view() == without_entry(old(entries).deep_view(), id@),
{
    let ghost ev = entries.deep_view();
    let ghost pred = |e: EntryV| e.id != id@;
    let mut kept: Vec<HistoryEntry> = Vec::new();
    let n = entries.len();
    let mut i: usize = 0;
    proof { reveal(Seq::filter); }
    assert(ev.take(0) =~= Seq::<EntryV>::empty());
    assert(kept.deep_view() =~= ev.take(0).filter(pred));
    while i < n
        invariant
            n == ev.len(),
            ev == entries.deep_view(),
            pred == (|e: EntryV| e.id != id@),
            i <= n,
            kept.deep_view() == ev.take(i as int).filter(pred),
        decreases n - i,
    {
        proof { reveal(Seq::filter); }
        assert(ev.take(i + 1).drop_last() =~= ev.take(i as int));
        assert(ev.take(i + 1).last() == entries@[i as int]@);
        if !crate::text::str_eq(entries[i].id.as_str(), id) {
            let e = &entries[i];
            let copy = HistoryEntry {
                id: e.id.clone(),
                timestamp: e.timestamp.clone(),
                summary: e.summary.clone(),
                entities: crate::schedule::types::clone_strings(&e.entities),
                files: crate::schedule::types::clone_strings(&e.files),
                session: crate::schedule::types::clone_opt_string(&e.session),
            };
            let ghost before = kept.deep_view();
            kept.push(copy);
            assert(kept.deep_view() =~= before.push(ev[i as int]));
        }
        assert(kept.deep_view() =~= ev.take(i + 1).filter(pred));
        i += 1;
    }
    assert(ev.take(n as int) =~= ev);
    *entries = kept;
}

/// Whether the project id is already taken by an inactive project.
pub fn id_taken(inactive: &[ProjectId], id: &ProjectId) -> (r: bool)
    ensures
        r == inactive.deep_view().contains(id@),
{
    let ghost dv = inactive.deep_view();
    let mut i: usize = 0;
    while i < inactive.len()
        invariant
            dv == inactive.deep_view(),
            i <= dv.len(),
            forall|k: int| 0 <= k < i ==> dv[k] != id@,
        decreases inactive.len() - i,
    {
        assert(dv[i as int] == inactive@[i as int]@);
        if crate::text::str_eq(inactive[i].as_str(), id.as_str()) {
            return true;
        }
        i += 1;
    }
    false
}

/// The `project.yaml` of a new project: the options' fields, zero counters,
/// not completed, and the template's steps that are required or were
/// selected, in template order.
pub fn new_project(template: &ProjectYaml, opts: CreateOpts) -> (r: ProjectYaml)
    ensures
        r.project_id@ == opts.project_id@,
        r.category@ == opts.category@,
        r.title.deep_view() == Some(opts.title@),
        r.subtitle.deep_view() == opts.subtitle.deep_view(),
        r.description.deep_view() == opts.description.deep_view(),
        r.complexity@ == opts.complexity@,
        r.chunks_required == 0 && r.chunks_completed == 0 && r.tasks_required == 0 && r.tasks_completed == 0,
        !r.completed,
        r.steps.deep_view() == template.steps.deep_view().filter(
            step_kept(opts.selected_optional_steps.deep_view()),
        ),
{
    let mut keep: Vec<&str> = Vec::new();
    let mut i: usize = 0;
    while i < opts.selected_optional_steps.len()
        invariant
            i <= opts.selected_optional_steps@.len(),
            str_names(keep@) == opts.selected_optional_steps.deep_view().take(i as int),
        decreases opts.selected_optional_steps.len() - i,
    {
        let ghost before = keep@;
        keep.push(opts.selected_optional_steps[i].as_str());
        assert(str_names(keep@) =~= str_names(before).push(opts.selected_optional_steps@[i as int]@));
        assert(opts.selected_optional_steps.deep_view().take(i + 1) =~= opts.selected_optional_steps.deep_view().take(
            i as int,
        ).push(opts.selected_optional_steps@[i as int]@));
        i += 1;
    }
    assert(opts.selected_optional_steps.deep_view().take(i as int) =~= opts.selected_optional_steps.deep_view());
    let steps = prune_steps(template, keep.as_slice());
    ProjectYaml {
        project_id: opts.project_id,
        category: opts.category,
        title: Some(opts.title),
        subtitle: opts.subtitle,
        description: opts.description,
        complexity: opts.complexity,
        chunks_required: 0,
        chunks_completed: 0,
        tasks_required: 0,
        tasks_completed: 0,
        completed: false,
        steps,
    }
}

} // verus!
