//! One install run of the bundle: every bundle file is decided by the
//! three-way merge, the new manifest records the hash each file leaves
//! behind, and the summary counts the actions. Reading the bundle and the
//! disk, and carrying out the writes, happen around `plan_bundle`.

use vstd::prelude::*;
use crate::schedule::addressing::{first_index_of, lemma_first_index_of, lemma_first_index_of_prefix};
use crate::text::str_eq;
use super::merge::{
    hex_lower, merge_decision, opt_view, plan_file, recorded_hash, sha256_digest, BundleMode, FilePlan, InitSummary,
    MergeAction,
};

verus! {

/// The manifest of an install: the version of rex that wrote it and, for
/// each bundle path, the SHA-256 hex of the file it left.
#[derive(Debug)]
pub struct Manifest {
    pub rex_version: String,
    pub files: Vec<(String, String)>,
}

/// Recorded hashes as plain values.
pub open spec fn files_view(v: Seq<(String, String)>) -> Seq<(Seq<char>, Seq<char>)> {
    v.map_values(|x: (String, String)| (x.0@, x.1@))
}

/// Paths of the recorded hashes, in order.
pub open spec fn file_keys(fs: Seq<(Seq<char>, Seq<char>)>) -> Seq<Seq<char>> {
    fs.map_values(|x: (Seq<char>, Seq<char>)| x.0)
}

/// The hash recorded for `path`.
pub open spec fn mlookup(fs: Seq<(Seq<char>, Seq<char>)>, path: Seq<char>) -> Option<Seq<char>> {
    match first_index_of(file_keys(fs), path) {
        Some(i) => Some(fs[i].1),
        None => None,
    }
}

/// The hashes after recording `h` for `path`, replacing an earlier record.
pub open spec fn minsert(fs: Seq<(Seq<char>, Seq<char>)>, path: Seq<char>, h: Seq<char>) -> Seq<(Seq<char>, Seq<char>)> {
    match first_index_of(file_keys(fs), path) {
        Some(i) => fs.update(i, (path, h)),
        None => fs.push((path, h)),
    }
}

proof fn lemma_file_keys(fs: Seq<(Seq<char>, Seq<char>)>)
    ensures
        file_keys(fs).len() == fs.len(),
        forall|i: int| 0 <= i < fs.len() ==> #[trigger] file_keys(fs)[i] == fs[i].0,
{
}

fn file_index(v: &Vec<(String, String)>, path: &str) -> (r: Option<usize>)
    ensures
        match r {
            Some(k) => first_index_of(file_keys(files_view(v@)), path@) == Some(k as int) && (k as int) < v@.len()
                && v@[k as int].0@ == path@,
            None => first_index_of(file_keys(files_view(v@)), path@) is None,
        },
{
    let ghost ids = file_keys(files_view(v@));
    proof { lemma_file_keys(files_view(v@)); }
    let mut i: usize = 0;
    assert(ids.take(0) =~= Seq::<Seq<char>>::empty());
    while i < v.len()
        invariant
            ids == file_keys(files_view(v@)),
            ids.len() == v@.len(),
            forall|j: int| 0 <= j < v@.len() ==> #[trigger] ids[j] == v@[j].0@,
            i <= v@.len(),
            first_index_of(ids.take(i as int), path@) is None,
        decreases v.len() - i,
    {
        assert(ids.take(i + 1).drop_last() =~= ids.take(i as int));
        assert(ids[i as int] == v@[i as int].0@);
        if str_eq(v[i].0.as_str(), path) {
            assert(first_index_of(ids.take(i + 1), path@) == Some(i as int));
            proof { lemma_first_index_of_prefix(ids, path@, i as int + 1); }
            return Some(i);
        }
        i += 1;
    }
    assert(ids.take(i as int) =~= ids);
    None
}

impl Manifest {
    /// The hash recorded for `path`.
    pub fn get(&self, path: &str) -> (r: Option<&str>)
        ensures
            opt_view(r) == mlookup(files_view(self.files@), path@),
    {
        match file_index(&self.files, path) {
            Some(i) => Some(self.files[i].1.as_str()),
            None => None,
        }
    }

    /// Record `hash` for `path`, replacing an earlier record.
    pub fn insert(&mut self, path: &str, hash: String)
        ensures
            files_view(final(self).files@) == minsert(files_view(old(self).files@), path@, hash@),
            final(self).rex_version == old(self).rex_version,
    {
        let ghost fv = files_view(self.files@);
        let ghost hv = hash@;
        match file_index(&self.files, path) {
            Some(i) => {
                self.files.set(i, (path.to_owned(), hash));
                assert(files_view(self.files@) =~= fv.update(i as int, (path@, hv)));
            },
            None => {
                self.files.push((path.to_owned(), hash));
                assert(files_view(self.files@) =~= fv.push((path@, hv)));
            },
        }
    }
}

/// One bundle file to install: its path in the bundle, its bytes, and the
/// bytes of the file at that path on disk, if there is one.
#[derive(Debug)]
pub struct BundleFile {
    pub rel: String,
    pub contents: Vec<u8>,
    pub disk: Option<Vec<u8>>,
}

/// A bundle file as plain values.
pub ghost struct BundleFileV {
    pub rel: Seq<char>,
    pub contents: Seq<u8>,
    pub disk: Option<Seq<u8>>,
}

impl View for BundleFile {
    type V = BundleFileV;

    open spec fn view(&self) -> BundleFileV {
        BundleFileV {
            rel: self.rel@,
            contents: self.contents@,
            disk: match self.disk {
                Some(d) => Some(d@),
                None => None,
            },
        }
    }
}

/// Hex SHA-256 of the bundle's version of a file.
pub open spec fn bundle_hash_of(f: BundleFileV) -> Seq<char> {
    hex_lower(sha256_digest(f.contents))
}

/// Hex SHA-256 of the file on disk, if there is one.
pub open spec fn disk_hash_of(f: BundleFileV) -> Option<Seq<char>> {
    match f.disk {
        Some(d) => Some(hex_lower(sha256_digest(d))),
        None => None,
    }
}

/// The hash an earlier run recorded for the file.
pub open spec fn recorded_of(m: Option<Seq<(Seq<char>, Seq<char>)>>, f: BundleFileV) -> Option<Seq<char>> {
    match m {
        Some(fs) => mlookup(fs, f.rel),
        None => None,
    }
}

/// The action for one file: always a write when forced.
pub open spec fn file_action(mode: BundleMode, m: Option<Seq<(Seq<char>, Seq<char>)>>, f: BundleFileV) -> MergeAction {
    match mode {
        BundleMode::Force => MergeAction::Write,
        BundleMode::Merge => merge_decision(recorded_of(m, f), disk_hash_of(f), bundle_hash_of(f)),
    }
}

/// The hash the run records for one file.
pub open spec fn file_record(mode: BundleMode, m: Option<Seq<(Seq<char>, Seq<char>)>>, f: BundleFileV) -> Option<Seq<char>> {
    recorded_hash(file_action(mode, m, f), recorded_of(m, f), disk_hash_of(f), bundle_hash_of(f))
}

/// The new manifest's hashes after the files `fs`, in order.
pub open spec fn manifest_after(mode: BundleMode, m: Option<Seq<(Seq<char>, Seq<char>)>>, fs: Seq<BundleFileV>) -> Seq<(Seq<char>, Seq<char>)>
    decreases fs.len(),
{
    if fs.len() == 0 {
        seq![]
    } else {
        let prev = manifest_after(mode, m, fs.drop_last());
        match file_record(mode, m, fs.last()) {
            Some(h) => minsert(prev, fs.last().rel, h),
            None => prev,
        }
    }
}

/// The counters of a run as plain values.
pub ghost struct CountsV {
    pub written: nat,
    pub upgraded: nat,
    pub preserved: nat,
    pub conflicts: nat,
    pub noops: nat,
}

/// The counters after one more file handled by `a`; a write counts as an
/// upgrade when an earlier manifest exists.
pub open spec fn count_step(c: CountsV, a: MergeAction, had_manifest: bool) -> CountsV {
    match a {
        MergeAction::Write => if had_manifest {
            CountsV { upgraded: c.upgraded + 1, ..c }
        } else {
            CountsV { written: c.written + 1, ..c }
        },
        MergeAction::Adopt | MergeAction::Noop => CountsV { noops: c.noops + 1, ..c },
        MergeAction::PreserveUser => CountsV { preserved: c.preserved + 1, ..c },
        MergeAction::WriteNew => CountsV { conflicts: c.conflicts + 1, ..c },
    }
}

/// The counters after the files `fs`.
pub open spec fn counts_after(mode: BundleMode, m: Option<Seq<(Seq<char>, Seq<char>)>>, fs: Seq<BundleFileV>) -> CountsV
    decreases fs.len(),
{
    if fs.len() == 0 {
        CountsV { written: 0, upgraded: 0, preserved: 0, conflicts: 0, noops: 0 }
    } else {
        count_step(counts_after(mode, m, fs.drop_last()), file_action(mode, m, fs.last()), m is Some)
    }
}

/// The summary's counters as plain values.
pub open spec fn summary_counts(s: InitSummary) -> CountsV {
    CountsV {
        written: s.written as nat,
        upgraded: s.upgraded as nat,
        preserved: s.preserved as nat,
        conflicts: s.conflicts as nat,
        noops: s.noops as nat,
    }
}

/// The plans, the new manifest and the summary of one run.
#[derive(Debug)]
pub struct BundlePlan {
    pub files: Vec<FilePlan>,
    pub manifest: Manifest,
    pub summary: InitSummary,
}

/// The bundle files as plain values.
pub open spec fn bundle_view(fs: Seq<BundleFile>) -> Seq<BundleFileV> {
    fs.map_values(|f: BundleFile| f@)
}

/// The manifest's hashes, if there is a manifest.
pub open spec fn manifest_files(m: Option<&Manifest>) -> Option<Seq<(Seq<char>, Seq<char>)>> {
    match m {
        Some(mm) => Some(files_view(mm.files@)),
        None => None,
    }
}

/// Decide an install run of the bundle files `files` (the manifest's own
/// path left out) over the manifest `existing` of the last run: the plan of
/// each file in order, the manifest to save, carrying `rex_version`, and the
/// counters of the run.
pub fn plan_bundle(mode: BundleMode, existing: Option<&Manifest>, files: &[BundleFile], rex_version: &str) -> (r: BundlePlan)
    requires
        files@.len() < u32::MAX,
    ensures
        r.files@.len() == files@.len(),
        forall|i: int|
            0 <= i < files@.len() ==> {
                let f = bundle_view(files@)[i];
                let m = manifest_files(existing);
                &&& (#[trigger] r.files@[i]).action == file_action(mode, m, f)
                &&& r.files@[i].bundle_hash@ == bundle_hash_of(f)
                &&& r.files@[i].record.deep_view() == file_record(mode, m, f)
            },
        files_view(r.manifest.files@) == manifest_after(mode, manifest_files(existing), bundle_view(files@)),
        r.manifest.rex_version@ == rex_version@,
        summary_counts(r.summary) == counts_after(mode, manifest_files(existing), bundle_view(files@)),
{
    let ghost m = manifest_files(existing);
    let ghost fv = bundle_view(files@);
    let mut plans: Vec<FilePlan> = Vec::new();
    let mut manifest = Manifest { rex_version: rex_version.to_owned(), files: Vec::new() };
    let mut summary = InitSummary::new();
    assert(fv.take(0) =~= Seq::<BundleFileV>::empty());
    assert(files_view(manifest.files@) =~= manifest_after(mode, m, fv.take(0)));
    let mut i: usize = 0;
    while i < files.len()
        invariant
            fv == bundle_view(files@),
            fv.len() == files@.len(),
            files@.len() < u32::MAX,
            m == manifest_files(existing),
            i <= fv.len(),
            plans@.len() == i,
            forall|k: int|
                0 <= k < i ==> {
                    &&& (#[trigger] plans@[k]).action == file_action(mode, m, fv[k])
                    &&& plans@[k].bundle_hash@ == bundle_hash_of(fv[k])
                    &&& plans@[k].record.deep_view() == file_record(mode, m, fv[k])
                },
            files_view(manifest.files@) == manifest_after(mode, m, fv.take(i as int)),
            manifest.rex_version@ == rex_version@,
            summary_counts(summary) == counts_after(mode, m, fv.take(i as int)),
            summary.written + summary.upgraded + summary.preserved + summary.conflicts + summary.noops == i,
        decreases files.len() - i,
    {
        let f = &files[i];
        assert(fv[i as int] == f@);
        assert(fv.take(i + 1).drop_last() =~= fv.take(i as int));
        assert(fv.take(i + 1).last() == f@);
        let recorded: Option<&str> = match existing {
            Some(mm) => mm.get(f.rel.as_str()),
            None => None,
        };
        assert(opt_view(recorded) == recorded_of(m, f@));
        let disk: Option<&[u8]> = match &f.disk {
            Some(d) => Some(d.as_slice()),
            None => None,
        };
        let plan = plan_file(mode, recorded, disk, f.contents.as_slice());
        assert(plan.action == file_action(mode, m, f@));
        assert(plan.record.deep_view() == file_record(mode, m, f@));
        match &plan.record {
            Some(h) => {
                manifest.insert(f.rel.as_str(), h.clone());
            },
            None => {},
        }
        summary.record(plan.action, existing.is_some());
        plans.push(plan);
        i += 1;
    }
    assert(fv.take(i as int) =~= fv);
    BundlePlan { files: plans, manifest, summary }
}

/// A merge run right after an install, with every file on disk and in the
/// bundle as the manifest recorded it, does nothing: each file is a no-op,
/// keeps its recorded hash, and the summary counts only no-ops.
pub proof fn law_rerun_after_install_is_noop(m: Seq<(Seq<char>, Seq<char>)>, fs: Seq<BundleFileV>)
    requires
        forall|i: int|
            0 <= i < fs.len() ==> mlookup(m, (#[trigger] fs[i]).rel) == Some(bundle_hash_of(fs[i]))
                && disk_hash_of(fs[i]) == Some(bundle_hash_of(fs[i])),
    ensures
        forall|i: int| 0 <= i < fs.len() ==> file_action(BundleMode::Merge, Some(m), #[trigger] fs[i]) == MergeAction::Noop,
        forall|i: int|
            0 <= i < fs.len() ==> file_record(BundleMode::Merge, Some(m), #[trigger] fs[i]) == Some(
                bundle_hash_of(fs[i]),
            ),
        counts_after(BundleMode::Merge, Some(m), fs) == (CountsV {
            written: 0,
            upgraded: 0,
            preserved: 0,
            conflicts: 0,
            noops: fs.len(),
        }),
    decreases fs.len(),
{
    if fs.len() > 0 {
        let d = fs.drop_last();
        assert forall|i: int| 0 <= i < d.len() implies mlookup(m, (#[trigger] d[i]).rel) == Some(bundle_hash_of(d[i]))
            && disk_hash_of(d[i]) == Some(bundle_hash_of(d[i])) by {
            assert(d[i] == fs[i]);
        }
        law_rerun_after_install_is_noop(m, d);
        assert(fs.last() == fs[fs.len() - 1]);
    }
}

/// A forced run writes every file: the writes, fresh or upgrades, number
/// the files, and each file records the bundle's hash.
pub proof fn law_force_writes_everything(m: Option<Seq<(Seq<char>, Seq<char>)>>, fs: Seq<BundleFileV>)
    ensures
        forall|i: int| 0 <= i < fs.len() ==> file_action(BundleMode::Force, m, #[trigger] fs[i]) == MergeAction::Write,
        forall|i: int|
            0 <= i < fs.len() ==> file_record(BundleMode::Force, m, #[trigger] fs[i]) == Some(bundle_hash_of(fs[i])),
        counts_after(BundleMode::Force, m, fs).written + counts_after(BundleMode::Force, m, fs).upgraded == fs.len(),
        counts_after(BundleMode::Force, m, fs).preserved == 0,
        counts_after(BundleMode::Force, m, fs).conflicts == 0,
        counts_after(BundleMode::Force, m, fs).noops == 0,
    decreases fs.len(),
{
    if fs.len() > 0 {
        law_force_writes_everything(m, fs.drop_last());
    }
}

} // verus!
