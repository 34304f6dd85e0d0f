//! Merge decisions for bundle files: hashes, the per-file action and the
//! summary counters of a run.

use vstd::prelude::*;
use sha2::{Digest, Sha256};

verus! {

/// How a run resolves files that exist on disk.
#[derive(Debug, Clone, Copy, PartialEq, Eq, Structural)]
pub enum BundleMode {
    /// Run the three-way merge: preserve user changes, write upgrades, flag conflicts.
    Merge,
    /// Overwrite every bundle file regardless of user modifications.
    Force,
}

/// What to do with one bundle file.
#[derive(Debug, Clone, Copy, PartialEq, Eq, Structural)]
pub enum MergeAction {
    /// Write the bundle version and record its hash.
    Write,
    /// Leave disk untouched; record the existing hash so later runs detect drift.
    Adopt,
    /// The user modified the file; do not touch it.
    PreserveUser,
    /// Disk and bundle both diverge from the manifest: write a `.rex-new` sibling.
    WriteNew,
    /// Disk and bundle both match the manifest: nothing to do.
    Noop,
}

/// Per-action counters of one run.
#[derive(Debug, Default)]
pub struct InitSummary {
    /// Files newly written on a fresh init.
    pub written: u32,
    /// Files upgraded from a prior bundle version.
    pub upgraded: u32,
    /// Files left untouched because the user had modified them.
    pub preserved: u32,
    /// Files where bundle and disk diverged; bundle written to `<path>.rex-new`.
    pub conflicts: u32,
    /// Files whose disk, bundle and manifest hashes all matched.
    pub noops: u32,
}

/// SHA-256 digest of a byte sequence.
pub uninterp spec fn sha256_digest(data: Seq<u8>) -> Seq<u8>;

/// Wraps `sha2::Sha256::digest`: the 32-byte SHA-256 digest of `data`. The
/// digest itself is named, not written out; its length is what the crate's
/// output size (`U32`) fixes.
#[verifier::external_body]
fn sha256_bytes(data: &[u8]) -> (r: Vec<u8>)
    ensures
        r@ == sha256_digest(data@),
        r@.len() == 32,
{
    Sha256::digest(data).to_vec()
}

/// Lower-case hex digit of a value below 16.
pub open spec fn hex_digit(n: int) -> char {
    if n < 10 {
        (48 + n) as char
    } else {
        (87 + n) as char
    }
}

/// Lower-case hex text of bytes: two digits per byte, high nibble first.
pub open spec fn hex_lower(data: Seq<u8>) -> Seq<char>
    decreases data.len(),
{
    if data.len() == 0 {
        seq![]
    } else {
        hex_lower(data.drop_last()) + seq![hex_digit(data.last() as int / 16), hex_digit(data.last() as int % 16)]
    }
}

/// Wraps `hex::encode`: the lower-case hex text of `data`, two digits per
/// byte with the high nibble first, as the crate documents and its
/// `HEX_CHARS_LOWER` table shows.
#[verifier::external_body]
fn hex_encode(data: &[u8]) -> (r: String)
    ensures
        r@ == hex_lower(data@),
{
    hex::encode(data)
}

/// Hex-encoded SHA-256 of `data`.
pub fn sha256_hex(data: &[u8]) -> (r: String)
    ensures
        r@ == hex_lower(sha256_digest(data@)),
{
    let digest = sha256_bytes(data);
    hex_encode(digest.as_slice())
}

/// The action of the three-way merge for one file, from the hash recorded at
/// the last run (`None` on a first init), the hash on disk (`None` if the
/// file is absent) and the hash of the bundle's version.
pub open spec fn merge_decision(m: Option<Seq<char>>, d: Option<Seq<char>>, b: Seq<char>) -> MergeAction {
    match (m, d) {
        (None, None) => MergeAction::Write,
        (None, Some(dh)) => if dh == b {
            MergeAction::Adopt
        } else {
            MergeAction::PreserveUser
        },
        (Some(_), None) => MergeAction::PreserveUser,
        (Some(mh), Some(dh)) => if dh == mh {
            if b == mh {
                MergeAction::Noop
            } else {
                MergeAction::Write
            }
        } else if b == mh {
            MergeAction::PreserveUser
        } else {
            MergeAction::WriteNew
        },
    }
}

/// View of an optional string slice.
pub open spec fn opt_view(o: Option<&str>) -> Option<Seq<char>> {
    match o {
        Some(s) => Some(s@),
        None => None,
    }
}

/// Compute the merge action for one file.
///
/// On a first init (no recorded hash): a missing file is written, a file with
/// the bundle's bytes is adopted, any other file is kept as the user's. On a
/// later run: disk and bundle as recorded is a no-op, only the bundle changed
/// is an upgrade, only the disk changed keeps the user's file, and both
/// changed is a conflict.
pub fn merge_action(manifest_hash: Option<&str>, disk_hash: Option<&str>, bundle_hash: &str) -> (r: MergeAction)
    ensures
        r == merge_decision(opt_view(manifest_hash), opt_view(disk_hash), bundle_hash@),
{
    match (manifest_hash, disk_hash) {
        (None, None) => MergeAction::Write,
        (None, Some(dh)) => {
            if dh.to_owned() == bundle_hash.to_owned() {
                MergeAction::Adopt
            } else {
                MergeAction::PreserveUser
            }
        },
        (Some(_), None) => MergeAction::PreserveUser,
        (Some(mh), Some(dh)) => {
            let m = mh.to_owned();
            let disk_matches_manifest = dh.to_owned() == m;
            let bundle_matches_manifest = bundle_hash.to_owned() == m;
            if disk_matches_manifest {
                if bundle_matches_manifest {
                    MergeAction::Noop
                } else {
                    MergeAction::Write
                }
            } else if bundle_matches_manifest {
                MergeAction::PreserveUser
            } else {
                MergeAction::WriteNew
            }
        },
    }
}

/// Conflict-sibling path of a file whose user copy diverges from the bundle:
/// the path with `.rex-new` appended, never the original.
pub fn rex_new_sibling(path: &str) -> (r: String)
    ensures
        r@ == path@ + ".rex-new"@,
{
    path.to_owned().concat(".rex-new")
}

/// The hash a run records for a file after `action`: the bundle's for a
/// write, adoption or no-op; for a preserved file the recorded hash, else the
/// disk's; for a conflict the recorded hash.
pub open spec fn recorded_hash(
    action: MergeAction,
    m: Option<Seq<char>>,
    d: Option<Seq<char>>,
    b: Seq<char>,
) -> Option<Seq<char>> {
    match action {
        MergeAction::Write | MergeAction::Adopt | MergeAction::Noop => Some(b),
        MergeAction::PreserveUser => match m {
            Some(h) => Some(h),
            None => d,
        },
        MergeAction::WriteNew => m,
    }
}

/// The decision for one bundle file.
#[derive(Debug)]
pub struct FilePlan {
    /// What to do with the file.
    pub action: MergeAction,
    /// Hash of the bundle's version.
    pub bundle_hash: String,
    /// Hash to record in the new manifest, if any.
    pub record: Option<String>,
}

fn clone_opt(o: Option<&str>) -> (r: Option<String>)
    ensures
        r.deep_view() == opt_view(o),
{
    match o {
        Some(s) => Some(s.to_owned()),
        None => None,
    }
}

/// Decide one bundle file: hash the bundle's and the disk's contents, pick
/// the action (always a write in force mode) and the hash to record.
pub fn plan_file(
    mode: BundleMode,
    manifest_hash: Option<&str>,
    disk_contents: Option<&[u8]>,
    bundle_contents: &[u8],
) -> (r: FilePlan)
    ensures
        ({
            let b = hex_lower(sha256_digest(bundle_contents@));
            let d = match disk_contents {
                Some(c) => Some(hex_lower(sha256_digest(c@))),
                None => None,
            };
            let action = match mode {
                BundleMode::Force => MergeAction::Write,
                BundleMode::Merge => merge_decision(opt_view(manifest_hash), d, b),
            };
            &&& r.bundle_hash@ == b
            &&& r.action == action
            &&& r.record.deep_view() == recorded_hash(action, opt_view(manifest_hash), d, b)
        }),
{
    let bundle_hash = sha256_hex(bundle_contents);
    let disk_hash = match disk_contents {
        Some(c) => Some(sha256_hex(c)),
        None => None,
    };
    let dh: Option<&str> = match &disk_hash {
        Some(h) => Some(h.as_str()),
        None => None,
    };
    let action = match mode {
        BundleMode::Force => MergeAction::Write,
        BundleMode::Merge => merge_action(manifest_hash, dh, bundle_hash.as_str()),
    };
    let record = match action {
        MergeAction::Write | MergeAction::Adopt | MergeAction::Noop => Some(bundle_hash.clone()),
        MergeAction::PreserveUser => match manifest_hash {
            Some(h) => Some(h.to_owned()),
            None => clone_opt(dh),
        },
        MergeAction::WriteNew => clone_opt(manifest_hash),
    };
    FilePlan { action, bundle_hash, record }
}

impl InitSummary {
    /// All counters at zero.
    pub fn new() -> (r: InitSummary)
        ensures
            r.written == 0 && r.upgraded == 0 && r.preserved == 0 && r.conflicts == 0 && r.noops == 0,
    {
        InitSummary { written: 0, upgraded: 0, preserved: 0, conflicts: 0, noops: 0 }
    }

    /// Count one file handled by `action`; a write is an upgrade when a
    /// manifest from an earlier run exists, else a fresh write.
    pub fn record(&mut self, action: MergeAction, had_manifest: bool)
        requires
            old(self).written < u32::MAX,
            old(self).upgraded < u32::MAX,
            old(self).preserved < u32::MAX,
            old(self).conflicts < u32::MAX,
            old(self).noops < u32::MAX,
        ensures
            final(self).written == old(self).written + if action == MergeAction::Write && !had_manifest { 1int } else { 0int },
            final(self).upgraded == old(self).upgraded + if action == MergeAction::Write && had_manifest { 1int } else { 0int },
            final(self).preserved == old(self).preserved + if action == MergeAction::PreserveUser { 1int } else { 0int },
            final(self).conflicts == old(self).conflicts + if action == MergeAction::WriteNew { 1int } else { 0int },
            final(self).noops == old(self).noops + if action == MergeAction::Adopt || action == MergeAction::Noop { 1int } else { 0int },
    {
        match action {
            MergeAction::Write => {
                if had_manifest {
                    self.upgraded += 1;
                } else {
                    self.written += 1;
                }
            },
            MergeAction::Adopt | MergeAction::Noop => {
                self.noops += 1;
            },
            MergeAction::PreserveUser => {
                self.preserved += 1;
            },
            MergeAction::WriteNew => {
                self.conflicts += 1;
            },
        }
    }
}

/// In a merge run, a file on disk is overwritten only when it still has the
/// hash recorded at the last run: edits by the user are never overwritten.
pub proof fn law_merge_never_overwrites_user_edits(m: Option<Seq<char>>, d: Seq<char>, b: Seq<char>)
    ensures
        merge_decision(m, Some(d), b) == MergeAction::Write ==> m == Some(d),
        m != Some(d) ==> merge_decision(m, Some(d), b) != MergeAction::Write,
{
}

/// A run right after a run that installed the bundle is a no-op: with disk,
/// bundle and manifest at the same hash, nothing is written.
pub proof fn law_merge_rerun_is_noop(b: Seq<char>)
    ensures
        merge_decision(Some(b), Some(b), b) == MergeAction::Noop,
        recorded_hash(MergeAction::Noop, Some(b), Some(b), b) == Some(b),
{
}

/// Whatever the action, a file that is written or adopted records the
/// bundle's hash, so the next run sees disk and manifest agree.
pub proof fn law_written_files_record_bundle_hash(m: Option<Seq<char>>, d: Option<Seq<char>>, b: Seq<char>)
    ensures
        ({
            let a = merge_decision(m, d, b);
            (a == MergeAction::Write || a == MergeAction::Adopt) ==> recorded_hash(a, m, d, b) == Some(b)
        }),
{
}

} // verus!
