use rex_cli::bundle::merge::plan_file;
use rex_cli::bundle::{merge_action, rex_new_sibling, sha256_hex, BundleMode, InitSummary, MergeAction};

#[test]
fn bundle_sha256_hex_produces_known_digest() {
    let result = sha256_hex(b"");
    assert_eq!(result, "e3b0c44298fc1c149afbf4c8996fb92427ae41e4649b934ca495991b7852b855");
}

#[test]
fn merge_sha256_hex_produces_known_digest() {
    let result = sha256_hex(b"");
    assert_eq!(result, "e3b0c44298fc1c149afbf4c8996fb92427ae41e4649b934ca495991b7852b855");
}

#[test]
fn bundle_first_init_absent_file_writes() {
    assert_eq!(merge_action(None, None, "abc"), MergeAction::Write);
}

#[test]
fn bundle_first_init_matching_file_adopts() {
    assert_eq!(merge_action(None, Some("abc"), "abc"), MergeAction::Adopt);
}

#[test]
fn bundle_first_init_differing_file_preserves() {
    assert_eq!(merge_action(None, Some("disk_hash"), "bundle_hash"), MergeAction::PreserveUser);
}

#[test]
fn bundle_subsequent_all_match_is_noop() {
    assert_eq!(merge_action(Some("abc"), Some("abc"), "abc"), MergeAction::Noop);
}

#[test]
fn bundle_subsequent_bundle_changed_upgrades() {
    assert_eq!(merge_action(Some("old"), Some("old"), "new"), MergeAction::Write);
}

#[test]
fn bundle_subsequent_user_changed_preserves() {
    assert_eq!(merge_action(Some("old"), Some("user"), "old"), MergeAction::PreserveUser);
}

#[test]
fn bundle_subsequent_both_changed_conflicts() {
    assert_eq!(merge_action(Some("old"), Some("user"), "new"), MergeAction::WriteNew);
}

#[test]
fn bundle_subsequent_disk_deleted_preserves() {
    assert_eq!(merge_action(Some("old"), None, "old"), MergeAction::PreserveUser);
}

#[test]
fn merge_first_init_absent_file_writes() {
    assert_eq!(merge_action(None, None, "abc"), MergeAction::Write);
}

#[test]
fn merge_first_init_matching_file_adopts() {
    assert_eq!(merge_action(None, Some("abc"), "abc"), MergeAction::Adopt);
}

#[test]
fn merge_first_init_differing_file_preserves() {
    assert_eq!(merge_action(None, Some("disk_hash"), "bundle_hash"), MergeAction::PreserveUser);
}

#[test]
fn merge_subsequent_all_match_is_noop() {
    assert_eq!(merge_action(Some("abc"), Some("abc"), "abc"), MergeAction::Noop);
}

#[test]
fn merge_subsequent_bundle_changed_upgrades() {
    assert_eq!(merge_action(Some("old"), Some("old"), "new"), MergeAction::Write);
}

#[test]
fn merge_subsequent_user_changed_preserves() {
    assert_eq!(merge_action(Some("old"), Some("user"), "old"), MergeAction::PreserveUser);
}

#[test]
fn merge_subsequent_both_changed_conflicts() {
    assert_eq!(merge_action(Some("old"), Some("user"), "new"), MergeAction::WriteNew);
}

#[test]
fn merge_subsequent_disk_deleted_preserves() {
    assert_eq!(merge_action(Some("old"), None, "old"), MergeAction::PreserveUser);
}

#[test]
fn rex_new_sibling_with_extension() {
    assert_eq!(rex_new_sibling("/tmp/foo.md"), "/tmp/foo.md.rex-new");
}

#[test]
fn rex_new_sibling_without_extension() {
    assert_eq!(rex_new_sibling("/tmp/foo"), "/tmp/foo.rex-new");
}

#[test]
fn sha256_of_abc() {
    assert_eq!(sha256_hex(b"abc"), "ba7816bf8f01cfea414140de5dae2223b00361a396177a9cb410ff61f20015ad");
}

#[test]
fn plan_adopts_identical_file_and_records_bundle_hash() {
    let plan = plan_file(BundleMode::Merge, None, Some(b"same"), b"same");
    assert_eq!(plan.action, MergeAction::Adopt);
    assert_eq!(plan.record.as_deref(), Some(plan.bundle_hash.as_str()));
    assert_eq!(plan.bundle_hash, sha256_hex(b"same"));
}

#[test]
fn plan_preserves_user_edit_and_keeps_recorded_hash() {
    let recorded = sha256_hex(b"v1");
    let plan = plan_file(BundleMode::Merge, Some(recorded.as_str()), Some(b"user edit"), b"v1");
    assert_eq!(plan.action, MergeAction::PreserveUser);
    assert_eq!(plan.record, Some(recorded.clone()));
    let conflict = plan_file(BundleMode::Merge, Some(recorded.as_str()), Some(b"user edit"), b"v2");
    assert_eq!(conflict.action, MergeAction::WriteNew);
    assert_eq!(conflict.record, Some(recorded));
}

#[test]
fn plan_force_always_writes() {
    let plan = plan_file(BundleMode::Force, Some("x"), Some(b"user edit"), b"v1");
    assert_eq!(plan.action, MergeAction::Write);
    assert_eq!(plan.record, Some(sha256_hex(b"v1")));
}

#[test]
fn summary_counts_each_action() {
    let mut s = InitSummary::new();
    s.record(MergeAction::Write, false);
    s.record(MergeAction::Write, true);
    s.record(MergeAction::Adopt, true);
    s.record(MergeAction::Noop, true);
    s.record(MergeAction::PreserveUser, true);
    s.record(MergeAction::WriteNew, true);
    assert_eq!((s.written, s.upgraded, s.noops, s.preserved, s.conflicts), (1, 1, 2, 1, 1));
}
