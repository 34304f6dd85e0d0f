use rex_cli::bundle::{plan_bundle, sha256_hex, BundleFile, BundleMode, Manifest, MergeAction};

const HELLO: &str = "2cf24dba5fb0a30e26e83b2ac5b9e29e1b161e5c1fa7425e73043362938b9824";

fn file(rel: &str, contents: &[u8], disk: Option<&[u8]>) -> BundleFile {
    BundleFile { rel: rel.to_string(), contents: contents.to_vec(), disk: disk.map(|d| d.to_vec()) }
}

#[test]
fn manifest_insert_replaces_and_get_finds() {
    let mut m = Manifest { rex_version: "0.1.0".to_string(), files: Vec::new() };
    m.insert("a.md", "h1".to_string());
    m.insert("b.md", "h2".to_string());
    m.insert("a.md", "h3".to_string());
    assert_eq!(m.files.len(), 2);
    assert_eq!(m.get("a.md"), Some("h3"));
    assert_eq!(m.get("b.md"), Some("h2"));
    assert_eq!(m.get("c.md"), None);
}

#[test]
fn plan_first_init_writes_absent_and_adopts_matching() {
    let files = vec![file("a.md", b"hello", None), file("b.md", b"hello", Some(b"hello")), file("c.md", b"hello", Some(b"mine"))];
    let plan = plan_bundle(BundleMode::Merge, None, &files, "1.2.3");
    assert_eq!(plan.files[0].action, MergeAction::Write);
    assert_eq!(plan.files[1].action, MergeAction::Adopt);
    assert_eq!(plan.files[2].action, MergeAction::PreserveUser);
    assert_eq!(plan.files[0].bundle_hash, HELLO);
    assert_eq!(plan.summary.written, 1);
    assert_eq!(plan.summary.upgraded, 0);
    assert_eq!(plan.summary.noops, 1);
    assert_eq!(plan.summary.preserved, 1);
    assert_eq!(plan.manifest.rex_version, "1.2.3");
    assert_eq!(plan.manifest.get("a.md"), Some(HELLO));
    assert_eq!(plan.manifest.get("b.md"), Some(HELLO));
    let mine = sha256_hex(b"mine");
    assert_eq!(plan.manifest.get("c.md"), Some(mine.as_str()));
}

#[test]
fn plan_rerun_after_install_is_all_noops() {
    let files = vec![file("a.md", b"hello", None)];
    let first = plan_bundle(BundleMode::Merge, None, &files, "1");
    let again = vec![file("a.md", b"hello", Some(b"hello"))];
    let second = plan_bundle(BundleMode::Merge, Some(&first.manifest), &again, "1");
    assert_eq!(second.files[0].action, MergeAction::Noop);
    assert_eq!(second.summary.noops, 1);
    assert_eq!(second.summary.written + second.summary.upgraded, 0);
    assert_eq!(second.manifest.get("a.md"), Some(HELLO));
}

#[test]
fn plan_later_run_upgrades_and_flags_conflicts() {
    let old = Manifest {
        rex_version: "1".to_string(),
        files: vec![("a.md".to_string(), sha256_hex(b"v1")), ("b.md".to_string(), sha256_hex(b"v1"))],
    };
    let files = vec![file("a.md", b"v2", Some(b"v1")), file("b.md", b"v2", Some(b"user"))];
    let plan = plan_bundle(BundleMode::Merge, Some(&old), &files, "2");
    assert_eq!(plan.files[0].action, MergeAction::Write);
    assert_eq!(plan.files[1].action, MergeAction::WriteNew);
    assert_eq!(plan.summary.upgraded, 1);
    assert_eq!(plan.summary.written, 0);
    assert_eq!(plan.summary.conflicts, 1);
    let v2 = sha256_hex(b"v2");
    let v1 = sha256_hex(b"v1");
    assert_eq!(plan.manifest.get("a.md"), Some(v2.as_str()));
    assert_eq!(plan.manifest.get("b.md"), Some(v1.as_str()));
}

#[test]
fn plan_force_writes_every_file() {
    let files = vec![file("a.md", b"hello", Some(b"user")), file("b.md", b"hello", Some(b"hello"))];
    let plan = plan_bundle(BundleMode::Force, None, &files, "1");
    assert!(plan.files.iter().all(|p| p.action == MergeAction::Write));
    assert_eq!(plan.summary.written, 2);
    assert_eq!(plan.summary.noops + plan.summary.preserved + plan.summary.conflicts, 0);
    assert_eq!(plan.manifest.get("a.md"), Some(HELLO));
}
