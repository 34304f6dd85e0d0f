use rex_cli::registry::{
    deregister_autorun, prune_dead, register_autorun, update_expected_message_id, AutorunEntry, AutorunRegistry,
};

fn entry(pid: u32, dir: &str) -> AutorunEntry {
    AutorunEntry { pid, project_dir: dir.to_string(), expected_message_id: None }
}

fn sample() -> AutorunRegistry {
    let mut r = AutorunRegistry::new();
    register_autorun(&mut r, "alpha", entry(10, "/a"));
    register_autorun(&mut r, "beta", entry(20, "/b"));
    r
}

#[test]
fn register_then_get_finds_the_run() {
    let r = sample();
    assert_eq!(r.get("alpha").map(|e| e.pid), Some(10));
    assert_eq!(r.get("beta").map(|e| e.project_dir.as_str()), Some("/b"));
    assert!(r.get("gamma").is_none());
}

#[test]
fn register_replaces_an_earlier_run_in_place() {
    let mut r = sample();
    register_autorun(&mut r, "alpha", entry(11, "/a2"));
    assert_eq!(r.autoruns.len(), 2);
    assert_eq!(r.autoruns[0].0, "alpha");
    assert_eq!(r.get("alpha").map(|e| e.pid), Some(11));
}

#[test]
fn deregister_removes_only_that_run() {
    let mut r = sample();
    deregister_autorun(&mut r, "alpha");
    assert!(r.get("alpha").is_none());
    assert_eq!(r.get("beta").map(|e| e.pid), Some(20));
    deregister_autorun(&mut r, "missing");
    assert_eq!(r.autoruns.len(), 1);
}

#[test]
fn update_expected_message_id_sets_and_ignores_unknown() {
    let mut r = sample();
    update_expected_message_id(&mut r, "beta", Some(77));
    assert_eq!(r.get("beta").and_then(|e| e.expected_message_id), Some(77));
    assert_eq!(r.get("beta").map(|e| e.pid), Some(20));
    update_expected_message_id(&mut r, "nobody", Some(5));
    assert_eq!(r.autoruns.len(), 2);
    assert_eq!(r.get("alpha").and_then(|e| e.expected_message_id), None);
}

#[test]
fn prune_dead_drops_runs_without_a_live_process() {
    let mut r = sample();
    assert!(prune_dead(&mut r, &[20, 99]));
    assert!(r.get("alpha").is_none());
    assert_eq!(r.get("beta").map(|e| e.pid), Some(20));
    assert!(!prune_dead(&mut r, &[20]));
    assert_eq!(r.autoruns.len(), 1);
}

#[test]
fn peers_list_the_runs_in_order() {
    let mut r = sample();
    update_expected_message_id(&mut r, "alpha", Some(3));
    let peers = r.peers();
    assert_eq!(peers.len(), 2);
    assert_eq!(peers[0].project_id, "alpha");
    assert_eq!(peers[0].expected_message_id, Some(3));
    assert_eq!(peers[1].project_id, "beta");
    assert_eq!(peers[1].expected_message_id, None);
}

#[test]
fn unprocessed_response_lists_the_runs() {
    let r = sample();
    assert_eq!(
        r.unprocessed_response(),
        "⚠️ <b>Unprocessed</b>\n\nPlease reply to a specific message, or use:\n<code>/kill &lt;project-id&gt;</code>\n<code>/query &lt;project-id&gt;</code>\n\n<b>Active autoruns:</b>\n  <code>alpha</code>\n  <code>beta</code>\n"
    );
    let empty = AutorunRegistry::new();
    assert!(empty.unprocessed_response().ends_with("\n<i>No active autoruns.</i>"));
}
