use rex_cli::chat::ReplyTo;
use rex_cli::sessions::SessionManager;

#[test]
fn get_or_create_makes_one_session_per_project() {
    let mut m = SessionManager::new();
    let i = m.get_or_create("alpha", "/a", 100);
    assert_eq!(i, 0);
    assert_eq!(m.sessions[0].session_name, "rex-chat-alpha");
    assert_eq!(m.sessions[0].last_activity, 100);
    assert!(m.sessions[0].claude_session_id.is_none());
    let j = m.get_or_create("alpha", "/elsewhere", 500);
    assert_eq!(j, 0);
    assert_eq!(m.sessions.len(), 1);
    assert_eq!(m.sessions[0].project_dir, "/a");
    assert_eq!(m.get_or_create("beta", "/b", 1), 1);
}

#[test]
fn registered_message_routes_reply() {
    let mut m = SessionManager::new();
    m.register_message(5, "alpha");
    m.register_message(6, "beta");
    assert_eq!(m.lookup_reply(5), Some("alpha"));
    assert_eq!(m.lookup_reply(7), None);
    m.register_message(5, "gamma");
    assert_eq!(m.lookup_reply(5), Some("gamma"));
    assert_eq!(m.message_to_project.len(), 2);
}

#[test]
fn reply_target_tells_nothing_known_and_unknown_apart() {
    let mut m = SessionManager::new();
    m.register_message(5, "alpha");
    assert!(matches!(m.reply_target(None), ReplyTo::Nothing));
    assert!(matches!(m.reply_target(Some(5)), ReplyTo::Known(ref p) if p == "alpha"));
    assert!(matches!(m.reply_target(Some(9)), ReplyTo::Unknown));
}

#[test]
fn cleanup_stale_drops_idle_sessions_and_their_messages() {
    let mut m = SessionManager::new();
    m.get_or_create("old", "/o", 10);
    m.get_or_create("new", "/n", 100);
    m.register_message(1, "old");
    m.register_message(2, "new");
    m.register_message(3, "other");
    let gone = m.cleanup_stale(50);
    assert_eq!(gone, vec!["old".to_string()]);
    assert_eq!(m.sessions.len(), 1);
    assert_eq!(m.sessions[0].project_id, "new");
    assert_eq!(m.lookup_reply(1), None);
    assert_eq!(m.lookup_reply(2), Some("new"));
    assert_eq!(m.lookup_reply(3), Some("other"));
    assert!(m.cleanup_stale(50).is_empty());
}

#[test]
fn begin_and_finish_invoke_track_the_agent_session() {
    let mut m = SessionManager::new();
    assert!(m.begin_invoke("alpha", 5).is_none());
    m.get_or_create("alpha", "/a", 1);
    let inv = m.begin_invoke("alpha", 42).expect("session exists");
    assert_eq!(inv.project_dir, "/a");
    assert_eq!(inv.session_name, "rex-chat-alpha");
    assert!(inv.claude_session_id.is_none());
    assert_eq!(m.sessions[0].last_activity, 42);
    m.finish_invoke("alpha", "sess-1");
    assert_eq!(m.sessions[0].claude_session_id.as_deref(), Some("sess-1"));
    let again = m.begin_invoke("alpha", 43).expect("session exists");
    assert_eq!(again.claude_session_id.as_deref(), Some("sess-1"));
}
