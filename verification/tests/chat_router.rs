use rex_cli::chat_router::new_manager;

#[test]
fn router_accepts_only_its_own_project() {
    let r = new_manager("alpha".to_string());
    assert!(r.accepts("alpha"));
    assert!(!r.accepts("beta"));
}

#[test]
fn router_routes_replies_to_the_sending_chat() {
    let mut r = new_manager("alpha".to_string());
    r.add_session("c1");
    r.add_session("c2");
    r.add_session("c1");
    assert_eq!(r.sessions.len(), 2);
    r.register_message(10, "c1");
    r.register_message(11, "c2");
    assert_eq!(r.lookup_chat(10).as_deref(), Some("c1"));
    assert_eq!(r.lookup_chat(12), None);
    assert!(r.has_session("c2"));
}

#[test]
fn removed_chat_loses_its_messages() {
    let mut r = new_manager("alpha".to_string());
    r.add_session("c1");
    r.add_session("c2");
    r.register_message(10, "c1");
    r.register_message(11, "c2");
    r.register_message(12, "c1");
    r.remove_session("c1");
    assert!(!r.has_session("c1"));
    assert!(r.has_session("c2"));
    assert_eq!(r.lookup_chat(10), None);
    assert_eq!(r.lookup_chat(12), None);
    assert_eq!(r.lookup_chat(11).as_deref(), Some("c2"));
}
