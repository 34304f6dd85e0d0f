use rex_cli::chat::{diff_scans, format_change, route_button, route_text, ChatCommand, ProjectState, ReplyTo, StateChange};

fn ids(v: &[&str]) -> Vec<String> {
    v.iter().map(|s| s.to_string()).collect()
}

#[test]
fn route_text_slash_commands() {
    let p = ids(&["alpha", "beta"]);
    assert!(matches!(route_text("/clear", &ReplyTo::Nothing, &p, &None), ChatCommand::ClearHistory));
    assert!(matches!(route_text("  /help ", &ReplyTo::Nothing, &p, &None), ChatCommand::ShowHelp));
    assert!(matches!(route_text("/projects", &ReplyTo::Nothing, &p, &None), ChatCommand::ListProjects));
    match route_text("/chat beta", &ReplyTo::Nothing, &p, &None) {
        ChatCommand::SwitchTo(x) => assert_eq!(x, "beta"),
        other => panic!("unexpected {other:?}"),
    }
    match route_text("/chat gamma", &ReplyTo::Nothing, &p, &None) {
        ChatCommand::UnknownProject(x) => assert_eq!(x, "gamma"),
        other => panic!("unexpected {other:?}"),
    }
    match route_text("/chat", &ReplyTo::Nothing, &p, &Some("alpha".into())) {
        ChatCommand::ShowActive(Some(x)) => assert_eq!(x, "alpha"),
        other => panic!("unexpected {other:?}"),
    }
    assert!(matches!(route_text("/start", &ReplyTo::Nothing, &p, &None), ChatCommand::ShowMenu));
    match route_text("/start   beta  ", &ReplyTo::Nothing, &p, &None) {
        ChatCommand::StartAutorun(x) => assert_eq!(x, "beta"),
        other => panic!("unexpected {other:?}"),
    }
    assert!(matches!(route_text("/stop", &ReplyTo::Nothing, &p, &None), ChatCommand::StopUsage));
    assert!(matches!(route_text("/status", &ReplyTo::Nothing, &p, &None), ChatCommand::StatusAll));
    assert!(matches!(route_text("/bogus", &ReplyTo::Nothing, &p, &None), ChatCommand::UnknownCommand));
    match route_text("/bogus x", &ReplyTo::Nothing, &p, &Some("beta".into())) {
        ChatCommand::Chat { project, message, remember } => {
            assert_eq!(project, "beta");
            assert_eq!(message, "/bogus x");
            assert!(!remember);
        }
        other => panic!("unexpected {other:?}"),
    }
}

#[test]
fn route_text_plain_messages() {
    let p = ids(&["alpha", "beta"]);
    match route_text("beta: how far along?", &ReplyTo::Nothing, &p, &None) {
        ChatCommand::Chat { project, message, remember } => {
            assert_eq!(project, "beta");
            assert_eq!(message, "how far along?");
            assert!(remember);
        }
        other => panic!("unexpected {other:?}"),
    }
    match route_text("thanks", &ReplyTo::Known("alpha".into()), &p, &None) {
        ChatCommand::Chat { project, remember, .. } => {
            assert_eq!(project, "alpha");
            assert!(!remember);
        }
        other => panic!("unexpected {other:?}"),
    }
    assert!(matches!(route_text("thanks", &ReplyTo::Unknown, &p, &None), ChatCommand::Ignore));
    match route_text("status?", &ReplyTo::Nothing, &p, &None) {
        ChatCommand::DefaultTo { project, message } => {
            assert_eq!(project, "alpha");
            assert_eq!(message, "status?");
        }
        other => panic!("unexpected {other:?}"),
    }
    match route_text("status?", &ReplyTo::Nothing, &ids(&["solo"]), &None) {
        ChatCommand::Chat { project, .. } => assert_eq!(project, "solo"),
        other => panic!("unexpected {other:?}"),
    }
    assert!(matches!(route_text("hi", &ReplyTo::Nothing, &[], &None), ChatCommand::NoProjects));
}

#[test]
fn route_button_actions() {
    assert!(matches!(route_button("menu"), ChatCommand::ShowMenu));
    match route_button("rc_reply:alpha") {
        ChatCommand::StartChatPrompt(x) => assert_eq!(x, "alpha"),
        other => panic!("unexpected {other:?}"),
    }
    match route_button("stop:beta") {
        ChatCommand::StopAutorun(x) => assert_eq!(x, "beta"),
        other => panic!("unexpected {other:?}"),
    }
    assert!(matches!(route_button("start:"), ChatCommand::Ignore));
    assert!(matches!(route_button("dance:alpha"), ChatCommand::Ignore));
}

fn scan(v: &[(&str, bool)]) -> Vec<ProjectState> {
    v.iter().map(|(id, running)| ProjectState { id: id.to_string(), running: *running }).collect()
}

#[test]
fn diff_scans_reports_changes_in_order() {
    let old = scan(&[("a", false), ("b", true), ("c", true)]);
    let new = scan(&[("a", true), ("c", false), ("d", true)]);
    let changes = diff_scans(&old, &new);
    assert_eq!(changes.len(), 4);
    assert!(matches!(&changes[0], StateChange::ProjectAdded { id, running: true } if id == "d"));
    assert!(matches!(&changes[1], StateChange::ProjectRemoved { id } if id == "b"));
    assert!(matches!(&changes[2], StateChange::AutorunStarted { id } if id == "a"));
    assert!(matches!(&changes[3], StateChange::AutorunStopped { id } if id == "c"));
    assert!(diff_scans(&new, &new).is_empty());
}

#[test]
fn format_change_messages() {
    assert_eq!(
        format_change(&StateChange::ProjectAdded { id: "a<b".into(), running: true }),
        "📦 <b>New project discovered</b>\n<code>a&lt;b</code> (autorun active)"
    );
    assert_eq!(
        format_change(&StateChange::ProjectAdded { id: "x".into(), running: false }),
        "📦 <b>New project discovered</b>\n<code>x</code>"
    );
    assert_eq!(format_change(&StateChange::ProjectRemoved { id: "x".into() }), "🗑 <b>Project removed</b>\n<code>x</code>");
    assert_eq!(format_change(&StateChange::AutorunStarted { id: "x".into() }), "🟢 <b>Autorun started</b>\n<code>x</code>");
    assert_eq!(format_change(&StateChange::AutorunStopped { id: "x".into() }), "🔴 <b>Autorun stopped</b>\n<code>x</code>");
}
