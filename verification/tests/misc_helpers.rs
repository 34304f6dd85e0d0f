use rex_cli::chat::{div_line, format_response};
use rex_cli::models::project_status::is_required_always;
use rex_cli::schedule::cycles::cycle_member;
use rex_cli::schedule::ScheduleState;

#[test]
fn session_reply_has_header_body_and_footer() {
    let r = format_response("a&b", "c7", "hi <x>");
    let expected = format!(
        "🗨️ <b>Chat</b>  ·  <code>a&amp;b</code>  ·  <code>c7</code>\n{d}\nhi &lt;x&gt;\n{d}\n<i>💬 Reply to continue  ·  🔄 Restart for new session</i>",
        d = div_line()
    );
    assert_eq!(r, expected);
}

#[test]
fn session_reply_is_cut_at_three_thousand_characters() {
    let long = "y".repeat(3005);
    let r = format_response("p", "c", &long);
    assert!(r.contains(&format!("{}\n…\n\n<i>(truncated)</i>", "y".repeat(3000))));
    assert!(!r.contains(&"y".repeat(3001)));
}

#[test]
fn always_required_steps() {
    for s in ["goal", "scope", "uat", "checklist"] {
        assert!(is_required_always(s));
    }
    assert!(!is_required_always("research"));
}

#[test]
fn cycle_member_finds_a_member_of_a_cycle() {
    let ids = vec!["a".to_string(), "b".to_string(), "c".to_string()];
    let deps = vec![vec!["b".to_string()], vec!["a".to_string()], vec![]];
    let m = cycle_member(&ids, &deps).expect("a and b wait on each other");
    assert!(m == "a" || m == "b");
    let acyclic = vec![vec![], vec!["a".to_string()], vec!["b".to_string()]];
    assert_eq!(cycle_member(&ids, &acyclic), None);
}

#[test]
fn schedule_state_open_and_done() {
    assert!(ScheduleState::Pending.is_open());
    assert!(ScheduleState::InProgress.is_open());
    assert!(!ScheduleState::Done.is_open());
    assert!(ScheduleState::Done.is_done());
    assert!(!ScheduleState::Blocked.is_done());
}
