use rex_cli::chat_menu::{
    chat_prompt, chat_reply_buttons, format_elapsed, launch_failed_text, menu_buttons, start_step, stop_step, StartStep,
    StopStep,
};

#[test]
fn reply_buttons_offer_reply_and_menu() {
    let rows = chat_reply_buttons("alpha");
    assert_eq!(rows.len(), 1);
    assert_eq!(rows[0].len(), 2);
    assert_eq!(rows[0][0].text, "💬 Reply");
    assert_eq!(rows[0][0].callback_data, "rc_reply:alpha");
    assert_eq!(rows[0][1].text, "🏠 Menu");
    assert_eq!(rows[0][1].callback_data, "menu");
}

#[test]
fn menu_lists_running_projects_first() {
    let projects = vec![("idle".to_string(), false), ("busy".to_string(), true), ("calm".to_string(), false)];
    let rows = menu_buttons(&projects);
    assert_eq!(rows.len(), 3);
    assert_eq!(rows[0].len(), 3);
    assert_eq!(rows[0][0].text, "💬 busy");
    assert_eq!(rows[0][0].callback_data, "chat:busy");
    assert_eq!(rows[0][1].callback_data, "status:busy");
    assert_eq!(rows[0][2].callback_data, "stop:busy");
    assert_eq!(rows[1][0].text, "🚀 idle");
    assert_eq!(rows[1][0].callback_data, "start:idle");
    assert_eq!(rows[1][1].text, "💬 Chat");
    assert_eq!(rows[2][0].callback_data, "start:calm");
    assert!(menu_buttons(&[]).is_empty());
}

#[test]
fn chat_prompt_names_project_directory_and_message() {
    assert_eq!(
        chat_prompt("alpha", "/work/a", "what next?"),
        "Project \"alpha\" at /work/a.\n\nUser's message: what next?"
    );
}

#[test]
fn format_elapsed_shows_hours_and_minutes() {
    assert_eq!(format_elapsed(0), "0m");
    assert_eq!(format_elapsed(59), "0m");
    assert_eq!(format_elapsed(61), "1m");
    assert_eq!(format_elapsed(3600), "1h 0m");
    assert_eq!(format_elapsed(3725), "1h 2m");
    assert_eq!(format_elapsed(-30), "0m");
}

#[test]
fn start_step_refuses_unknown_and_running_projects() {
    match start_step("a<b", None, false) {
        StartStep::Notify(t) => assert_eq!(t, "❌ Project <code>a&lt;b</code> not found"),
        other => panic!("unexpected {other:?}"),
    }
    match start_step("alpha", Some("/w/a"), true) {
        StartStep::Notify(t) => assert_eq!(t, "⚠️ <code>alpha</code> is already running"),
        other => panic!("unexpected {other:?}"),
    }
}

#[test]
fn start_step_launches_with_a_quoted_directory() {
    match start_step("alpha", Some("/w/it's"), false) {
        StartStep::Launch { command, started } => {
            assert_eq!(command, "nohup rex-autorun --project-dir '/w/it'\\''s' > /dev/null 2>&1 &");
            assert_eq!(started, "🚀 Started autorun for <code>alpha</code>");
        }
        other => panic!("unexpected {other:?}"),
    }
    assert_eq!(launch_failed_text("alpha", "no <sh>"), "❌ Failed to start autorun for <code>alpha</code>: no &lt;sh&gt;");
}

#[test]
fn stop_step_signals_the_recorded_process_group() {
    match stop_step("alpha", true, Some(Some(4242))) {
        StopStep::Signal { pgid, text } => {
            assert_eq!(pgid, 4242);
            assert_eq!(text, "🛑 Sent SIGTERM to <code>alpha</code> (pgid 4242)");
        }
        other => panic!("unexpected {other:?}"),
    }
    match stop_step("alpha", true, Some(None)) {
        StopStep::Notify(t) => assert_eq!(t, "❌ <code>alpha</code> has no active process group"),
        other => panic!("unexpected {other:?}"),
    }
    match stop_step("alpha", true, None) {
        StopStep::Notify(t) => assert_eq!(t, "❌ <code>alpha</code> doesn't appear to be running"),
        other => panic!("unexpected {other:?}"),
    }
    match stop_step("alpha", false, None) {
        StopStep::Notify(t) => assert_eq!(t, "❌ Project <code>alpha</code> not found"),
        other => panic!("unexpected {other:?}"),
    }
}

#[test]
fn thinking_message_is_picked_by_the_clock_nanos() {
    assert_eq!(rex_cli::chat_menu::thinking_message(0), "Thinking...");
    assert_eq!(rex_cli::chat_menu::thinking_message(1), "On it...");
    assert_eq!(rex_cli::chat_menu::thinking_message(49), "Mulling it over...");
    assert_eq!(rex_cli::chat_menu::thinking_message(50), "Thinking...");
    assert_eq!(rex_cli::chat_menu::thinking_message(999_999_999), "Mulling it over...");
}
