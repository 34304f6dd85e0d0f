use rex_cli::autorun::InboxMessage;
use rex_cli::triage::{triage_inbox, triage_update, Peer, PollMode, Triage, Update};

const CHAT: i64 = 100;

fn peers() -> Vec<Peer> {
    vec![
        Peer { project_id: "alpha".into(), expected_message_id: Some(7) },
        Peer { project_id: "beta".into(), expected_message_id: Some(9) },
    ]
}

fn msg(text: &str, reply_to: Option<i64>) -> Update {
    Update::Message { chat_id: CHAT, text: Some(text.into()), reply_to }
}

fn awaiting() -> PollMode {
    PollMode::AwaitingReply { expected: 7 }
}

#[test]
fn triage_reply_to_expected_message_is_taken() {
    match triage_update(awaiting(), &msg("yes please", Some(7)), CHAT, "alpha", &peers()) {
        Triage::Reply(t) => assert_eq!(t, "yes please"),
        other => panic!("unexpected {other:?}"),
    }
}

#[test]
fn triage_reply_for_other_run_is_routed() {
    match triage_update(awaiting(), &msg("answer", Some(9)), CHAT, "alpha", &peers()) {
        Triage::Route { project, message: InboxMessage::Reply { text } } => {
            assert_eq!(project, "beta");
            assert_eq!(text, "answer");
        }
        other => panic!("unexpected {other:?}"),
    }
    assert!(matches!(triage_update(awaiting(), &msg("x", Some(55)), CHAT, "alpha", &peers()), Triage::Ignore));
    match triage_update(PollMode::Executing, &msg("late", Some(7)), CHAT, "alpha", &peers()) {
        Triage::Route { project, .. } => assert_eq!(project, "alpha"),
        other => panic!("unexpected {other:?}"),
    }
}

#[test]
fn triage_commands() {
    let p = peers();
    assert!(matches!(triage_update(awaiting(), &msg("/kill", None), CHAT, "alpha", &p), Triage::Kill));
    assert!(matches!(triage_update(awaiting(), &msg("/kill  alpha ", None), CHAT, "alpha", &p), Triage::Kill));
    match triage_update(PollMode::Executing, &msg("/kill beta", None), CHAT, "alpha", &p) {
        Triage::Route { project, message: InboxMessage::Kill } => assert_eq!(project, "beta"),
        other => panic!("unexpected {other:?}"),
    }
    assert!(matches!(triage_update(awaiting(), &msg("/kill gamma", None), CHAT, "alpha", &p), Triage::Ignore));
    assert!(matches!(triage_update(awaiting(), &msg("/query", None), CHAT, "alpha", &p), Triage::SendStats));
    match triage_update(awaiting(), &msg("/query beta", None), CHAT, "alpha", &p) {
        Triage::Route { project, message: InboxMessage::Query } => assert_eq!(project, "beta"),
        other => panic!("unexpected {other:?}"),
    }
    assert!(matches!(triage_update(awaiting(), &msg("/clear", None), CHAT, "alpha", &p), Triage::ClearHistory));
    assert!(matches!(triage_update(awaiting(), &msg("/menu", None), CHAT, "alpha", &p), Triage::SendHelp));
    assert!(matches!(triage_update(awaiting(), &msg("hello", None), CHAT, "alpha", &p), Triage::SendUnprocessed));
    assert!(matches!(
        triage_update(awaiting(), &Update::Message { chat_id: 5, text: Some("/kill".into()), reply_to: None }, CHAT, "alpha", &p),
        Triage::Ignore
    ));
    assert!(matches!(
        triage_update(awaiting(), &Update::Message { chat_id: CHAT, text: None, reply_to: Some(7) }, CHAT, "alpha", &p),
        Triage::Ignore
    ));
}

#[test]
fn triage_buttons() {
    let p = peers();
    let button = |data: &str| Update::Button { chat_id: CHAT, data: data.into() };
    assert!(matches!(triage_update(awaiting(), &button("kill:alpha"), CHAT, "alpha", &p), Triage::Kill));
    assert!(matches!(triage_update(awaiting(), &button("query"), CHAT, "alpha", &p), Triage::SendStats));
    match triage_update(awaiting(), &button("reply:alpha"), CHAT, "alpha", &p) {
        Triage::PromptReply { project, track } => {
            assert_eq!(project, "alpha");
            assert!(track);
        }
        other => panic!("unexpected {other:?}"),
    }
    match triage_update(PollMode::Executing, &button("reply:beta"), CHAT, "alpha", &p) {
        Triage::PromptReply { project, track } => {
            assert_eq!(project, "beta");
            assert!(!track);
        }
        other => panic!("unexpected {other:?}"),
    }
    match triage_update(awaiting(), &button("kill:beta"), CHAT, "alpha", &p) {
        Triage::Route { project, message: InboxMessage::Kill } => assert_eq!(project, "beta"),
        other => panic!("unexpected {other:?}"),
    }
    assert!(matches!(triage_update(awaiting(), &button("kill:zeta"), CHAT, "alpha", &p), Triage::Ignore));
    assert!(matches!(triage_update(awaiting(), &button("dance"), CHAT, "alpha", &p), Triage::Ignore));
}

#[test]
fn triage_inbox_messages() {
    match triage_inbox(awaiting(), InboxMessage::Reply { text: "ok".into() }) {
        Triage::Reply(t) => assert_eq!(t, "ok"),
        other => panic!("unexpected {other:?}"),
    }
    assert!(matches!(triage_inbox(PollMode::Executing, InboxMessage::Reply { text: "ok".into() }), Triage::Ignore));
    assert!(matches!(triage_inbox(PollMode::Executing, InboxMessage::Kill), Triage::Kill));
    assert!(matches!(triage_inbox(awaiting(), InboxMessage::Query), Triage::SendStats));
}

#[test]
fn clearing_history_deletes_up_to_two_hundred_earlier_messages() {
    assert_eq!(rex_cli::triage::messages_to_clear(4), vec![3, 2, 1, 4]);
    assert_eq!(rex_cli::triage::messages_to_clear(1), vec![1]);
    let many = rex_cli::triage::messages_to_clear(1000);
    assert_eq!(many.len(), 201);
    assert_eq!(many[0], 999);
    assert_eq!(many[199], 800);
    assert_eq!(many[200], 1000);
}

#[test]
fn ack_response_is_picked_by_the_clock_nanos() {
    assert_eq!(rex_cli::triage::pick_ack_response(0), "Copy that! Processing now...");
    assert_eq!(rex_cli::triage::pick_ack_response(51), "Got it! On it...");
    assert_eq!(rex_cli::triage::pick_ack_response(49), "Noted and processing! Hang tight...");
}
