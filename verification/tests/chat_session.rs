use rex_cli::chat_session::{ChatAction, ChatEvent, ChatSession, ChatStage};

#[test]
fn chat_session_round_trip() {
    let (mut s, first) = ChatSession::open("proj", "ab12", "/work/proj", "what is left?");
    match first {
        ChatAction::SendNotice(t) => assert!(t.starts_with("🔍 <b>Chat</b>  ·  <code>proj</code>  ·  <code>ab12</code>\n") && t.ends_with("\nInvestigating...")),
        other => panic!("unexpected {other:?}"),
    }
    assert_eq!(s.session_name(), "rex-chat-proj-ab12");
    match s.step(ChatEvent::NoticeSent) {
        ChatAction::Ask { prompt, resume } => {
            assert_eq!(prompt, "Project \"proj\" at /work/proj.\n\nUser's question: what is left?");
            assert_eq!(resume, None);
        }
        other => panic!("unexpected {other:?}"),
    }
    match s.step(ChatEvent::Answered { response: "two tasks".into(), session_id: "sid-1".into() }) {
        ChatAction::Show(t) => assert!(t.contains("two tasks") && t.contains("Reply to continue")),
        other => panic!("unexpected {other:?}"),
    }
    assert!(matches!(s.step(ChatEvent::Shown), ChatAction::Wait));
    assert!(matches!(s.step(ChatEvent::Reply { text: "which ones?".into() }), ChatAction::SendNotice(_)));
    match s.step(ChatEvent::NoticeSent) {
        ChatAction::Ask { prompt, resume } => {
            assert_eq!(prompt, "which ones?");
            assert_eq!(resume.as_deref(), Some("sid-1"));
        }
        other => panic!("unexpected {other:?}"),
    }
    match s.step(ChatEvent::Failed { error: "boom".into() }) {
        ChatAction::FailAndEnd(t) => assert!(t.starts_with("❌ <b>Chat error</b>") && t.ends_with("boom")),
        other => panic!("unexpected {other:?}"),
    }
    assert_eq!(s.stage, ChatStage::Ended);
}

#[test]
fn chat_session_endings() {
    let (mut s, _) = ChatSession::open("p", "c", "/d", "q");
    s.step(ChatEvent::NoticeSent);
    s.step(ChatEvent::Answered { response: "r".into(), session_id: "s".into() });
    s.step(ChatEvent::Shown);
    match s.step(ChatEvent::TimedOut) {
        ChatAction::End { farewell: Some(t) } => assert!(t.ends_with("30 min inactivity. Use <code>/chat</code> to start a new one.")),
        other => panic!("unexpected {other:?}"),
    }
    let (mut s, _) = ChatSession::open("p", "c", "/d", "q");
    s.step(ChatEvent::NoticeSent);
    s.step(ChatEvent::Answered { response: "r".into(), session_id: "s".into() });
    s.step(ChatEvent::Shown);
    match s.step(ChatEvent::Restart) {
        ChatAction::End { farewell: Some(t) } => assert!(t.starts_with("🔄 <b>Chat ended</b>")),
        other => panic!("unexpected {other:?}"),
    }
    let (mut s, _) = ChatSession::open("p", "c", "/d", "q");
    assert!(matches!(s.step(ChatEvent::NoticeFailed), ChatAction::End { farewell: None }));
}
