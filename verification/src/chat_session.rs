//! A question-and-answer chat session about a running project, as a state
//! machine: the caller sends messages and runs the assistant, and reports
//! each outcome as an event; each event yields the next thing to do.

use vstd::prelude::*;
use crate::autorun::{escape_html, html_escaped};
use crate::chat::{div_line, divider, format_error, format_response, session_error_text, session_response_text};

verus! {

/// Where a chat session stands.
#[derive(Debug, Clone, Copy, PartialEq, Eq, Structural)]
pub enum ChatStage {
    /// The "investigating" notice is being sent.
    Thinking,
    /// The assistant is working on the pending prompt.
    Answering,
    /// The answer is being shown.
    Showing,
    /// Waiting for the user's next reply.
    Idle,
    /// The session is over.
    Ended,
}

/// A chat session.
#[derive(Debug)]
pub struct ChatSession {
    pub stage: ChatStage,
    pub project_id: String,
    pub chat_id: String,
    /// The prompt the assistant gets next.
    pub pending: String,
    /// The assistant session to resume, once there is one.
    pub session: Option<String>,
}

/// A chat session as plain values.
pub ghost struct ChatSessionV {
    pub stage: ChatStage,
    pub project_id: Seq<char>,
    pub chat_id: Seq<char>,
    pub pending: Seq<char>,
    pub session: Option<Seq<char>>,
}

impl View for ChatSession {
    type V = ChatSessionV;

    open spec fn view(&self) -> ChatSessionV {
        ChatSessionV {
            stage: self.stage,
            project_id: self.project_id@,
            chat_id: self.chat_id@,
            pending: self.pending@,
            session: self.session.deep_view(),
        }
    }
}

/// What happened since the last action.
#[derive(Debug)]
pub enum ChatEvent {
    /// The notice was sent.
    NoticeSent,
    /// The notice could not be sent.
    NoticeFailed,
    /// The assistant answered, in this session.
    Answered { response: String, session_id: String },
    /// The assistant failed.
    Failed { error: String },
    /// The answer was shown.
    Shown,
    /// The answer could not be shown.
    ShowFailed,
    /// The user replied.
    Reply { text: String },
    /// The user pressed restart.
    Restart,
    /// The session's channel closed.
    Closed,
    /// No reply for thirty minutes.
    TimedOut,
}

/// An event as plain values.
pub ghost enum ChatEventV {
    NoticeSent,
    NoticeFailed,
    Answered { response: Seq<char>, session_id: Seq<char> },
    Failed { error: Seq<char> },
    Shown,
    ShowFailed,
    Reply { text: Seq<char> },
    Restart,
    Closed,
    TimedOut,
}

impl View for ChatEvent {
    type V = ChatEventV;

    open spec fn view(&self) -> ChatEventV {
        match self {
            ChatEvent::NoticeSent => ChatEventV::NoticeSent,
            ChatEvent::NoticeFailed => ChatEventV::NoticeFailed,
            ChatEvent::Answered { response, session_id } => ChatEventV::Answered {
                response: response@,
                session_id: session_id@,
            },
            ChatEvent::Failed { error } => ChatEventV::Failed { error: error@ },
            ChatEvent::Shown => ChatEventV::Shown,
            ChatEvent::ShowFailed => ChatEventV::ShowFailed,
            ChatEvent::Reply { text } => ChatEventV::Reply { text: text@ },
            ChatEvent::Restart => ChatEventV::Restart,
            ChatEvent::Closed => ChatEventV::Closed,
            ChatEvent::TimedOut => ChatEventV::TimedOut,
        }
    }
}

/// What the caller does next.
#[derive(Debug)]
pub enum ChatAction {
    /// Send this "investigating" notice.
    SendNotice(String),
    /// Run the assistant on `prompt`, resuming `resume` when given.
    Ask { prompt: String, resume: Option<String> },
    /// Replace the notice with this answer.
    Show(String),
    /// Wait for the next reply.
    Wait,
    /// Replace the notice with this error, then end.
    FailAndEnd(String),
    /// End the session, sending `farewell` first when given.
    End { farewell: Option<String> },
}

/// An action as plain values.
pub ghost enum ChatActionV {
    SendNotice(Seq<char>),
    Ask { prompt: Seq<char>, resume: Option<Seq<char>> },
    Show(Seq<char>),
    Wait,
    FailAndEnd(Seq<char>),
    End { farewell: Option<Seq<char>> },
}

impl View for ChatAction {
    type V = ChatActionV;

    open spec fn view(&self) -> ChatActionV {
        match self {
            ChatAction::SendNotice(t) => ChatActionV::SendNotice(t@),
            ChatAction::Ask { prompt, resume } => ChatActionV::Ask { prompt: prompt@, resume: resume.deep_view() },
            ChatAction::Show(t) => ChatActionV::Show(t@),
            ChatAction::Wait => ChatActionV::Wait,
            ChatAction::FailAndEnd(t) => ChatActionV::FailAndEnd(t@),
            ChatAction::End { farewell } => ChatActionV::End { farewell: farewell.deep_view() },
        }
    }
}

/// The header of the session's messages.
pub open spec fn session_head(icon_title: Seq<char>, pid: Seq<char>, cid: Seq<char>) -> Seq<char> {
    icon_title + "  ·  <code>"@ + html_escaped(pid) + "</code>  ·  <code>"@ + cid + "</code>\n"@ + divider() + "\n"@
}

/// The "investigating" notice.
pub open spec fn notice_text(pid: Seq<char>, cid: Seq<char>) -> Seq<char> {
    session_head("🔍 <b>Chat</b>"@, pid, cid) + "Investigating..."@
}

/// The farewell after a restart.
pub open spec fn restart_text(pid: Seq<char>, cid: Seq<char>) -> Seq<char> {
    session_head("🔄 <b>Chat ended</b>"@, pid, cid) + "Session restarted. Use <code>/chat</code> to begin a new one."@
}

/// The farewell after thirty idle minutes.
pub open spec fn idle_text(pid: Seq<char>, cid: Seq<char>) -> Seq<char> {
    session_head("⏰ <b>Chat timed out</b>"@, pid, cid) + "30 min inactivity. Use <code>/chat</code> to start a new one."@
}

/// The first prompt of a session: the project, where it lives, and the question.
pub open spec fn first_prompt(pid: Seq<char>, dir: Seq<char>, question: Seq<char>) -> Seq<char> {
    "Project \""@ + pid + "\" at "@ + dir + ".\n\nUser's question: "@ + question
}

/// The name of the assistant session of a chat.
pub open spec fn chat_session_name(pid: Seq<char>, cid: Seq<char>) -> Seq<char> {
    "rex-chat-"@ + pid + "-"@ + cid
}

/// The events each stage waits for.
pub open spec fn chat_expects(stage: ChatStage, e: ChatEventV) -> bool {
    match stage {
        ChatStage::Thinking => e is NoticeSent || e is NoticeFailed,
        ChatStage::Answering => e is Answered || e is Failed,
        ChatStage::Showing => e is Shown || e is ShowFailed,
        ChatStage::Idle => e is Reply || e is Restart || e is Closed || e is TimedOut,
        ChatStage::Ended => false,
    }
}

/// One decision of a chat session: the next session and action after `e`.
pub open spec fn chat_step(s: ChatSessionV, e: ChatEventV) -> (ChatSessionV, ChatActionV) {
    let ended = ChatSessionV { stage: ChatStage::Ended, ..s };
    match e {
        ChatEventV::NoticeSent => (
            ChatSessionV { stage: ChatStage::Answering, ..s },
            ChatActionV::Ask { prompt: s.pending, resume: s.session },
        ),
        ChatEventV::Answered { response, session_id } => (
            ChatSessionV { stage: ChatStage::Showing, session: Some(session_id), ..s },
            ChatActionV::Show(session_response_text(s.project_id, s.chat_id, response)),
        ),
        ChatEventV::Failed { error } => (ended, ChatActionV::FailAndEnd(session_error_text(s.project_id, s.chat_id, error))),
        ChatEventV::Shown => (ChatSessionV { stage: ChatStage::Idle, ..s }, ChatActionV::Wait),
        ChatEventV::Reply { text } => (
            ChatSessionV { stage: ChatStage::Thinking, pending: text, ..s },
            ChatActionV::SendNotice(notice_text(s.project_id, s.chat_id)),
        ),
        ChatEventV::Restart => (ended, ChatActionV::End { farewell: Some(restart_text(s.project_id, s.chat_id)) }),
        ChatEventV::TimedOut => (ended, ChatActionV::End { farewell: Some(idle_text(s.project_id, s.chat_id)) }),
        _ => (ended, ChatActionV::End { farewell: None }),
    }
}

/// The header of the session's messages.
fn head(icon_title: &str, pid: &str, cid: &str) -> (r: String)
    ensures
        r@ == session_head(icon_title@, pid@, cid@),
{
    icon_title.to_owned().concat("  ·  <code>").concat(escape_html(pid).as_str()).concat("</code>  ·  <code>").concat(
        cid,
    ).concat("</code>\n").concat(div_line()).concat("\n")
}

impl ChatSession {
    /// A new session about `question` for the project at `dir`; the first
    /// thing to do is to send the notice.
    pub fn open(project_id: &str, chat_id: &str, dir: &str, question: &str) -> (r: (ChatSession, ChatAction))
        ensures
            r.0@ == (ChatSessionV {
                stage: ChatStage::Thinking,
                project_id: project_id@,
                chat_id: chat_id@,
                pending: first_prompt(project_id@, dir@, question@),
                session: None,
            }),
            r.1@ == ChatActionV::SendNotice(notice_text(project_id@, chat_id@)),
    {
        let prompt = "Project \"".to_owned().concat(project_id).concat("\" at ").concat(dir).concat(
            ".\n\nUser's question: ",
        ).concat(question);
        let notice = head("🔍 <b>Chat</b>", project_id, chat_id).concat("Investigating...");
        (
            ChatSession {
                stage: ChatStage::Thinking,
                project_id: project_id.to_owned(),
                chat_id: chat_id.to_owned(),
                pending: prompt,
                session: None,
            },
            ChatAction::SendNotice(notice),
        )
    }

    /// The name of the session's assistant session.
    pub fn session_name(&self) -> (r: String)
        ensures
            r@ == chat_session_name(self.project_id@, self.chat_id@),
    {
        "rex-chat-".to_owned().concat(self.project_id.as_str()).concat("-").concat(self.chat_id.as_str())
    }

    /// Decide what follows `event` (see `chat_step`); the event must be one
    /// the stage waits for.
    pub fn step(&mut self, event: ChatEvent) -> (r: ChatAction)
        requires
            chat_expects(old(self).stage, event@),
        ensures
            (final(self)@, r@) == chat_step(old(self)@, event@),
    {
        match event {
            ChatEvent::NoticeSent => {
                self.stage = ChatStage::Answering;
                let resume = match &self.session {
                    Some(s) => Some(s.clone()),
                    None => None,
                };
                ChatAction::Ask { prompt: self.pending.clone(), resume }
            },
            ChatEvent::Answered { response, session_id } => {
                self.stage = ChatStage::Showing;
                self.session = Some(session_id);
                ChatAction::Show(format_response(self.project_id.as_str(), self.chat_id.as_str(), response.as_str()))
            },
            ChatEvent::Failed { error } => {
                self.stage = ChatStage::Ended;
                ChatAction::FailAndEnd(format_error(self.project_id.as_str(), self.chat_id.as_str(), error.as_str()))
            },
            ChatEvent::Shown => {
                self.stage = ChatStage::Idle;
                ChatAction::Wait
            },
            ChatEvent::Reply { text } => {
                self.stage = ChatStage::Thinking;
                self.pending = text;
                ChatAction::SendNotice(head("🔍 <b>Chat</b>", self.project_id.as_str(), self.chat_id.as_str()).concat("Investigating..."))
            },
            ChatEvent::Restart => {
                self.stage = ChatStage::Ended;
                let t = head("🔄 <b>Chat ended</b>", self.project_id.as_str(), self.chat_id.as_str()).concat(
                    "Session restarted. Use <code>/chat</code> to begin a new one.",
                );
                ChatAction::End { farewell: Some(t) }
            },
            ChatEvent::TimedOut => {
                self.stage = ChatStage::Ended;
                let t = head("⏰ <b>Chat timed out</b>", self.project_id.as_str(), self.chat_id.as_str()).concat(
                    "30 min inactivity. Use <code>/chat</code> to start a new one.",
                );
                ChatAction::End { farewell: Some(t) }
            },
            _ => {
                self.stage = ChatStage::Ended;
                ChatAction::End { farewell: None }
            },
        }
    }
}

} // verus!
