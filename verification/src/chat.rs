//! Chat-side text handling: addressing a message to a project and
//! formatting replies for the chat.

use vstd::prelude::*;
use crate::autorun::{escape_html, html_escaped};
use crate::text::{find_char, find_ws, first_match, is_char, is_ws_fn, lemma_first_match_valid, str_eq, trim_spec, trim_str};
use crate::triage::split_button;

verus! {

/// The divider line of chat messages.
pub open spec fn divider() -> Seq<char> {
    "⎯⎯⎯⎯⎯⎯⎯⎯⎯⎯⎯⎯⎯⎯⎯"@
}

/// The divider line of chat messages.
pub fn div_line() -> (r: &'static str)
    ensures
        r@ == divider(),
{
    "⎯⎯⎯⎯⎯⎯⎯⎯⎯⎯⎯⎯⎯⎯⎯"
}

/// Split `text` at character `i`: the trimmed text before it and the trimmed
/// text after it.
pub open spec fn split_trimmed(text: Seq<char>, i: int) -> (Seq<char>, Seq<char>) {
    (trim_spec(text.take(i)), trim_spec(text.skip(i + 1)))
}

/// The project a chat message is addressed to, and the message: first as
/// `"id: message"`, then as `"id message"`, only for a known project id.
pub open spec fn project_prefix(text: Seq<char>, ids: Seq<Seq<char>>) -> Option<(Seq<char>, Seq<char>)> {
    let by_colon = match first_match(text, is_char(':')) {
        Some(i) => if ids.contains(split_trimmed(text, i).0) {
            Some(split_trimmed(text, i))
        } else {
            None
        },
        None => None,
    };
    match by_colon {
        Some(x) => Some(x),
        None => match first_match(text, is_ws_fn()) {
            Some(i) => if ids.contains(split_trimmed(text, i).0) {
                Some(split_trimmed(text, i))
            } else {
                None
            },
            None => None,
        },
    }
}

fn known(ids: &[String], x: &str) -> (r: bool)
    ensures
        r == ids.deep_view().contains(x@),
{
    let ghost dv = ids.deep_view();
    let target = x.to_owned();
    let mut i: usize = 0;
    while i < ids.len()
        invariant
            dv == ids.deep_view(),
            target@ == x@,
            i <= dv.len(),
            forall|k: int| 0 <= k < i ==> dv[k] != x@,
        decreases ids.len() - i,
    {
        if ids[i] == target {
            assert(dv[i as int] == x@);
            return true;
        }
        i += 1;
    }
    false
}

fn split_at_char<'a>(text: &'a str, i: usize) -> (r: (&'a str, &'a str))
    requires
        i < text@.len(),
    ensures
        r.0@ == split_trimmed(text@, i as int).0,
        r.1@ == split_trimmed(text@, i as int).1,
{
    let n = text.unicode_len();
    let before = text.substring_char(0, i);
    let after = text.substring_char(i + 1, n);
    assert(before@ =~= text@.take(i as int));
    assert(after@ =~= text@.skip(i + 1));
    (trim_str(before), trim_str(after))
}

/// Parse `"project-id: message"` or `"project-id message"`; only a known
/// project id matches.
pub fn parse_project_prefix<'a>(text: &'a str, known_ids: &[String]) -> (r: Option<(String, &'a str)>)
    ensures
        match project_prefix(text@, known_ids.deep_view()) {
            Some((p, m)) => r matches Some((a, b)) && a@ == p && b@ == m,
            None => r is None,
        },
{
    proof {
        lemma_first_match_valid(text@, is_char(':'));
        lemma_first_match_valid(text@, is_ws_fn());
    }
    if let Some(i) = find_char(text, ':') {
        let (prefix, rest) = split_at_char(text, i);
        if known(known_ids, prefix) {
            return Some((prefix.to_owned(), rest));
        }
    }
    if let Some(i) = find_ws(text) {
        let (first, rest) = split_at_char(text, i);
        if known(known_ids, first) {
            return Some((first.to_owned(), rest));
        }
    }
    None
}

/// At most the first 3000 characters of a reply, and whether it was cut.
pub open spec fn clipped(s: Seq<char>) -> (Seq<char>, bool) {
    if s.len() > 3000 {
        (s.take(3000), true)
    } else {
        (s, false)
    }
}

fn clip(s: &str) -> (r: (&str, bool))
    ensures
        r.0@ == clipped(s@).0,
        r.1 == clipped(s@).1,
{
    let n = s.unicode_len();
    if n > 3000 {
        let c = s.substring_char(0, 3000);
        assert(c@ =~= s@.take(3000));
        (c, true)
    } else {
        (s, false)
    }
}

/// A chat reply as the chat daemon sends it: header with the project, the
/// divider, then the reply escaped and cut to 3000 characters.
pub open spec fn chat_response_text(project_id: Seq<char>, response: Seq<char>) -> Seq<char> {
    let (content, truncated) = clipped(response);
    "🗨️ <b>Rex Chat</b>  ·  <code>"@ + html_escaped(project_id) + "</code>\n"@ + divider() + "\n"@
        + html_escaped(content) + if truncated {
        "\n...\n\n<i>(truncated)</i>"@
    } else {
        Seq::<char>::empty()
    }
}

/// Format a chat reply for the chat daemon.
pub fn format_chat_response(project_id: &str, response: &str) -> (r: String)
    ensures
        r@ == chat_response_text(project_id@, response@),
{
    let (content, truncated) = clip(response);
    let head = "🗨️ <b>Rex Chat</b>  ·  <code>".to_owned().concat(escape_html(project_id).as_str()).concat(
        "</code>\n",
    ).concat(div_line()).concat("\n").concat(escape_html(content).as_str());
    if truncated {
        head.concat("\n...\n\n<i>(truncated)</i>")
    } else {
        head
    }
}

/// A reply of a chat session started by the runner: header with project and
/// chat id, the reply escaped and cut to 3000 characters, and the footer.
pub open spec fn session_response_text(project_id: Seq<char>, chat_id: Seq<char>, response: Seq<char>) -> Seq<char> {
    let (content, truncated) = clipped(response);
    "🗨️ <b>Chat</b>  ·  <code>"@ + html_escaped(project_id) + "</code>  ·  <code>"@ + chat_id + "</code>\n"@
        + divider() + "\n"@ + html_escaped(content) + (if truncated {
        "\n…\n\n<i>(truncated)</i>"@
    } else {
        Seq::<char>::empty()
    }) + "\n"@ + divider() + "\n<i>💬 Reply to continue  ·  🔄 Restart for new session</i>"@
}

/// Format a reply of a runner chat session.
pub fn format_response(project_id: &str, chat_id: &str, response: &str) -> (r: String)
    ensures
        r@ == session_response_text(project_id@, chat_id@, response@),
{
    let (content, truncated) = clip(response);
    let head = "🗨️ <b>Chat</b>  ·  <code>".to_owned().concat(escape_html(project_id).as_str()).concat(
        "</code>  ·  <code>",
    ).concat(chat_id).concat("</code>\n").concat(div_line()).concat("\n").concat(
        escape_html(content).as_str(),
    );
    let body = if truncated {
        head.concat("\n…\n\n<i>(truncated)</i>")
    } else {
        head
    };
    body.concat("\n").concat(div_line()).concat("\n<i>💬 Reply to continue  ·  🔄 Restart for new session</i>")
}

/// An error of a runner chat session: header with project and chat id, the
/// divider, then the error escaped.
pub open spec fn session_error_text(project_id: Seq<char>, chat_id: Seq<char>, error: Seq<char>) -> Seq<char> {
    "❌ <b>Chat error</b>  ·  <code>"@ + html_escaped(project_id) + "</code>  ·  <code>"@ + chat_id
        + "</code>\n"@ + divider() + "\n"@ + html_escaped(error)
}

/// Format an error of a runner chat session.
pub fn format_error(project_id: &str, chat_id: &str, error: &str) -> (r: String)
    ensures
        r@ == session_error_text(project_id@, chat_id@, error@),
{
    "❌ <b>Chat error</b>  ·  <code>".to_owned().concat(escape_html(project_id).as_str()).concat(
        "</code>  ·  <code>",
    ).concat(chat_id).concat("</code>\n").concat(div_line()).concat("\n").concat(escape_html(error).as_str())
}

/// One character quoted for a single-quoted shell word.
pub open spec fn shell_char(c: char) -> Seq<char> {
    if c == '\'' {
        "'\\''"@
    } else {
        seq![c]
    }
}

/// Each character quoted for a single-quoted shell word.
pub open spec fn shell_quoted(s: Seq<char>) -> Seq<char>
    decreases s.len(),
{
    if s.len() == 0 {
        seq![]
    } else {
        shell_quoted(s.drop_last()) + shell_char(s.last())
    }
}

/// `s` as one single-quoted shell word.
pub fn shell_escape(s: &str) -> (r: String)
    ensures
        r@ == seq!['\''] + shell_quoted(s@) + seq!['\''],
{
    proof { reveal_strlit("'"); reveal_strlit("'\\''"); }
    let n = s.unicode_len();
    let mut out = String::new();
    let mut i: usize = 0;
    assert(s@.take(0) =~= Seq::<char>::empty());
    while i < n
        invariant
            n == s@.len(),
            i <= n,
            out@ == shell_quoted(s@.take(i as int)),
        decreases n - i,
    {
        proof { reveal_strlit("'\\''"); }
        assert(s@.take(i + 1).drop_last() =~= s@.take(i as int));
        let c = s.get_char(i);
        assert(s@.take(i + 1).last() == c);
        if c == '\'' {
            out = out.concat("'\\''");
        } else {
            let one = s.substring_char(i, i + 1);
            assert(one@ =~= seq![c]);
            out = out.concat(one);
        }
        assert(out@ =~= shell_quoted(s@.take(i + 1)));
        i += 1;
    }
    assert(s@.take(n as int) =~= s@);
    let r = "'".to_owned().concat(out.as_str()).concat("'");
    assert(r@ =~= seq!['\''] + shell_quoted(s@) + seq!['\'']);
    r
}

// ── routing of chat messages ────────────────────────────────────────────────

/// Whom a message replies to, as the chat's reply registry knows it.
#[derive(Debug)]
pub enum ReplyTo {
    /// The message replies to nothing.
    Nothing,
    /// It replies to a message of the chat with this project.
    Known(String),
    /// It replies to a message the registry does not know.
    Unknown,
}

/// What the chat daemon does with a message or a button press.
#[derive(Debug)]
pub enum ChatCommand {
    /// Send nothing.
    Ignore,
    ClearHistory,
    ShowMenu,
    ShowHelp,
    ListProjects,
    /// Tell which project is active, if any.
    ShowActive(Option<String>),
    /// Make the project the active one.
    SwitchTo(String),
    /// The project of `/chat` is not known.
    UnknownProject(String),
    StartAutorun(String),
    /// `/stop` needs a project.
    StopUsage,
    StopAutorun(String),
    /// Status of every running project.
    StatusAll,
    Status(String),
    /// Ask a project's assistant; with `remember`, the project becomes the
    /// active one.
    Chat { project: String, message: String, remember: bool },
    /// No context: say so, make the first project the active one and ask it.
    DefaultTo { project: String, message: String },
    /// No project exists.
    NoProjects,
    /// An unknown command without a project to hand it to.
    UnknownCommand,
    /// Ask for the message to send to a project.
    StartChatPrompt(String),
}

/// The reply target as plain values.
pub ghost enum ReplyToV {
    Nothing,
    Known(Seq<char>),
    Unknown,
}

/// A chat command as plain values.
pub ghost enum ChatCommandV {
    Ignore,
    ClearHistory,
    ShowMenu,
    ShowHelp,
    ListProjects,
    ShowActive(Option<Seq<char>>),
    SwitchTo(Seq<char>),
    UnknownProject(Seq<char>),
    StartAutorun(Seq<char>),
    StopUsage,
    StopAutorun(Seq<char>),
    StatusAll,
    Status(Seq<char>),
    Chat { project: Seq<char>, message: Seq<char>, remember: bool },
    DefaultTo { project: Seq<char>, message: Seq<char> },
    NoProjects,
    UnknownCommand,
    StartChatPrompt(Seq<char>),
}

impl View for ReplyTo {
    type V = ReplyToV;

    open spec fn view(&self) -> ReplyToV {
        match self {
            ReplyTo::Nothing => ReplyToV::Nothing,
            ReplyTo::Known(p) => ReplyToV::Known(p@),
            ReplyTo::Unknown => ReplyToV::Unknown,
        }
    }
}

impl View for ChatCommand {
    type V = ChatCommandV;

    open spec fn view(&self) -> ChatCommandV {
        match self {
            ChatCommand::Ignore => ChatCommandV::Ignore,
            ChatCommand::ClearHistory => ChatCommandV::ClearHistory,
            ChatCommand::ShowMenu => ChatCommandV::ShowMenu,
            ChatCommand::ShowHelp => ChatCommandV::ShowHelp,
            ChatCommand::ListProjects => ChatCommandV::ListProjects,
            ChatCommand::ShowActive(a) => ChatCommandV::ShowActive(match a {
                Some(x) => Some(x@),
                None => None,
            }),
            ChatCommand::SwitchTo(p) => ChatCommandV::SwitchTo(p@),
            ChatCommand::UnknownProject(p) => ChatCommandV::UnknownProject(p@),
            ChatCommand::StartAutorun(p) => ChatCommandV::StartAutorun(p@),
            ChatCommand::StopUsage => ChatCommandV::StopUsage,
            ChatCommand::StopAutorun(p) => ChatCommandV::StopAutorun(p@),
            ChatCommand::StatusAll => ChatCommandV::StatusAll,
            ChatCommand::Status(p) => ChatCommandV::Status(p@),
            ChatCommand::Chat { project, message, remember } => ChatCommandV::Chat {
                project: project@,
                message: message@,
                remember: *remember,
            },
            ChatCommand::DefaultTo { project, message } => ChatCommandV::DefaultTo {
                project: project@,
                message: message@,
            },
            ChatCommand::NoProjects => ChatCommandV::NoProjects,
            ChatCommand::UnknownCommand => ChatCommandV::UnknownCommand,
            ChatCommand::StartChatPrompt(p) => ChatCommandV::StartChatPrompt(p@),
        }
    }
}

/// The project a message without an address goes to: the active one, else
/// the only project there is.
pub open spec fn chat_target(last_active: Option<Seq<char>>, projects: Seq<Seq<char>>) -> Option<Seq<char>> {
    match last_active {
        Some(l) => Some(l),
        None => if projects.len() == 1 {
            Some(projects[0])
        } else {
            None
        },
    }
}

/// A command split at its first whitespace into the command and its
/// trimmed argument.
pub open spec fn command_split(text: Seq<char>) -> (Seq<char>, Seq<char>) {
    match first_match(text, is_ws_fn()) {
        Some(i) => (text.take(i), trim_spec(text.skip(i + 1))),
        None => (text, seq![]),
    }
}

/// The command a `/`-message asks for; an unknown command is a chat message
/// to the project at hand, if there is one.
pub open spec fn slash_command(text: Seq<char>, projects: Seq<Seq<char>>, last_active: Option<Seq<char>>) -> ChatCommandV {
    let (cmd, arg) = command_split(text);
    if cmd == "/clear"@ {
        ChatCommandV::ClearHistory
    } else if cmd == "/menu"@ {
        ChatCommandV::ShowMenu
    } else if cmd == "/commands"@ || cmd == "/help"@ {
        ChatCommandV::ShowHelp
    } else if cmd == "/projects"@ {
        ChatCommandV::ListProjects
    } else if cmd == "/chat"@ {
        if arg.len() == 0 {
            ChatCommandV::ShowActive(last_active)
        } else if projects.contains(arg) {
            ChatCommandV::SwitchTo(arg)
        } else {
            ChatCommandV::UnknownProject(arg)
        }
    } else if cmd == "/start"@ {
        if arg.len() == 0 {
            ChatCommandV::ShowMenu
        } else {
            ChatCommandV::StartAutorun(arg)
        }
    } else if cmd == "/stop"@ {
        if arg.len() == 0 {
            ChatCommandV::StopUsage
        } else {
            ChatCommandV::StopAutorun(arg)
        }
    } else if cmd == "/status"@ {
        if arg.len() == 0 {
            ChatCommandV::StatusAll
        } else {
            ChatCommandV::Status(arg)
        }
    } else {
        match chat_target(last_active, projects) {
            Some(p) => ChatCommandV::Chat { project: p, message: text, remember: false },
            None => ChatCommandV::UnknownCommand,
        }
    }
}

/// The command a text message asks for: a `/`-command; a reply to a known
/// chat goes to its project; an addressed message goes to its project,
/// which becomes active; anything else to the project at hand, or to the
/// first project.
pub open spec fn text_command(text: Seq<char>, reply: ReplyToV, projects: Seq<Seq<char>>, last_active: Option<Seq<char>>) -> ChatCommandV {
    let t = trim_spec(text);
    if t.len() > 0 && t[0] == '/' {
        slash_command(t, projects, last_active)
    } else {
        match reply {
            ReplyToV::Known(p) => ChatCommandV::Chat { project: p, message: t, remember: false },
            ReplyToV::Unknown => ChatCommandV::Ignore,
            ReplyToV::Nothing => match project_prefix(t, projects) {
                Some((p, m)) => ChatCommandV::Chat { project: p, message: m, remember: true },
                None => match chat_target(last_active, projects) {
                    Some(p) => ChatCommandV::Chat { project: p, message: t, remember: false },
                    None => if projects.len() == 0 {
                        ChatCommandV::NoProjects
                    } else {
                        ChatCommandV::DefaultTo { project: projects[0], message: t }
                    },
                },
            },
        }
    }
}

/// The command a dashboard button asks for.
pub open spec fn button_command(data: Seq<char>) -> ChatCommandV {
    let (action, target) = split_button(data);
    if action == "menu"@ {
        ChatCommandV::ShowMenu
    } else if target.len() == 0 {
        ChatCommandV::Ignore
    } else if action == "chat"@ || action == "rc_reply"@ {
        ChatCommandV::StartChatPrompt(target)
    } else if action == "start"@ {
        ChatCommandV::StartAutorun(target)
    } else if action == "status"@ {
        ChatCommandV::Status(target)
    } else if action == "stop"@ {
        ChatCommandV::StopAutorun(target)
    } else {
        ChatCommandV::Ignore
    }
}

fn opt_string(o: &Option<String>) -> (r: Option<String>)
    ensures
        match (r, o) {
            (Some(a), Some(b)) => a@ == b@,
            (None, None) => true,
            _ => false,
        },
{
    match o {
        Some(s) => Some(s.clone()),
        None => None,
    }
}

/// The project at hand (see `chat_target`).
fn target_of(last_active: &Option<String>, projects: &[String]) -> (r: Option<String>)
    ensures
        match (r, chat_target(
            match last_active {
                Some(l) => Some(l@),
                None => None,
            },
            projects.deep_view(),
        )) {
            (Some(a), Some(b)) => a@ == b,
            (None, None) => true,
            _ => false,
        },
{
    match last_active {
        Some(l) => Some(l.clone()),
        None => if projects.len() == 1 {
            Some(projects[0].clone())
        } else {
            None
        },
    }
}

/// Decide on a `/`-command (see `slash_command`).
fn route_slash(text: &str, projects: &[String], last_active: &Option<String>) -> (r: ChatCommand)
    ensures
        r@ == slash_command(
            text@,
            projects.deep_view(),
            match last_active {
                Some(l) => Some(l@),
                None => None,
            },
        ),
{
    proof { lemma_first_match_valid(text@, is_ws_fn()); }
    let (cmd, arg) = match find_ws(text) {
        Some(i) => {
            let n = text.unicode_len();
            let c = text.substring_char(0, i);
            let rest = text.substring_char(i + 1, n);
            proof {
                assert(c@ =~= text@.take(i as int));
                assert(rest@ =~= text@.skip(i + 1));
            }
            (c, trim_str(rest))
        },
        None => {
            proof { reveal_strlit(""); }
            (text, "")
        },
    };
    assert(cmd@ == command_split(text@).0 && arg@ == command_split(text@).1);
    if str_eq(cmd, "/clear") {
        ChatCommand::ClearHistory
    } else if str_eq(cmd, "/menu") {
        ChatCommand::ShowMenu
    } else if str_eq(cmd, "/commands") || str_eq(cmd, "/help") {
        ChatCommand::ShowHelp
    } else if str_eq(cmd, "/projects") {
        ChatCommand::ListProjects
    } else if str_eq(cmd, "/chat") {
        if arg.unicode_len() == 0 {
            ChatCommand::ShowActive(opt_string(last_active))
        } else if known(projects, arg) {
            ChatCommand::SwitchTo(arg.to_owned())
        } else {
            ChatCommand::UnknownProject(arg.to_owned())
        }
    } else if str_eq(cmd, "/start") {
        if arg.unicode_len() == 0 {
            ChatCommand::ShowMenu
        } else {
            ChatCommand::StartAutorun(arg.to_owned())
        }
    } else if str_eq(cmd, "/stop") {
        if arg.unicode_len() == 0 {
            ChatCommand::StopUsage
        } else {
            ChatCommand::StopAutorun(arg.to_owned())
        }
    } else if str_eq(cmd, "/status") {
        if arg.unicode_len() == 0 {
            ChatCommand::StatusAll
        } else {
            ChatCommand::Status(arg.to_owned())
        }
    } else {
        match target_of(last_active, projects) {
            Some(p) => ChatCommand::Chat { project: p, message: text.to_owned(), remember: false },
            None => ChatCommand::UnknownCommand,
        }
    }
}

/// Decide on a text message of the chat (see `text_command`); `projects`
/// are the ids of the projects found, in order, and `last_active` the
/// project chatted with last.
pub fn route_text(text: &str, reply: &ReplyTo, projects: &[String], last_active: &Option<String>) -> (r: ChatCommand)
    ensures
        r@ == text_command(
            text@,
            reply@,
            projects.deep_view(),
            match last_active {
                Some(l) => Some(l@),
                None => None,
            },
        ),
{
    let t = trim_str(text);
    if t.unicode_len() > 0 && t.get_char(0) == '/' {
        return route_slash(t, projects, last_active);
    }
    match reply {
        ReplyTo::Known(p) => ChatCommand::Chat { project: p.clone(), message: t.to_owned(), remember: false },
        ReplyTo::Unknown => ChatCommand::Ignore,
        ReplyTo::Nothing => match parse_project_prefix(t, projects) {
            Some((p, m)) => ChatCommand::Chat { project: p, message: m.to_owned(), remember: true },
            None => match target_of(last_active, projects) {
                Some(p) => ChatCommand::Chat { project: p, message: t.to_owned(), remember: false },
                None => if projects.len() == 0 {
                    ChatCommand::NoProjects
                } else {
                    ChatCommand::DefaultTo { project: projects[0].clone(), message: t.to_owned() }
                },
            },
        },
    }
}

/// Decide on a dashboard button press (see `button_command`).
pub fn route_button(data: &str) -> (r: ChatCommand)
    ensures
        r@ == button_command(data@),
{
    let (action, target) = match find_char(data, ':') {
        Some(i) => {
            proof { lemma_first_match_valid(data@, is_char(':')); }
            let n = data.unicode_len();
            (data.substring_char(0, i), data.substring_char(i + 1, n))
        },
        None => {
            proof { reveal_strlit(""); }
            (data, "")
        },
    };
    proof {
        assert(split_button(data@).0 =~= action@);
        assert(split_button(data@).1 =~= target@);
    }
    if str_eq(action, "menu") {
        ChatCommand::ShowMenu
    } else if target.unicode_len() == 0 {
        ChatCommand::Ignore
    } else if str_eq(action, "chat") || str_eq(action, "rc_reply") {
        ChatCommand::StartChatPrompt(target.to_owned())
    } else if str_eq(action, "start") {
        ChatCommand::StartAutorun(target.to_owned())
    } else if str_eq(action, "status") {
        ChatCommand::Status(target.to_owned())
    } else if str_eq(action, "stop") {
        ChatCommand::StopAutorun(target.to_owned())
    } else {
        ChatCommand::Ignore
    }
}

// ── project state changes ───────────────────────────────────────────────────

/// A discovered project and whether its autorun is running.
#[derive(Debug)]
pub struct ProjectState {
    pub id: String,
    pub running: bool,
}

/// A change between two scans of the projects.
#[derive(Debug)]
pub enum StateChange {
    ProjectAdded { id: String, running: bool },
    ProjectRemoved { id: String },
    AutorunStarted { id: String },
    AutorunStopped { id: String },
}

/// A change as plain values.
pub ghost enum ChangeV {
    ProjectAdded { id: Seq<char>, running: bool },
    ProjectRemoved { id: Seq<char> },
    AutorunStarted { id: Seq<char> },
    AutorunStopped { id: Seq<char> },
}

impl View for StateChange {
    type V = ChangeV;

    open spec fn view(&self) -> ChangeV {
        match self {
            StateChange::ProjectAdded { id, running } => ChangeV::ProjectAdded { id: id@, running: *running },
            StateChange::ProjectRemoved { id } => ChangeV::ProjectRemoved { id: id@ },
            StateChange::AutorunStarted { id } => ChangeV::AutorunStarted { id: id@ },
            StateChange::AutorunStopped { id } => ChangeV::AutorunStopped { id: id@ },
        }
    }
}

impl DeepView for StateChange {
    type V = ChangeV;

    open spec fn deep_view(&self) -> ChangeV {
        self@
    }
}

/// A scan as plain values.
pub open spec fn scan_view(s: Seq<ProjectState>) -> Seq<(Seq<char>, bool)> {
    s.map_values(|p: ProjectState| (p.id@, p.running))
}

/// Whether the autorun of `id` ran in a scan (first entry for the id);
/// none when the scan does not list it.
pub open spec fn running_in(s: Seq<(Seq<char>, bool)>, id: Seq<char>) -> Option<bool>
    decreases s.len(),
{
    if s.len() == 0 {
        None
    } else {
        match running_in(s.drop_last(), id) {
            Some(r) => Some(r),
            None => if s.last().0 == id {
                Some(s.last().1)
            } else {
                None
            },
        }
    }
}

/// Projects of the first `n` entries of the new scan that the old scan lacks.
pub open spec fn added_changes(old: Seq<(Seq<char>, bool)>, new: Seq<(Seq<char>, bool)>, n: int) -> Seq<ChangeV>
    decreases n,
{
    if n <= 0 {
        seq![]
    } else if running_in(old, new[n - 1].0) is None {
        added_changes(old, new, n - 1).push(ChangeV::ProjectAdded { id: new[n - 1].0, running: new[n - 1].1 })
    } else {
        added_changes(old, new, n - 1)
    }
}

/// Projects of the first `n` entries of the old scan that the new scan lacks.
pub open spec fn removed_changes(old: Seq<(Seq<char>, bool)>, new: Seq<(Seq<char>, bool)>, n: int) -> Seq<ChangeV>
    decreases n,
{
    if n <= 0 {
        seq![]
    } else if running_in(new, old[n - 1].0) is None {
        removed_changes(old, new, n - 1).push(ChangeV::ProjectRemoved { id: old[n - 1].0 })
    } else {
        removed_changes(old, new, n - 1)
    }
}

/// Autoruns among the first `n` entries of the new scan that started or
/// stopped since the old scan.
pub open spec fn status_changes(old: Seq<(Seq<char>, bool)>, new: Seq<(Seq<char>, bool)>, n: int) -> Seq<ChangeV>
    decreases n,
{
    if n <= 0 {
        seq![]
    } else {
        let rest = status_changes(old, new, n - 1);
        let (id, now) = new[n - 1];
        match running_in(old, id) {
            Some(before) => if !before && now {
                rest.push(ChangeV::AutorunStarted { id })
            } else if before && !now {
                rest.push(ChangeV::AutorunStopped { id })
            } else {
                rest
            },
            None => rest,
        }
    }
}

/// The changes between two scans: new projects, removed projects, then
/// autoruns that started or stopped.
pub open spec fn scan_diff(old: Seq<(Seq<char>, bool)>, new: Seq<(Seq<char>, bool)>) -> Seq<ChangeV> {
    added_changes(old, new, new.len() as int) + removed_changes(old, new, old.len() as int) + status_changes(
        old,
        new,
        new.len() as int,
    )
}

/// Whether the autorun of `id` ran in the scan (see `running_in`).
fn running_of(scan: &[ProjectState], id: &str) -> (r: Option<bool>)
    ensures
        r == running_in(scan_view(scan@), id@),
{
    let ghost sv = scan_view(scan@);
    let mut i: usize = 0;
    assert(sv.take(0) =~= Seq::<(Seq<char>, bool)>::empty());
    while i < scan.len()
        invariant
            sv == scan_view(scan@),
            i <= sv.len(),
            running_in(sv.take(i as int), id@) is None,
        decreases scan.len() - i,
    {
        assert(sv.take(i + 1).drop_last() =~= sv.take(i as int));
        assert(sv.take(i + 1).last() == sv[i as int]);
        if str_eq(scan[i].id.as_str(), id) {
            assert(running_in(sv.take(i + 1), id@) == Some(scan@[i as int].running));
            proof { lemma_running_in_prefix(sv, id@, i + 1); }
            return Some(scan[i].running);
        }
        i += 1;
    }
    assert(sv.take(i as int) =~= sv);
    None
}

proof fn lemma_running_in_prefix(s: Seq<(Seq<char>, bool)>, id: Seq<char>, k: int)
    requires
        0 <= k <= s.len(),
        running_in(s.take(k), id) is Some,
    ensures
        running_in(s, id) == running_in(s.take(k), id),
    decreases s.len(),
{
    if k == s.len() {
        assert(s.take(k) =~= s);
    } else {
        assert(s.drop_last().take(k) =~= s.take(k));
        lemma_running_in_prefix(s.drop_last(), id, k);
    }
}

/// The changes between the previous scan and the new one (see `scan_diff`).
pub fn diff_scans(old: &[ProjectState], new: &[ProjectState]) -> (r: Vec<StateChange>)
    ensures
        r.deep_view() == scan_diff(scan_view(old@), scan_view(new@)),
{
    let ghost ov = scan_view(old@);
    let ghost nv = scan_view(new@);
    let mut out: Vec<StateChange> = Vec::new();
    let mut i: usize = 0;
    assert(out.deep_view() =~= added_changes(ov, nv, 0));
    while i < new.len()
        invariant
            ov == scan_view(old@),
            nv == scan_view(new@),
            i <= nv.len(),
            out.deep_view() == added_changes(ov, nv, i as int),
        decreases new.len() - i,
    {
        if running_of(old, new[i].id.as_str()).is_none() {
            let ghost before = out.deep_view();
            let c = StateChange::ProjectAdded { id: new[i].id.clone(), running: new[i].running };
            out.push(c);
            assert(out.deep_view() =~= before.push(ChangeV::ProjectAdded { id: nv[i as int].0, running: nv[i as int].1 }));
        }
        i += 1;
    }
    let ghost added = out.deep_view();
    let mut j: usize = 0;
    assert(out.deep_view() =~= added + removed_changes(ov, nv, 0));
    while j < old.len()
        invariant
            ov == scan_view(old@),
            nv == scan_view(new@),
            j <= ov.len(),
            out.deep_view() == added + removed_changes(ov, nv, j as int),
        decreases old.len() - j,
    {
        if running_of(new, old[j].id.as_str()).is_none() {
            let ghost before = out.deep_view();
            out.push(StateChange::ProjectRemoved { id: old[j].id.clone() });
            assert(out.deep_view() =~= before.push(ChangeV::ProjectRemoved { id: ov[j as int].0 }));
            assert(out.deep_view() =~= added + removed_changes(ov, nv, j + 1));
        } else {
            assert(out.deep_view() =~= added + removed_changes(ov, nv, j + 1));
        }
        j += 1;
    }
    let ghost added_removed = out.deep_view();
    let mut k: usize = 0;
    assert(out.deep_view() =~= added_removed + status_changes(ov, nv, 0));
    while k < new.len()
        invariant
            ov == scan_view(old@),
            nv == scan_view(new@),
            k <= nv.len(),
            out.deep_view() == added_removed + status_changes(ov, nv, k as int),
        decreases new.len() - k,
    {
        let now = new[k].running;
        let ghost before = out.deep_view();
        match running_of(old, new[k].id.as_str()) {
            Some(was) => {
                if !was && now {
                    out.push(StateChange::AutorunStarted { id: new[k].id.clone() });
                    assert(out.deep_view() =~= before.push(ChangeV::AutorunStarted { id: nv[k as int].0 }));
                } else if was && !now {
                    out.push(StateChange::AutorunStopped { id: new[k].id.clone() });
                    assert(out.deep_view() =~= before.push(ChangeV::AutorunStopped { id: nv[k as int].0 }));
                }
            },
            None => {},
        }
        assert(out.deep_view() =~= added_removed + status_changes(ov, nv, k + 1));
        k += 1;
    }
    out
}

/// The chat message announcing a change.
pub open spec fn change_text(c: ChangeV) -> Seq<char> {
    match c {
        ChangeV::ProjectAdded { id, running } => "📦 <b>New project discovered</b>\n<code>"@ + html_escaped(id)
            + "</code>"@ + if running {
            " (autorun active)"@
        } else {
            Seq::<char>::empty()
        },
        ChangeV::ProjectRemoved { id } => "🗑 <b>Project removed</b>\n<code>"@ + html_escaped(id) + "</code>"@,
        ChangeV::AutorunStarted { id } => "🟢 <b>Autorun started</b>\n<code>"@ + html_escaped(id) + "</code>"@,
        ChangeV::AutorunStopped { id } => "🔴 <b>Autorun stopped</b>\n<code>"@ + html_escaped(id) + "</code>"@,
    }
}

/// Format the message announcing a change.
pub fn format_change(c: &StateChange) -> (r: String)
    ensures
        r@ == change_text(c@),
{
    match c {
        StateChange::ProjectAdded { id, running } => {
            let head = "📦 <b>New project discovered</b>\n<code>".to_owned().concat(escape_html(id.as_str()).as_str()).concat(
                "</code>",
            );
            if *running {
                head.concat(" (autorun active)")
            } else {
                proof { assert(head@ + Seq::<char>::empty() =~= head@); }
                head
            }
        },
        StateChange::ProjectRemoved { id } => "🗑 <b>Project removed</b>\n<code>".to_owned().concat(
            escape_html(id.as_str()).as_str(),
        ).concat("</code>"),
        StateChange::AutorunStarted { id } => "🟢 <b>Autorun started</b>\n<code>".to_owned().concat(
            escape_html(id.as_str()).as_str(),
        ).concat("</code>"),
        StateChange::AutorunStopped { id } => "🔴 <b>Autorun stopped</b>\n<code>".to_owned().concat(
            escape_html(id.as_str()).as_str(),
        ).concat("</code>"),
    }
}

proof fn lemma_running_in_first(s: Seq<(Seq<char>, bool)>, i: int)
    requires
        0 <= i < s.len(),
        forall|a: int, b: int| 0 <= a < b < s.len() ==> s[a].0 != s[b].0,
    ensures
        running_in(s, s[i].0) == Some(s[i].1),
    decreases s.len(),
{
    let d = s.drop_last();
    if i < s.len() - 1 {
        assert(d[i] == s[i]);
        lemma_running_in_first(d, i);
    } else {
        assert(running_in(d, s[i].0) is None) by {
            lemma_running_in_absent(d, s[i].0);
        }
    }
}

proof fn lemma_running_in_absent(s: Seq<(Seq<char>, bool)>, id: Seq<char>)
    requires
        forall|a: int| 0 <= a < s.len() ==> s[a].0 != id,
    ensures
        running_in(s, id) is None,
    decreases s.len(),
{
    if s.len() > 0 {
        lemma_running_in_absent(s.drop_last(), id);
    }
}

/// A scan compared with itself shows no change, when it lists each project
/// once.
pub proof fn law_unchanged_scan_no_changes(s: Seq<(Seq<char>, bool)>)
    requires
        forall|a: int, b: int| 0 <= a < b < s.len() ==> s[a].0 != s[b].0,
    ensures
        scan_diff(s, s) == Seq::<ChangeV>::empty(),
{
    assert forall|n: int| 0 <= n <= s.len() implies added_changes(s, s, n) == Seq::<ChangeV>::empty()
        && removed_changes(s, s, n) == Seq::<ChangeV>::empty() && status_changes(s, s, n) == Seq::<ChangeV>::empty() by {
        lemma_no_changes_upto(s, n);
    }
    assert(scan_diff(s, s) =~= Seq::<ChangeV>::empty());
}

proof fn lemma_no_changes_upto(s: Seq<(Seq<char>, bool)>, n: int)
    requires
        0 <= n <= s.len(),
        forall|a: int, b: int| 0 <= a < b < s.len() ==> s[a].0 != s[b].0,
    ensures
        added_changes(s, s, n) == Seq::<ChangeV>::empty(),
        removed_changes(s, s, n) == Seq::<ChangeV>::empty(),
        status_changes(s, s, n) == Seq::<ChangeV>::empty(),
    decreases n,
{
    if n > 0 {
        lemma_no_changes_upto(s, n - 1);
        lemma_running_in_first(s, n - 1);
    }
}

/// A dashboard button `action:target` with a project as target does what
/// its action names for that project: `start` starts its autorun, `stop`
/// stops it, `status` shows its status, `chat` and `rc_reply` open a chat
/// prompt; `menu` shows the menu whatever the target; any other button,
/// or one with no target, does nothing.
pub proof fn law_buttons_act_on_their_project(action: Seq<char>, target: Seq<char>)
    requires
        forall|i: int| 0 <= i < action.len() ==> action[i] != ':',
    ensures
        ({
            let r = button_command(action + seq![':'] + target);
            &&& action == "menu"@ ==> r == ChatCommandV::ShowMenu
            &&& action != "menu"@ && target.len() == 0 ==> r == ChatCommandV::Ignore
            &&& target.len() > 0 ==> {
                &&& action == "start"@ ==> r == ChatCommandV::StartAutorun(target)
                &&& action == "stop"@ ==> r == ChatCommandV::StopAutorun(target)
                &&& action == "status"@ ==> r == ChatCommandV::Status(target)
                &&& (action == "chat"@ || action == "rc_reply"@) ==> r == ChatCommandV::StartChatPrompt(target)
                &&& (action != "menu"@ && action != "start"@ && action != "stop"@ && action != "status"@ && action
                    != "chat"@ && action != "rc_reply"@) ==> r == ChatCommandV::Ignore
            }
        }),
{
    reveal_strlit("menu");
    reveal_strlit("start");
    reveal_strlit("stop");
    reveal_strlit("status");
    reveal_strlit("chat");
    reveal_strlit("rc_reply");
    crate::triage::lemma_split_button(action, target);
    assert("stop"@[0] == 's' && "chat"@[0] == 'c' && "menu"@[0] == 'm');
    assert("stop"@ != "chat"@ && "stop"@ != "menu"@ && "chat"@ != "menu"@);
}

} // verus!
